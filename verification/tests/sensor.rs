use macprot2fans::config::DegradedConfig;
use macprot2fans::path::SysPath;
use macprot2fans::sensor::discovery::{
    has_multiple_amdgpu, input_glob, input_label, is_known_driver, label_path, scan_for_drivers,
    scan_hwmon_devices, text_listed, uses_label, HwmonDevice, TempInput, HWMON_BASE,
};
use macprot2fans::sensor::registry::{SensorRegistry, NANOS_PER_SEC};
use macprot2fans::sensor::{HwmonSensor, SensorRead, SensorStatus};

fn sys(s: &str) -> SysPath {
    SysPath::from_bytes(&s.as_bytes().to_vec())
}

fn input(path: &str, label: Option<&str>, handle: Option<u32>) -> TempInput<u32> {
    TempInput { path: sys(path), label: label.map(|s| s.to_string()), handle }
}

fn device(path: &str, driver: &str, inputs: Vec<TempInput<u32>>) -> HwmonDevice<u32> {
    HwmonDevice { path: sys(path), driver: Some(format!("{driver}\n")), inputs }
}

fn texts(list: &[&str]) -> Vec<String> {
    list.iter().map(|s| s.to_string()).collect()
}

fn gpu(n: u32) -> HwmonDevice<u32> {
    let dir = format!("/h/hwmon{n}");
    device(&dir, "amdgpu", vec![input(&format!("{dir}/temp1_input"), Some("GPU\n"), Some(n))])
}

fn cpu() -> HwmonDevice<u32> {
    device(
        "/h/hwmon0",
        "coretemp",
        vec![
            input("/h/hwmon0/temp2_input", Some("CPU1\n"), Some(2)),
            input("/h/hwmon0/temp1_input", Some("CPU0\n"), Some(1)),
            input("/h/hwmon0/temp3_input", Some("CPU2\n"), None),
        ],
    )
}

fn names(sensors: &[HwmonSensor<u32>]) -> Vec<&str> {
    sensors.iter().map(|s| s.name()).collect()
}

fn says(read: SensorRead) -> SensorStatus {
    HwmonSensor::new("s".to_string(), "d".to_string(), 1u32).read_temp(read)
}

fn content(s: &str) -> SensorRead {
    SensorRead::Content(s.to_string())
}

fn degraded(drivers: &[&str], delay: u64) -> DegradedConfig {
    DegradedConfig {
        expected_drivers: texts(drivers),
        initial_percent: 60,
        escalated_percent: 80,
        escalation_delay: delay,
    }
}

#[test]
fn readings_are_whole_degrees() {
    for (text, degrees) in [
        ("45000\n", 45),
        ("45999", 45),
        ("0", 0),
        ("-500", 0),
        ("-45000\n", 0),
        ("+1000", 1),
        ("255999", 255),
        ("256000", 255),
        ("2147483647", 255),
        ("-2147483648", 0),
    ] {
        match says(content(text)) {
            SensorStatus::Active(t) => assert_eq!(t, degrees, "{text}"),
            other => panic!("{other:?}"),
        }
    }
}

#[test]
fn an_unchanged_file_reads_the_same() {
    for text in ["45999\n", "-5000", "300000", "x"] {
        assert_eq!(format!("{:?}", says(content(text))), format!("{:?}", says(content(text))));
    }
    assert!(matches!(says(content("-5000")), SensorStatus::Active(0)));
    assert!(matches!(says(content("300000")), SensorStatus::Active(255)));
}

#[test]
fn readings_that_fail() {
    assert!(matches!(
        says(SensorRead::ReadFailed("gone".to_string())),
        SensorStatus::Unavailable
    ));
    assert!(matches!(
        says(SensorRead::SeekFailed("gone".to_string())),
        SensorStatus::Unavailable
    ));
    for (text, reason) in [
        ("hot", "invalid digit found in string"),
        (" 45000", "invalid digit found in string"),
        ("", "cannot parse integer from empty string"),
        ("2147483648", "number too large to fit in target type"),
        ("-2147483649", "number too small to fit in target type"),
    ] {
        match says(content(text)) {
            SensorStatus::Error(e) => {
                assert_eq!(e, format!("Temperature sensor cannot be parsed: {reason}"))
            }
            other => panic!("{other:?}"),
        }
    }
}

#[test]
fn a_sensor_knows_its_name_driver_and_file() {
    let sensor = HwmonSensor::new("coretemp CPU0".to_string(), "coretemp".to_string(), 9u32);
    assert_eq!(sensor.name(), "coretemp CPU0");
    assert_eq!(sensor.driver(), "coretemp");
    assert_eq!(*sensor.temp_file(), 9);
}

#[test]
fn drivers_and_labels_that_are_used() {
    for driver in ["coretemp", "amdgpu", "applesmc", "nvme"] {
        assert!(is_known_driver(driver));
    }
    assert!(!is_known_driver("k10temp"));
    let keys = [
        "TC0P", "TC0D", "TG0P", "TG0D", "TG1P", "Tm0P", "Tm1P", "TH0A", "TH0B", "TB0T", "TB1T",
        "Tp0P", "TA0P",
    ];
    for key in keys {
        assert!(uses_label("applesmc", key));
    }
    assert!(!uses_label("applesmc", "TC1P"));
    assert!(uses_label("nvme", "Composite"));
    assert!(text_listed(&texts(&["a", "b"]), "b"));
    assert!(!text_listed(&texts(&["a", "b"]), "c"));
}

#[test]
fn labels_of_inputs() {
    assert_eq!(HWMON_BASE, "/sys/class/hwmon");
    assert_eq!(input_glob("/h/hwmon1"), "/h/hwmon1/temp*_input");
    assert!(glob::Pattern::new(&input_glob(HWMON_BASE)).unwrap().matches("/sys/class/hwmon/temp12_input"));
    let label = label_path(&sys("/h/temp1_input")).unwrap();
    assert_eq!(label.to_bytes(), b"/h/temp1_label");
    assert!(label_path(&sys("/h/temp1_max")).is_none());
    assert_eq!(input_label(&input("/h/temp1_input", Some(" GPU \n"), None)).as_deref(), Some("GPU"));
    assert_eq!(input_label(&input("/h/temp7_input", None, None)).as_deref(), Some("temp7"));
    assert_eq!(input_label(&input("/h/témp_input", None, None)).as_deref(), Some("témp"));
    assert_eq!(input_label(&input("/h/temp7_crit", Some("x"), None)), None);
    let mut odd = b"/h/temp".to_vec();
    odd.push(0xc3);
    odd.extend_from_slice(b"_input");
    let bad = TempInput { path: SysPath::from_bytes(&odd), label: None, handle: Some(1u32) };
    assert_eq!(input_label(&bad), None);
}

#[test]
fn sensors_are_named_by_driver_and_label() {
    let devices = vec![
        device(
            "/h/hwmon4",
            "nvme",
            vec![
                input("/h/hwmon4/temp2_input", Some("Sensor 1"), Some(5)),
                input("/h/hwmon4/temp1_input", Some("Composite"), Some(4)),
            ],
        ),
        device(
            "/h/hwmon3",
            "applesmc",
            vec![
                input("/h/hwmon3/temp1_input", Some("TC0P"), Some(6)),
                input("/h/hwmon3/temp2_input", Some("TXXX"), Some(7)),
            ],
        ),
        device("/h/hwmon2", "k10temp", vec![input("/h/hwmon2/temp1_input", Some("x"), Some(8))]),
        gpu(1),
        cpu(),
    ];
    let result = scan_hwmon_devices(&texts(&["coretemp", "k10temp", "zenpower"]), Ok(devices));
    assert_eq!(
        names(&result.sensors),
        ["coretemp CPU0", "coretemp CPU1", "amdgpu GPU", "applesmc TC0P", "nvme Composite", "nvme Sensor 1"]
    );
    assert_eq!(*result.sensors[0].temp_file(), 1);
    assert_eq!(result.missing_drivers, ["zenpower"]);
}

#[test]
fn several_gpus_are_numbered() {
    let devices = vec![gpu(10), gpu(2), cpu()];
    assert!(has_multiple_amdgpu(&devices));
    let result = scan_hwmon_devices(&texts(&["amdgpu"]), Ok(devices));
    assert_eq!(
        names(&result.sensors),
        ["coretemp CPU0", "coretemp CPU1", "amdgpu [0] GPU", "amdgpu [1] GPU"]
    );
    assert_eq!(*result.sensors[2].temp_file(), 10);
    assert!(result.missing_drivers.is_empty());
    assert!(!has_multiple_amdgpu(&vec![gpu(1), cpu()]));
}

#[test]
fn an_unreadable_hwmon_misses_every_driver() {
    let result =
        scan_hwmon_devices::<u32>(&texts(&["coretemp", "amdgpu"]), Err("denied".to_string()));
    assert!(result.sensors.is_empty());
    let mut missing = result.missing_drivers;
    missing.sort();
    assert_eq!(missing, ["amdgpu", "coretemp"]);
}

#[test]
fn a_later_search_finds_only_what_is_wanted() {
    let result = scan_for_drivers(&texts(&["amdgpu", "k10temp", "nvme"]), Ok(vec![gpu(1), cpu(), device("/h/hwmon2", "k10temp", vec![])]));
    assert_eq!(names(&result.sensors), ["amdgpu GPU"]);
    assert_eq!(result.missing_drivers, ["nvme"]);
    let failed = scan_for_drivers::<u32>(&texts(&["nvme"]), Err("denied".to_string()));
    assert!(failed.sensors.is_empty());
    assert_eq!(failed.missing_drivers, ["nvme"]);
}

#[test]
fn a_driver_without_sensors_is_not_missing() {
    let devices = || vec![cpu(), device("/h/hwmon1", "apple-t2-smc", vec![])];
    let expected = &["coretemp", "apple-t2-smc"];
    let first = scan_hwmon_devices(&texts(expected), Ok(devices()));
    assert_eq!(names(&first.sensors), ["coretemp CPU0", "coretemp CPU1"]);
    assert!(first.missing_drivers.is_empty());
    assert!(scan_for_drivers(&texts(expected), Ok(devices())).missing_drivers.is_empty());
    assert!(!SensorRegistry::new(degraded(expected, 60), Ok(devices()), 0).is_degraded());
}

#[test]
fn unchanged_hardware_stays_degraded() {
    let expected = &["coretemp", "amdgpu"];
    let mut registry = SensorRegistry::new(degraded(expected, 60), Ok(vec![cpu()]), 0);
    registry.retry_discovery(Ok(vec![cpu()]));
    assert!(registry.is_degraded());
    assert_eq!(registry.missing_drivers(), &texts(&["amdgpu"]));
    assert_eq!(registry.sensors().len(), 2);
}

#[test]
fn a_registry_with_every_driver() {
    let registry = SensorRegistry::new(degraded(&["coretemp"], 60), Ok(vec![cpu()]), 5);
    assert!(!registry.is_degraded());
    assert_eq!(registry.degraded_fan_percent(1_000 * NANOS_PER_SEC), 0);
    assert!(registry.missing_drivers().is_empty());
    let readings = registry.poll_all(vec![
        content("51000\n"),
        SensorRead::ReadFailed("x".to_string()),
    ]);
    assert_eq!(readings.len(), 2);
    assert_eq!(readings[0].0, "coretemp CPU0");
    assert!(matches!(readings[0].1, SensorStatus::Active(51)));
    assert_eq!(readings[1].0, "coretemp CPU1");
    assert!(matches!(readings[1].1, SensorStatus::Unavailable));
}

#[test]
fn degraded_mode_escalates() {
    let start = 7 * NANOS_PER_SEC + 5;
    let registry = SensorRegistry::new(degraded(&["amdgpu"], 60), Ok(vec![cpu()]), start);
    assert!(registry.is_degraded());
    assert_eq!(registry.degraded_fan_percent(start), 60);
    assert_eq!(registry.degraded_fan_percent(start + 60 * NANOS_PER_SEC - 1), 60);
    assert_eq!(registry.degraded_fan_percent(start + 60 * NANOS_PER_SEC), 80);
    assert_eq!(registry.degraded_fan_percent(start + 600 * NANOS_PER_SEC), 80);
    assert_eq!(registry.degraded_fan_percent(0), 60);
    let at_once = SensorRegistry::<u32>::new(degraded(&["amdgpu"], 0), Ok(vec![]), start);
    assert_eq!(at_once.degraded_fan_percent(start), 80);
}

#[test]
fn degraded_mode_ends_when_the_drivers_appear() {
    let mut registry =
        SensorRegistry::new(degraded(&["coretemp", "amdgpu", "nvme"], 60), Ok(vec![cpu()]), 0);
    registry.retry_discovery(Ok(vec![cpu(), gpu(1)]));
    assert!(registry.is_degraded());
    assert_eq!(registry.missing_drivers(), &vec!["nvme".to_string()]);
    assert_eq!(registry.degraded_fan_percent(61 * NANOS_PER_SEC), 80);
    registry.retry_discovery(Err("denied".to_string()));
    assert!(registry.is_degraded());
    let drive = device("/h/hwmon3", "nvme", vec![input("/h/hwmon3/temp1_input", None, Some(3))]);
    registry.retry_discovery(Ok(vec![cpu(), gpu(1), drive]));
    assert!(!registry.is_degraded());
    assert_eq!(
        names(registry.sensors()),
        ["coretemp CPU0", "coretemp CPU1", "amdgpu GPU", "nvme temp1"]
    );
    registry.retry_discovery(Ok(vec![cpu(), gpu(1), gpu(2)]));
    assert_eq!(registry.sensors().len(), 4);
}
