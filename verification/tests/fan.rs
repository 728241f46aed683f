use macprot2fans::config::{ResolvedFanConfig, SensorAggregation, SpeedCurve};
use macprot2fans::error::Error;
use macprot2fans::fan::controller::{join_suffix, read_u32, ControlFiles, FanFile, SpeedTarget};
use macprot2fans::fan::discovery::{fan_glob, find_fan_paths, FanPath};
use macprot2fans::fan::FanController;
use macprot2fans::path::SysPath;
use macprot2fans::text::ParseIntError;

fn sys(s: &str) -> SysPath {
    SysPath::from_bytes(&s.as_bytes().to_vec())
}

fn shown(path: &SysPath) -> String {
    String::from_utf8(path.to_bytes()).unwrap()
}

fn config() -> ResolvedFanConfig {
    ResolvedFanConfig {
        low_temp: 50,
        high_temp: 70,
        speed_curve: SpeedCurve::Exponential,
        sensor_aggregation: SensorAggregation::Min,
        ramp_down_rate: "0.5".to_string(),
        sensor_indices: Some(vec![2, 0]),
    }
}

fn text(s: &str) -> Result<String, String> {
    Ok(s.to_string())
}

fn fan_with(min: &str, max: &str) -> FanController<u32> {
    let path = FanPath { name: "fan0".to_string(), base_path: sys("/x/fan1") };
    FanController::new(path, config(), text(min), text(max), Ok(3)).unwrap()
}

fn open_fan(min: &str, max: &str) -> FanController<u32> {
    let mut fan = fan_with(min, max);
    fan.open_control_files(ControlFiles::Opened { manual: 1, output: 2 }).unwrap();
    fan
}

fn written(fan: &FanController<u32>, speed: u32) -> String {
    fan.set_speed(speed).unwrap().1
}

#[test]
fn fans_are_found_in_the_order_of_their_paths() {
    let found = ["/d/fan2_input", "/d/fan10_input", "/d/fan1_input", "/d/fan2_input"];
    let fans = find_fan_paths(Ok(found.iter().map(|s| sys(s)).collect())).unwrap();
    let list: Vec<(String, String)> =
        fans.iter().map(|f| (f.name.clone(), shown(&f.base_path))).collect();
    assert_eq!(
        list,
        [
            ("fan0".to_string(), "/d/fan10".to_string()),
            ("fan1".to_string(), "/d/fan1".to_string()),
            ("fan2".to_string(), "/d/fan2".to_string()),
        ]
    );
}

#[test]
fn fans_keep_the_number_of_their_path() {
    let mut odd = b"/d/fan".to_vec();
    odd.push(0xff);
    odd.extend_from_slice(b"_input");
    let found = vec![sys("/d/a_output"), sys("/d/b_input"), SysPath::from_bytes(&odd)];
    let fans = find_fan_paths(Ok(found)).unwrap();
    assert_eq!(fans.len(), 1);
    assert_eq!(fans[0].name, "fan1");
    assert_eq!(shown(&fans[0].base_path), "/d/b");
}

#[test]
fn no_fans_are_an_error() {
    assert!(matches!(find_fan_paths(Ok(Vec::new())), Err(Error::NoFan)));
    assert!(matches!(find_fan_paths(Ok(vec![sys("/d/fan1_min")])), Err(Error::NoFan)));
    match find_fan_paths(Err("bad".to_string())) {
        Err(Error::Glob(e)) => assert_eq!(e, "bad"),
        _ => panic!(),
    }
    assert_eq!(fan_glob(), "/sys/devices/pci*/*/*/APP0001:00/fan*_input");
    assert!(glob::Pattern::new(fan_glob()).is_ok());
}

#[test]
fn files_of_a_fan() {
    let names: Vec<String> =
        [FanFile::Min, FanFile::Max, FanFile::Input, FanFile::Manual, FanFile::Output]
            .iter()
            .map(|f| shown(&join_suffix(&sys("/d/APP0001:00/fan1"), f.suffix())))
            .collect();
    assert_eq!(
        names,
        [
            "/d/APP0001:00/fan1_min",
            "/d/APP0001:00/fan1_max",
            "/d/APP0001:00/fan1_input",
            "/d/APP0001:00/fan1_manual",
            "/d/APP0001:00/fan1_output",
        ]
    );
}

#[test]
fn suffixes_may_be_any_text() {
    assert_eq!(shown(&join_suffix(&sys("/d/fan1"), "_größe")), "/d/fan1_größe");
    assert_eq!(shown(&join_suffix(&sys("/d/fan1"), "")), "/d/fan1");
    assert_eq!(shown(&join_suffix(&sys("/d/fan1"), "/x")), "/d/fan1/x");
    assert_eq!(shown(&join_suffix(&sys("/d/fan1"), "_a/./b//")), "/d/fan1_a/b");
}

#[test]
fn speeds_are_read_between_white_space() {
    assert_eq!(read_u32(text(" 1200\n")).ok(), Some(1200));
    assert!(matches!(
        read_u32(text("fast")),
        Err(Error::MinSpeedParse(ParseIntError::InvalidDigit))
    ));
    assert!(matches!(read_u32(text("\n")), Err(Error::MinSpeedParse(ParseIntError::Empty))));
    match read_u32(Err("gone".to_string())) {
        Err(Error::MinSpeedRead(e)) => assert_eq!(e, "gone"),
        _ => panic!(),
    }
    assert_eq!(fan_with("1", "2").read_rpm(text("893\n")).ok(), Some(893));
}

#[test]
fn a_fan_from_its_files() {
    let mut fan = fan_with("500\n", "2500\n");
    assert_eq!(fan.name(), "fan0");
    assert_eq!(shown(fan.base_path()), "/x/fan1");
    assert_eq!((fan.min_speed(), fan.max_speed()), (500, 2500));
    assert_eq!(fan.sensor_indices(), Some(&vec![2, 0]));
    assert_eq!(fan.sensor_aggregation(), SensorAggregation::Min);
    assert_eq!(fan.ramp_down_rate(), "0.5");
    *fan.input_file() += 4;
    assert_eq!(*fan.input_file(), 7);
}

#[test]
fn a_fan_whose_files_fail() {
    let path = || FanPath { name: "fan0".to_string(), base_path: sys("/x/fan1") };
    let bad = || Err("bad".to_string());
    assert!(matches!(
        FanController::<u32>::new(path(), config(), bad(), text("x"), Ok(3)),
        Err(Error::MinSpeedRead(_))
    ));
    assert!(matches!(
        FanController::<u32>::new(path(), config(), text("1"), text("x"), Err("bad".to_string())),
        Err(Error::MinSpeedParse(_))
    ));
    assert!(matches!(
        FanController::<u32>::new(path(), config(), text("1"), text("2"), Err("bad".to_string())),
        Err(Error::FanOpen(_))
    ));
}

#[test]
fn nothing_is_written_before_the_control_files_are_open() {
    let fan = fan_with("500", "2500");
    for refused in [
        fan.set_manual(true).map(|_| ()),
        fan.set_speed(900).map(|_| ()),
        fan.set_speed_percent(60).map(|_| ()),
    ] {
        match refused {
            Err(Error::FanWrite(e)) => assert_eq!(e, "control files not opened"),
            _ => panic!(),
        }
    }
}

#[test]
fn opening_the_control_files() {
    let mut fan = fan_with("500", "2500");
    assert!(matches!(
        fan.open_control_files(ControlFiles::ManualFailed("no".to_string())),
        Err(Error::FanOpen(_))
    ));
    assert!(fan.set_manual(true).is_err());
    assert!(matches!(
        fan.open_control_files(ControlFiles::OutputFailed { manual: 8, reason: "no".to_string() }),
        Err(Error::FanOpen(_))
    ));
    assert!(matches!(fan.set_manual(true), Ok((8, "1"))));
    assert!(fan.set_speed(900).is_err());
    assert!(fan.open_control_files(ControlFiles::Opened { manual: 1, output: 2 }).is_ok());
    assert!(matches!(fan.set_manual(true), Ok((1, "1"))));
    assert!(matches!(fan.set_manual(false), Ok((1, "0"))));
    assert!(matches!(fan.set_speed(900), Ok((2, _))));
}

#[test]
fn commands_stay_in_range() {
    let fan = open_fan("500", "2500");
    assert_eq!(written(&fan, 0), "500");
    assert_eq!(written(&fan, 499), "500");
    assert_eq!(written(&fan, 500), "500");
    assert_eq!(written(&fan, 2499), "2499");
    assert_eq!(written(&fan, 2500), "2760");
    assert_eq!(written(&fan, 9000), "2760");
    let mut last: u32 = 0;
    for speed in 0..3000u32 {
        let command: u32 = written(&fan, speed).parse().unwrap();
        assert!(command >= 500 && command >= last);
        assert_eq!(read_u32(Ok(written(&fan, speed))).ok(), Some(command));
        last = command;
    }
}

#[test]
fn percentages_span_the_range() {
    let fan = open_fan("500", "2500");
    let at = |percent: u8| fan.set_speed_percent(percent).unwrap().1;
    assert_eq!(at(0), "500");
    assert_eq!(at(1), "520");
    assert_eq!(at(60), "1700");
    assert_eq!(at(80), "2100");
    assert_eq!(at(100), "2760");
    assert_eq!(open_fan("501", "604").set_speed_percent(33).unwrap().1, "534");
}

#[test]
fn what_is_out_of_range_is_known() {
    let fan = open_fan("500", "4294967295");
    assert!(fan.speed_fits(4294967294));
    assert!(!fan.speed_fits(4294967295));
    assert!(!fan.percent_fits(60));
    assert!(fan.percent_fits(0));
    assert!(!open_fan("600", "500").percent_fits(1));
    assert!(open_fan("500", "2500").percent_fits(255));
    assert!(fan_with("500", "4294967295").speed_fits(4294967295));
    assert!(open_fan("600", "500").curve_fits(50));
    assert!(!open_fan("600", "500").curve_fits(51));
}

#[test]
fn a_hotter_sensor_never_asks_for_less() {
    let fan = open_fan("500", "2500");
    let part = |temp: u8| match fan.calc_speed(temp) {
        SpeedTarget::Fixed(500) => 0,
        SpeedTarget::Fixed(speed) => {
            assert_eq!(speed, 2500);
            20
        }
        SpeedTarget::Curve { curve, above, span, range } => {
            assert_eq!((curve, span, range), (SpeedCurve::Exponential, 20, 2000));
            assert!(0 < above && above < span);
            above
        }
    };
    for temp in 0..255 {
        assert!(part(temp) <= part(temp + 1));
    }
    assert_eq!((part(50), part(51), part(69), part(70)), (0, 1, 19, 20));
}

#[test]
fn temperatures_ask_for_speeds() {
    let fan = open_fan("500", "2500");
    assert_eq!(fan.calc_speed(0), SpeedTarget::Fixed(500));
    assert_eq!(fan.calc_speed(50), SpeedTarget::Fixed(500));
    assert_eq!(fan.calc_speed(70), SpeedTarget::Fixed(2500));
    assert_eq!(fan.calc_speed(255), SpeedTarget::Fixed(2500));
    assert_eq!(
        fan.calc_speed(60),
        SpeedTarget::Curve { curve: SpeedCurve::Exponential, above: 10, span: 20, range: 2000 }
    );
    assert_eq!(fan.curve_speed(250), 750);
}
