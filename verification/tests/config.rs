use macprot2fans::config::cli::Command;
use macprot2fans::config::resolve::config_warnings;
use macprot2fans::config::{
    config_path, generate_config_toml, load_config, parse_cli_args, resolve_config, CliArgs,
    ConfigPlan, DefaultsConfig, DegradedConfig, FanSections, RawConfig, RawFanConfig,
    SensorAggregation, SpeedCurve,
};
use macprot2fans::error::{Error, FileRead};
use macprot2fans::fan::discovery::FanPath;
use macprot2fans::path::SysPath;
use macprot2fans::sensor::HwmonSensor;
use macprot2fans::wizard::format_toml;

fn sensor(name: &str) -> HwmonSensor<u32> {
    HwmonSensor::new(name.to_string(), "coretemp".to_string(), 0)
}

fn fan(name: &str) -> FanPath {
    FanPath { name: name.to_string(), base_path: SysPath::from_bytes(&b"/sys/fan1".to_vec()) }
}

fn texts(list: &[&str]) -> Vec<String> {
    list.iter().map(|s| s.to_string()).collect()
}

fn cli(args: &[&str]) -> CliArgs {
    let mut all = vec!["macproT2fans".to_string()];
    all.extend(texts(args));
    parse_cli_args(&all)
}

#[test]
fn curves_have_names() {
    for curve in [SpeedCurve::Linear, SpeedCurve::Exponential, SpeedCurve::Logarithmic] {
        assert_eq!(SpeedCurve::parse(curve.name()), Ok(curve));
    }
    assert_eq!(SpeedCurve::default(), SpeedCurve::Linear);
    assert_eq!(SpeedCurve::Exponential.name(), "exponential");
    assert_eq!(
        SpeedCurve::parse("Linear"),
        Err("unknown speed_curve \"Linear\", expected \"linear\", \"exponential\", or \"logarithmic\"".to_string())
    );
}

#[test]
fn methods_have_names() {
    for method in [SensorAggregation::Max, SensorAggregation::Average, SensorAggregation::Min] {
        assert_eq!(SensorAggregation::parse(method.name()), Ok(method));
    }
    assert_eq!(SensorAggregation::default(), SensorAggregation::Max);
    assert_eq!(SensorAggregation::parse("min"), Ok(SensorAggregation::Min));
    assert_eq!(
        SensorAggregation::parse(""),
        Err("unknown sensor_aggregation \"\", expected \"max\", \"average\", or \"min\"".to_string())
    );
}

#[test]
fn the_standard_configuration() {
    let config = RawConfig::default();
    assert_eq!(config.defaults.low_temp, 55);
    assert_eq!(config.defaults.high_temp, 75);
    assert_eq!(config.defaults.speed_curve, SpeedCurve::Linear);
    assert!(!config.defaults.always_full_speed);
    assert_eq!(config.defaults.sensor_aggregation, SensorAggregation::Max);
    assert_eq!(config.defaults.ramp_down_rate.parse::<f32>(), Ok(1.0));
    assert_eq!(config.fan.len(), 0);
    assert_eq!(config.degraded.expected_drivers, texts(&["coretemp", "amdgpu"]));
    assert_eq!(config.degraded.initial_percent, 60);
    assert_eq!(config.degraded.escalated_percent, 80);
    assert_eq!(config.degraded.escalation_delay, 60);
    let copy = config.degraded.clone();
    assert_eq!(copy.expected_drivers, config.degraded.expected_drivers);
    assert_eq!(copy.escalation_delay, 60);
    let own = RawFanConfig::default();
    assert!(own.low_temp.is_none() && own.high_temp.is_none() && own.speed_curve.is_none());
    assert!(own.sensor_aggregation.is_none() && own.ramp_down_rate.is_none());
    assert!(own.sensors.is_none());
}

#[test]
fn sections_are_kept_in_order() {
    let mut sections = FanSections::new();
    for (name, low) in [("fan2", 1u8), ("fan10", 2), ("fan0", 3), ("fan2", 4)] {
        sections.insert(name.to_string(), RawFanConfig { low_temp: Some(low), ..RawFanConfig::default() });
    }
    assert_eq!(sections.len(), 3);
    let names: Vec<&str> = (0..3).map(|i| sections.name_at(i)).collect();
    assert_eq!(names, ["fan0", "fan10", "fan2"]);
    assert_eq!(sections.config_at(2).low_temp, Some(4));
    assert_eq!(sections.get("fan10").and_then(|c| c.low_temp), Some(2));
    assert!(sections.get("fan1").is_none());
}

#[test]
fn the_order_of_insertion_does_not_matter() {
    let mut a = FanSections::new();
    let mut b = FanSections::new();
    for name in ["x", "y", "z"] {
        a.insert(name.to_string(), RawFanConfig::default());
    }
    for name in ["z", "x", "y"] {
        b.insert(name.to_string(), RawFanConfig::default());
    }
    for i in 0..3 {
        assert_eq!(a.name_at(i), b.name_at(i));
    }
}

#[test]
fn where_the_configuration_is() {
    assert_eq!(config_path(None), "/etc/macprot2fans.toml");
    assert_eq!(config_path(Some("/path/to/config.toml")), "/path/to/config.toml");
}

#[test]
fn loading_a_configuration() {
    match load_config(FileRead::Content("[defaults]".to_string())) {
        Ok(ConfigPlan::Parse(text)) => assert_eq!(text, "[defaults]"),
        other => panic!("{other:?}"),
    }
    match load_config(FileRead::Missing) {
        Ok(ConfigPlan::Create { config, content }) => {
            assert_eq!(config.defaults.high_temp, 75);
            assert_eq!(content, generate_config_toml::<u32>(&Vec::new(), &Vec::new()));
        }
        other => panic!("{other:?}"),
    }
    match load_config(FileRead::Failed("denied".to_string())) {
        Err(Error::ConfigRead(e)) => assert_eq!(e, "denied"),
        other => panic!("{other:?}"),
    }
}

#[test]
fn switches_of_the_command_line() {
    let none = cli(&[]);
    assert!(none.config_path.is_none() && !none.status);
    assert_eq!(none.command(), Command::Daemon);
    assert_eq!(cli(&["--list-sensors"]).command(), Command::ListSensors);
    assert_eq!(cli(&["--list-fans"]).command(), Command::ListFans);
    assert_eq!(cli(&["--generate-config"]).command(), Command::GenerateConfig);
    assert_eq!(cli(&["--generate-nix"]).command(), Command::GenerateNix);
    assert_eq!(cli(&["--unknown", "list-fans"]).command(), Command::Daemon);
    assert!(cli(&["x", "--status"]).status);
    let both = cli(&["--generate-nix", "--list-fans"]);
    assert!(both.generate_nix && both.list_fans);
    assert_eq!(both.command(), Command::ListFans);
    assert_eq!(cli(&["--generate-nix", "--generate-config"]).command(), Command::GenerateConfig);
    assert!(parse_cli_args(&Vec::new()).config_path.is_none());
}

#[test]
fn config_takes_the_argument_behind_it() {
    assert_eq!(cli(&["--config", "a.toml"]).config_path.as_deref(), Some("a.toml"));
    assert_eq!(cli(&["--config"]).config_path, None);
    let swallowed = cli(&["--config", "--list-fans"]);
    assert_eq!(swallowed.config_path.as_deref(), Some("--list-fans"));
    assert!(!swallowed.list_fans);
    assert_eq!(cli(&["--config", "a", "--config", "b"]).config_path.as_deref(), Some("b"));
    assert_eq!(cli(&["--config", "a", "--config"]).config_path.as_deref(), Some("a"));
}

#[test]
fn switches_count_where_they_are_read() {
    let args = ["--config", "--list-fans", "x", "--status", "--config", "--config", "--generate-nix"];
    let read = cli(&args);
    assert_eq!(read.config_path.as_deref(), Some("--config"));
    assert!(read.status && read.generate_nix && !read.list_fans);
    let late = cli(&["--config", "a", "--list-sensors", "--config"]);
    assert_eq!(late.config_path.as_deref(), Some("a"));
    assert!(late.list_sensors && !late.generate_config);
}

fn contents(text: &str) -> Vec<&str> {
    text.split('\n')
        .map(|line| line.split('#').next().unwrap().trim_end())
        .filter(|line| !line.is_empty())
        .collect()
}

#[test]
fn the_template_says_the_standard_values() {
    let mut config = RawConfig::default();
    config.defaults.ramp_down_rate = "1.0".to_string();
    let text = generate_config_toml::<u32>(&Vec::new(), &Vec::new());
    assert_eq!(contents(&text), contents(&format_toml(&config)));
    assert_eq!(contents(&text).len(), 12);
    config.fan.insert("fan0".to_string(), RawFanConfig::default());
    config.fan.insert("fan1".to_string(), RawFanConfig::default());
    let text = generate_config_toml(&vec![sensor("coretemp CPU0")], &vec![fan("fan0"), fan("fan1")]);
    assert_eq!(contents(&text), contents(&format_toml(&config)));
}

#[test]
fn the_template_without_hardware() {
    let text = generate_config_toml::<u32>(&Vec::new(), &Vec::new());
    let expected = "# macprot2fans configuration file
# See --generate-config for a template with discovered hardware

[defaults]
low_temp = 55
high_temp = 75
speed_curve = \"linear\"  # \"linear\", \"exponential\", or \"logarithmic\"
always_full_speed = false
sensor_aggregation = \"max\"  # \"max\", \"average\", or \"min\"
ramp_down_rate = 1.0  # °C/sec gradual fan ramp-down rate

# [fan.fan0]
# low_temp = 55       # override defaults for this fan
# high_temp = 75
# speed_curve = \"linear\"
# always_full_speed = false
# sensor_aggregation = \"max\"
# ramp_down_rate = 1.0
# sensors = []        # list sensor names; omit to use max(all sensors)

[degraded]
expected_drivers = [\"coretemp\", \"amdgpu\"]
initial_percent = 60
escalated_percent = 80
escalation_delay = 60  # seconds before escalation
";
    assert_eq!(text, expected);
    let table: toml::Table = toml::from_str(&text).unwrap();
    let standard = RawConfig::default();
    let defaults = &table["defaults"];
    assert_eq!(defaults["low_temp"].as_integer(), Some(i64::from(standard.defaults.low_temp)));
    assert_eq!(defaults["high_temp"].as_integer(), Some(i64::from(standard.defaults.high_temp)));
    assert_eq!(defaults["speed_curve"].as_str(), Some(standard.defaults.speed_curve.name()));
    assert_eq!(defaults["ramp_down_rate"].as_float(), Some(1.0));
    let drivers: Vec<&str> =
        table["degraded"]["expected_drivers"].as_array().unwrap().iter().filter_map(|v| v.as_str()).collect();
    assert_eq!(drivers, standard.degraded.expected_drivers);
}

#[test]
fn the_template_with_hardware() {
    let text = generate_config_toml(
        &vec![sensor("coretemp CPU0"), sensor("nvme Composite")],
        &vec![fan("fan0"), fan("fan1")],
    );
    assert!(text.contains("# Available sensors:\n#   \"coretemp CPU0\"\n#   \"nvme Composite\"\n\n[fan.fan0]\n# low_temp = 55\n"));
    assert!(text.contains("# sensors = []\n\n[fan.fan1]\n"));
    assert!(!text.contains("# [fan.fan0]"));
    let table: toml::Table = toml::from_str(&text).unwrap();
    assert_eq!(table["fan"].as_table().unwrap().len(), 2);
}

fn config_with(name: &str, own: RawFanConfig) -> RawConfig {
    let mut config = RawConfig::default();
    config.fan.insert(name.to_string(), own);
    config
}

#[test]
fn a_fan_without_a_section_gets_the_defaults() {
    let config = RawConfig {
        defaults: DefaultsConfig {
            low_temp: 40,
            sensor_aggregation: SensorAggregation::Average,
            ramp_down_rate: "2.5".to_string(),
            ..DefaultsConfig::default()
        },
        fan: FanSections::new(),
        degraded: DegradedConfig::default(),
    };
    let resolved = resolve_config(&config, &vec![fan("fan0"), fan("fan1")], &vec![sensor("s")]);
    assert_eq!(resolved.len(), 2);
    assert_eq!(resolved[1].low_temp, 40);
    assert_eq!(resolved[1].high_temp, 75);
    assert_eq!(resolved[1].sensor_aggregation, SensorAggregation::Average);
    assert_eq!(resolved[1].ramp_down_rate, "2.5");
    assert_eq!(resolved[1].sensor_indices, None);
    assert_eq!(resolved[0].clone().low_temp, 40);
}

#[test]
fn a_section_overrides_the_defaults() {
    let own = RawFanConfig {
        low_temp: Some(50),
        high_temp: Some(70),
        speed_curve: Some(SpeedCurve::Exponential),
        sensors: Some(texts(&["coretemp CPU1", "gone", "coretemp CPU0", "coretemp CPU1"])),
        ..RawFanConfig::default()
    };
    let sensors = vec![sensor("coretemp CPU0"), sensor("coretemp CPU1"), sensor("coretemp CPU1")];
    let config = config_with("fan0", own);
    let resolved = resolve_config(&config, &vec![fan("fan0"), fan("fan1")], &sensors);
    assert_eq!(resolved[0].low_temp, 50);
    assert_eq!(resolved[0].high_temp, 70);
    assert_eq!(resolved[0].speed_curve, SpeedCurve::Exponential);
    assert_eq!(resolved[0].sensor_aggregation, SensorAggregation::Max);
    assert_eq!(resolved[0].ramp_down_rate, "1");
    assert_eq!(resolved[0].sensor_indices, Some(vec![1, 0, 1]));
    assert_eq!(resolved[1].low_temp, 55);
}

#[test]
fn later_sensors_do_not_move_the_positions() {
    let own = RawFanConfig { sensors: Some(texts(&["b"])), ..RawFanConfig::default() };
    let config = config_with("fan0", own);
    let early = resolve_config(&config, &vec![fan("fan0")], &vec![sensor("a"), sensor("b")]);
    let late = resolve_config(
        &config,
        &vec![fan("fan0")],
        &vec![sensor("a"), sensor("b"), sensor("b"), sensor("c")],
    );
    assert_eq!(early[0].sensor_indices, Some(vec![1]));
    assert_eq!(late[0].sensor_indices, early[0].sensor_indices);
}

#[test]
fn discovered_names_are_followed_in_their_order() {
    let own = RawFanConfig { sensors: Some(texts(&["c", "a", "b"])), ..RawFanConfig::default() };
    let sensors = vec![sensor("a"), sensor("b"), sensor("c")];
    let resolved = resolve_config(&config_with("fan0", own), &vec![fan("fan0")], &sensors);
    let indices = resolved[0].sensor_indices.clone().unwrap();
    let followed: Vec<&str> = indices.iter().map(|i| sensors[*i].name()).collect();
    assert_eq!(followed, ["c", "a", "b"]);
}

#[test]
fn what_is_not_there_is_warned_of() {
    let own = RawFanConfig { sensors: Some(texts(&["a", "gone"])), ..RawFanConfig::default() };
    let mut config = config_with("fan0", own);
    config.fan.insert("fan7".to_string(), RawFanConfig::default());
    let warnings = config_warnings(&config, &vec![fan("fan0")], &vec![sensor("a")]);
    assert_eq!(
        warnings,
        [
            "Warning: config has [fan.fan7] but no such fan was discovered",
            "Warning: sensor \"gone\" in config not found in discovered sensors",
        ]
    );
    assert!(config_warnings(&RawConfig::default(), &vec![fan("fan0")], &vec![sensor("a")]).is_empty());
}
