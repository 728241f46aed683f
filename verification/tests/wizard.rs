use macprot2fans::config::{
    DefaultsConfig, DegradedConfig, FanSections, RawConfig, RawFanConfig, SensorAggregation,
    SpeedCurve,
};
use macprot2fans::fan::discovery::FanPath;
use macprot2fans::path::SysPath;
use macprot2fans::sensor::HwmonSensor;
use macprot2fans::wizard::prompt::ask_selection;
use macprot2fans::wizard::{
    format_nix, format_toml, prompt_line, prompt_select, run_wizard, Answer, Step, Wizard,
    INVALID_SELECTION,
};

fn fans(n: usize) -> Vec<FanPath> {
    (0..n)
        .map(|i| FanPath {
            name: format!("fan{i}"),
            base_path: SysPath::from_bytes(&b"/x".to_vec()),
        })
        .collect()
}

fn sensors(names: &[&str]) -> Vec<HwmonSensor<u32>> {
    names.iter().map(|n| HwmonSensor::new(n.to_string(), "d".to_string(), 0)).collect()
}

fn answer(wizard: &Wizard, line: &str) -> Answer {
    let line = format!("{line}\n");
    match wizard.step() {
        Step::Rate | Step::FanRate => {
            let default: f32 = wizard.rate_default().parse().unwrap();
            let parsed = prompt_line(&line, wizard.rate_default()).parse::<f32>().ok();
            let near = (parsed.unwrap_or(default) - default).abs() < 0.001;
            Answer { line, rate: parsed.map(|r| r.to_string()), near }
        }
        _ => Answer { line, rate: None, near: true },
    }
}

fn run(mut wizard: Wizard, lines: &[&str]) -> Wizard {
    for line in lines {
        let given = answer(&wizard, line);
        wizard = wizard.answer(given).0;
    }
    wizard
}

#[test]
fn lines_fall_back_to_the_default() {
    assert_eq!(prompt_line("\n", "55"), "55");
    assert_eq!(prompt_line("  \t", "55"), "55");
    assert_eq!(prompt_line(" 60 \n", "55"), "60");
    assert_eq!(prompt_select("\n", 3, 2), (2, false));
    assert_eq!(prompt_select(" 2\n", 3, 0), (1, false));
    assert_eq!(prompt_select("3", 3, 0), (2, false));
    assert_eq!(prompt_select("0", 3, 1), (1, true));
    assert_eq!(prompt_select("4", 3, 1), (1, true));
    assert_eq!(prompt_select("linear", 3, 1), (1, true));
}

#[test]
fn blank_answers_give_the_standard_configuration() {
    let mut wizard = run_wizard(&sensors(&["a"]), &fans(3));
    let mut asked = 0;
    while wizard.step() != Step::Done {
        let given = answer(&wizard, "");
        let (next, invalid) = wizard.answer(given);
        assert!(!invalid);
        wizard = next;
        asked += 1;
    }
    assert_eq!(asked, 8);
    let config = wizard.config();
    assert_eq!(format_toml(&config), format_toml(&RawConfig::default()));
    assert_eq!(format_nix(&config), format_nix(&RawConfig::default()));
}

#[test]
fn the_wizard_asks_no_more_than_it_can() {
    let mut wizard = run_wizard(&sensors(&["a"]), &fans(2));
    let mut asked = 0;
    while wizard.step() != Step::Done {
        let line = if wizard.step() == Step::Customize { "y" } else { "1" };
        let given = answer(&wizard, line);
        wizard = wizard.answer(given).0;
        asked += 1;
    }
    assert_eq!(asked, 5 + 7 * 2);
    assert_eq!(wizard.prompt(), "");
    let (done, invalid) = wizard.answer(Answer { line: "9".to_string(), rate: None, near: false });
    assert!(!invalid && done.step() == Step::Done);
}

#[test]
fn the_questions() {
    let wizard = run_wizard(&sensors(&["coretemp CPU0", "amdgpu GPU"]), &fans(1));
    assert_eq!(
        wizard.prompt(),
        "\n=== macprot2fans Configuration Wizard ===\n\nDiscovered 2 sensor(s), 1 fan(s).\n\n── Global Defaults ──\nLow temp (min RPM) [55]: "
    );
    let wizard = run(wizard, &["50"]);
    assert_eq!(wizard.prompt(), "High temp (max RPM) [75]: ");
    let wizard = run(wizard, &[""]);
    assert_eq!(
        wizard.prompt(),
        "Speed curve?\n  1) linear (default)\n  2) exponential\n  3) logarithmic\nSelection [1]: "
    );
    let wizard = run(wizard, &["2"]);
    assert_eq!(
        wizard.prompt(),
        "Sensor aggregation?\n  1) max (default)\n  2) average\n  3) min\nSelection [1]: "
    );
    let wizard = run(wizard, &["3"]);
    assert_eq!(wizard.prompt(), "Ramp down rate (°C/sec) [1.0]: ");
    let wizard = run(wizard, &["2.50"]);
    assert_eq!(wizard.prompt(), "\n── fan0 ──\nCustomize this fan? (y/n) [n]: ");
    let wizard = run(wizard, &["Y"]);
    assert_eq!(wizard.prompt(), "  Low temp override (Enter=inherit) [50]: ");
    let wizard = run(wizard, &[""]);
    assert_eq!(wizard.prompt(), "  High temp override (Enter=inherit) [75]: ");
    let wizard = run(wizard, &[""]);
    assert_eq!(
        wizard.prompt(),
        "  Speed curve?\n  1) linear\n  2) exponential (default)\n  3) logarithmic\nSelection [2]: "
    );
    let wizard = run(wizard, &[""]);
    assert_eq!(
        wizard.prompt(),
        "  Sensor aggregation?\n  1) max\n  2) average\n  3) min (default)\nSelection [3]: "
    );
    let wizard = run(wizard, &[""]);
    assert_eq!(wizard.prompt(), "  Ramp down rate (Enter=inherit) [2.5]: ");
    let wizard = run(wizard, &[""]);
    assert_eq!(
        wizard.prompt(),
        "  Available sensors:\n    1) coretemp CPU0\n    2) amdgpu GPU\n  Sensors (comma-separated numbers, or 'all') [all]: "
    );
    assert_eq!(run(wizard, &[""]).step(), Step::Done);
}

#[test]
fn answers_make_the_configuration() {
    let wizard = run_wizard(&sensors(&["a", "b", "c"]), &fans(3));
    let wizard = run(
        wizard,
        &[
            "50", "80", "3", "2", "0.5", "n", "y", "45", "80", "1", "2", "0.5004", " 3, 1,9,x,0 ",
            "y", "warm", "70", "", "3", "2", "all",
        ],
    );
    assert_eq!(wizard.step(), Step::Done);
    let config = wizard.config();
    assert_eq!(config.defaults.low_temp, 50);
    assert_eq!(config.defaults.high_temp, 80);
    assert_eq!(config.defaults.speed_curve, SpeedCurve::Logarithmic);
    assert_eq!(config.defaults.sensor_aggregation, SensorAggregation::Average);
    assert_eq!(config.defaults.ramp_down_rate, "0.5");
    assert!(!config.defaults.always_full_speed);
    assert_eq!(config.fan.len(), 2);
    assert!(config.fan.get("fan0").is_none());
    let one = config.fan.get("fan1").unwrap();
    assert_eq!(one.low_temp, Some(45));
    assert_eq!(one.high_temp, None);
    assert_eq!(one.speed_curve, Some(SpeedCurve::Linear));
    assert_eq!(one.sensor_aggregation, None);
    assert_eq!(one.ramp_down_rate, None);
    assert_eq!(one.sensors, Some(vec!["c".to_string(), "a".to_string()]));
    let two = config.fan.get("fan2").unwrap();
    assert_eq!(two.low_temp, None);
    assert_eq!(two.high_temp, Some(70));
    assert_eq!(two.speed_curve, None);
    assert_eq!(two.sensor_aggregation, Some(SensorAggregation::Min));
    assert_eq!(two.ramp_down_rate, Some("2".to_string()));
    assert_eq!(two.sensors, None);
    assert_eq!(config.degraded.expected_drivers, ["coretemp", "amdgpu"]);
}

#[test]
fn the_default_may_be_none_of_the_options() {
    let options = vec!["linear".to_string(), "exponential".to_string()];
    assert_eq!(
        ask_selection("Speed curve?", &options, 1),
        "Speed curve?\n  1) linear\n  2) exponential (default)\nSelection [2]: "
    );
    assert_eq!(
        ask_selection("Speed curve?", &options, 5),
        "Speed curve?\n  1) linear\n  2) exponential\nSelection [6]: "
    );
    assert_eq!(ask_selection("Which?", &Vec::new(), 0), "Which?\nSelection [1]: ");
}

#[test]
fn rates_are_those_given() {
    let lines = ["", "", "", "", "2", "y", "", "", "", "", "2.25", "", "y", "", "", "", "", "2", ""];
    let wizard = run(run_wizard(&sensors(&["a"]), &fans(2)), &lines);
    assert_eq!(wizard.step(), Step::Done);
    let config = wizard.config();
    assert_eq!(config.defaults.ramp_down_rate, "2");
    assert_eq!(config.fan.get("fan0").unwrap().ramp_down_rate.as_deref(), Some("2.25"));
    assert_eq!(config.fan.get("fan1").unwrap().ramp_down_rate, None);
    let wizard = run(run_wizard(&sensors(&[]), &fans(1)), &["", "", "", "", "3", "y", "", "", "", ""]);
    let far = Answer { line: "fast\n".to_string(), rate: None, near: false };
    let config = wizard.answer(far).0.config();
    assert_eq!(config.fan.get("fan0").unwrap().ramp_down_rate.as_deref(), Some("3"));
}

#[test]
fn answers_that_make_no_sense() {
    let wizard = run_wizard(&sensors(&["a"]), &fans(1));
    let wizard = run(wizard, &["300", "hot"]);
    let given = answer(&wizard, "4");
    let (wizard, invalid) = wizard.answer(given);
    assert!(invalid);
    assert_eq!(INVALID_SELECTION, "Invalid selection, using default.");
    let wizard = run(wizard, &["max", "slow", "yes"]);
    assert_eq!(wizard.step(), Step::Done);
    let config = wizard.config();
    assert_eq!(config.defaults.low_temp, 55);
    assert_eq!(config.defaults.high_temp, 75);
    assert_eq!(config.defaults.speed_curve, SpeedCurve::Linear);
    assert_eq!(config.defaults.ramp_down_rate, "1");
    assert_eq!(config.fan.len(), 0);
    let wizard = run(run_wizard(&sensors(&["a"]), &fans(1)), &["", "", "", "", "", "y", "", "", "", "", "", "2,x"]);
    assert_eq!(wizard.config().fan.get("fan0").unwrap().sensors, None);
}

#[test]
fn without_sensors_none_are_asked_for() {
    let wizard = run_wizard(&sensors(&[]), &fans(1));
    let wizard = run(wizard, &["", "", "", "", "", "y", "", "", "", "", ""]);
    assert_eq!(wizard.step(), Step::Done);
    assert_eq!(wizard.config().fan.len(), 1);
}

fn sample() -> RawConfig {
    let mut fan = FanSections::new();
    fan.insert(
        "fan1".to_string(),
        RawFanConfig {
            ramp_down_rate: Some("0.5".to_string()),
            sensor_aggregation: Some(SensorAggregation::Min),
            ..RawFanConfig::default()
        },
    );
    fan.insert(
        "fan0".to_string(),
        RawFanConfig {
            low_temp: Some(50),
            high_temp: Some(70),
            speed_curve: Some(SpeedCurve::Exponential),
            ramp_down_rate: Some("2".to_string()),
            sensors: Some(vec!["coretemp CPU0".to_string(), "coretemp CPU1".to_string()]),
            ..RawFanConfig::default()
        },
    );
    RawConfig { defaults: DefaultsConfig::default(), fan, degraded: DegradedConfig::default() }
}

#[test]
fn the_configuration_as_toml() {
    let text = format_toml(&sample());
    let expected = "# macprot2fans configuration file

[defaults]
low_temp = 55
high_temp = 75
speed_curve = \"linear\"
always_full_speed = false
sensor_aggregation = \"max\"
ramp_down_rate = 1

[fan.fan0]
low_temp = 50
high_temp = 70
speed_curve = \"exponential\"
ramp_down_rate = 2
sensors = [\"coretemp CPU0\", \"coretemp CPU1\"]

[fan.fan1]
sensor_aggregation = \"min\"
ramp_down_rate = 0.5

[degraded]
expected_drivers = [\"coretemp\", \"amdgpu\"]
initial_percent = 60
escalated_percent = 80
escalation_delay = 60
";
    assert_eq!(text, expected);
}

#[test]
fn the_toml_reads_back() {
    let table: toml::Table = toml::from_str(&format_toml(&sample())).unwrap();
    let fan0 = &table["fan"]["fan0"];
    assert_eq!(fan0["low_temp"].as_integer(), Some(50));
    assert_eq!(fan0["high_temp"].as_integer(), Some(70));
    assert_eq!(fan0["speed_curve"].as_str(), Some("exponential"));
    let named: Vec<&str> =
        fan0["sensors"].as_array().unwrap().iter().filter_map(|v| v.as_str()).collect();
    assert_eq!(named, ["coretemp CPU0", "coretemp CPU1"]);
    assert!(fan0.get("sensor_aggregation").is_none());
    assert_eq!(table["fan"]["fan1"]["ramp_down_rate"].as_float(), Some(0.5));
    assert_eq!(table["defaults"]["ramp_down_rate"].clone().try_into::<f32>(), Ok(1.0));
    assert_eq!(fan0["ramp_down_rate"].clone().try_into::<f32>(), Ok(2.0));
    assert_eq!(table["fan"].as_table().unwrap().len(), 2);
    assert_eq!(table["degraded"]["escalation_delay"].as_integer(), Some(60));
    assert_eq!(table["defaults"]["always_full_speed"].as_bool(), Some(false));
}

#[test]
fn the_configuration_for_nix() {
    let expected = "{
  services.macprot2fans = {
    enable = true;

    defaults = {
      low_temp = 55;
      high_temp = 75;
      speed_curve = \"linear\";
      always_full_speed = false;
      sensor_aggregation = \"max\";
      ramp_down_rate = 1.0;
    };

    fans = {
      fan0 = {
        low_temp = 50;
        high_temp = 70;
        speed_curve = \"exponential\";
        ramp_down_rate = 2.0;
        sensors = [
          \"coretemp CPU0\"
          \"coretemp CPU1\"
        ];
      };
      fan1 = {
        sensor_aggregation = \"min\";
        ramp_down_rate = 0.5;
      };
    };

    degraded = {
      expected_drivers = [
        \"coretemp\"
        \"amdgpu\"
      ];
      initial_percent = 60;
      escalated_percent = 80;
      escalation_delay = 60;
    };
  };
}
";
    assert_eq!(format_nix(&sample()), expected);
    assert!(!format_nix(&RawConfig::default()).contains("    fans = {"));
}

#[test]
fn the_headers_of_the_toml_sections() {
    let mut config = sample();
    config.fan.insert("fan10".to_string(), RawFanConfig::default());
    let text = format_toml(&config);
    let headers: Vec<&str> = text.split('\n').filter(|l| l.starts_with('[')).collect();
    assert_eq!(headers, ["[defaults]", "[fan.fan0]", "[fan.fan1]", "[fan.fan10]", "[degraded]"]);
    let plain = format_toml(&RawConfig::default());
    let headers: Vec<&str> = plain.split('\n').filter(|l| l.starts_with('[')).collect();
    assert_eq!(headers, ["[defaults]", "[degraded]"]);
}

#[test]
fn the_blocks_of_the_fans_for_nix() {
    let mut config = sample();
    config.fan.insert("fan10".to_string(), RawFanConfig::default());
    let text = format_nix(&config);
    let lines: Vec<&str> = text.split('\n').collect();
    assert_eq!(lines.iter().filter(|l| **l == "    fans = {").count(), 1);
    let heads: Vec<&str> = lines
        .iter()
        .copied()
        .filter(|l| l.starts_with("      ") && l.ends_with('{'))
        .collect();
    assert_eq!(heads, ["      fan0 = {", "      fan1 = {", "      fan10 = {"]);
    let count = |key: &str| lines.iter().filter(|l| l.starts_with(key)).count();
    assert_eq!(count("        low_temp = "), 1);
    assert_eq!(count("        high_temp = "), 1);
    assert_eq!(count("        speed_curve = "), 1);
    assert_eq!(count("        sensor_aggregation = "), 1);
    assert_eq!(count("        ramp_down_rate = "), 2);
    assert_eq!(count("        sensors = ["), 1);
}

#[test]
fn a_section_for_each_yes() {
    let wizard = run_wizard(&sensors(&[]), &fans(4));
    let inherit = ["", "", "", "", ""];
    let mut lines = vec!["", "", "", "", ""];
    for yes in [true, false, true, false] {
        lines.push(if yes { "y" } else { "no" });
        if yes {
            lines.extend(inherit);
        }
    }
    let config = run(wizard, &lines).config();
    assert_eq!(config.fan.len(), 2);
    assert!(config.fan.get("fan0").is_some() && config.fan.get("fan2").is_some());
    assert!(config.fan.get("fan0").unwrap().ramp_down_rate.is_none());
}
