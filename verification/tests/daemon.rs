use macprot2fans::config::{DegradedConfig, SensorAggregation, SpeedCurve};
use macprot2fans::daemon::cycle::{
    demanded_percent, Action, Event, TempLoop, BUSY_PAUSE, IDLE_PAUSE, RETRY_INTERVAL,
    STATUS_INTERVAL,
};
use macprot2fans::daemon::lifecycle::{Daemon, Stage, StageEvent};
use macprot2fans::daemon::listing::{
    fan_table, listed_fans, listing_config, report_line, rpm_text, sensor_table, status_text, FanRow,
};
use macprot2fans::daemon::temps::{fan_temperature, BUFFER_LEN};
use macprot2fans::daemon::{aggregate_temps, TempBuffer};
use macprot2fans::error::{Error, FileRead};
use macprot2fans::sensor::registry::{SensorRegistry, NANOS_PER_SEC};
use macprot2fans::sensor::SensorStatus;

const METHODS: [SensorAggregation; 3] =
    [SensorAggregation::Min, SensorAggregation::Average, SensorAggregation::Max];

fn samples(buffer: &TempBuffer<u32>) -> Vec<u32> {
    buffer.samples().iter().copied().collect()
}

#[test]
fn temperatures_are_aggregated() {
    let temps = vec![40, 55, 70, 41];
    let got: Vec<Option<u8>> = METHODS.iter().map(|m| aggregate_temps(&temps, *m)).collect();
    assert_eq!(got, [Some(40), Some(51), Some(70)]);
    for method in METHODS {
        assert_eq!(aggregate_temps(&Vec::new(), method), None);
        assert_eq!(aggregate_temps(&vec![33], method), Some(33));
        assert_eq!(aggregate_temps(&vec![255; 1000], method), Some(255));
    }
    assert_eq!(aggregate_temps(&vec![0, 1], SensorAggregation::Average), Some(0));
}

#[test]
fn a_buffer_keeps_the_latest_samples() {
    let mut buffer: TempBuffer<u32> = TempBuffer::new();
    assert!(samples(&buffer).is_empty());
    for i in 0..40 {
        buffer.push(i);
        let from = (i + 1).saturating_sub(BUFFER_LEN as u32);
        assert_eq!(samples(&buffer), (from..=i).collect::<Vec<u32>>());
    }
    assert_eq!(samples(&buffer).len(), 16);
}

#[test]
fn fans_follow_their_sensors() {
    let readings = vec![
        ("a", SensorStatus::Active(40)),
        ("b", SensorStatus::Unavailable),
        ("c", SensorStatus::Active(60)),
        ("d", SensorStatus::Error("x".to_string())),
        ("e", SensorStatus::Active(50)),
    ];
    let max = SensorAggregation::Max;
    assert_eq!(fan_temperature(&readings, None, max), 60);
    assert_eq!(fan_temperature(&readings, Some(&vec![]), SensorAggregation::Average), 50);
    assert_eq!(fan_temperature(&readings, Some(&vec![0, 4, 9]), max), 50);
    assert_eq!(fan_temperature(&readings, Some(&vec![0, 4, 0]), SensorAggregation::Average), 43);
    assert_eq!(fan_temperature(&readings, Some(&vec![1, 3]), max), 0);
    assert_eq!(fan_temperature(&Vec::new(), None, SensorAggregation::Min), 0);
}

#[test]
fn every_followed_sensor_counts() {
    let temps = [40, 60, 50, 70];
    let readings: Vec<(&str, SensorStatus)> =
        temps.iter().map(|t| ("s", SensorStatus::Active(*t))).collect();
    for indices in [vec![0], vec![2, 0], vec![1, 2, 1], vec![3, 0, 7]] {
        let hot = fan_temperature(&readings, Some(&indices), SensorAggregation::Max);
        let cold = fan_temperature(&readings, Some(&indices), SensorAggregation::Min);
        let followed: Vec<u8> = indices.iter().filter_map(|i| temps.get(*i).copied()).collect();
        assert_eq!(Some(hot), followed.iter().copied().max());
        assert_eq!(Some(cold), followed.iter().copied().min());
    }
}

#[test]
fn degraded_mode_demands_a_percentage() {
    let config = DegradedConfig {
        expected_drivers: vec!["amdgpu".to_string()],
        initial_percent: 60,
        escalated_percent: 80,
        escalation_delay: 10,
    };
    let registry = SensorRegistry::<u32>::new(config, Ok(Vec::new()), 0);
    assert_eq!(demanded_percent(&registry, NANOS_PER_SEC), Some(60));
    assert_eq!(demanded_percent(&registry, 10 * NANOS_PER_SEC), Some(80));
    let none = DegradedConfig { expected_drivers: Vec::new(), ..DegradedConfig::default() };
    let registry = SensorRegistry::<u32>::new(none, Ok(Vec::new()), 0);
    assert_eq!(demanded_percent(&registry, NANOS_PER_SEC), None);
}

fn go_on() -> Event<u32> {
    Event::Checked { cancelled: false, percent: None }
}

#[test]
fn a_round_sees_to_every_fan() {
    let mut state: TempLoop<u32> = TempLoop::new(2, 1_000);
    assert!(matches!(state.action(), Action::Check));
    state = state.step(go_on(), 1_500);
    assert!(matches!(state.action(), Action::Poll { elapsed: 500 }));
    state = state.step(Event::Polled, 1_600);
    assert!(matches!(state.action(), Action::Sample { fan: 0, elapsed: 500 }));
    state = state.step(Event::Sampled(41), 1_700);
    assert!(matches!(state.action(), Action::Decide { fan: 0, elapsed: 500 }));
    assert_eq!(samples(state.buffer(0)), [41]);
    assert!(samples(state.buffer(1)).is_empty());
    state = state.step(Event::Decided(900), 1_800);
    assert!(matches!(state.action(), Action::SetSpeed { fan: 0, speed: 900, .. }));
    state = state.step(Event::Written(Ok(())), 1_900);
    assert!(matches!(state.action(), Action::Sample { fan: 1, elapsed: 500 }));
    state = state.step(Event::Sampled(42), 2_000);
    state = state.step(Event::Decided(0), 2_100);
    assert!(matches!(state.action(), Action::Pause { millis: BUSY_PAUSE }));
    assert_eq!(samples(state.buffer(1)), [42]);
    state = state.step(Event::Paused, 2_500);
    assert!(matches!(state.action(), Action::Check));
    state = state.step(go_on(), 2_600);
    assert!(matches!(state.action(), Action::Poll { elapsed: 1_100 }));
    state = state.step(Event::Polled, 2_600);
    for _ in 0..2 {
        state = state.step(Event::Sampled(40), 2_600);
        let speed = if matches!(state.action(), Action::Decide { fan: 0, .. }) { 900 } else { 0 };
        state = state.step(Event::Decided(speed), 2_600);
    }
    assert!(matches!(state.action(), Action::Pause { millis: IDLE_PAUSE }));
    assert_eq!(samples(state.buffer(0)), [41, 40]);
    assert!(state.result().is_none());
}

#[test]
fn reports_come_after_their_interval() {
    let mut state: TempLoop<u32> = TempLoop::new(0, 0);
    state = state.step(go_on(), 1).step(Event::Polled, STATUS_INTERVAL - 1);
    assert!(matches!(state.action(), Action::Pause { .. }));
    state = state.step(Event::Paused, 1).step(go_on(), 1).step(Event::Polled, STATUS_INTERVAL);
    assert!(matches!(state.action(), Action::Report));
    state = state.step(Event::Reported, STATUS_INTERVAL + 5);
    assert!(matches!(state.action(), Action::Pause { millis: IDLE_PAUSE }));
    state = state.step(Event::Paused, 1).step(go_on(), 1);
    state = state.step(Event::Polled, 2 * STATUS_INTERVAL - 1);
    assert!(matches!(state.action(), Action::Pause { .. }));
}

#[test]
fn degraded_rounds() {
    let degraded = || Event::<u32>::Checked { cancelled: false, percent: Some(60) };
    let mut state: TempLoop<u32> = TempLoop::new(2, 0);
    state = state.step(degraded(), 5);
    assert!(matches!(state.action(), Action::SetPercent { fan: 0, percent: 60 }));
    state = state.step(Event::Written(Ok(())), 5);
    assert!(matches!(state.action(), Action::SetPercent { fan: 1, percent: 60 }));
    state = state.step(Event::Written(Ok(())), RETRY_INTERVAL - 1);
    assert!(matches!(state.action(), Action::Rest));
    state = state.step(Event::Rested, 2 * RETRY_INTERVAL);
    assert!(matches!(state.action(), Action::Check));
    state = state.step(degraded(), 2 * RETRY_INTERVAL);
    state = state.step(Event::Written(Ok(())), 2 * RETRY_INTERVAL);
    state = state.step(Event::Written(Ok(())), 2 * RETRY_INTERVAL);
    assert!(matches!(state.action(), Action::Search));
    state = state.step(Event::Searched, 2 * RETRY_INTERVAL + 7);
    assert!(matches!(state.action(), Action::Rest));
    state = state.step(Event::Rested, 3 * RETRY_INTERVAL);
    state = state.step(go_on(), 3 * RETRY_INTERVAL + 9);
    assert!(matches!(state.action(), Action::Poll { elapsed: 9 }));
}

#[test]
fn the_loop_ends() {
    let state: TempLoop<u32> = TempLoop::new(1, 0);
    let ended = state.step(Event::Checked { cancelled: true, percent: Some(60) }, 1);
    assert!(matches!(ended.action(), Action::Stop(Ok(()))));
    let ended = ended.step(go_on(), 2);
    assert!(matches!(ended.result(), Some(Ok(()))));

    let failed = || Event::<u32>::Written(Err(Error::FanWrite("full".to_string())));
    let state: TempLoop<u32> = TempLoop::new(1, 0);
    let ended = state.step(Event::Checked { cancelled: false, percent: Some(60) }, 1).step(failed(), 1);
    assert!(matches!(ended.result(), Some(Err(Error::FanWrite(_)))));
    let state: TempLoop<u32> = TempLoop::new(1, 0);
    let state = state.step(go_on(), 1).step(Event::Polled, 1).step(Event::Sampled(1), 1);
    let ended = state.step(Event::Decided(900), 1).step(failed(), 1);
    assert!(matches!(ended.result(), Some(Err(Error::FanWrite(_)))));
}

#[test]
fn events_out_of_place_change_nothing() {
    let state: TempLoop<u32> = TempLoop::new(1, 0);
    let state = state.step(Event::Polled, 1).step(Event::Decided(7), 2).step(Event::Rested, 3);
    assert!(matches!(state.action(), Action::Check));
    let state = state.step(go_on(), 4);
    assert!(matches!(state.action(), Action::Poll { elapsed: 4 }));
}

fn daemon_after(events: Vec<StageEvent>) -> Daemon {
    let mut daemon = Daemon::new();
    for event in events {
        daemon = daemon.step(event);
    }
    daemon
}

fn started(fans: usize) -> Vec<StageEvent> {
    let mut events = vec![
        StageEvent::Euid(0),
        StageEvent::PidFile(FileRead::Missing),
        StageEvent::PidWritten(Ok(())),
        StageEvent::Prepared(Ok(fans)),
    ];
    for _ in 0..fans {
        events.push(StageEvent::Opened(Ok(())));
    }
    for _ in 0..fans {
        events.push(StageEvent::TakenOver(Ok(())));
    }
    events
}

#[test]
fn only_root_may_run_the_daemon() {
    let daemon = daemon_after(vec![StageEvent::Euid(1000), StageEvent::Euid(0)]);
    assert!(matches!(daemon.result(), Some(Err(Error::NotRoot))));
}

#[test]
fn the_pid_file_is_looked_at_first() {
    let daemon = daemon_after(vec![
        StageEvent::Euid(0),
        StageEvent::PidFile(FileRead::Content(" 4711\n".to_string())),
    ]);
    assert!(matches!(daemon.stage(), Stage::FindProcess));
    assert_eq!(daemon.process(), "/proc/4711");
    let daemon = daemon.step(StageEvent::Process { exists: false });
    assert!(matches!(daemon.stage(), Stage::WritePid));
    let second = daemon_after(vec![
        StageEvent::Euid(0),
        StageEvent::PidFile(FileRead::Content("1".to_string())),
        StageEvent::Process { exists: true },
        StageEvent::PidWritten(Ok(())),
    ]);
    assert!(matches!(second.result(), Some(Err(Error::AlreadyRunning))));
    let unreadable =
        daemon_after(vec![StageEvent::Euid(0), StageEvent::PidFile(FileRead::Failed("x".to_string()))]);
    assert!(matches!(unreadable.result(), Some(Err(Error::PidRead(_)))));
    let unwritable = daemon_after(vec![
        StageEvent::Euid(0),
        StageEvent::PidFile(FileRead::Missing),
        StageEvent::PidWritten(Err("x".to_string())),
    ]);
    assert!(matches!(unwritable.result(), Some(Err(Error::PidWrite(_)))));
}

#[test]
fn a_start_that_fails_ends_at_once() {
    let mut events = started(0);
    events.truncate(3);
    events.push(StageEvent::Prepared(Err(Error::NoFan)));
    assert!(matches!(daemon_after(events).result(), Some(Err(Error::NoFan))));
    let mut events = started(2);
    events.truncate(5);
    events.push(StageEvent::Opened(Err(Error::FanOpen("x".to_string()))));
    assert!(matches!(daemon_after(events).result(), Some(Err(Error::FanOpen(_)))));
    let mut events = started(2);
    events.truncate(6);
    events.push(StageEvent::TakenOver(Err(Error::FanWrite("x".to_string()))));
    assert!(matches!(daemon_after(events).result(), Some(Err(Error::FanWrite(_)))));
}

#[test]
fn a_fan_that_refuses_has_the_others_given_back() {
    let mut events = started(3);
    events.truncate(9);
    let mut daemon = daemon_after(events);
    assert!(matches!(daemon.stage(), Stage::TakeOver { fan: 2 }));
    daemon = daemon.step(StageEvent::TakenOver(Err(Error::FanWrite("x".to_string()))));
    assert!(matches!(daemon.stage(), Stage::GiveBack { fan: 0 }));
    daemon = daemon.step(StageEvent::Released(Err(Error::FanWrite("y".to_string()))));
    assert!(matches!(daemon.stage(), Stage::GiveBack { fan: 1 }));
    daemon = daemon.step(StageEvent::Released(Ok(())));
    match daemon.result() {
        Some(Err(Error::FanWrite(e))) => assert_eq!(e, "x"),
        other => panic!("{other:?}"),
    }
}

#[test]
fn a_shutdown_gives_every_fan_back() {
    let mut daemon = daemon_after(started(2));
    assert!(matches!(daemon.stage(), Stage::Run));
    daemon = daemon.step(StageEvent::LoopEnded(Ok(())));
    assert!(matches!(daemon.stage(), Stage::Release { fan: 0 }));
    daemon = daemon.step(StageEvent::Released(Err(Error::FanWrite("x".to_string()))));
    assert!(matches!(daemon.stage(), Stage::Release { fan: 1 }));
    daemon = daemon.step(StageEvent::Released(Ok(())));
    assert!(matches!(daemon.stage(), Stage::RemovePid));
    daemon = daemon.step(StageEvent::PidRemoved(Ok(())));
    assert!(matches!(daemon.result(), Some(Ok(()))));
}

#[test]
fn the_first_error_is_the_one_that_counts() {
    let end = |looped: Result<(), Error>, removed: Result<(), String>| {
        let mut events = started(1);
        events.push(StageEvent::LoopEnded(looped));
        events.push(StageEvent::Released(Ok(())));
        events.push(StageEvent::PidRemoved(removed));
        daemon_after(events).result()
    };
    let failed = || Err(Error::FanWrite("x".to_string()));
    assert!(matches!(end(failed(), Ok(())), Some(Err(Error::FanWrite(_)))));
    assert!(matches!(end(failed(), Err("y".to_string())), Some(Err(Error::FanWrite(_)))));
    assert!(matches!(end(Ok(()), Err("y".to_string())), Some(Err(Error::PidDelete(_)))));
}

#[test]
fn the_list_of_sensors() {
    assert_eq!(sensor_table(&Vec::new()), "No sensors found.\n");
    let readings = vec![
        ("coretemp CPU0", SensorStatus::Active(45)),
        ("nvme Composite", SensorStatus::Unavailable),
        ("x", SensorStatus::Error("bad".to_string())),
    ];
    let mut expected = format!("{:<30} {:>8}\n", "SENSOR", "TEMP");
    expected.push_str(&format!("{:-<30} {:->8}\n", "", ""));
    expected.push_str(&format!("{:<30} {:>8}\n", "coretemp CPU0", "45°C"));
    expected.push_str(&format!("{:<30} {:>8}\n", "nvme Composite", "N/A"));
    expected.push_str(&format!("{:<30} {:>8}\n", "x", "ERR: bad"));
    assert_eq!(sensor_table(&readings), expected);
    assert_eq!(status_text(&SensorStatus::Active(0)), "0°C");
}

#[test]
fn the_list_of_fans() {
    assert!(fan_table(&Vec::new()).is_none());
    let rows = vec![
        FanRow { name: "fan0".to_string(), min_speed: 500, max_speed: 2500, current: Ok(893) },
        FanRow {
            name: "fan1".to_string(),
            min_speed: 0,
            max_speed: 1,
            current: Err(Error::MinSpeedRead("x".to_string())),
        },
    ];
    let mut expected =
        format!("{:<10} {:>10} {:>10} {:>12}\n", "FAN", "MIN RPM", "MAX RPM", "CURRENT RPM");
    expected.push_str(&format!("{:-<10} {:->10} {:->10} {:->12}\n", "", "", "", ""));
    expected.push_str(&format!("{:<10} {:>10} {:>10} {:>12}\n", "fan0", 500, 2500, 893));
    expected.push_str(&format!("{:<10} {:>10} {:>10} {:>12}\n", "fan1", 0, 1, "ERR"));
    assert_eq!(fan_table(&rows), Some(expected));
    assert_eq!(rpm_text(&Ok(12)), "12");
    let config = listing_config();
    assert_eq!((config.low_temp, config.high_temp), (55, 75));
    assert_eq!(config.speed_curve, SpeedCurve::Linear);
    assert_eq!(config.sensor_aggregation, SensorAggregation::Max);
    assert_eq!(config.ramp_down_rate, "1");
    assert_eq!(config.sensor_indices, None);
}

#[test]
fn a_fan_that_fails_is_passed_over() {
    let row = |n: &str| FanRow { name: n.to_string(), min_speed: 1, max_speed: 2, current: Ok(1) };
    let (rows, errors) = listed_fans(vec![
        Ok(row("fan0")),
        Err(Error::FanOpen("a".to_string())),
        Ok(row("fan2")),
        Err(Error::MinSpeedRead("b".to_string())),
    ]);
    let names: Vec<&str> = rows.iter().map(|r| r.name.as_str()).collect();
    assert_eq!(names, ["fan0", "fan2"]);
    assert!(matches!(errors[0], Error::FanOpen(_)));
    assert!(matches!(errors[1], Error::MinSpeedRead(_)));
    assert_eq!(errors.len(), 2);
}

#[test]
fn the_lines_of_a_report() {
    assert_eq!(report_line("fan0", "48", &Ok(900)), "  fan0 | temp=48°C | RPM=900");
    assert_eq!(
        report_line("fan1", "0", &Err(Error::NoFan)),
        "  fan1 | temp=0°C | RPM=ERR"
    );
}
