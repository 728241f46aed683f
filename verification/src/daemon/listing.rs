//! What the listings of sensors and fans show, and the lines of a report.
use vstd::prelude::*;

use crate::config::{ResolvedFanConfig, ResolvedView, SensorAggregation, SpeedCurve};
use crate::error::Error;
use crate::sensor::registry::reading_views;
use crate::sensor::{SensorStatus, StatusView};
use crate::text::{align_left, align_right, dashes, decimal, decimal_text, left_aligned, repeated, right_aligned};

verus! {

/// How a reading is shown.
pub open spec fn status_shown(status: StatusView) -> Seq<char> {
    match status {
        StatusView::Active(t) => decimal(t as nat) + "°C"@,
        StatusView::Unavailable => "N/A"@,
        StatusView::Error(e) => "ERR: "@ + e,
    }
}

/// How a reading is shown.
pub fn status_text(status: &SensorStatus) -> (r: String)
    ensures
        r@ == status_shown(status@),
{
    match status {
        SensorStatus::Active(t) => {
            let mut out = decimal_text(*t as u64);
            out.append("°C");
            out
        },
        SensorStatus::Unavailable => "N/A".to_string(),
        SensorStatus::Error(e) => {
            let mut out = "ERR: ".to_string();
            out.append(e.as_str());
            out
        },
    }
}

/// A row of the list of sensors.
pub open spec fn sensor_row(name: Seq<char>, shown: Seq<char>) -> Seq<char> {
    left_aligned(name, 30) + " "@ + right_aligned(shown, 8) + "\n"@
}

fn sensor_row_text(name: &str, shown: &str) -> (r: String)
    ensures
        r@ == sensor_row(name@, shown@),
{
    let mut out = align_left(name, 30);
    out.append(" ");
    out.append(align_right(shown, 8).as_str());
    out.append("\n");
    out
}

/// The head of the list of sensors.
pub open spec fn sensor_head() -> Seq<char> {
    sensor_row("SENSOR"@, "TEMP"@) + repeated('-', 30) + " "@ + repeated('-', 8) + "\n"@
}

/// The rows of the list of sensors.
pub open spec fn sensor_rows(readings: Seq<(Seq<char>, StatusView)>) -> Seq<char>
    decreases readings.len(),
{
    if readings.len() == 0 {
        Seq::empty()
    } else {
        sensor_rows(readings.drop_last()) + sensor_row(
            readings.last().0,
            status_shown(readings.last().1),
        )
    }
}

/// The list of sensors.
pub open spec fn sensor_list(readings: Seq<(Seq<char>, StatusView)>) -> Seq<char> {
    if readings.len() == 0 {
        "No sensors found.\n"@
    } else {
        sensor_head() + sensor_rows(readings)
    }
}

/// The list of sensors.
pub fn sensor_table(readings: &Vec<(&str, SensorStatus)>) -> (r: String)
    ensures
        r@ == sensor_list(reading_views(readings@)),
{
    let ghost all = reading_views(readings@);
    if readings.len() == 0 {
        return "No sensors found.\n".to_string();
    }
    let mut out = sensor_row_text("SENSOR", "TEMP");
    out.append(dashes(30).as_str());
    out.append(" ");
    out.append(dashes(8).as_str());
    out.append("\n");
    let ghost start = out@;
    let mut i: usize = 0;
    assert(all.take(0) == Seq::<(Seq<char>, StatusView)>::empty());
    assert(out@ =~= start + sensor_rows(all.take(0)));
    while i < readings.len()
        invariant
            i <= readings.len(),
            all == reading_views(readings@),
            out@ == start + sensor_rows(all.take(i as int)),
        decreases readings.len() - i,
    {
        assert(all.take(i + 1).drop_last() == all.take(i as int));
        assert(all.take(i + 1).last() == all[i as int]);
        let shown = status_text(&readings[i].1);
        out.append(sensor_row_text(readings[i].0, shown.as_str()).as_str());
        assert(out@ =~= start + sensor_rows(all.take(i + 1)));
        i = i + 1;
    }
    assert(all.take(i as int) == all);
    out
}

/// A fan in the list of fans.
#[derive(Debug)]
pub struct FanRow {
    pub name: String,
    pub min_speed: u32,
    pub max_speed: u32,
    pub current: Result<u32, Error>,
}

/// The fans that can be listed, in their order.
pub open spec fn listable(fans: Seq<Result<FanRow, Error>>) -> Seq<FanRow>
    decreases fans.len(),
{
    if fans.len() == 0 {
        Seq::empty()
    } else {
        match fans.last() {
            Ok(row) => listable(fans.drop_last()).push(row),
            Err(_) => listable(fans.drop_last()),
        }
    }
}

/// Why the other fans cannot be listed, in their order.
pub open spec fn refusals(fans: Seq<Result<FanRow, Error>>) -> Seq<Error>
    decreases fans.len(),
{
    if fans.len() == 0 {
        Seq::empty()
    } else {
        match fans.last() {
            Ok(_) => refusals(fans.drop_last()),
            Err(e) => refusals(fans.drop_last()).push(e),
        }
    }
}

/// Parts the fans that can be listed from the reasons why others cannot.
pub fn listed_fans(fans: Vec<Result<FanRow, Error>>) -> (r: (Vec<FanRow>, Vec<Error>))
    ensures
        r.0@ == listable(fans@),
        r.1@ == refusals(fans@),
{
    let ghost all = fans@;
    let mut fans = fans;
    let mut rows: Vec<FanRow> = Vec::new();
    let mut errors: Vec<Error> = Vec::new();
    let n: usize = fans.len();
    let mut done: usize = 0;
    assert(all.skip(0) == all);
    assert(all.take(0) == Seq::<Result<FanRow, Error>>::empty());
    while done < n
        invariant
            n == all.len(),
            done <= n,
            fans@ == all.skip(done as int),
            rows@ == listable(all.take(done as int)),
            errors@ == refusals(all.take(done as int)),
        decreases n - done,
    {
        let fan = fans.remove(0);
        assert(fan == all[done as int]);
        assert(fans@ == all.skip(done + 1));
        assert(all.take(done + 1).drop_last() == all.take(done as int));
        match fan {
            Ok(row) => {
                rows.push(row);
            },
            Err(e) => {
                errors.push(e);
            },
        }
        done = done + 1;
    }
    assert(all.take(done as int) == all);
    (rows, errors)
}

/// A fan that cannot be listed keeps no other from being listed: each fan is either a row or a
/// reason.
pub proof fn law_every_fan_is_listed_or_refused(fans: Seq<Result<FanRow, Error>>)
    ensures
        listable(fans).len() + refusals(fans).len() == fans.len(),
        forall|i: int|
            0 <= i < fans.len() ==> match #[trigger] fans[i] {
                Ok(row) => listable(fans).contains(row),
                Err(e) => refusals(fans).contains(e),
            },
    decreases fans.len(),
{
    if fans.len() > 0 {
        let before = fans.drop_last();
        law_every_fan_is_listed_or_refused(before);
        let rows = listable(fans);
        let errors = refusals(fans);
        assert forall|i: int| 0 <= i < fans.len() implies match #[trigger] fans[i] {
            Ok(row) => rows.contains(row),
            Err(e) => errors.contains(e),
        } by {
            if i < before.len() {
                assert(before[i] == fans[i]);
                match fans[i] {
                    Ok(row) => {
                        let k = choose|k: int|
                            0 <= k < listable(before).len() && listable(before)[k] == row;
                        assert(rows[k] == row);
                    },
                    Err(e) => {
                        let k = choose|k: int|
                            0 <= k < refusals(before).len() && refusals(before)[k] == e;
                        assert(errors[k] == e);
                    },
                }
            } else {
                match fans[i] {
                    Ok(row) => {
                        assert(rows[rows.len() - 1] == row);
                    },
                    Err(e) => {
                        assert(errors[errors.len() - 1] == e);
                    },
                }
            }
        }
    }
}

/// How a current speed is shown.
pub open spec fn rpm_shown(current: Result<u32, Error>) -> Seq<char> {
    match current {
        Ok(rpm) => decimal(rpm as nat),
        Err(_) => "ERR"@,
    }
}

/// How a current speed is shown.
pub fn rpm_text(current: &Result<u32, Error>) -> (r: String)
    ensures
        r@ == rpm_shown(*current),
{
    match current {
        Ok(rpm) => decimal_text(*rpm as u64),
        Err(_) => "ERR".to_string(),
    }
}

/// A row of the list of fans.
pub open spec fn fan_row(name: Seq<char>, min: Seq<char>, max: Seq<char>, current: Seq<char>) -> Seq<
    char,
> {
    left_aligned(name, 10) + " "@ + right_aligned(min, 10) + " "@ + right_aligned(max, 10) + " "@
        + right_aligned(current, 12) + "\n"@
}

fn fan_row_text(name: &str, min: &str, max: &str, current: &str) -> (r: String)
    ensures
        r@ == fan_row(name@, min@, max@, current@),
{
    let mut out = align_left(name, 10);
    out.append(" ");
    out.append(align_right(min, 10).as_str());
    out.append(" ");
    out.append(align_right(max, 10).as_str());
    out.append(" ");
    out.append(align_right(current, 12).as_str());
    out.append("\n");
    out
}

/// The rows of the list of fans.
pub open spec fn fan_rows(fans: Seq<FanRow>) -> Seq<char>
    decreases fans.len(),
{
    if fans.len() == 0 {
        Seq::empty()
    } else {
        let fan = fans.last();
        fan_rows(fans.drop_last()) + fan_row(
            fan.name@,
            decimal(fan.min_speed as nat),
            decimal(fan.max_speed as nat),
            rpm_shown(fan.current),
        )
    }
}

/// The list of fans.
pub open spec fn fan_list(fans: Seq<FanRow>) -> Seq<char> {
    fan_row("FAN"@, "MIN RPM"@, "MAX RPM"@, "CURRENT RPM"@) + repeated('-', 10) + " "@ + repeated(
        '-',
        10,
    ) + " "@ + repeated('-', 10) + " "@ + repeated('-', 12) + "\n"@ + fan_rows(fans)
}

/// The list of fans: `None` if there is no fan to list.
pub fn fan_table(fans: &Vec<FanRow>) -> (r: Option<String>)
    ensures
        r is None <==> fans.len() == 0,
        r matches Some(table) ==> table@ == fan_list(fans@),
{
    if fans.len() == 0 {
        return None;
    }
    let mut out = fan_row_text("FAN", "MIN RPM", "MAX RPM", "CURRENT RPM");
    out.append(dashes(10).as_str());
    out.append(" ");
    out.append(dashes(10).as_str());
    out.append(" ");
    out.append(dashes(10).as_str());
    out.append(" ");
    out.append(dashes(12).as_str());
    out.append("\n");
    let ghost start = out@;
    let mut i: usize = 0;
    assert(fans@.take(0) == Seq::<FanRow>::empty());
    assert(out@ =~= start + fan_rows(fans@.take(0)));
    while i < fans.len()
        invariant
            i <= fans.len(),
            out@ == start + fan_rows(fans@.take(i as int)),
        decreases fans.len() - i,
    {
        assert(fans@.take(i + 1).drop_last() == fans@.take(i as int));
        assert(fans@.take(i + 1).last() == fans@[i as int]);
        let row = fan_row_text(
            fans[i].name.as_str(),
            decimal_text(fans[i].min_speed as u64).as_str(),
            decimal_text(fans[i].max_speed as u64).as_str(),
            rpm_text(&fans[i].current).as_str(),
        );
        out.append(row.as_str());
        assert(out@ =~= start + fan_rows(fans@.take(i + 1)));
        i = i + 1;
    }
    assert(fans@.take(i as int) == fans@);
    Some(out)
}

/// The configuration with which fans are listed.
pub fn listing_config() -> (r: ResolvedFanConfig)
    ensures
        r@ == (ResolvedView {
            low_temp: 55,
            high_temp: 75,
            speed_curve: SpeedCurve::Linear,
            sensor_aggregation: SensorAggregation::Max,
            ramp_down_rate: "1"@,
            sensor_indices: None,
        }),
{
    ResolvedFanConfig {
        low_temp: 55,
        high_temp: 75,
        speed_curve: SpeedCurve::Linear,
        sensor_aggregation: SensorAggregation::Max,
        ramp_down_rate: "1".to_string(),
        sensor_indices: None,
    }
}

/// The line of a report on a fan; `temp` is its temperature in whole degrees.
pub open spec fn report_shown(name: Seq<char>, temp: Seq<char>, current: Result<u32, Error>) -> Seq<
    char,
> {
    "  "@ + name + " | temp="@ + temp + "°C | RPM="@ + rpm_shown(current)
}

/// The line of a report on a fan.
pub fn report_line(name: &str, temp: &str, current: &Result<u32, Error>) -> (r: String)
    ensures
        r@ == report_shown(name@, temp@, *current),
{
    let mut out = "  ".to_string();
    out.append(name);
    out.append(" | temp=");
    out.append(temp);
    out.append("°C | RPM=");
    out.append(rpm_text(current).as_str());
    out
}

/// How readings and speeds are shown: a temperature in degrees, and otherwise why there is none.
pub proof fn law_readings_are_shown(
    t: u8,
    reason: Seq<char>,
    rpm: u32,
    error: Error,
    name: Seq<char>,
    temp: Seq<char>,
    current: Result<u32, Error>,
)
    ensures
        status_shown(StatusView::Active(t)) == decimal(t as nat) + "°C"@,
        status_shown(StatusView::Unavailable) == "N/A"@,
        status_shown(StatusView::Error(reason)) == "ERR: "@ + reason,
        rpm_shown(Ok(rpm)) == decimal(rpm as nat),
        rpm_shown(Err(error)) == "ERR"@,
        report_shown(name, temp, current) == "  "@ + name + " | temp="@ + temp + "°C | RPM="@
            + rpm_shown(current),
{
}

/// A sensor more adds a row behind the others: its name at the left of thirty characters and what
/// it says at the right of eight. Without sensors there is no list.
pub proof fn law_each_sensor_adds_a_row(
    readings: Seq<(Seq<char>, StatusView)>,
    name: Seq<char>,
    status: StatusView,
)
    ensures
        sensor_list(Seq::<(Seq<char>, StatusView)>::empty()) == "No sensors found.\n"@,
        readings.len() == 0 ==> sensor_list(readings.push((name, status))) == sensor_head()
            + left_aligned(name, 30) + " "@ + right_aligned(status_shown(status), 8) + "\n"@,
        readings.len() > 0 ==> sensor_list(readings.push((name, status))) == sensor_list(readings)
            + left_aligned(name, 30) + " "@ + right_aligned(status_shown(status), 8) + "\n"@,
        sensor_head() == left_aligned("SENSOR"@, 30) + " "@ + right_aligned("TEMP"@, 8) + "\n"@
            + repeated('-', 30) + " "@ + repeated('-', 8) + "\n"@,
{
    let more = readings.push((name, status));
    assert(more.drop_last() =~= readings);
    let row = left_aligned(name, 30) + " "@ + right_aligned(status_shown(status), 8) + "\n"@;
    if readings.len() == 0 {
        assert(sensor_rows(readings) =~= Seq::<char>::empty());
    }
    assert(sensor_list(more) =~= sensor_head() + sensor_rows(readings) + row);
    assert(sensor_head() + sensor_rows(readings) + row =~= sensor_head() + sensor_rows(readings)
        + left_aligned(name, 30) + " "@ + right_aligned(status_shown(status), 8) + "\n"@);
    if readings.len() == 0 {
        assert(sensor_head() + sensor_rows(readings) =~= sensor_head());
    }
}

/// A fan more adds a row behind the others: its name, its lowest, its highest and its current
/// speed.
pub proof fn law_each_fan_adds_a_row(fans: Seq<FanRow>, fan: FanRow)
    ensures
        fan_list(fans.push(fan)) == fan_list(fans) + left_aligned(fan.name@, 10) + " "@
            + right_aligned(decimal(fan.min_speed as nat), 10) + " "@ + right_aligned(
            decimal(fan.max_speed as nat),
            10,
        ) + " "@ + right_aligned(rpm_shown(fan.current), 12) + "\n"@,
        fan_list(Seq::<FanRow>::empty()) == left_aligned("FAN"@, 10) + " "@ + right_aligned(
            "MIN RPM"@,
            10,
        ) + " "@ + right_aligned("MAX RPM"@, 10) + " "@ + right_aligned("CURRENT RPM"@, 12) + "\n"@
            + repeated('-', 10) + " "@ + repeated('-', 10) + " "@ + repeated('-', 10) + " "@
            + repeated('-', 12) + "\n"@,
{
    assert(fans.push(fan).drop_last() =~= fans);
    assert(fan_list(fans.push(fan)) =~= fan_list(fans) + left_aligned(fan.name@, 10) + " "@
        + right_aligned(decimal(fan.min_speed as nat), 10) + " "@ + right_aligned(
        decimal(fan.max_speed as nat),
        10,
    ) + " "@ + right_aligned(rpm_shown(fan.current), 12) + "\n"@);
    assert(fan_list(Seq::<FanRow>::empty()) =~= left_aligned("FAN"@, 10) + " "@ + right_aligned(
        "MIN RPM"@,
        10,
    ) + " "@ + right_aligned("MAX RPM"@, 10) + " "@ + right_aligned("CURRENT RPM"@, 12) + "\n"@
        + repeated('-', 10) + " "@ + repeated('-', 10) + " "@ + repeated('-', 10) + " "@ + repeated(
        '-',
        12,
    ) + "\n"@);
}

/// A fan more is a row behind the others or a reason behind the others.
pub proof fn law_fans_are_listed_in_order(fans: Seq<Result<FanRow, Error>>, row: FanRow, error: Error)
    ensures
        listable(fans.push(Ok(row))) == listable(fans).push(row),
        refusals(fans.push(Ok(row))) == refusals(fans),
        listable(fans.push(Err(error))) == listable(fans),
        refusals(fans.push(Err(error))) == refusals(fans).push(error),
{
    assert(fans.push(Ok(row)).drop_last() =~= fans);
    assert(fans.push(Err(error)).drop_last() =~= fans);
}

} // verus!
