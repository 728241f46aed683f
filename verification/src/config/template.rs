//! The configuration file that is written where there is none.
use vstd::prelude::*;

use crate::fan::discovery::FanPath;
use crate::sensor::{sensor_names, sensor_views, HwmonSensor};
use crate::text::{put_line, texts, unlines, unlines_text};

verus! {

/// A line with a note behind it.
pub open spec fn noted(line: Seq<char>, note: Seq<char>) -> Seq<char> {
    line + "  # "@ + note
}

fn put_noted(lines: &mut Vec<String>, line: &str, note: &str)
    ensures
        texts(final(lines)@) == texts(old(lines)@).push(noted(line@, note@)),
{
    let mut whole = line.to_string();
    whole.append("  # ");
    whole.append(note);
    put_line(lines, whole.as_str());
}

/// The beginning of the file, with the defaults.
pub open spec fn template_head() -> Seq<Seq<char>> {
    seq![
        "# macprot2fans configuration file"@,
        "# See --generate-config for a template with discovered hardware"@,
        ""@,
        "[defaults]"@,
        "low_temp = 55"@,
        "high_temp = 75"@,
        noted("speed_curve = \"linear\""@, "\"linear\", \"exponential\", or \"logarithmic\""@),
        "always_full_speed = false"@,
        noted("sensor_aggregation = \"max\""@, "\"max\", \"average\", or \"min\""@),
        noted("ramp_down_rate = 1.0"@, "°C/sec gradual fan ramp-down rate"@),
        ""@,
    ]
}

fn put_head(lines: &mut Vec<String>)
    ensures
        texts(final(lines)@) == texts(old(lines)@) + template_head(),
{
    let ghost start = texts(lines@);
    put_line(lines, "# macprot2fans configuration file");
    put_line(lines, "# See --generate-config for a template with discovered hardware");
    put_line(lines, "");
    put_line(lines, "[defaults]");
    put_line(lines, "low_temp = 55");
    put_line(lines, "high_temp = 75");
    put_noted(lines, "speed_curve = \"linear\"", "\"linear\", \"exponential\", or \"logarithmic\"");
    put_line(lines, "always_full_speed = false");
    put_noted(lines, "sensor_aggregation = \"max\"", "\"max\", \"average\", or \"min\"");
    put_noted(lines, "ramp_down_rate = 1.0", "°C/sec gradual fan ramp-down rate");
    put_line(lines, "");
    assert(texts(lines@) =~= start + template_head());
}

/// The section of a fan, as a comment, where no hardware was discovered.
pub open spec fn template_sample_fan() -> Seq<Seq<char>> {
    seq![
        "# [fan.fan0]"@,
        "# low_temp = 55       # override defaults for this fan"@,
        "# high_temp = 75"@,
        "# speed_curve = \"linear\""@,
        "# always_full_speed = false"@,
        "# sensor_aggregation = \"max\""@,
        "# ramp_down_rate = 1.0"@,
        "# sensors = []        # list sensor names; omit to use max(all sensors)"@,
        ""@,
    ]
}

fn put_sample_fan(lines: &mut Vec<String>)
    ensures
        texts(final(lines)@) == texts(old(lines)@) + template_sample_fan(),
{
    let ghost start = texts(lines@);
    put_line(lines, "# [fan.fan0]");
    put_line(lines, "# low_temp = 55       # override defaults for this fan");
    put_line(lines, "# high_temp = 75");
    put_line(lines, "# speed_curve = \"linear\"");
    put_line(lines, "# always_full_speed = false");
    put_line(lines, "# sensor_aggregation = \"max\"");
    put_line(lines, "# ramp_down_rate = 1.0");
    put_line(lines, "# sensors = []        # list sensor names; omit to use max(all sensors)");
    put_line(lines, "");
    assert(texts(lines@) =~= start + template_sample_fan());
}

/// What stands in the section of a discovered fan.
pub open spec fn template_fan_comments() -> Seq<Seq<char>> {
    seq![
        "# low_temp = 55"@,
        "# high_temp = 75"@,
        "# speed_curve = \"linear\""@,
        "# always_full_speed = false"@,
        "# sensor_aggregation = \"max\""@,
        "# ramp_down_rate = 1.0"@,
        "# sensors = []"@,
        ""@,
    ]
}

/// The section of a discovered fan.
pub open spec fn template_fan(name: Seq<char>) -> Seq<Seq<char>> {
    seq!["[fan."@ + name + "]"@] + template_fan_comments()
}

fn put_fan(lines: &mut Vec<String>, name: &str)
    ensures
        texts(final(lines)@) == texts(old(lines)@) + template_fan(name@),
{
    let ghost start = texts(lines@);
    let mut header = "[fan.".to_string();
    header.append(name);
    header.append("]");
    put_line(lines, header.as_str());
    put_line(lines, "# low_temp = 55");
    put_line(lines, "# high_temp = 75");
    put_line(lines, "# speed_curve = \"linear\"");
    put_line(lines, "# always_full_speed = false");
    put_line(lines, "# sensor_aggregation = \"max\"");
    put_line(lines, "# ramp_down_rate = 1.0");
    put_line(lines, "# sensors = []");
    put_line(lines, "");
    assert(texts(lines@) =~= start + template_fan(name@));
}

/// The end of the file, with degraded mode.
pub open spec fn template_degraded() -> Seq<Seq<char>> {
    seq![
        "[degraded]"@,
        "expected_drivers = [\"coretemp\", \"amdgpu\"]"@,
        "initial_percent = 60"@,
        "escalated_percent = 80"@,
        noted("escalation_delay = 60"@, "seconds before escalation"@),
    ]
}

fn put_degraded(lines: &mut Vec<String>)
    ensures
        texts(final(lines)@) == texts(old(lines)@) + template_degraded(),
{
    let ghost start = texts(lines@);
    put_line(lines, "[degraded]");
    put_line(lines, "expected_drivers = [\"coretemp\", \"amdgpu\"]");
    put_line(lines, "initial_percent = 60");
    put_line(lines, "escalated_percent = 80");
    put_noted(lines, "escalation_delay = 60", "seconds before escalation");
    assert(texts(lines@) =~= start + template_degraded());
}

/// The names of a list of fans.
pub open spec fn fan_names(fans: Seq<FanPath>) -> Seq<Seq<char>> {
    Seq::new(fans.len(), |i: int| fans[i].name@)
}

/// A comment line for each sensor.
pub open spec fn sensor_comments(sensors: Seq<Seq<char>>) -> Seq<Seq<char>> {
    Seq::new(sensors.len(), |i: int| "#   \""@ + sensors[i] + "\""@)
}

/// The names of the discovered sensors, as a comment.
pub open spec fn available_sensors(sensors: Seq<Seq<char>>) -> Seq<Seq<char>> {
    if sensors.len() == 0 {
        Seq::empty()
    } else {
        seq!["# Available sensors:"@] + sensor_comments(sensors) + seq![""@]
    }
}

fn put_available_sensors<H>(lines: &mut Vec<String>, sensors: &Vec<HwmonSensor<H>>)
    ensures
        texts(final(lines)@) == texts(old(lines)@) + available_sensors(
            sensor_names(sensor_views(sensors@)),
        ),
{
    let ghost start = texts(lines@);
    let ghost names = sensor_names(sensor_views(sensors@));
    if sensors.len() > 0 {
        put_line(lines, "# Available sensors:");
        let ghost titled = texts(lines@);
        let mut i: usize = 0;
        assert(titled + sensor_comments(names).take(0) =~= titled);
        while i < sensors.len()
            invariant
                i <= sensors.len(),
                names == sensor_names(sensor_views(sensors@)),
                texts(lines@) == titled + sensor_comments(names).take(i as int),
            decreases sensors.len() - i,
        {
            let mut line = "#   \"".to_string();
            line.append(sensors[i].name());
            line.append("\"");
            assert(line@ == sensor_comments(names)[i as int]);
            put_line(lines, line.as_str());
            i = i + 1;
            assert(texts(lines@) =~= titled + sensor_comments(names).take(i as int));
        }
        assert(sensor_comments(names).take(i as int) == sensor_comments(names));
        put_line(lines, "");
    }
    assert(texts(lines@) =~= start + available_sensors(names));
}

/// A section for each fan.
pub open spec fn template_fans(fans: Seq<Seq<char>>) -> Seq<Seq<char>>
    decreases fans.len(),
{
    if fans.len() == 0 {
        Seq::empty()
    } else {
        template_fans(fans.drop_last()) + template_fan(fans.last())
    }
}

fn put_fans(lines: &mut Vec<String>, fan_paths: &Vec<FanPath>)
    ensures
        texts(final(lines)@) == texts(old(lines)@) + template_fans(fan_names(fan_paths@)),
{
    let ghost start = texts(lines@);
    let ghost fans = fan_names(fan_paths@);
    let mut i: usize = 0;
    assert(start + template_fans(fans.take(0)) =~= start);
    while i < fan_paths.len()
        invariant
            i <= fan_paths.len(),
            fans == fan_names(fan_paths@),
            texts(lines@) == start + template_fans(fans.take(i as int)),
        decreases fan_paths.len() - i,
    {
        assert(fans.take(i + 1).drop_last() == fans.take(i as int));
        assert(fans.take(i + 1).last() == fan_paths@[i as int].name@);
        put_fan(lines, fan_paths[i].name.as_str());
        i = i + 1;
        assert(texts(lines@) =~= start + template_fans(fans.take(i as int)));
    }
    assert(fans.take(i as int) == fans);
}

/// The lines of the configuration file for the discovered hardware.
pub open spec fn template_lines(sensors: Seq<Seq<char>>, fans: Seq<Seq<char>>) -> Seq<Seq<char>> {
    template_head() + (if sensors.len() == 0 && fans.len() == 0 {
        template_sample_fan()
    } else {
        available_sensors(sensors) + template_fans(fans)
    }) + template_degraded()
}

/// The configuration file for the discovered hardware.
pub open spec fn config_template(sensors: Seq<Seq<char>>, fans: Seq<Seq<char>>) -> Seq<char> {
    unlines(template_lines(sensors, fans))
}

/// The configuration file for the discovered hardware.
pub fn generate_config_toml<H>(
    sensors: &Vec<HwmonSensor<H>>,
    fan_paths: &Vec<FanPath>,
) -> (r: String)
    ensures
        r@ == config_template(sensor_names(sensor_views(sensors@)), fan_names(fan_paths@)),
{
    let mut lines: Vec<String> = Vec::new();
    assert(texts(lines@) =~= Seq::<Seq<char>>::empty());
    put_head(&mut lines);
    if sensors.len() == 0 && fan_paths.len() == 0 {
        put_sample_fan(&mut lines);
    } else {
        put_available_sensors(&mut lines, sensors);
        put_fans(&mut lines, fan_paths);
    }
    put_degraded(&mut lines);
    assert(texts(lines@) =~= template_lines(
        sensor_names(sensor_views(sensors@)),
        fan_names(fan_paths@),
    ));
    unlines_text(&lines)
}

/// The discovered sensors are named in comments, one each and in order, between a title and a
/// blank line; without sensors there is neither.
pub proof fn law_discovered_sensors_are_named(sensors: Seq<Seq<char>>, i: int)
    ensures
        sensors.len() == 0 ==> available_sensors(sensors).len() == 0,
        sensors.len() > 0 ==> available_sensors(sensors).len() == sensors.len() + 2
            && available_sensors(sensors)[0] == "# Available sensors:"@ && available_sensors(
            sensors,
        )[sensors.len() as int + 1] == ""@,
        0 <= i < sensors.len() ==> available_sensors(sensors)[i + 1] == "#   \""@ + sensors[i]
            + "\""@,
{
}

/// A discovered fan more adds its section: its header, and the settings as comments.
pub proof fn law_discovered_fans_have_sections(fans: Seq<Seq<char>>, fan: Seq<char>)
    ensures
        template_fans(Seq::<Seq<char>>::empty()) == Seq::<Seq<char>>::empty(),
        template_fans(fans.push(fan)) == template_fans(fans) + seq![
            "[fan."@ + fan + "]"@,
            "# low_temp = 55"@,
            "# high_temp = 75"@,
            "# speed_curve = \"linear\""@,
            "# always_full_speed = false"@,
            "# sensor_aggregation = \"max\""@,
            "# ramp_down_rate = 1.0"@,
            "# sensors = []"@,
            ""@,
        ],
{
    assert(fans.push(fan).drop_last() =~= fans);
    assert(template_fan(fan) =~= seq![
        "[fan."@ + fan + "]"@,
        "# low_temp = 55"@,
        "# high_temp = 75"@,
        "# speed_curve = \"linear\""@,
        "# always_full_speed = false"@,
        "# sensor_aggregation = \"max\""@,
        "# ramp_down_rate = 1.0"@,
        "# sensors = []"@,
        ""@,
    ]);
}

/// The file is its beginning, what was discovered, or a sample where nothing was, and its end.
pub proof fn law_template_holds_what_was_discovered(sensors: Seq<Seq<char>>, fans: Seq<Seq<char>>)
    ensures
        sensors.len() > 0 || fans.len() > 0 ==> template_lines(sensors, fans) == template_head()
            + available_sensors(sensors) + template_fans(fans) + template_degraded(),
        sensors.len() == 0 && fans.len() == 0 ==> template_lines(sensors, fans) == template_head()
            + template_sample_fan() + template_degraded(),
        config_template(sensors, fans) == unlines(template_lines(sensors, fans)),
{
    if sensors.len() > 0 || fans.len() > 0 {
        assert(template_lines(sensors, fans) =~= template_head() + available_sensors(sensors)
            + template_fans(fans) + template_degraded());
    }
}

} // verus!
