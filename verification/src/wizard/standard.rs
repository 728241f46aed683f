//! What the file says that is written where there is none.
use vstd::prelude::*;

use crate::config::template::{available_sensors, config_template, noted, sensor_comments, template_degraded, template_fan, template_fan_comments, template_fans, template_head, template_lines, template_sample_fan};
use crate::config::{no_overrides, standard_defaults, standard_degraded, DefaultsView, FanView};
use crate::text::{decimal, digit_char, joined, law_lines_split_back, split, trimmed_end, unlines, white_space};
use crate::wizard::format::{all_quoted, bool_text, quoted, setting, toml_array, toml_defaults, toml_degraded, toml_fan, toml_fan_header, toml_fans, toml_lines, toml_settings, toml_text};
use crate::wizard::layout::{every, lemma_every_added, lemma_plain_added, lemma_toml_plain, plain, plain_fan};

verus! {

/// What stands before the first `#` of a line.
pub open spec fn before_comment(line: Seq<char>) -> Seq<char>
    decreases line.len(),
{
    if line.len() == 0 || line[0] == '#' {
        Seq::empty()
    } else {
        seq![line[0]] + before_comment(line.drop_first())
    }
}

/// What a line without a `#` in quotation marks says: what stands before its comment, without
/// the white space at the end.
pub open spec fn content(line: Seq<char>) -> Seq<char> {
    trimmed_end(before_comment(line))
}

/// What the lines say that say anything.
pub open spec fn contents(lines: Seq<Seq<char>>) -> Seq<Seq<char>>
    decreases lines.len(),
{
    if lines.len() == 0 {
        Seq::empty()
    } else {
        let before = contents(lines.drop_last());
        let last = content(lines.last());
        if last.len() == 0 {
            before
        } else {
            before.push(last)
        }
    }
}

/// A section without a setting for each fan.
pub open spec fn bare_sections(fans: Seq<Seq<char>>) -> Seq<(Seq<char>, FanView)> {
    Seq::new(fans.len(), |i: int| (fans[i], no_overrides()))
}

/// The defaults where the file says nothing, with the rate as the file writes it.
pub open spec fn written_defaults() -> DefaultsView {
    DefaultsView { ramp_down_rate: "1.0"@, ..standard_defaults() }
}

proof fn lemma_before_comment(start: Seq<char>, end: Seq<char>)
    requires
        !start.contains('#'),
        end.len() > 0 ==> end[0] == '#',
    ensures
        before_comment(start + end) == start,
    decreases start.len(),
{
    let whole = start + end;
    if start.len() == 0 {
        assert(whole =~= end);
        assert(before_comment(whole) =~= start);
    } else {
        let rest = start.drop_first();
        assert(start.contains(start[0]));
        assert(!rest.contains('#')) by {
            if rest.contains('#') {
                let k = choose|k: int| 0 <= k < rest.len() && rest[k] == '#';
                assert(start[k + 1] == '#');
            }
        }
        lemma_before_comment(rest, end);
        assert(whole.drop_first() =~= rest + end);
        assert(whole[0] == start[0]);
        assert(seq![start[0]] + rest =~= start);
    }
}

/// The blank lines and the comments, without a line end.
spec fn silent(line: Seq<char>) -> bool {
    plain()(line) && (line.len() == 0 || line[0] == '#')
}

/// The lines that say all that stands in them, without a line end.
spec fn clean(line: Seq<char>) -> bool {
    plain()(line) && line.len() > 0 && !line.contains('#') && !white_space(line.last())
}

proof fn lemma_silent(line: Seq<char>)
    requires
        silent(line),
    ensures
        content(line).len() == 0,
{
}

proof fn lemma_clean(line: Seq<char>)
    requires
        clean(line),
    ensures
        content(line) == line,
{
    lemma_before_comment(line, Seq::empty());
    assert(line + Seq::<char>::empty() =~= line);
}

proof fn lemma_noted(line: Seq<char>, note: Seq<char>)
    requires
        clean(line),
        plain()(note),
    ensures
        content(noted(line, note)) == line,
        plain()(noted(line, note)),
{
    reveal_strlit("  # ");
    lemma_plain_added(line, "  # "@);
    lemma_plain_added(line + "  # "@, note);
    let one = line.push(' ');
    let two = one.push(' ');
    let end = seq!['#', ' '] + note;
    assert(noted(line, note) =~= two + end);
    assert(!two.contains('#')) by {
        if two.contains('#') {
            let k = choose|k: int| 0 <= k < two.len() && two[k] == '#';
            assert(line[k] == '#');
        }
    }
    lemma_before_comment(two, end);
    assert(two.drop_last() =~= one);
    assert(one.drop_last() =~= line);
    assert(trimmed_end(two) == trimmed_end(one));
    assert(trimmed_end(one) == trimmed_end(line));
}

proof fn lemma_contents_push(lines: Seq<Seq<char>>, line: Seq<char>)
    ensures
        contents(lines.push(line)) == if content(line).len() == 0 {
            contents(lines)
        } else {
            contents(lines).push(content(line))
        },
{
    assert(lines.push(line).drop_last() =~= lines);
}

proof fn lemma_contents_added(a: Seq<Seq<char>>, b: Seq<Seq<char>>)
    ensures
        contents(a + b) == contents(a) + contents(b),
    decreases b.len(),
{
    if b.len() == 0 {
        assert(a + b =~= a);
        assert(contents(a) + contents(b) =~= contents(a));
    } else {
        let before = b.drop_last();
        lemma_contents_added(a, before);
        assert((a + b).drop_last() =~= a + before);
        let last = content(b.last());
        assert(contents(a) + contents(before).push(last) =~= (contents(a) + contents(before)).push(
            last,
        ));
    }
}

proof fn lemma_silent_lines(lines: Seq<Seq<char>>)
    requires
        forall|i: int| 0 <= i < lines.len() ==> silent(#[trigger] lines[i]),
    ensures
        contents(lines) == Seq::<Seq<char>>::empty(),
        every(lines, plain()),
    decreases lines.len(),
{
    if lines.len() > 0 {
        let before = lines.drop_last();
        assert forall|i: int| 0 <= i < before.len() implies silent(#[trigger] before[i]) by {
            assert(before[i] == lines[i]);
        }
        lemma_silent_lines(before);
        assert(silent(lines[lines.len() - 1]));
        lemma_silent(lines.last());
    }
    assert forall|i: int| 0 <= i < lines.len() implies plain()(#[trigger] lines[i]) by {
        assert(silent(lines[i]));
    }
}

/// What the file says of the defaults.
spec fn said_defaults() -> Seq<Seq<char>> {
    seq![
        "[defaults]"@,
        "low_temp = 55"@,
        "high_temp = 75"@,
        "speed_curve = \"linear\""@,
        "always_full_speed = false"@,
        "sensor_aggregation = \"max\""@,
        "ramp_down_rate = 1.0"@,
    ]
}

/// What the file says of degraded mode.
spec fn said_degraded() -> Seq<Seq<char>> {
    seq![
        "[degraded]"@,
        "expected_drivers = [\"coretemp\", \"amdgpu\"]"@,
        "initial_percent = 60"@,
        "escalated_percent = 80"@,
        "escalation_delay = 60"@,
    ]
}

proof fn lemma_head()
    ensures
        contents(template_head()) == said_defaults(),
        every(template_head(), plain()),
{
    reveal_strlit("");
    assert(silent("# macprot2fans configuration file"@)) by {
        reveal_strlit("# macprot2fans configuration file");
    }
    lemma_silent("# macprot2fans configuration file"@);
    assert(silent("# See --generate-config for a template with discovered hardware"@)) by {
        reveal_strlit("# See --generate-config for a template with discovered hardware");
    }
    lemma_silent("# See --generate-config for a template with discovered hardware"@);
    assert(clean("[defaults]"@)) by {
        reveal_strlit("[defaults]");
    }
    lemma_clean("[defaults]"@);
    assert(clean("low_temp = 55"@)) by {
        reveal_strlit("low_temp = 55");
    }
    lemma_clean("low_temp = 55"@);
    assert(clean("high_temp = 75"@)) by {
        reveal_strlit("high_temp = 75");
    }
    lemma_clean("high_temp = 75"@);
    assert(clean("speed_curve = \"linear\""@)) by {
        reveal_strlit("speed_curve = \"linear\"");
    }
    assert(plain()("\"linear\", \"exponential\", or \"logarithmic\""@)) by {
        reveal_strlit("\"linear\", \"exponential\", or \"logarithmic\"");
    }
    lemma_noted("speed_curve = \"linear\""@, "\"linear\", \"exponential\", or \"logarithmic\""@);
    assert(clean("always_full_speed = false"@)) by {
        reveal_strlit("always_full_speed = false");
    }
    lemma_clean("always_full_speed = false"@);
    assert(clean("sensor_aggregation = \"max\""@)) by {
        reveal_strlit("sensor_aggregation = \"max\"");
    }
    assert(plain()("\"max\", \"average\", or \"min\""@)) by {
        reveal_strlit("\"max\", \"average\", or \"min\"");
    }
    lemma_noted("sensor_aggregation = \"max\""@, "\"max\", \"average\", or \"min\""@);
    assert(clean("ramp_down_rate = 1.0"@)) by {
        reveal_strlit("ramp_down_rate = 1.0");
    }
    assert(plain()("°C/sec gradual fan ramp-down rate"@)) by {
        reveal_strlit("°C/sec gradual fan ramp-down rate");
    }
    lemma_noted("ramp_down_rate = 1.0"@, "°C/sec gradual fan ramp-down rate"@);
    lemma_silent(""@);
    let l0 = Seq::<Seq<char>>::empty();
    let l1 = l0.push("# macprot2fans configuration file"@);
    lemma_contents_push(l0, "# macprot2fans configuration file"@);
    let l2 = l1.push("# See --generate-config for a template with discovered hardware"@);
    lemma_contents_push(l1, "# See --generate-config for a template with discovered hardware"@);
    let l3 = l2.push(""@);
    lemma_contents_push(l2, ""@);
    let l4 = l3.push("[defaults]"@);
    lemma_contents_push(l3, "[defaults]"@);
    let l5 = l4.push("low_temp = 55"@);
    lemma_contents_push(l4, "low_temp = 55"@);
    let l6 = l5.push("high_temp = 75"@);
    lemma_contents_push(l5, "high_temp = 75"@);
    let l7 = l6.push(noted("speed_curve = \"linear\""@, "\"linear\", \"exponential\", or \"logarithmic\""@));
    lemma_contents_push(l6, noted("speed_curve = \"linear\""@, "\"linear\", \"exponential\", or \"logarithmic\""@));
    let l8 = l7.push("always_full_speed = false"@);
    lemma_contents_push(l7, "always_full_speed = false"@);
    let l9 = l8.push(noted("sensor_aggregation = \"max\""@, "\"max\", \"average\", or \"min\""@));
    lemma_contents_push(l8, noted("sensor_aggregation = \"max\""@, "\"max\", \"average\", or \"min\""@));
    let l10 = l9.push(noted("ramp_down_rate = 1.0"@, "°C/sec gradual fan ramp-down rate"@));
    lemma_contents_push(l9, noted("ramp_down_rate = 1.0"@, "°C/sec gradual fan ramp-down rate"@));
    let l11 = l10.push(""@);
    lemma_contents_push(l10, ""@);
    assert(template_head() == l11);
}

proof fn lemma_degraded()
    ensures
        contents(template_degraded()) == said_degraded(),
        every(template_degraded(), plain()),
{
    reveal_strlit("");
    assert(clean("[degraded]"@)) by {
        reveal_strlit("[degraded]");
    }
    lemma_clean("[degraded]"@);
    assert(clean("expected_drivers = [\"coretemp\", \"amdgpu\"]"@)) by {
        reveal_strlit("expected_drivers = [\"coretemp\", \"amdgpu\"]");
    }
    lemma_clean("expected_drivers = [\"coretemp\", \"amdgpu\"]"@);
    assert(clean("initial_percent = 60"@)) by {
        reveal_strlit("initial_percent = 60");
    }
    lemma_clean("initial_percent = 60"@);
    assert(clean("escalated_percent = 80"@)) by {
        reveal_strlit("escalated_percent = 80");
    }
    lemma_clean("escalated_percent = 80"@);
    assert(clean("escalation_delay = 60"@)) by {
        reveal_strlit("escalation_delay = 60");
    }
    assert(plain()("seconds before escalation"@)) by {
        reveal_strlit("seconds before escalation");
    }
    lemma_noted("escalation_delay = 60"@, "seconds before escalation"@);
    let l0 = Seq::<Seq<char>>::empty();
    let l1 = l0.push("[degraded]"@);
    lemma_contents_push(l0, "[degraded]"@);
    let l2 = l1.push("expected_drivers = [\"coretemp\", \"amdgpu\"]"@);
    lemma_contents_push(l1, "expected_drivers = [\"coretemp\", \"amdgpu\"]"@);
    let l3 = l2.push("initial_percent = 60"@);
    lemma_contents_push(l2, "initial_percent = 60"@);
    let l4 = l3.push("escalated_percent = 80"@);
    lemma_contents_push(l3, "escalated_percent = 80"@);
    let l5 = l4.push(noted("escalation_delay = 60"@, "seconds before escalation"@));
    lemma_contents_push(l4, noted("escalation_delay = 60"@, "seconds before escalation"@));
    assert(template_degraded() == l5);
}

proof fn lemma_two_digits(n: nat)
    requires
        10 <= n < 100,
    ensures
        decimal(n) == seq![digit_char(n / 10), digit_char(n % 10)],
{
    assert(decimal(n / 10) == seq![digit_char(n / 10)]);
}

/// The standard values are written as the file has them.
proof fn lemma_written_defaults()
    ensures
        contents(toml_defaults(written_defaults())) == said_defaults(),
{
    reveal_strlit("");
    let d = written_defaults();
    lemma_silent(""@);
    assert(silent("# macprot2fans configuration file"@)) by {
        reveal_strlit("# macprot2fans configuration file");
    }
    lemma_silent("# macprot2fans configuration file"@);
    assert(clean("[defaults]"@)) by {
        reveal_strlit("[defaults]");
    }
    lemma_clean("[defaults]"@);
    assert(clean("low_temp = 55"@)) by {
        reveal_strlit("low_temp = 55");
    }
    lemma_clean("low_temp = 55"@);
    assert(clean("high_temp = 75"@)) by {
        reveal_strlit("high_temp = 75");
    }
    lemma_clean("high_temp = 75"@);
    assert(clean("speed_curve = \"linear\""@)) by {
        reveal_strlit("speed_curve = \"linear\"");
    }
    lemma_clean("speed_curve = \"linear\""@);
    assert(clean("always_full_speed = false"@)) by {
        reveal_strlit("always_full_speed = false");
    }
    lemma_clean("always_full_speed = false"@);
    assert(clean("sensor_aggregation = \"max\""@)) by {
        reveal_strlit("sensor_aggregation = \"max\"");
    }
    lemma_clean("sensor_aggregation = \"max\""@);
    assert(clean("ramp_down_rate = 1.0"@)) by {
        reveal_strlit("ramp_down_rate = 1.0");
    }
    lemma_clean("ramp_down_rate = 1.0"@);
    assert(setting("low_temp = "@, decimal(55), ""@) == "low_temp = 55"@) by {
        reveal_strlit("low_temp = ");
        reveal_strlit("");
        reveal_strlit("low_temp = 55");
        lemma_two_digits(55);
        assert(setting("low_temp = "@, decimal(55), ""@) =~= "low_temp = 55"@);
    }
    assert(setting("high_temp = "@, decimal(75), ""@) == "high_temp = 75"@) by {
        reveal_strlit("high_temp = ");
        reveal_strlit("");
        reveal_strlit("high_temp = 75");
        lemma_two_digits(75);
        assert(setting("high_temp = "@, decimal(75), ""@) =~= "high_temp = 75"@);
    }
    assert(setting("speed_curve = "@, quoted("linear"@), ""@) == "speed_curve = \"linear\""@) by {
        reveal_strlit("speed_curve = ");
        reveal_strlit("");
        reveal_strlit("speed_curve = \"linear\"");
        reveal_strlit("\"");
        reveal_strlit("linear");
        assert(setting("speed_curve = "@, quoted("linear"@), ""@) =~= "speed_curve = \"linear\""@);
    }
    assert(setting("always_full_speed = "@, bool_text(false), ""@) == "always_full_speed = false"@) by {
        reveal_strlit("always_full_speed = ");
        reveal_strlit("");
        reveal_strlit("always_full_speed = false");
        reveal_strlit("false");
        assert(setting("always_full_speed = "@, bool_text(false), ""@) =~= "always_full_speed = false"@);
    }
    assert(setting("sensor_aggregation = "@, quoted("max"@), ""@) == "sensor_aggregation = \"max\""@) by {
        reveal_strlit("sensor_aggregation = ");
        reveal_strlit("");
        reveal_strlit("sensor_aggregation = \"max\"");
        reveal_strlit("\"");
        reveal_strlit("max");
        assert(setting("sensor_aggregation = "@, quoted("max"@), ""@) =~= "sensor_aggregation = \"max\""@);
    }
    assert(setting("ramp_down_rate = "@, "1.0"@, ""@) == "ramp_down_rate = 1.0"@) by {
        reveal_strlit("ramp_down_rate = ");
        reveal_strlit("");
        reveal_strlit("ramp_down_rate = 1.0");
        reveal_strlit("1.0");
        assert(setting("ramp_down_rate = "@, "1.0"@, ""@) =~= "ramp_down_rate = 1.0"@);
    }
    let l0 = Seq::<Seq<char>>::empty();
    let l1 = l0.push("# macprot2fans configuration file"@);
    lemma_contents_push(l0, "# macprot2fans configuration file"@);
    let l2 = l1.push(""@);
    lemma_contents_push(l1, ""@);
    let l3 = l2.push("[defaults]"@);
    lemma_contents_push(l2, "[defaults]"@);
    let l4 = l3.push("low_temp = 55"@);
    lemma_contents_push(l3, "low_temp = 55"@);
    let l5 = l4.push("high_temp = 75"@);
    lemma_contents_push(l4, "high_temp = 75"@);
    let l6 = l5.push("speed_curve = \"linear\""@);
    lemma_contents_push(l5, "speed_curve = \"linear\""@);
    let l7 = l6.push("always_full_speed = false"@);
    lemma_contents_push(l6, "always_full_speed = false"@);
    let l8 = l7.push("sensor_aggregation = \"max\""@);
    lemma_contents_push(l7, "sensor_aggregation = \"max\""@);
    let l9 = l8.push("ramp_down_rate = 1.0"@);
    lemma_contents_push(l8, "ramp_down_rate = 1.0"@);
    let l10 = l9.push(""@);
    lemma_contents_push(l9, ""@);
    assert(toml_defaults(d) == l10);
}

proof fn lemma_written_degraded()
    ensures
        contents(toml_degraded(standard_degraded())) == said_degraded(),
{
    let g = standard_degraded();
    lemma_drivers();
    assert(clean("[degraded]"@)) by {
        reveal_strlit("[degraded]");
    }
    lemma_clean("[degraded]"@);
    assert(clean("expected_drivers = [\"coretemp\", \"amdgpu\"]"@)) by {
        reveal_strlit("expected_drivers = [\"coretemp\", \"amdgpu\"]");
    }
    lemma_clean("expected_drivers = [\"coretemp\", \"amdgpu\"]"@);
    assert(clean("initial_percent = 60"@)) by {
        reveal_strlit("initial_percent = 60");
    }
    lemma_clean("initial_percent = 60"@);
    assert(clean("escalated_percent = 80"@)) by {
        reveal_strlit("escalated_percent = 80");
    }
    lemma_clean("escalated_percent = 80"@);
    assert(clean("escalation_delay = 60"@)) by {
        reveal_strlit("escalation_delay = 60");
    }
    lemma_clean("escalation_delay = 60"@);
    assert(setting("expected_drivers = "@, "[\"coretemp\", \"amdgpu\"]"@, ""@) == "expected_drivers = [\"coretemp\", \"amdgpu\"]"@) by {
        reveal_strlit("expected_drivers = ");
        reveal_strlit("");
        reveal_strlit("expected_drivers = [\"coretemp\", \"amdgpu\"]");
        reveal_strlit("[\"coretemp\", \"amdgpu\"]");
        assert(setting("expected_drivers = "@, "[\"coretemp\", \"amdgpu\"]"@, ""@) =~= "expected_drivers = [\"coretemp\", \"amdgpu\"]"@);
    }
    assert(setting("initial_percent = "@, decimal(60), ""@) == "initial_percent = 60"@) by {
        reveal_strlit("initial_percent = ");
        reveal_strlit("");
        reveal_strlit("initial_percent = 60");
        lemma_two_digits(60);
        assert(setting("initial_percent = "@, decimal(60), ""@) =~= "initial_percent = 60"@);
    }
    assert(setting("escalated_percent = "@, decimal(80), ""@) == "escalated_percent = 80"@) by {
        reveal_strlit("escalated_percent = ");
        reveal_strlit("");
        reveal_strlit("escalated_percent = 80");
        lemma_two_digits(80);
        assert(setting("escalated_percent = "@, decimal(80), ""@) =~= "escalated_percent = 80"@);
    }
    assert(setting("escalation_delay = "@, decimal(60), ""@) == "escalation_delay = 60"@) by {
        reveal_strlit("escalation_delay = ");
        reveal_strlit("");
        reveal_strlit("escalation_delay = 60");
        lemma_two_digits(60);
        assert(setting("escalation_delay = "@, decimal(60), ""@) =~= "escalation_delay = 60"@);
    }
    let l0 = Seq::<Seq<char>>::empty();
    let l1 = l0.push("[degraded]"@);
    lemma_contents_push(l0, "[degraded]"@);
    let l2 = l1.push("expected_drivers = [\"coretemp\", \"amdgpu\"]"@);
    lemma_contents_push(l1, "expected_drivers = [\"coretemp\", \"amdgpu\"]"@);
    let l3 = l2.push("initial_percent = 60"@);
    lemma_contents_push(l2, "initial_percent = 60"@);
    let l4 = l3.push("escalated_percent = 80"@);
    lemma_contents_push(l3, "escalated_percent = 80"@);
    let l5 = l4.push("escalation_delay = 60"@);
    lemma_contents_push(l4, "escalation_delay = 60"@);
    assert(toml_degraded(g) == l5);
}

proof fn lemma_drivers()
    ensures
        toml_array(standard_degraded().expected_drivers) == "[\"coretemp\", \"amdgpu\"]"@,
{
    reveal_strlit("coretemp");
    reveal_strlit("amdgpu");
    reveal_strlit("\"");
    reveal_strlit(", ");
    reveal_strlit("[");
    reveal_strlit("]");
    reveal_strlit("[\"coretemp\", \"amdgpu\"]");
    let parts = all_quoted(standard_degraded().expected_drivers);
    let first = quoted("coretemp"@);
    let second = quoted("amdgpu"@);
    assert(parts =~= seq![first, second]);
    assert(parts.drop_last() =~= seq![first]);
    assert(joined(seq![first], ", "@) == first);
    assert(joined(parts, ", "@) == first + ", "@ + second);
    assert("["@ + (first + ", "@ + second) + "]"@ =~= "[\"coretemp\", \"amdgpu\"]"@);
}

proof fn lemma_sample_fan()
    ensures
        contents(template_sample_fan()) == Seq::<Seq<char>>::empty(),
        every(template_sample_fan(), plain()),
{
    reveal_strlit("");
    assert(silent("# [fan.fan0]"@)) by {
        reveal_strlit("# [fan.fan0]");
    }
    assert(silent("# low_temp = 55       # override defaults for this fan"@)) by {
        reveal_strlit("# low_temp = 55       # override defaults for this fan");
    }
    assert(silent("# high_temp = 75"@)) by {
        reveal_strlit("# high_temp = 75");
    }
    assert(silent("# speed_curve = \"linear\""@)) by {
        reveal_strlit("# speed_curve = \"linear\"");
    }
    assert(silent("# always_full_speed = false"@)) by {
        reveal_strlit("# always_full_speed = false");
    }
    assert(silent("# sensor_aggregation = \"max\""@)) by {
        reveal_strlit("# sensor_aggregation = \"max\"");
    }
    assert(silent("# ramp_down_rate = 1.0"@)) by {
        reveal_strlit("# ramp_down_rate = 1.0");
    }
    assert(silent("# sensors = []        # list sensor names; omit to use max(all sensors)"@)) by {
        reveal_strlit("# sensors = []        # list sensor names; omit to use max(all sensors)");
    }
    let lines = template_sample_fan();
    assert forall|i: int| 0 <= i < lines.len() implies silent(#[trigger] lines[i]) by {
    }
    lemma_silent_lines(lines);
}

proof fn lemma_fan_comments()
    ensures
        contents(template_fan_comments()) == Seq::<Seq<char>>::empty(),
        every(template_fan_comments(), plain()),
{
    reveal_strlit("");
    assert(silent("# low_temp = 55"@)) by {
        reveal_strlit("# low_temp = 55");
    }
    assert(silent("# high_temp = 75"@)) by {
        reveal_strlit("# high_temp = 75");
    }
    assert(silent("# speed_curve = \"linear\""@)) by {
        reveal_strlit("# speed_curve = \"linear\"");
    }
    assert(silent("# always_full_speed = false"@)) by {
        reveal_strlit("# always_full_speed = false");
    }
    assert(silent("# sensor_aggregation = \"max\""@)) by {
        reveal_strlit("# sensor_aggregation = \"max\"");
    }
    assert(silent("# ramp_down_rate = 1.0"@)) by {
        reveal_strlit("# ramp_down_rate = 1.0");
    }
    assert(silent("# sensors = []"@)) by {
        reveal_strlit("# sensors = []");
    }
    let lines = template_fan_comments();
    assert forall|i: int| 0 <= i < lines.len() implies silent(#[trigger] lines[i]) by {
    }
    lemma_silent_lines(lines);
}

proof fn lemma_available_sensors(sensors: Seq<Seq<char>>)
    requires
        every(sensors, plain()),
    ensures
        contents(available_sensors(sensors)) == Seq::<Seq<char>>::empty(),
        every(available_sensors(sensors), plain()),
{
    let lines = available_sensors(sensors);
    let names = sensor_comments(sensors);
    assert(silent("# Available sensors:"@)) by {
        reveal_strlit("# Available sensors:");
    }
    assert(silent(""@)) by {
        reveal_strlit("");
    }
    assert forall|i: int| 0 <= i < names.len() implies silent(#[trigger] names[i]) by {
        reveal_strlit("#   \"");
        reveal_strlit("\"");
        assert(plain()(sensors[i]));
        lemma_plain_added("#   \""@, sensors[i]);
        lemma_plain_added("#   \""@ + sensors[i], "\""@);
        assert(names[i][0] == '#');
    }
    assert forall|i: int| 0 <= i < lines.len() implies silent(#[trigger] lines[i]) by {
        if 0 < i && i < lines.len() - 1 {
            assert(lines[i] == names[i - 1]);
        }
    }
    lemma_silent_lines(lines);
}

/// The section of a fan says what one without a setting does.
proof fn lemma_fan(name: Seq<char>)
    requires
        plain()(name),
    ensures
        contents(template_fan(name)) == contents(toml_fan(name, no_overrides())),
        every(template_fan(name), plain()),
{
    let header = seq![toml_fan_header(name)];
    let none = Seq::<Seq<char>>::empty();
    lemma_fan_comments();
    lemma_contents_added(header, template_fan_comments());
    assert(plain()(toml_fan_header(name))) by {
        reveal_strlit("[fan.");
        reveal_strlit("]");
        lemma_plain_added("[fan."@, name);
        lemma_plain_added("[fan."@ + name, "]"@);
    }
    lemma_every_added(header, template_fan_comments(), plain());
    assert(template_fan(name) == header + template_fan_comments());
    assert(toml_settings(no_overrides()) =~= none);
    reveal_strlit("");
    lemma_silent(""@);
    assert(toml_fan(name, no_overrides()) =~= header.push(""@));
    lemma_contents_push(header, ""@);
    assert(contents(header) + none =~= contents(header));
}

proof fn lemma_fans(fans: Seq<Seq<char>>)
    requires
        every(fans, plain()),
    ensures
        contents(template_fans(fans)) == contents(toml_fans(bare_sections(fans))),
        every(template_fans(fans), plain()),
    decreases fans.len(),
{
    if fans.len() > 0 {
        let before = fans.drop_last();
        let name = fans.last();
        assert forall|i: int| 0 <= i < before.len() implies plain()(#[trigger] before[i]) by {
            assert(before[i] == fans[i]);
        }
        assert(plain()(fans[fans.len() - 1]));
        lemma_fans(before);
        lemma_fan(name);
        lemma_contents_added(template_fans(before), template_fan(name));
        lemma_every_added(template_fans(before), template_fan(name), plain());
        assert(bare_sections(fans).drop_last() =~= bare_sections(before));
        lemma_contents_added(toml_fans(bare_sections(before)), toml_fan(name, no_overrides()));
    }
}

/// The lines of the file, and what they say.
proof fn lemma_template(sensors: Seq<Seq<char>>, fans: Seq<Seq<char>>)
    requires
        every(sensors, plain()),
        every(fans, plain()),
    ensures
        every(template_lines(sensors, fans), plain()),
        contents(template_lines(sensors, fans)) == said_defaults() + contents(
            toml_fans(bare_sections(fans)),
        ) + said_degraded(),
{
    let none = Seq::<Seq<char>>::empty();
    let fan_lines = template_fans(fans);
    let middle = if sensors.len() == 0 && fans.len() == 0 {
        template_sample_fan()
    } else {
        available_sensors(sensors) + fan_lines
    };
    lemma_fans(fans);
    assert(contents(middle) == contents(fan_lines) && every(middle, plain())) by {
        if sensors.len() == 0 && fans.len() == 0 {
            lemma_sample_fan();
        } else {
            lemma_available_sensors(sensors);
            lemma_contents_added(available_sensors(sensors), fan_lines);
            lemma_every_added(available_sensors(sensors), fan_lines, plain());
            assert(none + contents(fan_lines) =~= contents(fan_lines));
        }
    }
    lemma_head();
    lemma_degraded();
    lemma_contents_added(template_head(), middle);
    lemma_contents_added(template_head() + middle, template_degraded());
    lemma_every_added(template_head(), middle, plain());
    lemma_every_added(template_head() + middle, template_degraded(), plain());
}

proof fn lemma_split_contents(lines: Seq<Seq<char>>, text: Seq<char>)
    requires
        text == unlines(lines),
        every(lines, plain()),
    ensures
        contents(split(text, '\n')) == contents(lines),
{
    assert forall|i: int| 0 <= i < lines.len() implies !(#[trigger] lines[i]).contains('\n') by {
        assert(plain()(lines[i]));
    }
    law_lines_split_back(lines);
    lemma_contents_push(lines, Seq::empty());
}

/// The file that is written where there is none says what the standard values, with a section
/// without settings for each fan, are written as: without their comments and without the blank
/// ones, the lines of the two texts are equal.
pub proof fn law_template_says_the_standard_values(sensors: Seq<Seq<char>>, fans: Seq<Seq<char>>)
    requires
        every(sensors, plain()),
        every(fans, plain()),
    ensures
        contents(split(config_template(sensors, fans), '\n')) == contents(
            split(toml_text(written_defaults(), bare_sections(fans), standard_degraded()), '\n'),
        ),
{
    let entries = bare_sections(fans);
    let lines = toml_lines(written_defaults(), entries, standard_degraded());
    lemma_template(sensors, fans);
    lemma_split_contents(template_lines(sensors, fans), config_template(sensors, fans));
    lemma_written_defaults();
    lemma_written_degraded();
    let a = toml_defaults(written_defaults());
    let b = toml_fans(entries);
    lemma_contents_added(a, b);
    lemma_contents_added(a + b, toml_degraded(standard_degraded()));
    assert forall|i: int| 0 <= i < entries.len() implies plain_fan()(
        #[trigger] entries[i],
    ) by {
        assert(plain()(fans[i]));
    }
    reveal_strlit("1.0");
    reveal_strlit("coretemp");
    reveal_strlit("amdgpu");
    lemma_toml_plain(written_defaults(), entries, standard_degraded());
    lemma_split_contents(
        lines,
        toml_text(written_defaults(), entries, standard_degraded()),
    );
}

} // verus!
