//! What a written configuration says, line by line.
use vstd::prelude::*;

use crate::config::{DefaultsView, DegradedView, FanView};
use crate::text::{decimal, joined, unlines};
use crate::wizard::format::{aggregation_value, all_quoted, array_value, curve_value, float_value, nix_defaults, nix_degraded, nix_fan, nix_fans, nix_float, nix_items, nix_lines, nix_text, opt_setting, temp_value, toml_array, toml_defaults, toml_degraded, toml_fan, toml_fans, toml_lines, toml_text};

verus! {

/// A line where it is wanted, and none where it is not.
pub open spec fn when(wanted: bool, line: Seq<char>) -> Seq<Seq<char>> {
    if wanted {
        seq![line]
    } else {
        Seq::empty()
    }
}

/// Texts in quotation marks, with commas between and brackets around.
pub open spec fn listed(list: Seq<Seq<char>>) -> Seq<char> {
    "["@ + joined(Seq::new(list.len(), |i: int| "\""@ + list[i] + "\""@), ", "@) + "]"@
}

/// Texts in quotation marks, each on a line of its own.
pub open spec fn each_quoted(indent: Seq<char>, list: Seq<Seq<char>>) -> Seq<Seq<char>> {
    Seq::new(list.len(), |i: int| indent + ("\""@ + list[i] + "\""@))
}

/// A rate with a point, and `.0` where it has none.
pub open spec fn with_point(rate: Seq<char>) -> Seq<char> {
    if exists|i: int| 0 <= i < rate.len() && rate[i] == '.' {
        rate
    } else {
        rate + ".0"@
    }
}

proof fn lemma_with_point(rate: Seq<char>)
    ensures
        nix_float(rate) == with_point(rate),
{
}

proof fn lemma_listed(list: Seq<Seq<char>>)
    ensures
        toml_array(list) == listed(list),
{
    assert(all_quoted(list) =~= Seq::new(list.len(), |i: int| "\""@ + list[i] + "\""@));
}

proof fn lemma_no_end(s: Seq<char>)
    ensures
        s + ""@ == s,
{
    reveal_strlit("");
    assert(s + ""@ =~= s);
}

proof fn lemma_plain_option(key: Seq<char>, value: Option<Seq<char>>)
    ensures
        value matches Some(v) ==> opt_setting(key, value, ""@) == seq![key + v],
        value is None ==> opt_setting(key, value, ""@) == Seq::<Seq<char>>::empty(),
{
    if value is Some {
        lemma_no_end(key + value->0);
    }
}

/// The section of a fan in TOML: its header, a line for each value that it sets and none for the
/// others, and a blank line.
pub proof fn law_toml_section_says_what_is_set(name: Seq<char>, fan: FanView)
    ensures
        ({
            let low = when(
                fan.low_temp is Some,
                "low_temp = "@ + decimal(fan.low_temp->0 as nat),
            );
            let high = when(
                fan.high_temp is Some,
                "high_temp = "@ + decimal(fan.high_temp->0 as nat),
            );
            let curve = when(
                fan.speed_curve is Some,
                "speed_curve = "@ + ("\""@ + fan.speed_curve->0.text() + "\""@),
            );
            let method = when(
                fan.sensor_aggregation is Some,
                "sensor_aggregation = "@ + ("\""@ + fan.sensor_aggregation->0.text() + "\""@),
            );
            let rate = when(
                fan.ramp_down_rate is Some,
                "ramp_down_rate = "@ + fan.ramp_down_rate->0,
            );
            let sensors = when(fan.sensors is Some, "sensors = "@ + listed(fan.sensors->0));
            toml_fan(name, fan) == seq!["[fan."@ + name + "]"@] + (low + high + curve + method
                + rate + sensors) + seq![""@]
        }),
{
    let low = when(
        fan.low_temp is Some,
        "low_temp = "@ + decimal(fan.low_temp->0 as nat),
    );
    let high = when(
        fan.high_temp is Some,
        "high_temp = "@ + decimal(fan.high_temp->0 as nat),
    );
    let curve = when(
        fan.speed_curve is Some,
        "speed_curve = "@ + ("\""@ + fan.speed_curve->0.text() + "\""@),
    );
    let method = when(
        fan.sensor_aggregation is Some,
        "sensor_aggregation = "@ + ("\""@ + fan.sensor_aggregation->0.text() + "\""@),
    );
    let rate = when(
        fan.ramp_down_rate is Some,
        "ramp_down_rate = "@ + fan.ramp_down_rate->0,
    );
    let sensors = when(fan.sensors is Some, "sensors = "@ + listed(fan.sensors->0));
    assert(opt_setting("low_temp = "@, temp_value(fan.low_temp), ""@) =~= low) by {
        lemma_plain_option("low_temp = "@, temp_value(fan.low_temp));
    }
    assert(opt_setting("high_temp = "@, temp_value(fan.high_temp), ""@) =~= high) by {
        lemma_plain_option("high_temp = "@, temp_value(fan.high_temp));
    }
    assert(opt_setting("speed_curve = "@, curve_value(fan.speed_curve), ""@) =~= curve) by {
        lemma_plain_option("speed_curve = "@, curve_value(fan.speed_curve));
    }
    assert(opt_setting("sensor_aggregation = "@, aggregation_value(fan.sensor_aggregation), ""@) =~= method) by {
        lemma_plain_option("sensor_aggregation = "@, aggregation_value(fan.sensor_aggregation));
    }
    assert(opt_setting("ramp_down_rate = "@, fan.ramp_down_rate, ""@) =~= rate) by {
        lemma_plain_option("ramp_down_rate = "@, fan.ramp_down_rate);
    }
    assert(opt_setting("sensors = "@, array_value(fan.sensors), ""@) =~= sensors) by {
        lemma_plain_option("sensors = "@, array_value(fan.sensors));
        if fan.sensors is Some {
            lemma_listed(fan.sensors->0);
        }
    }
}

/// The attribute set of a fan in Nix: a line for each value that it sets and none for the others.
pub proof fn law_nix_set_says_what_is_set(name: Seq<char>, fan: FanView)
    ensures
        ({
            let low = when(
                fan.low_temp is Some,
                "        low_temp = "@ + decimal(fan.low_temp->0 as nat) + ";"@,
            );
            let high = when(
                fan.high_temp is Some,
                "        high_temp = "@ + decimal(fan.high_temp->0 as nat) + ";"@,
            );
            let curve = when(
                fan.speed_curve is Some,
                "        speed_curve = "@ + ("\""@ + fan.speed_curve->0.text() + "\""@) + ";"@,
            );
            let method = when(
                fan.sensor_aggregation is Some,
                "        sensor_aggregation = "@ + ("\""@ + fan.sensor_aggregation->0.text() + "\""@) + ";"@,
            );
            let rate = when(
                fan.ramp_down_rate is Some,
                "        ramp_down_rate = "@ + with_point(fan.ramp_down_rate->0) + ";"@,
            );
            let sensors = if fan.sensors is Some {
                seq!["        sensors = ["@] + each_quoted("          "@, fan.sensors->0) + seq![
                    "        ];"@,
                ]
            } else {
                Seq::empty()
            };
            nix_fan(name, fan) == seq!["      "@ + name + " = {"@] + (low + high + curve + method
                + rate + sensors) + seq!["      };"@]
        }),
{
    let low = when(
        fan.low_temp is Some,
        "        low_temp = "@ + decimal(fan.low_temp->0 as nat) + ";"@,
    );
    let high = when(
        fan.high_temp is Some,
        "        high_temp = "@ + decimal(fan.high_temp->0 as nat) + ";"@,
    );
    let curve = when(
        fan.speed_curve is Some,
        "        speed_curve = "@ + ("\""@ + fan.speed_curve->0.text() + "\""@) + ";"@,
    );
    let method = when(
        fan.sensor_aggregation is Some,
        "        sensor_aggregation = "@ + ("\""@ + fan.sensor_aggregation->0.text() + "\""@) + ";"@,
    );
    let rate = when(
        fan.ramp_down_rate is Some,
        "        ramp_down_rate = "@ + with_point(fan.ramp_down_rate->0) + ";"@,
    );
    assert(opt_setting("        low_temp = "@, temp_value(fan.low_temp), ";"@) =~= low) by {
    }
    assert(opt_setting("        high_temp = "@, temp_value(fan.high_temp), ";"@) =~= high) by {
    }
    assert(opt_setting("        speed_curve = "@, curve_value(fan.speed_curve), ";"@) =~= curve) by {
    }
    assert(opt_setting("        sensor_aggregation = "@, aggregation_value(fan.sensor_aggregation), ";"@) =~= method) by {
    }
    assert(opt_setting("        ramp_down_rate = "@, float_value(fan.ramp_down_rate), ";"@) =~= rate) by {
        if fan.ramp_down_rate is Some {
            lemma_with_point(fan.ramp_down_rate->0);
        }
    }
    if fan.sensors is Some {
        assert(nix_items("          "@, fan.sensors->0) =~= each_quoted(
            "          "@,
            fan.sensors->0,
        ));
    }
}

/// The defaults in TOML hold each value under its name.
pub proof fn law_toml_defaults_say_the_values(d: DefaultsView)
    ensures
        toml_defaults(d) == seq![
            "# macprot2fans configuration file"@,
            ""@,
            "[defaults]"@,
            "low_temp = "@ + decimal(d.low_temp as nat),
            "high_temp = "@ + decimal(d.high_temp as nat),
            "speed_curve = "@ + ("\""@ + d.speed_curve.text() + "\""@),
            "always_full_speed = "@ + (if d.always_full_speed { "true"@ } else { "false"@ }),
            "sensor_aggregation = "@ + ("\""@ + d.sensor_aggregation.text() + "\""@),
            "ramp_down_rate = "@ + d.ramp_down_rate,
            ""@,
        ],
{
    lemma_no_end("low_temp = "@ + decimal(d.low_temp as nat));
    lemma_no_end("high_temp = "@ + decimal(d.high_temp as nat));
    lemma_no_end("speed_curve = "@ + ("\""@ + d.speed_curve.text() + "\""@));
    lemma_no_end("always_full_speed = "@ + (if d.always_full_speed { "true"@ } else { "false"@ }));
    lemma_no_end("sensor_aggregation = "@ + ("\""@ + d.sensor_aggregation.text() + "\""@));
    lemma_no_end("ramp_down_rate = "@ + d.ramp_down_rate);
}

/// Degraded mode in TOML holds each value under its name.
pub proof fn law_toml_degraded_says_the_values(g: DegradedView)
    ensures
        toml_degraded(g) == seq![
            "[degraded]"@,
            "expected_drivers = "@ + listed(g.expected_drivers),
            "initial_percent = "@ + decimal(g.initial_percent as nat),
            "escalated_percent = "@ + decimal(g.escalated_percent as nat),
            "escalation_delay = "@ + decimal(g.escalation_delay as nat),
        ],
{
    lemma_listed(g.expected_drivers);
    lemma_no_end("expected_drivers = "@ + listed(g.expected_drivers));
    lemma_no_end("initial_percent = "@ + decimal(g.initial_percent as nat));
    lemma_no_end("escalated_percent = "@ + decimal(g.escalated_percent as nat));
    lemma_no_end("escalation_delay = "@ + decimal(g.escalation_delay as nat));
}

/// The defaults in Nix hold each value under its name.
pub proof fn law_nix_defaults_say_the_values(d: DefaultsView)
    ensures
        nix_defaults(d) == seq![
            "{"@,
            "  services.macprot2fans = {"@,
            "    enable = true;"@,
            ""@,
            "    defaults = {"@,
            "      low_temp = "@ + decimal(d.low_temp as nat) + ";"@,
            "      high_temp = "@ + decimal(d.high_temp as nat) + ";"@,
            "      speed_curve = "@ + ("\""@ + d.speed_curve.text() + "\""@) + ";"@,
            "      always_full_speed = "@ + (if d.always_full_speed { "true"@ } else { "false"@ }) + ";"@,
            "      sensor_aggregation = "@ + ("\""@ + d.sensor_aggregation.text() + "\""@) + ";"@,
            "      ramp_down_rate = "@ + with_point(d.ramp_down_rate) + ";"@,
            "    };"@,
            ""@,
        ],
{
    lemma_with_point(d.ramp_down_rate);
}

/// Degraded mode in Nix holds each value under its name.
pub proof fn law_nix_degraded_says_the_values(g: DegradedView)
    ensures
        nix_degraded(g) == seq!["    degraded = {"@, "      expected_drivers = ["@] + each_quoted(
            "        "@,
            g.expected_drivers,
        ) + seq![
            "      ];"@,
            "      initial_percent = "@ + decimal(g.initial_percent as nat) + ";"@,
            "      escalated_percent = "@ + decimal(g.escalated_percent as nat) + ";"@,
            "      escalation_delay = "@ + decimal(g.escalation_delay as nat) + ";"@,
            "    };"@,
            "  };"@,
            "}"@,
        ],
{
    assert(nix_items("        "@, g.expected_drivers) =~= each_quoted(
        "        "@,
        g.expected_drivers,
    ));
}

/// A configuration in TOML is its defaults, the sections of its fans in order, and degraded mode.
pub proof fn law_toml_has_its_parts_in_order(
    defaults: DefaultsView,
    entries: Seq<(Seq<char>, FanView)>,
    name: Seq<char>,
    fan: FanView,
    degraded: DegradedView,
)
    ensures
        toml_lines(defaults, Seq::<(Seq<char>, FanView)>::empty(), degraded) == toml_defaults(
            defaults,
        ) + toml_degraded(degraded),
        toml_lines(defaults, entries.push((name, fan)), degraded) == toml_defaults(defaults)
            + toml_fans(entries) + toml_fan(name, fan) + toml_degraded(degraded),
        toml_fans(Seq::<(Seq<char>, FanView)>::empty()) == Seq::<Seq<char>>::empty(),
        toml_fans(entries.push((name, fan))) == toml_fans(entries) + toml_fan(name, fan),
        toml_text(defaults, entries, degraded) == unlines(toml_lines(defaults, entries, degraded)),
{
    let none = Seq::<(Seq<char>, FanView)>::empty();
    assert(entries.push((name, fan)).drop_last() =~= entries);
    assert(toml_lines(defaults, none, degraded) =~= toml_defaults(defaults) + toml_degraded(
        degraded,
    ));
    assert(toml_lines(defaults, entries.push((name, fan)), degraded) =~= toml_defaults(defaults)
        + toml_fans(entries) + toml_fan(name, fan) + toml_degraded(degraded));
}

/// A configuration in Nix is its defaults, the block of its fans in order if there are any, and
/// degraded mode.
pub proof fn law_nix_has_its_parts_in_order(
    defaults: DefaultsView,
    entries: Seq<(Seq<char>, FanView)>,
    name: Seq<char>,
    fan: FanView,
    degraded: DegradedView,
)
    ensures
        nix_lines(defaults, Seq::<(Seq<char>, FanView)>::empty(), degraded) == nix_defaults(
            defaults,
        ) + nix_degraded(degraded),
        nix_lines(defaults, entries.push((name, fan)), degraded) == nix_defaults(defaults)
            + seq!["    fans = {"@] + nix_fans(entries) + nix_fan(name, fan) + seq![
            "    };"@,
            ""@,
        ] + nix_degraded(degraded),
        nix_fans(Seq::<(Seq<char>, FanView)>::empty()) == Seq::<Seq<char>>::empty(),
        nix_fans(entries.push((name, fan))) == nix_fans(entries) + nix_fan(name, fan),
        nix_text(defaults, entries, degraded) == unlines(nix_lines(defaults, entries, degraded)),
{
    let none = Seq::<(Seq<char>, FanView)>::empty();
    assert(entries.push((name, fan)).drop_last() =~= entries);
    assert(nix_lines(defaults, none, degraded) =~= nix_defaults(defaults) + nix_degraded(degraded));
    assert(nix_lines(defaults, entries.push((name, fan)), degraded) =~= nix_defaults(defaults)
        + seq!["    fans = {"@] + nix_fans(entries) + nix_fan(name, fan) + seq!["    };"@, ""@]
        + nix_degraded(degraded));
}

} // verus!
