//! Writing a configuration as TOML and as a NixOS module.
use vstd::prelude::*;

use crate::config::{entry_map, in_name_order, law_entries_are_decided_by_the_map, opt_texts, DefaultsConfig, DefaultsView, DegradedConfig, DegradedView, FanView, RawConfig, RawFanConfig, SensorAggregation, SpeedCurve};
use crate::text::{contains_char, decimal, decimal_text, joined, opt_text, put_line, texts, unlines, unlines_text};

verus! {

/// `true` or `false`.
pub open spec fn bool_text(b: bool) -> Seq<char> {
    if b {
        "true"@
    } else {
        "false"@
    }
}

fn write_bool(b: bool) -> (r: &'static str)
    ensures
        r@ == bool_text(b),
{
    if b {
        "true"
    } else {
        "false"
    }
}

/// The text in quotation marks.
pub open spec fn quoted(s: Seq<char>) -> Seq<char> {
    "\""@ + s + "\""@
}

fn quote(s: &str) -> (r: String)
    ensures
        r@ == quoted(s@),
{
    let mut out = "\"".to_string();
    out.append(s);
    out.append("\"");
    out
}

/// A line with a setting.
pub open spec fn setting(key: Seq<char>, value: Seq<char>, end: Seq<char>) -> Seq<char> {
    key + value + end
}

/// The line of a setting that is there only if it has a value.
pub open spec fn opt_setting(key: Seq<char>, value: Option<Seq<char>>, end: Seq<char>) -> Seq<
    Seq<char>,
> {
    match value {
        Some(v) => seq![setting(key, v, end)],
        None => Seq::empty(),
    }
}

fn put_setting(lines: &mut Vec<String>, key: &str, value: &str, end: &str)
    ensures
        texts(final(lines)@) == texts(old(lines)@).push(setting(key@, value@, end@)),
{
    let mut line = key.to_string();
    line.append(value);
    line.append(end);
    put_line(lines, line.as_str());
}

fn put_opt_setting(lines: &mut Vec<String>, key: &str, value: Option<String>, end: &str)
    ensures
        texts(final(lines)@) == texts(old(lines)@) + opt_setting(key@, opt_text(value), end@),
{
    let ghost before = texts(lines@);
    match value {
        Some(v) => {
            put_setting(lines, key, v.as_str(), end);
        },
        None => {},
    }
    assert(texts(lines@) =~= before + opt_setting(key@, opt_text(value), end@));
}

proof fn lemma_appended(start: Seq<Seq<char>>, done: Seq<Seq<char>>, more: Seq<Seq<char>>)
    ensures
        start + done + more == start + (done + more),
{
    assert(start + done + more =~= start + (done + more));
}

/// A temperature in decimal.
pub open spec fn temp_value(temp: Option<u8>) -> Option<Seq<char>> {
    match temp {
        Some(t) => Some(decimal(t as nat)),
        None => None,
    }
}

fn write_temp(temp: Option<u8>) -> (r: Option<String>)
    ensures
        opt_text(r) == temp_value(temp),
{
    match temp {
        Some(t) => Some(decimal_text(t as u64)),
        None => None,
    }
}

/// The name of a curve.
pub open spec fn curve_value(curve: Option<SpeedCurve>) -> Option<Seq<char>> {
    match curve {
        Some(c) => Some(quoted(c.text())),
        None => None,
    }
}

fn write_curve(curve: Option<SpeedCurve>) -> (r: Option<String>)
    ensures
        opt_text(r) == curve_value(curve),
{
    match curve {
        Some(c) => Some(quote(c.name())),
        None => None,
    }
}

/// The name of a method.
pub open spec fn aggregation_value(method: Option<SensorAggregation>) -> Option<Seq<char>> {
    match method {
        Some(m) => Some(quoted(m.text())),
        None => None,
    }
}

fn write_aggregation(method: Option<SensorAggregation>) -> (r: Option<String>)
    ensures
        opt_text(r) == aggregation_value(method),
{
    match method {
        Some(m) => Some(quote(m.name())),
        None => None,
    }
}

/// Each text in quotation marks.
pub open spec fn all_quoted(list: Seq<Seq<char>>) -> Seq<Seq<char>> {
    Seq::new(list.len(), |i: int| quoted(list[i]))
}

/// A TOML array of strings.
pub open spec fn toml_array(list: Seq<Seq<char>>) -> Seq<char> {
    "["@ + joined(all_quoted(list), ", "@) + "]"@
}

fn write_toml_array(list: &Vec<String>) -> (r: String)
    ensures
        r@ == toml_array(texts(list@)),
{
    let ghost all = all_quoted(texts(list@));
    let mut items = String::new();
    let mut i: usize = 0;
    assert(all.take(0) == Seq::<Seq<char>>::empty());
    while i < list.len()
        invariant
            i <= list.len(),
            all == all_quoted(texts(list@)),
            items@ == joined(all.take(i as int), ", "@),
        decreases list.len() - i,
    {
        let item = quote(list[i].as_str());
        assert(item@ == all[i as int]);
        assert(all.take(i + 1).drop_last() == all.take(i as int));
        assert(all.take(i + 1).last() == item@);
        if i == 0 {
            assert(all.take(1)[0] == item@);
            items = item;
        } else {
            items.append(", ");
            items.append(item.as_str());
        }
        i = i + 1;
    }
    assert(all.take(i as int) == all);
    let mut out = "[".to_string();
    out.append(items.as_str());
    out.append("]");
    out
}

/// The names of sensors as a TOML array.
pub open spec fn array_value(list: Option<Seq<Seq<char>>>) -> Option<Seq<char>> {
    match list {
        Some(names) => Some(toml_array(names)),
        None => None,
    }
}

fn write_array(list: &Option<Vec<String>>) -> (r: Option<String>)
    ensures
        opt_text(r) == array_value(opt_texts(*list)),
{
    match list {
        Some(names) => Some(write_toml_array(names)),
        None => None,
    }
}

/// What a fan overrides, in TOML.
pub open spec fn toml_settings(fan: FanView) -> Seq<Seq<char>> {
    opt_setting("low_temp = "@, temp_value(fan.low_temp), ""@) + opt_setting(
        "high_temp = "@,
        temp_value(fan.high_temp),
        ""@,
    ) + opt_setting("speed_curve = "@, curve_value(fan.speed_curve), ""@) + opt_setting(
        "sensor_aggregation = "@,
        aggregation_value(fan.sensor_aggregation),
        ""@,
    ) + opt_setting("ramp_down_rate = "@, fan.ramp_down_rate, ""@) + opt_setting(
        "sensors = "@,
        array_value(fan.sensors),
        ""@,
    )
}

/// The header of the section of a fan in TOML.
pub open spec fn toml_fan_header(name: Seq<char>) -> Seq<char> {
    setting("[fan."@, name, "]"@)
}

/// The section of a fan in TOML.
pub open spec fn toml_fan(name: Seq<char>, fan: FanView) -> Seq<Seq<char>> {
    seq![toml_fan_header(name)] + toml_settings(fan) + seq![""@]
}

fn put_toml_settings(lines: &mut Vec<String>, fan: &RawFanConfig)
    ensures
        texts(final(lines)@) == texts(old(lines)@) + toml_settings(fan@),
{
    let ghost start = texts(lines@);
    put_opt_setting(lines, "low_temp = ", write_temp(fan.low_temp), "");
    let ghost s0 = opt_setting("low_temp = "@, temp_value(fan.low_temp), ""@);
    let ghost d0 = s0;
    put_opt_setting(lines, "high_temp = ", write_temp(fan.high_temp), "");
    let ghost s1 = opt_setting("high_temp = "@, temp_value(fan.high_temp), ""@);
    let ghost d1 = d0 + s1;
    proof {
        lemma_appended(start, d0, s1);
    }
    put_opt_setting(lines, "speed_curve = ", write_curve(fan.speed_curve), "");
    let ghost s2 = opt_setting("speed_curve = "@, curve_value(fan.speed_curve), ""@);
    let ghost d2 = d1 + s2;
    proof {
        lemma_appended(start, d1, s2);
    }
    put_opt_setting(lines, "sensor_aggregation = ", write_aggregation(fan.sensor_aggregation), "");
    let ghost s3 = opt_setting("sensor_aggregation = "@, aggregation_value(fan.sensor_aggregation), ""@);
    let ghost d3 = d2 + s3;
    proof {
        lemma_appended(start, d2, s3);
    }
    put_opt_setting(lines, "ramp_down_rate = ", fan.ramp_down_rate.clone(), "");
    let ghost s4 = opt_setting("ramp_down_rate = "@, fan@.ramp_down_rate, ""@);
    let ghost d4 = d3 + s4;
    proof {
        lemma_appended(start, d3, s4);
    }
    put_opt_setting(lines, "sensors = ", write_array(&fan.sensors), "");
    let ghost s5 = opt_setting("sensors = "@, array_value(fan@.sensors), ""@);
    let ghost d5 = d4 + s5;
    proof {
        lemma_appended(start, d4, s5);
    }
}

fn put_toml_fan(lines: &mut Vec<String>, name: &str, fan: &RawFanConfig)
    ensures
        texts(final(lines)@) == texts(old(lines)@) + toml_fan(name@, fan@),
{
    let ghost start = texts(lines@);
    put_setting(lines, "[fan.", name, "]");
    put_toml_settings(lines, fan);
    put_line(lines, "");
    assert(texts(lines@) =~= start + toml_fan(name@, fan@));
}

/// The sections of the fans in TOML.
pub open spec fn toml_fans(entries: Seq<(Seq<char>, FanView)>) -> Seq<Seq<char>>
    decreases entries.len(),
{
    if entries.len() == 0 {
        Seq::empty()
    } else {
        toml_fans(entries.drop_last()) + toml_fan(entries.last().0, entries.last().1)
    }
}

/// The defaults in TOML.
pub open spec fn toml_defaults(d: DefaultsView) -> Seq<Seq<char>> {
    seq![
        "# macprot2fans configuration file"@,
        ""@,
        "[defaults]"@,
        setting("low_temp = "@, decimal(d.low_temp as nat), ""@),
        setting("high_temp = "@, decimal(d.high_temp as nat), ""@),
        setting("speed_curve = "@, quoted(d.speed_curve.text()), ""@),
        setting("always_full_speed = "@, bool_text(d.always_full_speed), ""@),
        setting("sensor_aggregation = "@, quoted(d.sensor_aggregation.text()), ""@),
        setting("ramp_down_rate = "@, d.ramp_down_rate, ""@),
        ""@,
    ]
}

fn put_toml_defaults(lines: &mut Vec<String>, d: &DefaultsConfig)
    ensures
        texts(final(lines)@) == texts(old(lines)@) + toml_defaults(d@),
{
    let ghost start = texts(lines@);
    put_line(lines, "# macprot2fans configuration file");
    put_line(lines, "");
    put_line(lines, "[defaults]");
    put_setting(lines, "low_temp = ", decimal_text(d.low_temp as u64).as_str(), "");
    put_setting(lines, "high_temp = ", decimal_text(d.high_temp as u64).as_str(), "");
    put_setting(lines, "speed_curve = ", quote(d.speed_curve.name()).as_str(), "");
    put_setting(lines, "always_full_speed = ", write_bool(d.always_full_speed), "");
    put_setting(lines, "sensor_aggregation = ", quote(d.sensor_aggregation.name()).as_str(), "");
    put_setting(lines, "ramp_down_rate = ", d.ramp_down_rate.as_str(), "");
    put_line(lines, "");
    assert(texts(lines@) =~= start + toml_defaults(d@));
}

/// Degraded mode in TOML.
pub open spec fn toml_degraded(g: DegradedView) -> Seq<Seq<char>> {
    seq![
        "[degraded]"@,
        setting("expected_drivers = "@, toml_array(g.expected_drivers), ""@),
        setting("initial_percent = "@, decimal(g.initial_percent as nat), ""@),
        setting("escalated_percent = "@, decimal(g.escalated_percent as nat), ""@),
        setting("escalation_delay = "@, decimal(g.escalation_delay as nat), ""@),
    ]
}

fn put_toml_degraded(lines: &mut Vec<String>, g: &DegradedConfig)
    ensures
        texts(final(lines)@) == texts(old(lines)@) + toml_degraded(g@),
{
    let ghost start = texts(lines@);
    put_line(lines, "[degraded]");
    put_setting(lines, "expected_drivers = ", write_toml_array(&g.expected_drivers).as_str(), "");
    put_setting(lines, "initial_percent = ", decimal_text(g.initial_percent as u64).as_str(), "");
    put_setting(
        lines,
        "escalated_percent = ",
        decimal_text(g.escalated_percent as u64).as_str(),
        "",
    );
    put_setting(lines, "escalation_delay = ", decimal_text(g.escalation_delay).as_str(), "");
    assert(texts(lines@) =~= start + toml_degraded(g@));
}

/// The lines of a configuration in TOML; the fans are in the order of their names.
pub open spec fn toml_lines(
    defaults: DefaultsView,
    entries: Seq<(Seq<char>, FanView)>,
    degraded: DegradedView,
) -> Seq<Seq<char>> {
    toml_defaults(defaults) + toml_fans(entries) + toml_degraded(degraded)
}

/// A configuration in TOML.
pub open spec fn toml_text(
    defaults: DefaultsView,
    entries: Seq<(Seq<char>, FanView)>,
    degraded: DegradedView,
) -> Seq<char> {
    unlines(toml_lines(defaults, entries, degraded))
}

/// Writes a configuration in TOML.
pub fn format_toml(config: &RawConfig) -> (r: String)
    ensures
        r@ == toml_text(config.defaults@, config.fan.entries(), config.degraded@),
        in_name_order(config.fan.entries()),
{
    let mut lines: Vec<String> = Vec::new();
    assert(texts(lines@) =~= Seq::<Seq<char>>::empty());
    put_toml_defaults(&mut lines, &config.defaults);
    let n: usize = config.fan.len();
    let ghost entries = config.fan.entries();
    let ghost start = toml_defaults(config.defaults@);
    let mut i: usize = 0;
    assert(entries.take(0) == Seq::<(Seq<char>, FanView)>::empty());
    assert(texts(lines@) =~= start + toml_fans(entries.take(0)));
    while i < n
        invariant
            i <= n,
            n == entries.len(),
            entries == config.fan.entries(),
            texts(lines@) == start + toml_fans(entries.take(i as int)),
        decreases n - i,
    {
        assert(entries.take(i + 1).drop_last() == entries.take(i as int));
        assert(entries.take(i + 1).last() == entries[i as int]);
        put_toml_fan(&mut lines, config.fan.name_at(i), config.fan.config_at(i));
        i = i + 1;
        assert(texts(lines@) =~= start + toml_fans(entries.take(i as int)));
    }
    assert(entries.take(i as int) == entries);
    put_toml_degraded(&mut lines, &config.degraded);
    unlines_text(&lines)
}

/// A number that Nix reads as a float.
pub open spec fn nix_float(s: Seq<char>) -> Seq<char> {
    if s.contains('.') {
        s
    } else {
        s + ".0"@
    }
}

fn format_nix_float(s: &str) -> (r: String)
    ensures
        r@ == nix_float(s@),
{
    let mut out = s.to_string();
    if !contains_char(s, '.') {
        out.append(".0");
    }
    out
}

/// A rate that Nix reads as a float.
pub open spec fn float_value(rate: Option<Seq<char>>) -> Option<Seq<char>> {
    match rate {
        Some(r) => Some(nix_float(r)),
        None => None,
    }
}

fn write_float(rate: &Option<String>) -> (r: Option<String>)
    ensures
        opt_text(r) == float_value(opt_text(*rate)),
{
    match rate {
        Some(r) => Some(format_nix_float(r.as_str())),
        None => None,
    }
}

/// The lines of a Nix list of strings.
pub open spec fn nix_items(indent: Seq<char>, list: Seq<Seq<char>>) -> Seq<Seq<char>> {
    Seq::new(list.len(), |i: int| indent + quoted(list[i]))
}

fn put_nix_items(lines: &mut Vec<String>, indent: &str, list: &Vec<String>)
    ensures
        texts(final(lines)@) == texts(old(lines)@) + nix_items(indent@, texts(list@)),
{
    let ghost start = texts(lines@);
    let ghost all = nix_items(indent@, texts(list@));
    let mut i: usize = 0;
    assert(texts(lines@) =~= start + all.take(0));
    while i < list.len()
        invariant
            i <= list.len(),
            all == nix_items(indent@, texts(list@)),
            texts(lines@) == start + all.take(i as int),
        decreases list.len() - i,
    {
        let mut line = indent.to_string();
        line.append(quote(list[i].as_str()).as_str());
        put_line(lines, line.as_str());
        assert(all[i as int] == line@);
        i = i + 1;
        assert(texts(lines@) =~= start + all.take(i as int));
    }
    assert(all.take(i as int) == all);
}

/// The names of the sensors of a fan in Nix.
pub open spec fn nix_sensors(sensors: Option<Seq<Seq<char>>>) -> Seq<Seq<char>> {
    match sensors {
        Some(list) => seq!["        sensors = ["@] + nix_items("          "@, list)
            + seq!["        ];"@],
        None => Seq::empty(),
    }
}

/// What a fan overrides, in Nix.
pub open spec fn nix_settings(fan: FanView) -> Seq<Seq<char>> {
    opt_setting("        low_temp = "@, temp_value(fan.low_temp), ";"@) + opt_setting(
        "        high_temp = "@,
        temp_value(fan.high_temp),
        ";"@,
    ) + opt_setting("        speed_curve = "@, curve_value(fan.speed_curve), ";"@) + opt_setting(
        "        sensor_aggregation = "@,
        aggregation_value(fan.sensor_aggregation),
        ";"@,
    ) + opt_setting("        ramp_down_rate = "@, float_value(fan.ramp_down_rate), ";"@)
        + nix_sensors(fan.sensors)
}

/// The first line of the attribute set of a fan in Nix.
pub open spec fn nix_fan_head(name: Seq<char>) -> Seq<char> {
    setting("      "@, name, " = {"@)
}

/// The attribute set of a fan in Nix.
pub open spec fn nix_fan(name: Seq<char>, fan: FanView) -> Seq<Seq<char>> {
    seq![nix_fan_head(name)] + nix_settings(fan) + seq!["      };"@]
}

fn put_nix_sensors(lines: &mut Vec<String>, sensors: &Option<Vec<String>>)
    ensures
        texts(final(lines)@) == texts(old(lines)@) + nix_sensors(opt_texts(*sensors)),
{
    let ghost start = texts(lines@);
    match sensors {
        Some(list) => {
            put_line(lines, "        sensors = [");
            put_nix_items(lines, "          ", list);
            put_line(lines, "        ];");
        },
        None => {},
    }
    assert(texts(lines@) =~= start + nix_sensors(opt_texts(*sensors)));
}

fn put_nix_settings(lines: &mut Vec<String>, fan: &RawFanConfig)
    ensures
        texts(final(lines)@) == texts(old(lines)@) + nix_settings(fan@),
{
    let ghost start = texts(lines@);
    put_opt_setting(lines, "        low_temp = ", write_temp(fan.low_temp), ";");
    let ghost s0 = opt_setting("        low_temp = "@, temp_value(fan.low_temp), ";"@);
    let ghost d0 = s0;
    put_opt_setting(lines, "        high_temp = ", write_temp(fan.high_temp), ";");
    let ghost s1 = opt_setting("        high_temp = "@, temp_value(fan.high_temp), ";"@);
    let ghost d1 = d0 + s1;
    proof {
        lemma_appended(start, d0, s1);
    }
    put_opt_setting(lines, "        speed_curve = ", write_curve(fan.speed_curve), ";");
    let ghost s2 = opt_setting("        speed_curve = "@, curve_value(fan.speed_curve), ";"@);
    let ghost d2 = d1 + s2;
    proof {
        lemma_appended(start, d1, s2);
    }
    put_opt_setting(lines, "        sensor_aggregation = ", write_aggregation(fan.sensor_aggregation), ";");
    let ghost s3 = opt_setting("        sensor_aggregation = "@, aggregation_value(fan.sensor_aggregation), ";"@);
    let ghost d3 = d2 + s3;
    proof {
        lemma_appended(start, d2, s3);
    }
    put_opt_setting(lines, "        ramp_down_rate = ", write_float(&fan.ramp_down_rate), ";");
    let ghost s4 = opt_setting("        ramp_down_rate = "@, float_value(fan@.ramp_down_rate), ";"@);
    let ghost d4 = d3 + s4;
    proof {
        lemma_appended(start, d3, s4);
    }
    put_nix_sensors(lines, &fan.sensors);
    proof {
        lemma_appended(start, d4, nix_sensors(fan@.sensors));
    }
}

fn put_nix_fan(lines: &mut Vec<String>, name: &str, fan: &RawFanConfig)
    ensures
        texts(final(lines)@) == texts(old(lines)@) + nix_fan(name@, fan@),
{
    let ghost start = texts(lines@);
    put_setting(lines, "      ", name, " = {");
    put_nix_settings(lines, fan);
    put_line(lines, "      };");
    assert(texts(lines@) =~= start + nix_fan(name@, fan@));
}

/// The attribute sets of the fans in Nix.
pub open spec fn nix_fans(entries: Seq<(Seq<char>, FanView)>) -> Seq<Seq<char>>
    decreases entries.len(),
{
    if entries.len() == 0 {
        Seq::empty()
    } else {
        nix_fans(entries.drop_last()) + nix_fan(entries.last().0, entries.last().1)
    }
}

/// The block with the fans in Nix, if there are any.
pub open spec fn nix_fans_block(entries: Seq<(Seq<char>, FanView)>) -> Seq<Seq<char>> {
    if entries.len() == 0 {
        Seq::empty()
    } else {
        seq!["    fans = {"@] + nix_fans(entries) + seq!["    };"@, ""@]
    }
}

/// The defaults in Nix.
pub open spec fn nix_defaults(d: DefaultsView) -> Seq<Seq<char>> {
    seq![
        "{"@,
        "  services.macprot2fans = {"@,
        "    enable = true;"@,
        ""@,
        "    defaults = {"@,
        setting("      low_temp = "@, decimal(d.low_temp as nat), ";"@),
        setting("      high_temp = "@, decimal(d.high_temp as nat), ";"@),
        setting("      speed_curve = "@, quoted(d.speed_curve.text()), ";"@),
        setting("      always_full_speed = "@, bool_text(d.always_full_speed), ";"@),
        setting("      sensor_aggregation = "@, quoted(d.sensor_aggregation.text()), ";"@),
        setting("      ramp_down_rate = "@, nix_float(d.ramp_down_rate), ";"@),
        "    };"@,
        ""@,
    ]
}

fn put_nix_defaults(lines: &mut Vec<String>, d: &DefaultsConfig)
    ensures
        texts(final(lines)@) == texts(old(lines)@) + nix_defaults(d@),
{
    let ghost start = texts(lines@);
    put_line(lines, "{");
    put_line(lines, "  services.macprot2fans = {");
    put_line(lines, "    enable = true;");
    put_line(lines, "");
    put_line(lines, "    defaults = {");
    put_setting(lines, "      low_temp = ", decimal_text(d.low_temp as u64).as_str(), ";");
    put_setting(lines, "      high_temp = ", decimal_text(d.high_temp as u64).as_str(), ";");
    put_setting(lines, "      speed_curve = ", quote(d.speed_curve.name()).as_str(), ";");
    put_setting(lines, "      always_full_speed = ", write_bool(d.always_full_speed), ";");
    put_setting(
        lines,
        "      sensor_aggregation = ",
        quote(d.sensor_aggregation.name()).as_str(),
        ";",
    );
    put_setting(
        lines,
        "      ramp_down_rate = ",
        format_nix_float(d.ramp_down_rate.as_str()).as_str(),
        ";",
    );
    put_line(lines, "    };");
    put_line(lines, "");
    assert(texts(lines@) =~= start + nix_defaults(d@));
}

/// Degraded mode in Nix, and the end.
pub open spec fn nix_degraded(g: DegradedView) -> Seq<Seq<char>> {
    seq!["    degraded = {"@, "      expected_drivers = ["@] + nix_items(
        "        "@,
        g.expected_drivers,
    ) + seq![
        "      ];"@,
        setting("      initial_percent = "@, decimal(g.initial_percent as nat), ";"@),
        setting("      escalated_percent = "@, decimal(g.escalated_percent as nat), ";"@),
        setting("      escalation_delay = "@, decimal(g.escalation_delay as nat), ";"@),
        "    };"@,
        "  };"@,
        "}"@,
    ]
}

fn put_nix_degraded(lines: &mut Vec<String>, g: &DegradedConfig)
    ensures
        texts(final(lines)@) == texts(old(lines)@) + nix_degraded(g@),
{
    let ghost start = texts(lines@);
    put_line(lines, "    degraded = {");
    put_line(lines, "      expected_drivers = [");
    put_nix_items(lines, "        ", &g.expected_drivers);
    put_line(lines, "      ];");
    put_setting(
        lines,
        "      initial_percent = ",
        decimal_text(g.initial_percent as u64).as_str(),
        ";",
    );
    put_setting(
        lines,
        "      escalated_percent = ",
        decimal_text(g.escalated_percent as u64).as_str(),
        ";",
    );
    put_setting(
        lines,
        "      escalation_delay = ",
        decimal_text(g.escalation_delay).as_str(),
        ";",
    );
    put_line(lines, "    };");
    put_line(lines, "  };");
    put_line(lines, "}");
    assert(texts(lines@) =~= start + nix_degraded(g@));
}

/// The lines of a configuration as a NixOS module; the fans are in the order of their names.
pub open spec fn nix_lines(
    defaults: DefaultsView,
    entries: Seq<(Seq<char>, FanView)>,
    degraded: DegradedView,
) -> Seq<Seq<char>> {
    nix_defaults(defaults) + nix_fans_block(entries) + nix_degraded(degraded)
}

/// A configuration as a NixOS module.
pub open spec fn nix_text(
    defaults: DefaultsView,
    entries: Seq<(Seq<char>, FanView)>,
    degraded: DegradedView,
) -> Seq<char> {
    unlines(nix_lines(defaults, entries, degraded))
}

/// Writes a configuration as a NixOS module.
pub fn format_nix(config: &RawConfig) -> (r: String)
    ensures
        r@ == nix_text(config.defaults@, config.fan.entries(), config.degraded@),
        in_name_order(config.fan.entries()),
{
    let mut lines: Vec<String> = Vec::new();
    assert(texts(lines@) =~= Seq::<Seq<char>>::empty());
    put_nix_defaults(&mut lines, &config.defaults);
    let n: usize = config.fan.len();
    let ghost entries = config.fan.entries();
    let ghost start = texts(lines@);
    if n > 0 {
        put_line(&mut lines, "    fans = {");
        let ghost opened = texts(lines@);
        let mut i: usize = 0;
        assert(entries.take(0) == Seq::<(Seq<char>, FanView)>::empty());
        assert(texts(lines@) =~= opened + nix_fans(entries.take(0)));
        while i < n
            invariant
                i <= n,
                n == entries.len(),
                entries == config.fan.entries(),
                texts(lines@) == opened + nix_fans(entries.take(i as int)),
            decreases n - i,
        {
            assert(entries.take(i + 1).drop_last() == entries.take(i as int));
            assert(entries.take(i + 1).last() == entries[i as int]);
            put_nix_fan(&mut lines, config.fan.name_at(i), config.fan.config_at(i));
            i = i + 1;
            assert(texts(lines@) =~= opened + nix_fans(entries.take(i as int)));
        }
        assert(entries.take(i as int) == entries);
        put_line(&mut lines, "    };");
        put_line(&mut lines, "");
    }
    assert(texts(lines@) =~= start + nix_fans_block(entries));
    put_nix_degraded(&mut lines, &config.degraded);
    assert(texts(lines@) =~= nix_lines(config.defaults@, entries, config.degraded@));
    unlines_text(&lines)
}

/// The order in which the sections were added does not show in what is written.
pub proof fn law_output_is_deterministic(
    defaults: DefaultsView,
    a: Seq<(Seq<char>, FanView)>,
    b: Seq<(Seq<char>, FanView)>,
    degraded: DegradedView,
)
    requires
        in_name_order(a),
        in_name_order(b),
        entry_map(a) == entry_map(b),
    ensures
        toml_text(defaults, a, degraded) == toml_text(defaults, b, degraded),
        nix_text(defaults, a, degraded) == nix_text(defaults, b, degraded),
{
    law_entries_are_decided_by_the_map(a, b);
}

} // verus!
