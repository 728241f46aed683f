//! What stands where in a written configuration.
use vstd::prelude::*;

use crate::config::{entry_map, in_name_order, lemma_entry_map_keys, DefaultsView, DegradedView, FanView, SensorAggregation, SpeedCurve};
use crate::text::{decimal, digit_value, joined, law_lines_split_back, lemma_decimal_digits, lemma_filter_uniform, split};
use crate::wizard::format::{all_quoted, array_value, bool_text, curve_value, aggregation_value, float_value, nix_defaults, nix_degraded, nix_fan, nix_fan_head, nix_fans, nix_fans_block, nix_float, nix_items, nix_lines, nix_sensors, nix_settings, nix_text, opt_setting, quoted, setting, temp_value, toml_array, toml_defaults, toml_degraded, toml_fan, toml_fan_header, toml_fans, toml_lines, toml_settings, toml_text};

verus! {

/// Whether `p` holds of every member.
pub open spec fn every<A>(s: Seq<A>, p: spec_fn(A) -> bool) -> bool {
    forall|i: int| 0 <= i < s.len() ==> p(#[trigger] s[i])
}

pub(crate) proof fn lemma_every_added<A>(a: Seq<A>, b: Seq<A>, p: spec_fn(A) -> bool)
    requires
        every(a, p),
        every(b, p),
    ensures
        every(a + b, p),
{
    assert forall|i: int| 0 <= i < (a + b).len() implies p(#[trigger] (a + b)[i]) by {
        if i < a.len() {
            assert((a + b)[i] == a[i]);
        } else {
            assert((a + b)[i] == b[i - a.len()]);
        }
    }
}

/// The texts without a line end.
pub open spec fn plain() -> spec_fn(Seq<char>) -> bool {
    |s: Seq<char>| !s.contains('\n')
}

/// Whether nothing in the configuration has a line end.
pub open spec fn all_plain(
    defaults: DefaultsView,
    entries: Seq<(Seq<char>, FanView)>,
    degraded: DegradedView,
) -> bool {
    &&& plain()(defaults.ramp_down_rate)
    &&& every(entries, plain_fan())
    &&& every(degraded.expected_drivers, plain())
}

/// The sections in which nothing has a line end.
pub open spec fn plain_fan() -> spec_fn((Seq<char>, FanView)) -> bool {
    |entry: (Seq<char>, FanView)|
        {
            &&& plain()(entry.0)
            &&& entry.1.ramp_down_rate matches Some(rate) ==> plain()(rate)
            &&& entry.1.sensors matches Some(names) ==> every(names, plain())
        }
}

pub(crate) proof fn lemma_plain_added(a: Seq<char>, b: Seq<char>)
    requires
        plain()(a),
        plain()(b),
    ensures
        plain()(a + b),
{
    if (a + b).contains('\n') {
        let k = choose|k: int| 0 <= k < (a + b).len() && (a + b)[k] == '\n';
        if k < a.len() {
            assert(a[k] == '\n');
        } else {
            assert(b[k - a.len()] == '\n');
        }
    }
}

proof fn lemma_plain_setting(key: Seq<char>, value: Seq<char>, end: Seq<char>)
    requires
        plain()(key),
        plain()(value),
        plain()(end),
    ensures
        plain()(setting(key, value, end)),
{
    lemma_plain_added(key, value);
    lemma_plain_added(key + value, end);
}

proof fn lemma_plain_opt(key: Seq<char>, value: Option<Seq<char>>, end: Seq<char>)
    requires
        plain()(key),
        value matches Some(v) ==> plain()(v),
        plain()(end),
    ensures
        every(opt_setting(key, value, end), plain()),
{
    if value is Some {
        lemma_plain_setting(key, value->0, end);
    }
}

proof fn lemma_plain_decimal(n: nat)
    ensures
        plain()(decimal(n)),
{
    lemma_decimal_digits(n);
    if decimal(n).contains('\n') {
        let k = choose|k: int| 0 <= k < decimal(n).len() && decimal(n)[k] == '\n';
        assert(digit_value(decimal(n)[k]) is Some);
    }
}

proof fn lemma_plain_quoted(s: Seq<char>)
    requires
        plain()(s),
    ensures
        plain()(quoted(s)),
{
    reveal_strlit("\"");
    lemma_plain_added("\""@, s);
    lemma_plain_added("\""@ + s, "\""@);
}

proof fn lemma_plain_joined(parts: Seq<Seq<char>>, sep: Seq<char>)
    requires
        every(parts, plain()),
        plain()(sep),
    ensures
        plain()(joined(parts, sep)),
    decreases parts.len(),
{
    if parts.len() == 1 {
        assert(plain()(parts[0]));
    } else if parts.len() > 1 {
        let before = parts.drop_last();
        assert forall|i: int| 0 <= i < before.len() implies plain()(#[trigger] before[i]) by {
            assert(before[i] == parts[i]);
        }
        lemma_plain_joined(before, sep);
        assert(plain()(parts[parts.len() - 1]));
        lemma_plain_added(joined(before, sep), sep);
        lemma_plain_added(joined(before, sep) + sep, parts.last());
    }
}

proof fn lemma_plain_array(list: Seq<Seq<char>>)
    requires
        every(list, plain()),
    ensures
        plain()(toml_array(list)),
{
    reveal_strlit("[");
    reveal_strlit("]");
    reveal_strlit(", ");
    let parts = all_quoted(list);
    assert forall|i: int| 0 <= i < parts.len() implies plain()(#[trigger] parts[i]) by {
        assert(plain()(list[i]));
        lemma_plain_quoted(list[i]);
    }
    lemma_plain_joined(parts, ", "@);
    lemma_plain_added("["@, joined(parts, ", "@));
    lemma_plain_added("["@ + joined(parts, ", "@), "]"@);
}

proof fn lemma_plain_names(curve: SpeedCurve, method: SensorAggregation, b: bool)
    ensures
        plain()(quoted(curve.text())),
        plain()(quoted(method.text())),
        plain()(bool_text(b)),
{
    reveal_strlit("linear");
    reveal_strlit("exponential");
    reveal_strlit("logarithmic");
    reveal_strlit("max");
    reveal_strlit("average");
    reveal_strlit("min");
    reveal_strlit("true");
    reveal_strlit("false");
    lemma_plain_quoted(curve.text());
    lemma_plain_quoted(method.text());
}

proof fn lemma_plain_curve(curve: Option<SpeedCurve>)
    ensures
        curve_value(curve) matches Some(v) ==> plain()(v),
{
    if curve is Some {
        lemma_plain_names(curve->0, SensorAggregation::Max, true);
    }
}

proof fn lemma_plain_aggregation(method: Option<SensorAggregation>)
    ensures
        aggregation_value(method) matches Some(v) ==> plain()(v),
{
    if method is Some {
        lemma_plain_names(SpeedCurve::Linear, method->0, true);
    }
}

proof fn lemma_plain_temp(temp: Option<u8>)
    ensures
        temp_value(temp) matches Some(v) ==> plain()(v),
{
    if temp is Some {
        lemma_plain_decimal(temp->0 as nat);
    }
}

/// The lines that begin with a bracket.
pub open spec fn toml_header() -> spec_fn(Seq<char>) -> bool {
    |line: Seq<char>| line.len() > 0 && line[0] == '['
}

/// The lines that do not.
spec fn toml_body() -> spec_fn(Seq<char>) -> bool {
    |line: Seq<char>| !(line.len() > 0 && line[0] == '[')
}

proof fn lemma_body_kept_out(lines: Seq<Seq<char>>)
    requires
        every(lines, toml_body()),
    ensures
        lines.filter(toml_header()) == Seq::<Seq<char>>::empty(),
{
    assert forall|i: int| 0 <= i < lines.len() implies toml_header()(#[trigger] lines[i])
        == false by {
        assert(toml_body()(lines[i]));
    }
    lemma_filter_uniform(lines, toml_header(), false);
}

proof fn lemma_header_kept(line: Seq<char>)
    requires
        toml_header()(line),
    ensures
        seq![line].filter(toml_header()) == seq![line],
{
    lemma_filter_uniform(seq![line], toml_header(), true);
}

/// A setting begins as its key does.
proof fn lemma_body_opt(key: Seq<char>, value: Option<Seq<char>>, end: Seq<char>)
    requires
        key.len() > 0,
        key[0] != '[',
    ensures
        every(opt_setting(key, value, end), toml_body()),
{
}

proof fn lemma_toml_settings(fan: FanView)
    requires
        plain_fan()((Seq::empty(), fan)),
    ensures
        every(toml_settings(fan), plain()),
        every(toml_settings(fan), toml_body()),
{
    reveal_strlit("low_temp = ");
    reveal_strlit("high_temp = ");
    reveal_strlit("speed_curve = ");
    reveal_strlit("sensor_aggregation = ");
    reveal_strlit("ramp_down_rate = ");
    reveal_strlit("sensors = ");
    reveal_strlit("");
    let a = opt_setting("low_temp = "@, temp_value(fan.low_temp), ""@);
    let b = opt_setting("high_temp = "@, temp_value(fan.high_temp), ""@);
    let c = opt_setting("speed_curve = "@, curve_value(fan.speed_curve), ""@);
    let d = opt_setting("sensor_aggregation = "@, aggregation_value(fan.sensor_aggregation), ""@);
    let e = opt_setting("ramp_down_rate = "@, fan.ramp_down_rate, ""@);
    let f = opt_setting("sensors = "@, array_value(fan.sensors), ""@);
    lemma_plain_temp(fan.low_temp);
    lemma_plain_opt("low_temp = "@, temp_value(fan.low_temp), ""@);
    lemma_plain_temp(fan.high_temp);
    lemma_plain_opt("high_temp = "@, temp_value(fan.high_temp), ""@);
    lemma_plain_curve(fan.speed_curve);
    lemma_plain_opt("speed_curve = "@, curve_value(fan.speed_curve), ""@);
    lemma_plain_aggregation(fan.sensor_aggregation);
    lemma_plain_opt("sensor_aggregation = "@, aggregation_value(fan.sensor_aggregation), ""@);
    lemma_plain_opt("ramp_down_rate = "@, fan.ramp_down_rate, ""@);
    if fan.sensors is Some {
        lemma_plain_array(fan.sensors->0);
    }
    lemma_plain_opt("sensors = "@, array_value(fan.sensors), ""@);
    lemma_all_added(a, b, c, d, e, f, plain());
    lemma_body_opt("low_temp = "@, temp_value(fan.low_temp), ""@);
    lemma_body_opt("high_temp = "@, temp_value(fan.high_temp), ""@);
    lemma_body_opt("speed_curve = "@, curve_value(fan.speed_curve), ""@);
    lemma_body_opt("sensor_aggregation = "@, aggregation_value(fan.sensor_aggregation), ""@);
    lemma_body_opt("ramp_down_rate = "@, fan.ramp_down_rate, ""@);
    lemma_body_opt("sensors = "@, array_value(fan.sensors), ""@);
    lemma_all_added(a, b, c, d, e, f, toml_body());
}

proof fn lemma_all_added<A>(
    a: Seq<A>,
    b: Seq<A>,
    c: Seq<A>,
    d: Seq<A>,
    e: Seq<A>,
    f: Seq<A>,
    p: spec_fn(A) -> bool,
)
    requires
        every(a, p),
        every(b, p),
        every(c, p),
        every(d, p),
        every(e, p),
        every(f, p),
    ensures
        every(a + b + c + d + e + f, p),
{
    lemma_every_added(a, b, p);
    lemma_every_added(a + b, c, p);
    lemma_every_added(a + b + c, d, p);
    lemma_every_added(a + b + c + d, e, p);
    lemma_every_added(a + b + c + d + e, f, p);
}

/// Of lines between a first and a last one only the first is kept.
proof fn lemma_first_kept(
    first: Seq<char>,
    body: Seq<Seq<char>>,
    last: Seq<char>,
    keep: spec_fn(Seq<char>) -> bool,
)
    requires
        keep(first),
        forall|i: int| 0 <= i < body.len() ==> keep(#[trigger] body[i]) == false,
        !keep(last),
        plain()(first),
        every(body, plain()),
        plain()(last),
    ensures
        (seq![first] + body + seq![last]).filter(keep) == seq![first],
        every(seq![first] + body + seq![last], plain()),
{
    lemma_filter_uniform(seq![first], keep, true);
    lemma_filter_uniform(body, keep, false);
    lemma_filter_uniform(seq![last], keep, false);
    Seq::filter_distributes_over_add(seq![first], body, keep);
    Seq::filter_distributes_over_add(seq![first] + body, seq![last], keep);
    lemma_every_added(seq![first], body, plain());
    lemma_every_added(seq![first] + body, seq![last], plain());
    assert(seq![first] + Seq::<Seq<char>>::empty() + Seq::<Seq<char>>::empty() =~= seq![first]);
}

proof fn lemma_toml_fan(name: Seq<char>, fan: FanView)
    requires
        plain_fan()((name, fan)),
    ensures
        every(toml_fan(name, fan), plain()),
        toml_fan(name, fan).filter(toml_header()) == seq![toml_fan_header(name)],
{
    let header = toml_fan_header(name);
    let body = toml_settings(fan);
    assert(plain()(header) && toml_header()(header) && plain()(""@) && !toml_header()(""@)) by {
        reveal_strlit("[fan.");
        reveal_strlit("]");
        reveal_strlit("");
        lemma_plain_setting("[fan."@, name, "]"@);
        assert(header[0] == '[');
    }
    lemma_toml_settings(fan);
    assert forall|i: int| 0 <= i < body.len() implies toml_header()(#[trigger] body[i])
        == false by {
        assert(toml_body()(body[i]));
    }
    lemma_first_kept(header, body, ""@, toml_header());
}

/// The headers of the sections of the fans.
pub open spec fn fan_headers(entries: Seq<(Seq<char>, FanView)>) -> Seq<Seq<char>> {
    Seq::new(entries.len(), |i: int| toml_fan_header(entries[i].0))
}

proof fn lemma_drop_last_plain(entries: Seq<(Seq<char>, FanView)>)
    requires
        every(entries, plain_fan()),
        entries.len() > 0,
    ensures
        every(entries.drop_last(), plain_fan()),
        plain_fan()(entries.last()),
{
    assert forall|i: int| 0 <= i < entries.drop_last().len() implies plain_fan()(
        #[trigger] entries.drop_last()[i],
    ) by {
        assert(entries.drop_last()[i] == entries[i]);
    }
    assert(plain_fan()(entries[entries.len() - 1]));
}

proof fn lemma_toml_fans(entries: Seq<(Seq<char>, FanView)>)
    requires
        every(entries, plain_fan()),
    ensures
        every(toml_fans(entries), plain()),
        toml_fans(entries).filter(toml_header()) == fan_headers(entries),
    decreases entries.len(),
{
    if entries.len() == 0 {
        lemma_body_kept_out(Seq::empty());
        assert(fan_headers(entries) =~= Seq::<Seq<char>>::empty());
    } else {
        let before = entries.drop_last();
        let last = entries.last();
        lemma_drop_last_plain(entries);
        lemma_toml_fans(before);
        lemma_toml_fan(last.0, last.1);
        lemma_every_added(toml_fans(before), toml_fan(last.0, last.1), plain());
        Seq::filter_distributes_over_add(
            toml_fans(before),
            toml_fan(last.0, last.1),
            toml_header(),
        );
        assert(fan_headers(entries) =~= fan_headers(before) + seq![toml_fan_header(last.0)]);
    }
}

/// A line with a setting is no header, and has no line end.
proof fn lemma_body_setting(key: Seq<char>, value: Seq<char>)
    requires
        plain()(key),
        key.len() > 0,
        key[0] != '[',
        plain()(value),
    ensures
        plain()(setting(key, value, ""@)),
        toml_body()(setting(key, value, ""@)),
{
    reveal_strlit("");
    lemma_plain_setting(key, value, ""@);
    assert(setting(key, value, ""@)[0] == key[0]);
}

proof fn lemma_toml_defaults(d: DefaultsView)
    requires
        plain()(d.ramp_down_rate),
    ensures
        every(toml_defaults(d), plain()),
        toml_defaults(d).filter(toml_header()) == seq!["[defaults]"@],
{
    let a = setting("low_temp = "@, decimal(d.low_temp as nat), ""@);
    assert(plain()(a) && toml_body()(a)) by {
        reveal_strlit("low_temp = ");
        lemma_plain_decimal(d.low_temp as nat);
        lemma_body_setting("low_temp = "@, decimal(d.low_temp as nat));
    }
    let b = setting("high_temp = "@, decimal(d.high_temp as nat), ""@);
    assert(plain()(b) && toml_body()(b)) by {
        reveal_strlit("high_temp = ");
        lemma_plain_decimal(d.high_temp as nat);
        lemma_body_setting("high_temp = "@, decimal(d.high_temp as nat));
    }
    let c = setting("speed_curve = "@, quoted(d.speed_curve.text()), ""@);
    assert(plain()(c) && toml_body()(c)) by {
        reveal_strlit("speed_curve = ");
        lemma_plain_names(d.speed_curve, d.sensor_aggregation, d.always_full_speed);
        lemma_body_setting("speed_curve = "@, quoted(d.speed_curve.text()));
    }
    let e = setting("always_full_speed = "@, bool_text(d.always_full_speed), ""@);
    assert(plain()(e) && toml_body()(e)) by {
        reveal_strlit("always_full_speed = ");
        lemma_plain_names(d.speed_curve, d.sensor_aggregation, d.always_full_speed);
        lemma_body_setting("always_full_speed = "@, bool_text(d.always_full_speed));
    }
    let f = setting("sensor_aggregation = "@, quoted(d.sensor_aggregation.text()), ""@);
    assert(plain()(f) && toml_body()(f)) by {
        reveal_strlit("sensor_aggregation = ");
        lemma_plain_names(d.speed_curve, d.sensor_aggregation, d.always_full_speed);
        lemma_body_setting("sensor_aggregation = "@, quoted(d.sensor_aggregation.text()));
    }
    let g = setting("ramp_down_rate = "@, d.ramp_down_rate, ""@);
    assert(plain()(g) && toml_body()(g)) by {
        reveal_strlit("ramp_down_rate = ");
        lemma_body_setting("ramp_down_rate = "@, d.ramp_down_rate);
    }
    let title = "# macprot2fans configuration file"@;
    let header = "[defaults]"@;
    assert(plain()(title) && toml_body()(title)) by {
        reveal_strlit("# macprot2fans configuration file");
    }
    assert(plain()(""@) && toml_body()(""@)) by {
        reveal_strlit("");
    }
    assert(plain()(header) && toml_header()(header)) by {
        reveal_strlit("[defaults]");
    }
    let head = seq![title, ""@];
    let rest = seq![a, b, c, e, f, g, ""@];
    assert(every(head, plain()) && every(head, toml_body()));
    assert(every(rest, plain()) && every(rest, toml_body()));
    assert(toml_defaults(d) =~= head + seq![header] + rest);
    lemma_header_between(head, header, rest);
}

/// Of lines round a header only the header is kept.
proof fn lemma_header_between(head: Seq<Seq<char>>, header: Seq<char>, rest: Seq<Seq<char>>)
    requires
        every(head, plain()),
        every(head, toml_body()),
        plain()(header),
        toml_header()(header),
        every(rest, plain()),
        every(rest, toml_body()),
    ensures
        every(head + seq![header] + rest, plain()),
        (head + seq![header] + rest).filter(toml_header()) == seq![header],
{
    let one = seq![header];
    assert(every(one, plain()));
    lemma_every_added(head, one, plain());
    lemma_every_added(head + one, rest, plain());
    lemma_body_kept_out(head);
    lemma_header_kept(header);
    lemma_body_kept_out(rest);
    Seq::filter_distributes_over_add(head, one, toml_header());
    Seq::filter_distributes_over_add(head + one, rest, toml_header());
    assert(Seq::<Seq<char>>::empty() + one + Seq::<Seq<char>>::empty() =~= one);
}

proof fn lemma_toml_degraded(g: DegradedView)
    requires
        every(g.expected_drivers, plain()),
    ensures
        every(toml_degraded(g), plain()),
        toml_degraded(g).filter(toml_header()) == seq!["[degraded]"@],
{
    let a = setting("expected_drivers = "@, toml_array(g.expected_drivers), ""@);
    assert(plain()(a) && toml_body()(a)) by {
        reveal_strlit("expected_drivers = ");
        lemma_plain_array(g.expected_drivers);
        lemma_body_setting("expected_drivers = "@, toml_array(g.expected_drivers));
    }
    let b = setting("initial_percent = "@, decimal(g.initial_percent as nat), ""@);
    assert(plain()(b) && toml_body()(b)) by {
        reveal_strlit("initial_percent = ");
        lemma_plain_decimal(g.initial_percent as nat);
        lemma_body_setting("initial_percent = "@, decimal(g.initial_percent as nat));
    }
    let c = setting("escalated_percent = "@, decimal(g.escalated_percent as nat), ""@);
    assert(plain()(c) && toml_body()(c)) by {
        reveal_strlit("escalated_percent = ");
        lemma_plain_decimal(g.escalated_percent as nat);
        lemma_body_setting("escalated_percent = "@, decimal(g.escalated_percent as nat));
    }
    let d = setting("escalation_delay = "@, decimal(g.escalation_delay as nat), ""@);
    assert(plain()(d) && toml_body()(d)) by {
        reveal_strlit("escalation_delay = ");
        lemma_plain_decimal(g.escalation_delay as nat);
        lemma_body_setting("escalation_delay = "@, decimal(g.escalation_delay as nat));
    }
    let header = "[degraded]"@;
    assert(plain()(header) && toml_header()(header)) by {
        reveal_strlit("[degraded]");
    }
    let none = Seq::<Seq<char>>::empty();
    let rest = seq![a, b, c, d];
    assert(every(none, plain()) && every(none, toml_body()));
    assert(every(rest, plain()) && every(rest, toml_body()));
    assert(toml_degraded(g) =~= none + seq![header] + rest);
    lemma_header_between(none, header, rest);
}

/// The names of the sections.
pub open spec fn entry_names(entries: Seq<(Seq<char>, FanView)>) -> Seq<Seq<char>> {
    Seq::new(entries.len(), |i: int| entries[i].0)
}

/// The sections of a written configuration are those of the map, each once: the names are
/// strictly ascending, and a name is among them if and only if the map has it.
pub proof fn law_entries_are_the_keys(entries: Seq<(Seq<char>, FanView)>)
    requires
        in_name_order(entries),
    ensures
        forall|i: int, j: int|
            0 <= i < j < entries.len() ==> crate::order::text_before(
                #[trigger] entry_names(entries)[i],
                #[trigger] entry_names(entries)[j],
            ),
        forall|name: Seq<char>|
            entry_map(entries).contains_key(name) <==> #[trigger] entry_names(entries).contains(
                name,
            ),
{
    assert forall|i: int, j: int| 0 <= i < j < entries.len() implies crate::order::text_before(
        #[trigger] entry_names(entries)[i],
        #[trigger] entry_names(entries)[j],
    ) by {
        assert(crate::order::text_before(entries[i].0, entries[j].0));
    }
    assert forall|name: Seq<char>|
        entry_map(entries).contains_key(name) <==> #[trigger] entry_names(entries).contains(
            name,
        ) by {
        lemma_entry_map_keys(entries, name);
        if entry_map(entries).contains_key(name) {
            let i = choose|i: int| 0 <= i < entries.len() && (#[trigger] entries[i]).0 == name;
            assert(entry_names(entries)[i] == name);
        }
        if entry_names(entries).contains(name) {
            let i = choose|i: int| 0 <= i < entries.len() && entry_names(entries)[i] == name;
            assert(entries[i].0 == name);
        }
    }
}

/// No line has a line end in it.
pub(crate) proof fn lemma_toml_plain(
    defaults: DefaultsView,
    entries: Seq<(Seq<char>, FanView)>,
    degraded: DegradedView,
)
    requires
        all_plain(defaults, entries, degraded),
    ensures
        every(toml_lines(defaults, entries, degraded), plain()),
{
    let a = toml_defaults(defaults);
    let b = toml_fans(entries);
    let c = toml_degraded(degraded);
    lemma_toml_defaults(defaults);
    lemma_toml_fans(entries);
    lemma_toml_degraded(degraded);
    lemma_every_added(a, b, plain());
    lemma_every_added(a + b, c, plain());
}

/// The lines of the TOML text that begin with a bracket are, in this order and each once,
/// `[defaults]`, the header of every fan in the order of the names, and `[degraded]`.
pub proof fn law_toml_headers(
    defaults: DefaultsView,
    entries: Seq<(Seq<char>, FanView)>,
    degraded: DegradedView,
)
    requires
        all_plain(defaults, entries, degraded),
    ensures
        split(toml_text(defaults, entries, degraded), '\n').filter(toml_header())
            == seq!["[defaults]"@] + fan_headers(entries) + seq!["[degraded]"@],
{
    let a = toml_defaults(defaults);
    let b = toml_fans(entries);
    let c = toml_degraded(degraded);
    lemma_toml_defaults(defaults);
    lemma_toml_fans(entries);
    lemma_toml_degraded(degraded);
    lemma_toml_plain(defaults, entries, degraded);
    let lines = toml_lines(defaults, entries, degraded);
    assert forall|i: int| 0 <= i < lines.len() implies !(#[trigger] lines[i]).contains('\n') by {
        assert(plain()(lines[i]));
    }
    law_lines_split_back(lines);
    Seq::filter_distributes_over_add(a, b, toml_header());
    Seq::filter_distributes_over_add(a + b, c, toml_header());
    let none = seq![Seq::<char>::empty()];
    lemma_body_kept_out(none);
    Seq::filter_distributes_over_add(lines, none, toml_header());
    assert(lines.push(Seq::<char>::empty()) =~= lines + none);
    let headers = seq!["[defaults]"@] + fan_headers(entries) + seq!["[degraded]"@];
    assert(headers + Seq::<Seq<char>>::empty() =~= headers);
}

/// The lines that open the attribute set of a fan: six spaces or more, and at the end a brace.
pub open spec fn nix_head() -> spec_fn(Seq<char>) -> bool {
    |line: Seq<char>|
        line.len() > 6 && (forall|i: int| 0 <= i < 6 ==> line[i] == ' ') && line.last() == '{'
}

/// The line that opens the block of the fans.
pub open spec fn fans_line() -> Seq<char> {
    "    fans = {"@
}

/// The lines that open neither, and have no line end.
spec fn nix_other() -> spec_fn(Seq<char>) -> bool {
    |line: Seq<char>| !nix_head()(line) && line != fans_line() && !line.contains('\n')
}

/// A line that does not end in a brace opens nothing.
proof fn lemma_other_end(line: Seq<char>)
    requires
        plain()(line),
        line.len() > 0 ==> line.last() != '{',
    ensures
        nix_other()(line),
{
    reveal_strlit("    fans = {");
    assert(fans_line().last() == '{');
}

/// A line with another character than a space among its first six, and not that of the block
/// of the fans, opens nothing.
proof fn lemma_other_start(line: Seq<char>, k: int)
    requires
        plain()(line),
        0 <= k < 6,
        line.len() <= k || line[k] != ' ',
        line != fans_line(),
    ensures
        nix_other()(line),
{
}

proof fn lemma_other_setting(key: Seq<char>, value: Seq<char>)
    requires
        plain()(key),
        plain()(value),
    ensures
        nix_other()(setting(key, value, ";"@)),
{
    reveal_strlit(";");
    lemma_plain_setting(key, value, ";"@);
    assert(setting(key, value, ";"@).last() == ';');
    lemma_other_end(setting(key, value, ";"@));
}

proof fn lemma_other_opt(key: Seq<char>, value: Option<Seq<char>>)
    requires
        plain()(key),
        value matches Some(v) ==> plain()(v),
    ensures
        every(opt_setting(key, value, ";"@), nix_other()),
{
    if value is Some {
        lemma_other_setting(key, value->0);
    }
}

proof fn lemma_other_items(indent: Seq<char>, list: Seq<Seq<char>>)
    requires
        plain()(indent),
        every(list, plain()),
    ensures
        every(nix_items(indent, list), nix_other()),
{
    let items = nix_items(indent, list);
    assert forall|i: int| 0 <= i < items.len() implies nix_other()(#[trigger] items[i]) by {
        assert(plain()(list[i]));
        lemma_plain_quoted(list[i]);
        lemma_plain_added(indent, quoted(list[i]));
        reveal_strlit("\"");
        assert(items[i].last() == '"');
        lemma_other_end(items[i]);
    }
}

proof fn lemma_plain_float(rate: Seq<char>)
    requires
        plain()(rate),
    ensures
        plain()(nix_float(rate)),
{
    reveal_strlit(".0");
    lemma_plain_added(rate, ".0"@);
}

proof fn lemma_other_sensors(sensors: Option<Seq<Seq<char>>>)
    requires
        sensors matches Some(names) ==> every(names, plain()),
    ensures
        every(nix_sensors(sensors), nix_other()),
{
    if sensors is Some {
        let first = seq!["        sensors = ["@];
        let items = nix_items("          "@, sensors->0);
        let last = seq!["        ];"@];
        assert(every(first, nix_other())) by {
            reveal_strlit("        sensors = [");
            lemma_other_end("        sensors = ["@);
        }
        assert(plain()("          "@)) by {
            reveal_strlit("          ");
        }
        lemma_other_items("          "@, sensors->0);
        assert(every(last, nix_other())) by {
            reveal_strlit("        ];");
            lemma_other_end("        ];"@);
        }
        lemma_every_added(first, items, nix_other());
        lemma_every_added(first + items, last, nix_other());
    }
}

proof fn lemma_nix_settings(fan: FanView)
    requires
        plain_fan()((Seq::empty(), fan)),
    ensures
        every(nix_settings(fan), nix_other()),
{
    let a = opt_setting("        low_temp = "@, temp_value(fan.low_temp), ";"@);
    let b = opt_setting("        high_temp = "@, temp_value(fan.high_temp), ";"@);
    let c = opt_setting("        speed_curve = "@, curve_value(fan.speed_curve), ";"@);
    let d = opt_setting(
        "        sensor_aggregation = "@,
        aggregation_value(fan.sensor_aggregation),
        ";"@,
    );
    let e = opt_setting("        ramp_down_rate = "@, float_value(fan.ramp_down_rate), ";"@);
    assert(plain()("        low_temp = "@) && plain()("        high_temp = "@) && plain()(
        "        speed_curve = "@,
    ) && plain()("        sensor_aggregation = "@) && plain()("        ramp_down_rate = "@)) by {
        reveal_strlit("        low_temp = ");
        reveal_strlit("        high_temp = ");
        reveal_strlit("        speed_curve = ");
        reveal_strlit("        sensor_aggregation = ");
        reveal_strlit("        ramp_down_rate = ");
    }
    lemma_plain_temp(fan.low_temp);
    lemma_other_opt("        low_temp = "@, temp_value(fan.low_temp));
    lemma_plain_temp(fan.high_temp);
    lemma_other_opt("        high_temp = "@, temp_value(fan.high_temp));
    lemma_plain_curve(fan.speed_curve);
    lemma_other_opt("        speed_curve = "@, curve_value(fan.speed_curve));
    lemma_plain_aggregation(fan.sensor_aggregation);
    lemma_other_opt("        sensor_aggregation = "@, aggregation_value(fan.sensor_aggregation));
    if fan.ramp_down_rate is Some {
        lemma_plain_float(fan.ramp_down_rate->0);
    }
    lemma_other_opt("        ramp_down_rate = "@, float_value(fan.ramp_down_rate));
    lemma_other_sensors(fan.sensors);
    lemma_all_added(a, b, c, d, e, nix_sensors(fan.sensors), nix_other());
}

/// A line of a block: it does not open the block of the fans, and has no line end.
spec fn nix_inner() -> spec_fn(Seq<char>) -> bool {
    |line: Seq<char>| line != fans_line() && !line.contains('\n')
}

proof fn lemma_other_is_inner(lines: Seq<Seq<char>>)
    requires
        every(lines, nix_other()),
    ensures
        every(lines, nix_inner()),
        every(lines, plain()),
        lines.filter(nix_head()) == Seq::<Seq<char>>::empty(),
{
    assert forall|i: int| 0 <= i < lines.len() implies nix_inner()(#[trigger] lines[i]) by {
        assert(nix_other()(lines[i]));
    }
    assert forall|i: int| 0 <= i < lines.len() implies plain()(#[trigger] lines[i]) by {
        assert(nix_other()(lines[i]));
    }
    assert forall|i: int| 0 <= i < lines.len() implies nix_head()(#[trigger] lines[i])
        == false by {
        assert(nix_other()(lines[i]));
    }
    lemma_filter_uniform(lines, nix_head(), false);
}

proof fn lemma_nix_wrapped(head: Seq<char>, body: Seq<Seq<char>>, last: Seq<char>)
    requires
        nix_head()(head),
        nix_inner()(head),
        every(body, nix_other()),
        nix_other()(last),
    ensures
        every(seq![head] + body + seq![last], nix_inner()),
        (seq![head] + body + seq![last]).filter(nix_head()) == seq![head],
{
    lemma_other_is_inner(body);
    assert forall|i: int| 0 <= i < body.len() implies nix_head()(#[trigger] body[i])
        == false by {
        assert(nix_other()(body[i]));
    }
    lemma_first_kept(head, body, last, nix_head());
    lemma_every_added(seq![head], body, nix_inner());
    lemma_every_added(seq![head] + body, seq![last], nix_inner());
}

proof fn lemma_nix_fan(name: Seq<char>, fan: FanView)
    requires
        plain_fan()((name, fan)),
    ensures
        every(nix_fan(name, fan), nix_inner()),
        nix_fan(name, fan).filter(nix_head()) == seq![nix_fan_head(name)],
{
    let head = nix_fan_head(name);
    let last = "      };"@;
    assert(nix_head()(head) && nix_inner()(head)) by {
        reveal_strlit("      ");
        reveal_strlit(" = {");
        reveal_strlit("    fans = {");
        lemma_plain_setting("      "@, name, " = {"@);
        assert(head.last() == '{');
        assert(head[4] == ' ');
        assert(fans_line()[4] == 'f');
    }
    assert(nix_other()(last)) by {
        reveal_strlit("      };");
        lemma_other_end(last);
    }
    lemma_nix_settings(fan);
    lemma_nix_wrapped(head, nix_settings(fan), last);
}

/// The first lines of the attribute sets of the fans.
pub open spec fn fan_heads(entries: Seq<(Seq<char>, FanView)>) -> Seq<Seq<char>> {
    Seq::new(entries.len(), |i: int| nix_fan_head(entries[i].0))
}

proof fn lemma_nix_fans(entries: Seq<(Seq<char>, FanView)>)
    requires
        every(entries, plain_fan()),
    ensures
        every(nix_fans(entries), nix_inner()),
        nix_fans(entries).filter(nix_head()) == fan_heads(entries),
    decreases entries.len(),
{
    if entries.len() == 0 {
        lemma_filter_uniform(Seq::<Seq<char>>::empty(), nix_head(), false);
        assert(fan_heads(entries) =~= Seq::<Seq<char>>::empty());
    } else {
        let before = entries.drop_last();
        let last = entries.last();
        lemma_drop_last_plain(entries);
        lemma_nix_fans(before);
        lemma_nix_fan(last.0, last.1);
        lemma_every_added(nix_fans(before), nix_fan(last.0, last.1), nix_inner());
        Seq::filter_distributes_over_add(nix_fans(before), nix_fan(last.0, last.1), nix_head());
        assert(fan_heads(entries) =~= fan_heads(before) + seq![nix_fan_head(last.0)]);
    }
}

proof fn lemma_nix_defaults(d: DefaultsView)
    requires
        plain()(d.ramp_down_rate),
    ensures
        every(nix_defaults(d), nix_other()),
{
    let first = seq![
        "{"@,
        "  services.macprot2fans = {"@,
        "    enable = true;"@,
        ""@,
        "    defaults = {"@,
    ];
    let last = seq!["    };"@, ""@];
    assert(every(first, nix_other()) && every(last, nix_other())) by {
        reveal_strlit("{");
        reveal_strlit("  services.macprot2fans = {");
        reveal_strlit("    enable = true;");
        reveal_strlit("");
        reveal_strlit("    defaults = {");
        reveal_strlit("    };");
        reveal_strlit("    fans = {");
        assert(fans_line()[4] == 'f' && fans_line().len() == 12);
        lemma_other_start("{"@, 1);
        assert("  services.macprot2fans = {"@[2] == 's');
        assert(fans_line()[2] == ' ');
        lemma_other_start("  services.macprot2fans = {"@, 2);
        lemma_other_end("    enable = true;"@);
        lemma_other_end(""@);
        assert("    defaults = {"@[4] == 'd');
        lemma_other_start("    defaults = {"@, 4);
        lemma_other_end("    };"@);
    }
    let a = "      low_temp = "@;
    let b = "      high_temp = "@;
    let c = "      speed_curve = "@;
    let e = "      always_full_speed = "@;
    let f = "      sensor_aggregation = "@;
    let g = "      ramp_down_rate = "@;
    assert(plain()(a) && plain()(b) && plain()(c) && plain()(e) && plain()(f) && plain()(g)) by {
        reveal_strlit("      low_temp = ");
        reveal_strlit("      high_temp = ");
        reveal_strlit("      speed_curve = ");
        reveal_strlit("      always_full_speed = ");
        reveal_strlit("      sensor_aggregation = ");
        reveal_strlit("      ramp_down_rate = ");
    }
    lemma_plain_names(d.speed_curve, d.sensor_aggregation, d.always_full_speed);
    lemma_plain_decimal(d.low_temp as nat);
    lemma_plain_decimal(d.high_temp as nat);
    lemma_plain_float(d.ramp_down_rate);
    lemma_other_setting(a, decimal(d.low_temp as nat));
    lemma_other_setting(b, decimal(d.high_temp as nat));
    lemma_other_setting(c, quoted(d.speed_curve.text()));
    lemma_other_setting(e, bool_text(d.always_full_speed));
    lemma_other_setting(f, quoted(d.sensor_aggregation.text()));
    lemma_other_setting(g, nix_float(d.ramp_down_rate));
    let middle = seq![
        setting(a, decimal(d.low_temp as nat), ";"@),
        setting(b, decimal(d.high_temp as nat), ";"@),
        setting(c, quoted(d.speed_curve.text()), ";"@),
        setting(e, bool_text(d.always_full_speed), ";"@),
        setting(f, quoted(d.sensor_aggregation.text()), ";"@),
        setting(g, nix_float(d.ramp_down_rate), ";"@),
    ];
    assert(every(middle, nix_other()));
    lemma_every_added(first, middle, nix_other());
    lemma_every_added(first + middle, last, nix_other());
    assert(nix_defaults(d) =~= first + middle + last);
}

proof fn lemma_nix_degraded(g: DegradedView)
    requires
        every(g.expected_drivers, plain()),
    ensures
        every(nix_degraded(g), nix_other()),
{
    let first = seq!["    degraded = {"@, "      expected_drivers = ["@];
    assert(every(first, nix_other())) by {
        reveal_strlit("    degraded = {");
        reveal_strlit("      expected_drivers = [");
        reveal_strlit("    fans = {");
        assert(fans_line()[4] == 'f');
        assert("    degraded = {"@[4] == 'd');
        lemma_other_start("    degraded = {"@, 4);
        lemma_other_end("      expected_drivers = ["@);
    }
    assert(plain()("        "@)) by {
        reveal_strlit("        ");
    }
    let items = nix_items("        "@, g.expected_drivers);
    lemma_other_items("        "@, g.expected_drivers);
    let a = "      initial_percent = "@;
    let b = "      escalated_percent = "@;
    let c = "      escalation_delay = "@;
    assert(plain()(a) && plain()(b) && plain()(c)) by {
        reveal_strlit("      initial_percent = ");
        reveal_strlit("      escalated_percent = ");
        reveal_strlit("      escalation_delay = ");
    }
    lemma_plain_decimal(g.initial_percent as nat);
    lemma_plain_decimal(g.escalated_percent as nat);
    lemma_plain_decimal(g.escalation_delay as nat);
    lemma_other_setting(a, decimal(g.initial_percent as nat));
    lemma_other_setting(b, decimal(g.escalated_percent as nat));
    lemma_other_setting(c, decimal(g.escalation_delay as nat));
    assert(nix_other()("      ];"@) && nix_other()("    };"@) && nix_other()("  };"@)
        && nix_other()("}"@)) by {
        reveal_strlit("      ];");
        reveal_strlit("    };");
        reveal_strlit("  };");
        reveal_strlit("}");
        lemma_other_end("      ];"@);
        lemma_other_end("    };"@);
        lemma_other_end("  };"@);
        lemma_other_end("}"@);
    }
    let last = seq![
        "      ];"@,
        setting(a, decimal(g.initial_percent as nat), ";"@),
        setting(b, decimal(g.escalated_percent as nat), ";"@),
        setting(c, decimal(g.escalation_delay as nat), ";"@),
        "    };"@,
        "  };"@,
        "}"@,
    ];
    assert(every(last, nix_other()));
    lemma_every_added(first, items, nix_other());
    lemma_every_added(first + items, last, nix_other());
}

/// The block of the fans: its first line opens it, and opens no fan.
proof fn lemma_nix_fans_block(entries: Seq<(Seq<char>, FanView)>)
    requires
        every(entries, plain_fan()),
    ensures
        every(nix_fans_block(entries), plain()),
        nix_fans_block(entries).filter(nix_head()) == fan_heads(entries),
        entries.len() == 0 ==> nix_fans_block(entries).len() == 0,
        entries.len() > 0 ==> nix_fans_block(entries).len() > 0 && nix_fans_block(entries)[0]
            == fans_line(),
{
    lemma_nix_fans(entries);
    if entries.len() == 0 {
        lemma_filter_uniform(Seq::<Seq<char>>::empty(), nix_head(), false);
        assert(fan_heads(entries) =~= Seq::<Seq<char>>::empty());
    } else {
        let first = seq![fans_line()];
        let fans = nix_fans(entries);
        let last = seq!["    };"@, ""@];
        assert(plain()(fans_line()) && !nix_head()(fans_line())) by {
            reveal_strlit("    fans = {");
            assert(fans_line()[4] == 'f');
        }
        assert(every(last, nix_other())) by {
            reveal_strlit("    };");
            reveal_strlit("");
            lemma_other_end("    };"@);
            lemma_other_end(""@);
        }
        lemma_other_is_inner(last);
        lemma_filter_uniform(first, nix_head(), false);
        assert forall|i: int| 0 <= i < fans.len() implies plain()(#[trigger] fans[i]) by {
            assert(nix_inner()(fans[i]));
        }
        lemma_every_added(first, fans, plain());
        lemma_every_added(first + fans, last, plain());
        Seq::filter_distributes_over_add(first, fans, nix_head());
        Seq::filter_distributes_over_add(first + fans, last, nix_head());
        assert(Seq::<Seq<char>>::empty() + fan_heads(entries) + Seq::<Seq<char>>::empty()
            =~= fan_heads(entries));
        assert(nix_fans_block(entries) == first + fans + last);
    }
}

/// The text for NixOS opens a block of the fans if and only if there is a fan, and the lines
/// that open the attribute set of a fan are one for each fan, in the order of the names.
pub proof fn law_nix_blocks(
    defaults: DefaultsView,
    entries: Seq<(Seq<char>, FanView)>,
    degraded: DegradedView,
)
    requires
        all_plain(defaults, entries, degraded),
    ensures
        split(nix_text(defaults, entries, degraded), '\n').contains(fans_line()) <==> entries.len()
            > 0,
        split(nix_text(defaults, entries, degraded), '\n').filter(nix_head()) == fan_heads(entries),
{
    let a = nix_defaults(defaults);
    let b = nix_fans_block(entries);
    let c = nix_degraded(degraded);
    lemma_nix_defaults(defaults);
    lemma_nix_fans_block(entries);
    lemma_nix_degraded(degraded);
    lemma_other_is_inner(a);
    lemma_other_is_inner(c);
    lemma_every_added(a, b, plain());
    lemma_every_added(a + b, c, plain());
    let lines = nix_lines(defaults, entries, degraded);
    assert(lines == a + b + c);
    assert forall|i: int| 0 <= i < lines.len() implies !(#[trigger] lines[i]).contains('\n') by {
        assert(plain()(lines[i]));
    }
    law_lines_split_back(lines);
    let none = seq![Seq::<char>::empty()];
    assert(nix_other()(Seq::<char>::empty())) by {
        lemma_other_end(Seq::empty());
    }
    lemma_other_is_inner(none);
    Seq::filter_distributes_over_add(a, b, nix_head());
    Seq::filter_distributes_over_add(a + b, c, nix_head());
    Seq::filter_distributes_over_add(lines, none, nix_head());
    let all = lines.push(Seq::<char>::empty());
    assert(all =~= lines + none);
    let heads = fan_heads(entries);
    assert(Seq::<Seq<char>>::empty() + heads + Seq::<Seq<char>>::empty() + Seq::<Seq<char>>::empty()
        =~= heads);
    if entries.len() > 0 {
        assert(all[a.len() as int] == b[0]);
    } else {
        assert(b =~= Seq::<Seq<char>>::empty());
        lemma_every_added(a, c, nix_inner());
        lemma_every_added(a + c, none, nix_inner());
        assert(all =~= a + c + none);
        if all.contains(fans_line()) {
            let i = choose|i: int| 0 <= i < all.len() && all[i] == fans_line();
            assert(nix_inner()((a + c + none)[i]));
        }
    }
}

/// Whether a line begins with the key.
pub open spec fn begins(line: Seq<char>, key: Seq<char>) -> bool {
    line.len() >= key.len() && line.take(key.len() as int) == key
}

/// Whether one of the lines begins with the key.
pub open spec fn has_line(lines: Seq<Seq<char>>, key: Seq<char>) -> bool {
    exists|i: int| 0 <= i < lines.len() && begins(#[trigger] lines[i], key)
}

proof fn lemma_has_added(a: Seq<Seq<char>>, b: Seq<Seq<char>>, key: Seq<char>)
    ensures
        has_line(a + b, key) <==> has_line(a, key) || has_line(b, key),
{
    let all = a + b;
    if has_line(all, key) {
        let i = choose|i: int| 0 <= i < all.len() && begins(#[trigger] all[i], key);
        if i < a.len() {
            assert(begins(a[i], key));
        } else {
            assert(begins(b[i - a.len()], key));
        }
    }
    if has_line(a, key) {
        let i = choose|i: int| 0 <= i < a.len() && begins(#[trigger] a[i], key);
        assert(begins(all[i], key));
    }
    if has_line(b, key) {
        let i = choose|i: int| 0 <= i < b.len() && begins(#[trigger] b[i], key);
        assert(begins(all[a.len() + i], key));
    }
}

proof fn lemma_has_all_added(
    a: Seq<Seq<char>>,
    b: Seq<Seq<char>>,
    c: Seq<Seq<char>>,
    d: Seq<Seq<char>>,
    e: Seq<Seq<char>>,
    f: Seq<Seq<char>>,
    key: Seq<char>,
)
    ensures
        has_line(a + b + c + d + e + f, key) <==> has_line(a, key) || has_line(b, key) || has_line(
            c,
            key,
        ) || has_line(d, key) || has_line(e, key) || has_line(f, key),
{
    lemma_has_added(a, b, key);
    lemma_has_added(a + b, c, key);
    lemma_has_added(a + b + c, d, key);
    lemma_has_added(a + b + c + d, e, key);
    lemma_has_added(a + b + c + d + e, f, key);
}

/// Whether two keys differ within the length of both.
spec fn apart(a: Seq<char>, b: Seq<char>) -> bool {
    exists|k: int| 0 <= k < a.len() && k < b.len() && #[trigger] a[k] != b[k]
}

/// A line does not begin with two keys that differ.
proof fn lemma_begins_with_one(line: Seq<char>, own: Seq<char>, key: Seq<char>)
    requires
        begins(line, own),
        apart(key, own),
    ensures
        !begins(line, key),
{
    let k = choose|k: int| 0 <= k < key.len() && k < own.len() && #[trigger] key[k] != own[k];
    assert(line.take(own.len() as int)[k] == own[k]);
    if begins(line, key) {
        assert(line.take(key.len() as int)[k] == key[k]);
    }
}

/// The line of a setting, if it has a value, begins with its key and with no key that differs.
proof fn lemma_has_opt(own: Seq<char>, value: Option<Seq<char>>, end: Seq<char>)
    ensures
        has_line(opt_setting(own, value, end), own) <==> value is Some,
        forall|key: Seq<char>|
            apart(key, own) ==> !#[trigger] has_line(opt_setting(own, value, end), key),
{
    let lines = opt_setting(own, value, end);
    if value is Some {
        assert(lines[0].take(own.len() as int) =~= own);
        assert(begins(lines[0], own));
        assert forall|key: Seq<char>| apart(key, own) implies !#[trigger] has_line(lines, key) by {
            lemma_begins_with_one(lines[0], own, key);
        }
    }
}

/// Whether each two of the keys differ.
spec fn all_apart(keys: Seq<Seq<char>>) -> bool {
    forall|i: int, j: int|
        0 <= i < keys.len() && 0 <= j < keys.len() && i != j ==> apart(
            #[trigger] keys[i],
            #[trigger] keys[j],
        )
}

/// Of five settings and what comes behind them each has a line if and only if it has a value.
proof fn lemma_settings_stand(
    keys: Seq<Seq<char>>,
    values: Seq<Option<Seq<char>>>,
    end: Seq<char>,
    last: Seq<Seq<char>>,
)
    requires
        keys.len() == 6,
        values.len() == 5,
        all_apart(keys),
        forall|i: int| 0 <= i < 5 ==> !has_line(last, #[trigger] keys[i]),
    ensures
        ({
            let all = opt_setting(keys[0], values[0], end) + opt_setting(keys[1], values[1], end)
                + opt_setting(keys[2], values[2], end) + opt_setting(keys[3], values[3], end)
                + opt_setting(keys[4], values[4], end) + last;
            &&& has_line(all, keys[0]) <==> values[0] is Some
            &&& has_line(all, keys[1]) <==> values[1] is Some
            &&& has_line(all, keys[2]) <==> values[2] is Some
            &&& has_line(all, keys[3]) <==> values[3] is Some
            &&& has_line(all, keys[4]) <==> values[4] is Some
            &&& has_line(all, keys[5]) <==> has_line(last, keys[5])
        }),
{
    let a = opt_setting(keys[0], values[0], end);
    let b = opt_setting(keys[1], values[1], end);
    let c = opt_setting(keys[2], values[2], end);
    let d = opt_setting(keys[3], values[3], end);
    let e = opt_setting(keys[4], values[4], end);
    lemma_has_opt(keys[0], values[0], end);
    lemma_has_opt(keys[1], values[1], end);
    lemma_has_opt(keys[2], values[2], end);
    lemma_has_opt(keys[3], values[3], end);
    lemma_has_opt(keys[4], values[4], end);
    lemma_has_all_added(a, b, c, d, e, last, keys[0]);
    lemma_has_all_added(a, b, c, d, e, last, keys[1]);
    lemma_has_all_added(a, b, c, d, e, last, keys[2]);
    lemma_has_all_added(a, b, c, d, e, last, keys[3]);
    lemma_has_all_added(a, b, c, d, e, last, keys[4]);
    lemma_has_all_added(a, b, c, d, e, last, keys[5]);
}

/// The lines of the sensors begin with their key, and with no key that differs from it and
/// from their indentation.
proof fn lemma_has_sensors(sensors: Option<Seq<Seq<char>>>, key: Seq<char>)
    requires
        apart(key, "        sensors = ["@),
        key.len() > 8,
        key[8] != ' ',
        key[8] != ']',
    ensures
        has_line(nix_sensors(sensors), "        sensors = ["@) <==> sensors is Some,
        !has_line(nix_sensors(sensors), key),
{
    let own = "        sensors = ["@;
    if sensors is Some {
        let first = seq![own];
        let items = nix_items("          "@, sensors->0);
        let last = seq!["        ];"@];
        lemma_has_added(first, items, key);
        lemma_has_added(first + items, last, key);
        lemma_has_added(first, items, own);
        lemma_has_added(first + items, last, own);
        assert(own.take(own.len() as int) =~= own);
        assert(begins(first[0], own));
        lemma_begins_with_one(own, own, key);
        assert forall|i: int| 0 <= i < items.len() implies !begins(#[trigger] items[i], key) by {
            reveal_strlit("          ");
            if begins(items[i], key) {
                assert(items[i].take(key.len() as int)[8] == key[8]);
                assert(items[i][8] == ' ');
            }
        }
        assert(!begins(last[0], key)) by {
            reveal_strlit("        ];");
            if begins(last[0], key) {
                assert(last[0].take(key.len() as int)[8] == key[8]);
            }
        }
    }
}

/// The settings of a fan for NixOS: a line stands if and only if the setting has a value.
pub proof fn law_nix_settings_stand_where_set(fan: FanView)
    ensures
        has_line(nix_settings(fan), "        low_temp = "@) <==> fan.low_temp is Some,
        has_line(nix_settings(fan), "        high_temp = "@) <==> fan.high_temp is Some,
        has_line(nix_settings(fan), "        speed_curve = "@) <==> fan.speed_curve is Some,
        has_line(nix_settings(fan), "        sensor_aggregation = "@)
            <==> fan.sensor_aggregation is Some,
        has_line(nix_settings(fan), "        ramp_down_rate = "@) <==> fan.ramp_down_rate is Some,
        has_line(nix_settings(fan), "        sensors = ["@) <==> fan.sensors is Some,
{
    let keys = seq![
        "        low_temp = "@,
        "        high_temp = "@,
        "        speed_curve = "@,
        "        sensor_aggregation = "@,
        "        ramp_down_rate = "@,
        "        sensors = ["@,
    ];
    let values = seq![
        temp_value(fan.low_temp),
        temp_value(fan.high_temp),
        curve_value(fan.speed_curve),
        aggregation_value(fan.sensor_aggregation),
        float_value(fan.ramp_down_rate),
    ];
    reveal_strlit("        low_temp = ");
    reveal_strlit("        high_temp = ");
    reveal_strlit("        speed_curve = ");
    reveal_strlit("        sensor_aggregation = ");
    reveal_strlit("        ramp_down_rate = ");
    reveal_strlit("        sensors = [");
    assert(keys[0][8] == 'l' && keys[1][8] == 'h' && keys[4][8] == 'r');
    assert(keys[2][8] == 's' && keys[3][8] == 's' && keys[5][8] == 's');
    assert(keys[2][9] == 'p' && keys[3][9] == 'e' && keys[5][9] == 'e');
    assert(keys[3][14] == '_' && keys[5][14] == 's');
    lemma_marked_keys(keys, 8);
    lemma_has_sensors(fan.sensors, keys[0]);
    lemma_has_sensors(fan.sensors, keys[1]);
    lemma_has_sensors(fan.sensors, keys[2]);
    lemma_has_sensors(fan.sensors, keys[3]);
    lemma_has_sensors(fan.sensors, keys[4]);
    lemma_settings_stand(keys, values, ";"@, nix_sensors(fan.sensors));
}

/// The settings of a fan in TOML: a line stands if and only if the setting has a value.
pub proof fn law_toml_settings_stand_where_set(fan: FanView)
    ensures
        has_line(toml_settings(fan), "low_temp = "@) <==> fan.low_temp is Some,
        has_line(toml_settings(fan), "high_temp = "@) <==> fan.high_temp is Some,
        has_line(toml_settings(fan), "speed_curve = "@) <==> fan.speed_curve is Some,
        has_line(toml_settings(fan), "sensor_aggregation = "@) <==> fan.sensor_aggregation is Some,
        has_line(toml_settings(fan), "ramp_down_rate = "@) <==> fan.ramp_down_rate is Some,
        has_line(toml_settings(fan), "sensors = "@) <==> fan.sensors is Some,
{
    let keys = seq![
        "low_temp = "@,
        "high_temp = "@,
        "speed_curve = "@,
        "sensor_aggregation = "@,
        "ramp_down_rate = "@,
        "sensors = "@,
    ];
    let values = seq![
        temp_value(fan.low_temp),
        temp_value(fan.high_temp),
        curve_value(fan.speed_curve),
        aggregation_value(fan.sensor_aggregation),
        fan.ramp_down_rate,
    ];
    reveal_strlit("low_temp = ");
    reveal_strlit("high_temp = ");
    reveal_strlit("speed_curve = ");
    reveal_strlit("sensor_aggregation = ");
    reveal_strlit("ramp_down_rate = ");
    reveal_strlit("sensors = ");
    assert(keys[0][0] == 'l' && keys[1][0] == 'h' && keys[4][0] == 'r');
    assert(keys[2][0] == 's' && keys[3][0] == 's' && keys[5][0] == 's');
    assert(keys[2][1] == 'p' && keys[3][1] == 'e' && keys[5][1] == 'e');
    assert(keys[3][6] == '_' && keys[5][6] == 's');
    lemma_marked_keys(keys, 0);
    lemma_has_opt(keys[5], array_value(fan.sensors), ""@);
    lemma_settings_stand(keys, values, ""@, opt_setting(keys[5], array_value(fan.sensors), ""@));
}

/// The keys of the settings differ in their first, second or seventh character.
proof fn lemma_marked_keys(keys: Seq<Seq<char>>, start: int)
    requires
        keys.len() == 6,
        0 <= start,
        forall|i: int| 0 <= i < 6 ==> (#[trigger] keys[i]).len() > start + 6,
        keys[0][start] == 'l',
        keys[1][start] == 'h',
        keys[2][start] == 's',
        keys[3][start] == 's',
        keys[4][start] == 'r',
        keys[5][start] == 's',
        keys[2][start + 1] == 'p',
        keys[3][start + 1] == 'e',
        keys[5][start + 1] == 'e',
        keys[3][start + 6] == '_',
        keys[5][start + 6] == 's',
    ensures
        all_apart(keys),
{
    assert forall|i: int, j: int|
        0 <= i < keys.len() && 0 <= j < keys.len() && i != j implies apart(
        #[trigger] keys[i],
        #[trigger] keys[j],
    ) by {
        let a = keys[i];
        let b = keys[j];
        assert(a[start] != b[start] || a[start + 1] != b[start + 1] || a[start + 6] != b[start + 6]);
    }
}

} // verus!
