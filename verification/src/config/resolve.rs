//! What each fan gets of the configuration.
use vstd::prelude::*;

use crate::config::template::fan_names;
use crate::config::{DefaultsConfig, DefaultsView, FanView, RawConfig, RawFanConfig, ResolvedFanConfig, ResolvedView};
use crate::fan::discovery::FanPath;
use crate::sensor::discovery::text_listed;
use crate::sensor::{sensor_names, sensor_views, HwmonSensor};
use crate::text::{lemma_filter_pushed, same_text, texts};

verus! {

/// The first position of `name` in `list`.
pub open spec fn position(list: Seq<Seq<char>>, name: Seq<char>) -> Option<usize>
    decreases list.len(),
{
    if list.len() == 0 {
        None
    } else {
        match position(list.drop_last(), name) {
            Some(i) => Some(i),
            None => if list.last() == name {
                Some((list.len() - 1) as usize)
            } else {
                None
            },
        }
    }
}

/// The positions of the named sensors among the discovered ones; what was not discovered is
/// left out.
pub open spec fn sensor_positions(names: Seq<Seq<char>>, discovered: Seq<Seq<char>>) -> Seq<usize>
    decreases names.len(),
{
    if names.len() == 0 {
        Seq::empty()
    } else {
        let before = sensor_positions(names.drop_last(), discovered);
        match position(discovered, names.last()) {
            Some(i) => before.push(i),
            None => before,
        }
    }
}

/// A value of the section, or else the default.
pub open spec fn or_default<A>(own: Option<A>, default: A) -> A {
    match own {
        Some(v) => v,
        None => default,
    }
}

/// What a fan with that section, if it has one, runs with.
pub open spec fn resolved(
    defaults: DefaultsView,
    section: Option<FanView>,
    sensors: Seq<Seq<char>>,
) -> ResolvedView {
    match section {
        Some(own) => ResolvedView {
            low_temp: or_default(own.low_temp, defaults.low_temp),
            high_temp: or_default(own.high_temp, defaults.high_temp),
            speed_curve: or_default(own.speed_curve, defaults.speed_curve),
            sensor_aggregation: or_default(own.sensor_aggregation, defaults.sensor_aggregation),
            ramp_down_rate: or_default(own.ramp_down_rate, defaults.ramp_down_rate),
            sensor_indices: match own.sensors {
                Some(names) => Some(sensor_positions(names, sensors)),
                None => None,
            },
        },
        None => ResolvedView {
            low_temp: defaults.low_temp,
            high_temp: defaults.high_temp,
            speed_curve: defaults.speed_curve,
            sensor_aggregation: defaults.sensor_aggregation,
            ramp_down_rate: defaults.ramp_down_rate,
            sensor_indices: None,
        },
    }
}

/// The section of a fan.
pub open spec fn section_of(sections: Map<Seq<char>, FanView>, name: Seq<char>) -> Option<FanView> {
    if sections.contains_key(name) {
        Some(sections[name])
    } else {
        None
    }
}

/// The views of a list of resolved configurations.
pub open spec fn resolved_views(list: Seq<ResolvedFanConfig>) -> Seq<ResolvedView> {
    Seq::new(list.len(), |i: int| list[i]@)
}

/// What each of the fans runs with.
pub open spec fn all_resolved(
    defaults: DefaultsView,
    sections: Map<Seq<char>, FanView>,
    fans: Seq<Seq<char>>,
    sensors: Seq<Seq<char>>,
) -> Seq<ResolvedView> {
    Seq::new(fans.len(), |i: int| resolved(defaults, section_of(sections, fans[i]), sensors))
}

fn find_name(list: &Vec<String>, name: &str) -> (r: Option<usize>)
    ensures
        r == position(texts(list@), name@),
{
    let ghost all = texts(list@);
    let mut i: usize = 0;
    assert(all.take(0) == Seq::<Seq<char>>::empty());
    while i < list.len()
        invariant
            all == texts(list@),
            i <= list.len(),
            position(all.take(i as int), name@) is None,
        decreases list.len() - i,
    {
        assert(all.take(i + 1).drop_last() == all.take(i as int));
        assert(all.take(i + 1).last() == list@[i as int]@);
        if same_text(list[i].as_str(), name) {
            proof {
                lemma_position_stays(all, i + 1, name@);
            }
            return Some(i);
        }
        i = i + 1;
    }
    assert(all.take(i as int) == all);
    None
}

proof fn lemma_position_stays(list: Seq<Seq<char>>, n: int, name: Seq<char>)
    requires
        0 <= n <= list.len(),
        position(list.take(n), name) is Some,
    ensures
        position(list, name) == position(list.take(n), name),
    decreases list.len(),
{
    if n == list.len() {
        assert(list.take(n) == list);
    } else {
        assert(list.drop_last().take(n) == list.take(n));
        lemma_position_stays(list.drop_last(), n, name);
    }
}

fn validate_sensor_names(config_names: &Vec<String>, discovered: &Vec<String>) -> (r: Vec<usize>)
    ensures
        r@ == sensor_positions(texts(config_names@), texts(discovered@)),
{
    let ghost names = texts(config_names@);
    let mut indices: Vec<usize> = Vec::new();
    let mut i: usize = 0;
    assert(names.take(0) == Seq::<Seq<char>>::empty());
    while i < config_names.len()
        invariant
            names == texts(config_names@),
            i <= config_names.len(),
            indices@ == sensor_positions(names.take(i as int), texts(discovered@)),
        decreases config_names.len() - i,
    {
        assert(names.take(i + 1).drop_last() == names.take(i as int));
        assert(names.take(i + 1).last() == config_names@[i as int]@);
        match find_name(discovered, config_names[i].as_str()) {
            Some(idx) => {
                indices.push(idx);
            },
            None => {},
        }
        i = i + 1;
    }
    assert(names.take(i as int) == names);
    indices
}

fn resolve_single_fan(
    defaults: &DefaultsConfig,
    raw_fan: Option<&RawFanConfig>,
    sensors: &Vec<String>,
) -> (r: ResolvedFanConfig)
    ensures
        raw_fan matches Some(own) ==> r@ == resolved(defaults@, Some(own@), texts(sensors@)),
        raw_fan is None ==> r@ == resolved(defaults@, None, texts(sensors@)),
{
    match raw_fan {
        Some(own) => ResolvedFanConfig {
            low_temp: own.low_temp.unwrap_or(defaults.low_temp),
            high_temp: own.high_temp.unwrap_or(defaults.high_temp),
            speed_curve: own.speed_curve.unwrap_or(defaults.speed_curve),
            sensor_aggregation: own.sensor_aggregation.unwrap_or(defaults.sensor_aggregation),
            ramp_down_rate: match &own.ramp_down_rate {
                Some(rate) => rate.clone(),
                None => defaults.ramp_down_rate.clone(),
            },
            sensor_indices: match &own.sensors {
                Some(names) => Some(validate_sensor_names(names, sensors)),
                None => None,
            },
        },
        None => ResolvedFanConfig {
            low_temp: defaults.low_temp,
            high_temp: defaults.high_temp,
            speed_curve: defaults.speed_curve,
            sensor_aggregation: defaults.sensor_aggregation,
            ramp_down_rate: defaults.ramp_down_rate.clone(),
            sensor_indices: None,
        },
    }
}

pub(crate) fn names_of_sensors<H>(sensors: &Vec<HwmonSensor<H>>) -> (r: Vec<String>)
    ensures
        texts(r@) == sensor_names(sensor_views(sensors@)),
{
    let ghost all = sensor_names(sensor_views(sensors@));
    let mut names: Vec<String> = Vec::new();
    let mut i: usize = 0;
    while i < sensors.len()
        invariant
            all == sensor_names(sensor_views(sensors@)),
            i <= sensors.len(),
            texts(names@) == all.take(i as int),
        decreases sensors.len() - i,
    {
        let ghost had = names@;
        names.push(sensors[i].name().to_string());
        i = i + 1;
        assert(texts(names@) == texts(had).push(all[i - 1]));
        assert(texts(names@) == all.take(i as int));
    }
    assert(all.take(i as int) == all);
    names
}

/// What each discovered fan runs with: the values of its section, and the defaults for the
/// rest.
pub fn resolve_config<H>(
    raw: &RawConfig,
    fan_paths: &Vec<FanPath>,
    sensors: &Vec<HwmonSensor<H>>,
) -> (r: Vec<ResolvedFanConfig>)
    ensures
        resolved_views(r@) == all_resolved(
            raw.defaults@,
            raw.fan@,
            fan_names(fan_paths@),
            sensor_names(sensor_views(sensors@)),
        ),
{
    let names = names_of_sensors(sensors);
    let ghost all = all_resolved(
        raw.defaults@,
        raw.fan@,
        fan_names(fan_paths@),
        sensor_names(sensor_views(sensors@)),
    );
    let mut out: Vec<ResolvedFanConfig> = Vec::new();
    let mut i: usize = 0;
    while i < fan_paths.len()
        invariant
            i <= fan_paths.len(),
            texts(names@) == sensor_names(sensor_views(sensors@)),
            all == all_resolved(
                raw.defaults@,
                raw.fan@,
                fan_names(fan_paths@),
                sensor_names(sensor_views(sensors@)),
            ),
            resolved_views(out@) == all.take(i as int),
        decreases fan_paths.len() - i,
    {
        let ghost had = out@;
        let section = raw.fan.get(fan_paths[i].name.as_str());
        let one = resolve_single_fan(&raw.defaults, section, &names);
        assert(one@ == all[i as int]);
        out.push(one);
        i = i + 1;
        assert(resolved_views(out@) == resolved_views(had).push(all[i - 1]));
        assert(resolved_views(out@) == all.take(i as int));
    }
    assert(all.take(i as int) == all);
    out
}

/// The warning for a section without a fan.
pub open spec fn fan_warning(name: Seq<char>) -> Seq<char> {
    "Warning: config has [fan."@ + name + "] but no such fan was discovered"@
}

/// The warning for a name without a sensor.
pub open spec fn sensor_warning(name: Seq<char>) -> Seq<char> {
    "Warning: sensor \""@ + name + "\" in config not found in discovered sensors"@
}

/// A warning for each section whose fan was not discovered.
pub open spec fn fan_warnings(
    entries: Seq<(Seq<char>, FanView)>,
    fans: Seq<Seq<char>>,
) -> Seq<Seq<char>>
    decreases entries.len(),
{
    if entries.len() == 0 {
        Seq::empty()
    } else {
        let before = fan_warnings(entries.drop_last(), fans);
        if fans.contains(entries.last().0) {
            before
        } else {
            before.push(fan_warning(entries.last().0))
        }
    }
}

/// A warning for each name that is not the name of a discovered sensor.
pub open spec fn name_warnings(names: Seq<Seq<char>>, discovered: Seq<Seq<char>>) -> Seq<Seq<char>>
    decreases names.len(),
{
    if names.len() == 0 {
        Seq::empty()
    } else {
        let before = name_warnings(names.drop_last(), discovered);
        if discovered.contains(names.last()) {
            before
        } else {
            before.push(sensor_warning(names.last()))
        }
    }
}

/// The warnings for the names in the sections of the discovered fans.
pub open spec fn sensor_warnings(
    sections: Map<Seq<char>, FanView>,
    fans: Seq<Seq<char>>,
    discovered: Seq<Seq<char>>,
) -> Seq<Seq<char>>
    decreases fans.len(),
{
    if fans.len() == 0 {
        Seq::empty()
    } else {
        let before = sensor_warnings(sections, fans.drop_last(), discovered);
        match section_of(sections, fans.last()) {
            Some(own) => match own.sensors {
                Some(names) => before + name_warnings(names, discovered),
                None => before,
            },
            None => before,
        }
    }
}

fn warn(start: &str, name: &str, end: &str) -> (r: String)
    ensures
        r@ == start@ + name@ + end@,
{
    let mut out = start.to_string();
    out.append(name);
    out.append(end);
    out
}

fn fan_listed(fan_paths: &Vec<FanPath>, name: &str) -> (r: bool)
    ensures
        r == fan_names(fan_paths@).contains(name@),
{
    let mut i: usize = 0;
    while i < fan_paths.len()
        invariant
            i <= fan_paths.len(),
            forall|j: int| 0 <= j < i ==> fan_names(fan_paths@)[j] != name@,
        decreases fan_paths.len() - i,
    {
        if same_text(fan_paths[i].name.as_str(), name) {
            assert(fan_names(fan_paths@)[i as int] == name@);
            return true;
        }
        i = i + 1;
    }
    false
}

fn warn_of_names(names: &Vec<String>, discovered: &Vec<String>, out: &mut Vec<String>)
    ensures
        texts(final(out)@) == texts(old(out)@) + name_warnings(texts(names@), texts(discovered@)),
{
    let ghost all = texts(names@);
    let ghost start = texts(out@);
    let mut i: usize = 0;
    assert(all.take(0) == Seq::<Seq<char>>::empty());
    assert(start + Seq::<Seq<char>>::empty() == start);
    while i < names.len()
        invariant
            all == texts(names@),
            i <= names.len(),
            texts(out@) == start + name_warnings(all.take(i as int), texts(discovered@)),
        decreases names.len() - i,
    {
        assert(all.take(i + 1).drop_last() == all.take(i as int));
        assert(all.take(i + 1).last() == names@[i as int]@);
        if !text_listed(discovered, names[i].as_str()) {
            let ghost had = out@;
            let line = warn(
                "Warning: sensor \"",
                names[i].as_str(),
                "\" in config not found in discovered sensors",
            );
            out.push(line);
            assert(texts(out@) == texts(had).push(line@));
        }
        i = i + 1;
        assert(texts(out@) == start + name_warnings(all.take(i as int), texts(discovered@)));
    }
    assert(all.take(i as int) == all);
}

/// What the configuration names that was not discovered.
pub fn config_warnings<H>(
    raw: &RawConfig,
    fan_paths: &Vec<FanPath>,
    sensors: &Vec<HwmonSensor<H>>,
) -> (r: Vec<String>)
    ensures
        texts(r@) == fan_warnings(raw.fan.entries(), fan_names(fan_paths@)) + sensor_warnings(
            raw.fan@,
            fan_names(fan_paths@),
            sensor_names(sensor_views(sensors@)),
        ),
{
    let names = names_of_sensors(sensors);
    let ghost fans = fan_names(fan_paths@);
    let ghost entries = raw.fan.entries();
    let mut out: Vec<String> = Vec::new();
    let mut i: usize = 0;
    let n: usize = raw.fan.len();
    assert(entries.take(0) == Seq::<(Seq<char>, FanView)>::empty());
    assert(texts(out@) == Seq::<Seq<char>>::empty());
    while i < n
        invariant
            i <= n,
            n == entries.len(),
            entries == raw.fan.entries(),
            fans == fan_names(fan_paths@),
            texts(out@) == fan_warnings(entries.take(i as int), fans),
        decreases n - i,
    {
        assert(entries.take(i + 1).drop_last() == entries.take(i as int));
        assert(entries.take(i + 1).last() == entries[i as int]);
        let name = raw.fan.name_at(i);
        if !fan_listed(fan_paths, name) {
            let ghost had = out@;
            let line = warn(
                "Warning: config has [fan.",
                name,
                "] but no such fan was discovered",
            );
            out.push(line);
            assert(texts(out@) == texts(had).push(line@));
        }
        i = i + 1;
    }
    assert(entries.take(i as int) == entries);
    let ghost start = texts(out@);
    let mut k: usize = 0;
    assert(fans.take(0) == Seq::<Seq<char>>::empty());
    assert(start + Seq::<Seq<char>>::empty() == start);
    while k < fan_paths.len()
        invariant
            k <= fan_paths.len(),
            fans == fan_names(fan_paths@),
            texts(names@) == sensor_names(sensor_views(sensors@)),
            texts(out@) == start + sensor_warnings(raw.fan@, fans.take(k as int), texts(names@)),
        decreases fan_paths.len() - k,
    {
        assert(fans.take(k + 1).drop_last() == fans.take(k as int));
        assert(fans.take(k + 1).last() == fan_paths@[k as int].name@);
        match raw.fan.get(fan_paths[k].name.as_str()) {
            Some(own) => match &own.sensors {
                Some(list) => {
                    warn_of_names(list, &names, &mut out);
                },
                None => {},
            },
            None => {},
        }
        k = k + 1;
        assert(texts(out@) == start + sensor_warnings(raw.fan@, fans.take(k as int), texts(names@)));
    }
    assert(fans.take(k as int) == fans);
    out
}

/// A position is that of the first sensor with the name.
pub proof fn law_position_is_the_first(list: Seq<Seq<char>>, name: Seq<char>)
    requires
        list.len() <= usize::MAX,
    ensures
        match position(list, name) {
            Some(i) => i < list.len() && list[i as int] == name && forall|j: int|
                0 <= j < i ==> list[j] != name,
            None => !list.contains(name),
        },
    decreases list.len(),
{
    if list.len() > 0 {
        let before = list.drop_last();
        law_position_is_the_first(before, name);
        match position(before, name) {
            Some(i) => {
                assert(list[i as int] == before[i as int]);
                assert forall|j: int| 0 <= j < i implies list[j] != name by {
                    assert(list[j] == before[j]);
                }
            },
            None => {
                assert forall|j: int| 0 <= j < before.len() implies list[j] != name by {
                    assert(before.contains(before[j]));
                    assert(list[j] == before[j]);
                }
                if list.last() != name {
                    assert(!list.contains(name));
                }
            },
        }
    }
}

/// Every position that a fan follows is that of a discovered sensor, and the sensor is one
/// that the section names.
pub proof fn law_positions_are_of_named_sensors(
    names: Seq<Seq<char>>,
    discovered: Seq<Seq<char>>,
    k: int,
)
    requires
        discovered.len() <= usize::MAX,
        0 <= k < sensor_positions(names, discovered).len(),
    ensures
        sensor_positions(names, discovered)[k] < discovered.len(),
        names.contains(discovered[sensor_positions(names, discovered)[k] as int]),
    decreases names.len(),
{
    let before = sensor_positions(names.drop_last(), discovered);
    let all = sensor_positions(names, discovered);
    if k < before.len() {
        law_positions_are_of_named_sensors(names.drop_last(), discovered, k);
        assert(all[k] == before[k]);
        let name = discovered[all[k] as int];
        let j = choose|j: int| 0 <= j < names.drop_last().len() && names.drop_last()[j] == name;
        assert(names[j] == name);
    } else {
        law_position_is_the_first(discovered, names.last());
        assert(names[names.len() - 1] == names.last());
    }
}

/// Names that were all discovered give their sensors, one for each name and in the same order.
pub proof fn law_discovered_names_are_followed(names: Seq<Seq<char>>, discovered: Seq<Seq<char>>)
    requires
        discovered.len() <= usize::MAX,
        forall|i: int| 0 <= i < names.len() ==> discovered.contains(#[trigger] names[i]),
    ensures
        sensor_positions(names, discovered).len() == names.len(),
        forall|i: int|
            0 <= i < names.len() ==> discovered[sensor_positions(names, discovered)[i] as int]
                == #[trigger] names[i],
    decreases names.len(),
{
    if names.len() > 0 {
        let before = names.drop_last();
        assert forall|i: int| 0 <= i < before.len() implies discovered.contains(
            #[trigger] before[i],
        ) by {
            assert(before[i] == names[i]);
        }
        law_discovered_names_are_followed(before, discovered);
        assert(names[names.len() - 1] == names.last());
        law_position_is_the_first(discovered, names.last());
        assert forall|i: int| 0 <= i < names.len() implies discovered[sensor_positions(
            names,
            discovered,
        )[i] as int] == #[trigger] names[i] by {
            if i < before.len() {
                assert(before[i] == names[i]);
            }
        }
    }
}

/// Sensors that are discovered later do not change which sensors a fan follows, as long as
/// the names of its section were already found.
pub proof fn law_positions_stay(names: Seq<Seq<char>>, discovered: Seq<Seq<char>>, later: Seq<Seq<char>>)
    requires
        discovered.len() + later.len() <= usize::MAX,
        forall|i: int| 0 <= i < names.len() ==> discovered.contains(#[trigger] names[i]),
    ensures
        sensor_positions(names, discovered + later) == sensor_positions(names, discovered),
    decreases names.len(),
{
    if names.len() > 0 {
        let before = names.drop_last();
        assert forall|i: int| 0 <= i < before.len() implies discovered.contains(
            #[trigger] before[i],
        ) by {
            assert(before[i] == names[i]);
        }
        law_positions_stay(before, discovered, later);
        let last = names.last();
        assert(names[names.len() - 1] == last);
        law_position_is_the_first(discovered, last);
        let all = discovered + later;
        assert(all.take(discovered.len() as int) == discovered);
        lemma_position_stays(all, discovered.len() as int, last);
    }
}

/// A fan with a section runs with each value that the section sets, and with the default for
/// each that it does not; the sensors that it names are those that it follows, and all where it
/// names none.
pub proof fn law_section_comes_before_the_defaults(
    defaults: DefaultsView,
    own: FanView,
    sensors: Seq<Seq<char>>,
)
    ensures
        ({
            let got = resolved(defaults, Some(own), sensors);
            &&& own.low_temp matches Some(v) ==> got.low_temp == v
            &&& own.low_temp is None ==> got.low_temp == defaults.low_temp
            &&& own.high_temp matches Some(v) ==> got.high_temp == v
            &&& own.high_temp is None ==> got.high_temp == defaults.high_temp
            &&& own.speed_curve matches Some(v) ==> got.speed_curve == v
            &&& own.speed_curve is None ==> got.speed_curve == defaults.speed_curve
            &&& own.sensor_aggregation matches Some(v) ==> got.sensor_aggregation == v
            &&& own.sensor_aggregation is None ==> got.sensor_aggregation == defaults.sensor_aggregation
            &&& own.ramp_down_rate matches Some(v) ==> got.ramp_down_rate == v
            &&& own.ramp_down_rate is None ==> got.ramp_down_rate == defaults.ramp_down_rate
            &&& own.sensors matches Some(names) ==> got.sensor_indices == Some(
                sensor_positions(names, sensors),
            )
            &&& own.sensors is None ==> got.sensor_indices is None
        }),
{
}

/// A fan without a section runs with the defaults, and follows all sensors.
pub proof fn law_fan_without_section_has_the_defaults(
    defaults: DefaultsView,
    sensors: Seq<Seq<char>>,
)
    ensures
        ({
            let got = resolved(defaults, None, sensors);
            &&& got.low_temp == defaults.low_temp
            &&& got.high_temp == defaults.high_temp
            &&& got.speed_curve == defaults.speed_curve
            &&& got.sensor_aggregation == defaults.sensor_aggregation
            &&& got.ramp_down_rate == defaults.ramp_down_rate
            &&& got.sensor_indices is None
        }),
{
}

/// Every fan is resolved in its place, with the section of its name if there is one.
pub proof fn law_every_fan_has_its_own_section(
    defaults: DefaultsView,
    sections: Map<Seq<char>, FanView>,
    fans: Seq<Seq<char>>,
    sensors: Seq<Seq<char>>,
    i: int,
)
    requires
        0 <= i < fans.len(),
    ensures
        all_resolved(defaults, sections, fans, sensors).len() == fans.len(),
        sections.contains_key(fans[i]) ==> all_resolved(defaults, sections, fans, sensors)[i]
            == resolved(defaults, Some(sections[fans[i]]), sensors),
        !sections.contains_key(fans[i]) ==> all_resolved(defaults, sections, fans, sensors)[i]
            == resolved(defaults, None, sensors),
{
}

/// The names that were discovered, as a condition.
pub open spec fn among(discovered: Seq<Seq<char>>) -> spec_fn(Seq<char>) -> bool {
    |name: Seq<char>| discovered.contains(name)
}

/// A name that was not discovered makes no difference: the sensors that are followed are those
/// of the other names.
pub proof fn law_undiscovered_names_are_left_out(
    names: Seq<Seq<char>>,
    discovered: Seq<Seq<char>>,
)
    requires
        discovered.len() <= usize::MAX,
    ensures
        sensor_positions(names, discovered) == sensor_positions(
            names.filter(among(discovered)),
            discovered,
        ),
        sensor_positions(names, discovered).len() == names.filter(among(discovered)).len(),
        forall|i: int|
            0 <= i < names.filter(among(discovered)).len() ==> discovered[sensor_positions(
                names,
                discovered,
            )[i] as int] == #[trigger] names.filter(among(discovered))[i],
{
    let keep = among(discovered);
    let kept = names.filter(keep);
    lemma_undiscovered(names, discovered);
    assert forall|i: int| 0 <= i < kept.len() implies discovered.contains(#[trigger] kept[i]) by {
        names.lemma_filter_contains_rev(keep, kept[i]);
    }
    law_discovered_names_are_followed(kept, discovered);
}

proof fn lemma_undiscovered(names: Seq<Seq<char>>, discovered: Seq<Seq<char>>)
    requires
        discovered.len() <= usize::MAX,
    ensures
        sensor_positions(names, discovered) == sensor_positions(
            names.filter(among(discovered)),
            discovered,
        ),
    decreases names.len(),
{
    let keep = among(discovered);
    if names.len() == 0 {
        lemma_filter_pushed(names, arbitrary(), keep);
        assert(names =~= Seq::<Seq<char>>::empty());
    } else {
        let before = names.drop_last();
        let last = names.last();
        lemma_undiscovered(before, discovered);
        lemma_filter_pushed(before, last, keep);
        assert(names =~= before.push(last));
        law_position_is_the_first(discovered, last);
        assert(before.filter(keep).push(last).drop_last() =~= before.filter(keep));
        if position(discovered, last) is Some {
            assert(discovered.contains(discovered[position(discovered, last)->0 as int]));
        }
    }
}

/// The entries whose fan was not discovered, as a condition.
pub open spec fn without_fan(fans: Seq<Seq<char>>) -> spec_fn((Seq<char>, FanView)) -> bool {
    |entry: (Seq<char>, FanView)| !fans.contains(entry.0)
}

/// Each section without a fan is warned of by its name, in order, and no other.
pub proof fn law_sections_without_a_fan_are_warned_of(
    entries: Seq<(Seq<char>, FanView)>,
    fans: Seq<Seq<char>>,
)
    ensures
        fan_warnings(entries, fans) == entries.filter(without_fan(fans)).map_values(
            |entry: (Seq<char>, FanView)|
                "Warning: config has [fan."@ + entry.0 + "] but no such fan was discovered"@,
        ),
    decreases entries.len(),
{
    let keep = without_fan(fans);
    let value = |entry: (Seq<char>, FanView)|
        "Warning: config has [fan."@ + entry.0 + "] but no such fan was discovered"@;
    if entries.len() == 0 {
        lemma_filter_pushed(entries, arbitrary(), keep);
        assert(entries =~= Seq::<(Seq<char>, FanView)>::empty());
        assert(entries.filter(keep).map_values(value) =~= Seq::<Seq<char>>::empty());
    } else {
        let before = entries.drop_last();
        let last = entries.last();
        law_sections_without_a_fan_are_warned_of(before, fans);
        lemma_filter_pushed(before, last, keep);
        assert(entries =~= before.push(last));
        if keep(last) {
            assert(before.filter(keep).push(last).map_values(value) =~= before.filter(
                keep,
            ).map_values(value).push(value(last)));
        }
    }
}

/// The names that were not discovered, as a condition.
pub open spec fn not_among(discovered: Seq<Seq<char>>) -> spec_fn(Seq<char>) -> bool {
    |name: Seq<char>| !discovered.contains(name)
}

/// Each name without a sensor is warned of, in order, and no other.
pub proof fn law_names_without_a_sensor_are_warned_of(
    names: Seq<Seq<char>>,
    discovered: Seq<Seq<char>>,
)
    ensures
        name_warnings(names, discovered) == names.filter(not_among(discovered)).map_values(
            |name: Seq<char>|
                "Warning: sensor \""@ + name + "\" in config not found in discovered sensors"@,
        ),
    decreases names.len(),
{
    let keep = not_among(discovered);
    let value = |name: Seq<char>|
        "Warning: sensor \""@ + name + "\" in config not found in discovered sensors"@;
    if names.len() == 0 {
        lemma_filter_pushed(names, arbitrary(), keep);
        assert(names =~= Seq::<Seq<char>>::empty());
        assert(names.filter(keep).map_values(value) =~= Seq::<Seq<char>>::empty());
    } else {
        let before = names.drop_last();
        let last = names.last();
        law_names_without_a_sensor_are_warned_of(before, discovered);
        lemma_filter_pushed(before, last, keep);
        assert(names =~= before.push(last));
        if keep(last) {
            assert(before.filter(keep).push(last).map_values(value) =~= before.filter(
                keep,
            ).map_values(value).push(value(last)));
        }
    }
}

/// A discovered fan more adds the warnings for the names in its section, if it has one with
/// names.
pub proof fn law_each_fan_adds_its_warnings(
    sections: Map<Seq<char>, FanView>,
    fans: Seq<Seq<char>>,
    fan: Seq<char>,
    discovered: Seq<Seq<char>>,
)
    ensures
        sensor_warnings(sections, Seq::<Seq<char>>::empty(), discovered) == Seq::<
            Seq<char>,
        >::empty(),
        sections.contains_key(fan) && sections[fan].sensors is Some ==> sensor_warnings(
            sections,
            fans.push(fan),
            discovered,
        ) == sensor_warnings(sections, fans, discovered) + name_warnings(
            sections[fan].sensors->0,
            discovered,
        ),
        !sections.contains_key(fan) || sections[fan].sensors is None ==> sensor_warnings(
            sections,
            fans.push(fan),
            discovered,
        ) == sensor_warnings(sections, fans, discovered),
{
    assert(fans.push(fan).drop_last() =~= fans);
}

} // verus!
