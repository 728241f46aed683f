//! Configuration: the values of the file, their defaults, and what each fan gets of them.
pub mod cli;
pub mod resolve;
pub mod template;

use vstd::prelude::*;

use crate::config::template::config_template;
use crate::error::{Error, FileRead};
use crate::fan::discovery::FanPath;
use crate::order::{lemma_text_order, sorts_before, text_before};
use crate::sensor::HwmonSensor;
use crate::text::{copy_texts, opt_text, same_text, texts};

pub use cli::{parse_cli_args, CliArgs};
pub use resolve::resolve_config;
pub use template::generate_config_toml;

verus! {

/// How the fan speed rises with the temperature.
#[derive(Clone, Copy, Debug, PartialEq, Eq, Structural)]
pub enum SpeedCurve {
    Linear,
    Exponential,
    Logarithmic,
}

impl Default for SpeedCurve {
    fn default() -> (r: SpeedCurve)
        ensures
            r == SpeedCurve::Linear,
    {
        SpeedCurve::Linear
    }
}

impl SpeedCurve {
    /// The name of the curve in a configuration file.
    pub open spec fn text(self) -> Seq<char> {
        match self {
            SpeedCurve::Linear => "linear"@,
            SpeedCurve::Exponential => "exponential"@,
            SpeedCurve::Logarithmic => "logarithmic"@,
        }
    }

    /// The name of the curve in a configuration file.
    pub fn name(self) -> (r: &'static str)
        ensures
            r@ == self.text(),
    {
        match self {
            SpeedCurve::Linear => "linear",
            SpeedCurve::Exponential => "exponential",
            SpeedCurve::Logarithmic => "logarithmic",
        }
    }

    /// Reads the name of a curve; what names no curve is answered with an explanation.
    pub fn parse(s: &str) -> (r: Result<SpeedCurve, String>)
        ensures
            match curve_named(s@) {
                Some(curve) => r == Ok::<SpeedCurve, String>(curve),
                None => r matches Err(e) && e@ == "unknown speed_curve \""@ + s@
                    + "\", expected \"linear\", \"exponential\", or \"logarithmic\""@,
            },
    {
        if same_text(s, "linear") {
            Ok(SpeedCurve::Linear)
        } else if same_text(s, "exponential") {
            Ok(SpeedCurve::Exponential)
        } else if same_text(s, "logarithmic") {
            Ok(SpeedCurve::Logarithmic)
        } else {
            let mut e = "unknown speed_curve \"".to_string();
            e.append(s);
            e.append("\", expected \"linear\", \"exponential\", or \"logarithmic\"");
            Err(e)
        }
    }
}

/// The curve with that name.
pub open spec fn curve_named(s: Seq<char>) -> Option<SpeedCurve> {
    if s == "linear"@ {
        Some(SpeedCurve::Linear)
    } else if s == "exponential"@ {
        Some(SpeedCurve::Exponential)
    } else if s == "logarithmic"@ {
        Some(SpeedCurve::Logarithmic)
    } else {
        None
    }
}

/// How the temperatures of several sensors become one.
#[derive(Clone, Copy, Debug, PartialEq, Eq, Structural)]
pub enum SensorAggregation {
    Max,
    Average,
    Min,
}

impl Default for SensorAggregation {
    fn default() -> (r: SensorAggregation)
        ensures
            r == SensorAggregation::Max,
    {
        SensorAggregation::Max
    }
}

impl SensorAggregation {
    /// The name of the method in a configuration file.
    pub open spec fn text(self) -> Seq<char> {
        match self {
            SensorAggregation::Max => "max"@,
            SensorAggregation::Average => "average"@,
            SensorAggregation::Min => "min"@,
        }
    }

    /// The name of the method in a configuration file.
    pub fn name(self) -> (r: &'static str)
        ensures
            r@ == self.text(),
    {
        match self {
            SensorAggregation::Max => "max",
            SensorAggregation::Average => "average",
            SensorAggregation::Min => "min",
        }
    }

    /// Reads the name of a method; what names no method is answered with an explanation.
    pub fn parse(s: &str) -> (r: Result<SensorAggregation, String>)
        ensures
            match aggregation_named(s@) {
                Some(method) => r == Ok::<SensorAggregation, String>(method),
                None => r matches Err(e) && e@ == "unknown sensor_aggregation \""@ + s@
                    + "\", expected \"max\", \"average\", or \"min\""@,
            },
    {
        if same_text(s, "max") {
            Ok(SensorAggregation::Max)
        } else if same_text(s, "average") {
            Ok(SensorAggregation::Average)
        } else if same_text(s, "min") {
            Ok(SensorAggregation::Min)
        } else {
            let mut e = "unknown sensor_aggregation \"".to_string();
            e.append(s);
            e.append("\", expected \"max\", \"average\", or \"min\"");
            Err(e)
        }
    }
}

/// The method with that name.
pub open spec fn aggregation_named(s: Seq<char>) -> Option<SensorAggregation> {
    if s == "max"@ {
        Some(SensorAggregation::Max)
    } else if s == "average"@ {
        Some(SensorAggregation::Average)
    } else if s == "min"@ {
        Some(SensorAggregation::Min)
    } else {
        None
    }
}

/// Reading the written name of a curve gives the same curve, and no other text gives it.
pub proof fn law_curve_reads_back(curve: SpeedCurve, s: Seq<char>)
    ensures
        curve_named(s) == Some(curve) <==> s == curve.text(),
{
    reveal_strlit("linear");
    reveal_strlit("exponential");
    reveal_strlit("logarithmic");
    assert("linear"@.len() == 6);
    assert("exponential"@.len() == 11);
    assert("logarithmic"@.len() == 11);
    assert("exponential"@[0] == 'e');
    assert("logarithmic"@[0] == 'l');
}

/// Reading the written name of a method gives the same method, and no other text gives it.
pub proof fn law_aggregation_reads_back(method: SensorAggregation, s: Seq<char>)
    ensures
        aggregation_named(s) == Some(method) <==> s == method.text(),
{
    reveal_strlit("max");
    reveal_strlit("average");
    reveal_strlit("min");
    assert("max"@.len() == 3);
    assert("average"@.len() == 7);
    assert("min"@.len() == 3);
    assert("max"@[1] == 'a');
    assert("min"@[1] == 'i');
}

/// The view of an optional list of strings.
pub open spec fn opt_texts(o: Option<Vec<String>>) -> Option<Seq<Seq<char>>> {
    match o {
        Some(list) => Some(texts(list@)),
        None => None,
    }
}

/// What a fan uses unless its own section says otherwise.
///
/// `ramp_down_rate` is in degrees per second, written in decimal.
#[derive(Debug)]
pub struct DefaultsConfig {
    pub low_temp: u8,
    pub high_temp: u8,
    pub speed_curve: SpeedCurve,
    pub always_full_speed: bool,
    pub sensor_aggregation: SensorAggregation,
    pub ramp_down_rate: String,
}

/// The values of a `DefaultsConfig`.
#[verifier::ext_equal]
pub ghost struct DefaultsView {
    pub low_temp: u8,
    pub high_temp: u8,
    pub speed_curve: SpeedCurve,
    pub always_full_speed: bool,
    pub sensor_aggregation: SensorAggregation,
    pub ramp_down_rate: Seq<char>,
}

impl View for DefaultsConfig {
    type V = DefaultsView;

    open spec fn view(&self) -> DefaultsView {
        DefaultsView {
            low_temp: self.low_temp,
            high_temp: self.high_temp,
            speed_curve: self.speed_curve,
            always_full_speed: self.always_full_speed,
            sensor_aggregation: self.sensor_aggregation,
            ramp_down_rate: self.ramp_down_rate@,
        }
    }
}

/// The defaults where the file says nothing.
pub open spec fn standard_defaults() -> DefaultsView {
    DefaultsView {
        low_temp: 55,
        high_temp: 75,
        speed_curve: SpeedCurve::Linear,
        always_full_speed: false,
        sensor_aggregation: SensorAggregation::Max,
        ramp_down_rate: "1"@,
    }
}

impl Default for DefaultsConfig {
    fn default() -> (r: DefaultsConfig)
        ensures
            r@ == standard_defaults(),
    {
        DefaultsConfig {
            low_temp: 55,
            high_temp: 75,
            speed_curve: SpeedCurve::Linear,
            always_full_speed: false,
            sensor_aggregation: SensorAggregation::Max,
            ramp_down_rate: "1".to_string(),
        }
    }
}

/// What one fan overrides.
#[derive(Debug)]
pub struct RawFanConfig {
    pub low_temp: Option<u8>,
    pub high_temp: Option<u8>,
    pub speed_curve: Option<SpeedCurve>,
    pub sensor_aggregation: Option<SensorAggregation>,
    pub ramp_down_rate: Option<String>,
    pub sensors: Option<Vec<String>>,
}

/// The values of a `RawFanConfig`.
#[verifier::ext_equal]
pub ghost struct FanView {
    pub low_temp: Option<u8>,
    pub high_temp: Option<u8>,
    pub speed_curve: Option<SpeedCurve>,
    pub sensor_aggregation: Option<SensorAggregation>,
    pub ramp_down_rate: Option<Seq<char>>,
    pub sensors: Option<Seq<Seq<char>>>,
}

impl View for RawFanConfig {
    type V = FanView;

    open spec fn view(&self) -> FanView {
        FanView {
            low_temp: self.low_temp,
            high_temp: self.high_temp,
            speed_curve: self.speed_curve,
            sensor_aggregation: self.sensor_aggregation,
            ramp_down_rate: opt_text(self.ramp_down_rate),
            sensors: opt_texts(self.sensors),
        }
    }
}

/// A section that overrides nothing.
pub open spec fn no_overrides() -> FanView {
    FanView {
        low_temp: None,
        high_temp: None,
        speed_curve: None,
        sensor_aggregation: None,
        ramp_down_rate: None,
        sensors: None,
    }
}

impl Default for RawFanConfig {
    fn default() -> (r: RawFanConfig)
        ensures
            r@ == no_overrides(),
    {
        RawFanConfig {
            low_temp: None,
            high_temp: None,
            speed_curve: None,
            sensor_aggregation: None,
            ramp_down_rate: None,
            sensors: None,
        }
    }
}

/// What the fans do while expected drivers are missing.
///
/// `escalation_delay` is in seconds.
#[derive(Debug)]
pub struct DegradedConfig {
    pub expected_drivers: Vec<String>,
    pub initial_percent: u8,
    pub escalated_percent: u8,
    pub escalation_delay: u64,
}

/// The values of a `DegradedConfig`.
#[verifier::ext_equal]
pub ghost struct DegradedView {
    pub expected_drivers: Seq<Seq<char>>,
    pub initial_percent: u8,
    pub escalated_percent: u8,
    pub escalation_delay: u64,
}

impl View for DegradedConfig {
    type V = DegradedView;

    open spec fn view(&self) -> DegradedView {
        DegradedView {
            expected_drivers: texts(self.expected_drivers@),
            initial_percent: self.initial_percent,
            escalated_percent: self.escalated_percent,
            escalation_delay: self.escalation_delay,
        }
    }
}

/// Degraded mode where the file says nothing.
pub open spec fn standard_degraded() -> DegradedView {
    DegradedView {
        expected_drivers: seq!["coretemp"@, "amdgpu"@],
        initial_percent: 60,
        escalated_percent: 80,
        escalation_delay: 60,
    }
}

impl Default for DegradedConfig {
    fn default() -> (r: DegradedConfig)
        ensures
            r@ == standard_degraded(),
    {
        let mut expected_drivers: Vec<String> = Vec::new();
        expected_drivers.push("coretemp".to_string());
        expected_drivers.push("amdgpu".to_string());
        let r = DegradedConfig {
            expected_drivers,
            initial_percent: 60,
            escalated_percent: 80,
            escalation_delay: 60,
        };
        assert(r@.expected_drivers == standard_degraded().expected_drivers);
        r
    }
}

impl Clone for DegradedConfig {
    fn clone(&self) -> (r: DegradedConfig)
        ensures
            r@ == self@,
    {
        let r = DegradedConfig {
            expected_drivers: copy_texts(&self.expected_drivers),
            initial_percent: self.initial_percent,
            escalated_percent: self.escalated_percent,
            escalation_delay: self.escalation_delay,
        };
        assert(r@ == self@);
        r
    }
}

/// The sections of the fans, by name: no name occurs twice, and the names are in order.
#[derive(Debug)]
pub struct FanSections {
    sections: Vec<(String, RawFanConfig)>,
}

/// The names of the entries are strictly increasing.
pub open spec fn in_name_order(entries: Seq<(Seq<char>, FanView)>) -> bool {
    forall|i: int, j: int|
        0 <= i < j < entries.len() ==> text_before((#[trigger] entries[i]).0, (
        #[trigger] entries[j]).0)
}

/// The map that the entries write down; a later entry replaces an earlier one.
pub open spec fn entry_map(entries: Seq<(Seq<char>, FanView)>) -> Map<Seq<char>, FanView>
    decreases entries.len(),
{
    if entries.len() == 0 {
        Map::empty()
    } else {
        entry_map(entries.drop_last()).insert(entries.last().0, entries.last().1)
    }
}

spec fn section_views(sections: Seq<(String, RawFanConfig)>) -> Seq<(Seq<char>, FanView)> {
    Seq::new(sections.len(), |i: int| (sections[i].0@, sections[i].1@))
}

impl View for FanSections {
    type V = Map<Seq<char>, FanView>;

    open spec fn view(&self) -> Map<Seq<char>, FanView> {
        entry_map(self.entries())
    }
}

/// A name is in the map if and only if an entry has it.
pub proof fn lemma_entry_map_keys(entries: Seq<(Seq<char>, FanView)>, name: Seq<char>)
    ensures
        entry_map(entries).contains_key(name) <==> exists|i: int|
            0 <= i < entries.len() && (#[trigger] entries[i]).0 == name,
    decreases entries.len(),
{
    if entries.len() > 0 {
        let before = entries.drop_last();
        lemma_entry_map_keys(before, name);
        if entry_map(before).contains_key(name) {
            let i = choose|i: int| 0 <= i < before.len() && (#[trigger] before[i]).0 == name;
            assert(entries[i].0 == name);
        }
        if exists|i: int| 0 <= i < entries.len() && (#[trigger] entries[i]).0 == name {
            let i = choose|i: int| 0 <= i < entries.len() && (#[trigger] entries[i]).0 == name;
            if i < before.len() {
                assert(before[i].0 == name);
            }
        }
        if name == entries.last().0 {
            assert(entries[entries.len() - 1].0 == name);
        }
    }
}

/// In order, each entry has the value that the map has for its name.
proof fn lemma_entry_map_values(entries: Seq<(Seq<char>, FanView)>, i: int)
    requires
        in_name_order(entries),
        0 <= i < entries.len(),
    ensures
        entry_map(entries).contains_key(entries[i].0),
        entry_map(entries)[entries[i].0] == entries[i].1,
    decreases entries.len(),
{
    lemma_text_order();
    if i < entries.len() - 1 {
        let before = entries.drop_last();
        assert forall|a: int, b: int| 0 <= a < b < before.len() implies text_before(
            (#[trigger] before[a]).0,
            (#[trigger] before[b]).0,
        ) by {
            assert(before[a] == entries[a] && before[b] == entries[b]);
        }
        lemma_entry_map_values(before, i);
        assert(before[i] == entries[i]);
        assert(text_before(entries[i].0, entries[entries.len() - 1].0));
    }
}

/// The map alone decides the entries: in whatever order the sections came, they are listed in
/// the same order.
pub proof fn law_entries_are_decided_by_the_map(
    a: Seq<(Seq<char>, FanView)>,
    b: Seq<(Seq<char>, FanView)>,
)
    requires
        in_name_order(a),
        in_name_order(b),
        entry_map(a) == entry_map(b),
    ensures
        a == b,
    decreases a.len(),
{
    lemma_text_order();
    if a.len() == 0 {
        if b.len() > 0 {
            lemma_entry_map_keys(b, b[0].0);
            assert(entry_map(b).contains_key(b[0].0));
            assert(false);
        }
        assert(a == b);
    } else {
        let an = a.last().0;
        lemma_entry_map_values(a, a.len() - 1);
        lemma_entry_map_keys(b, an);
        let i = choose|i: int| 0 <= i < b.len() && (#[trigger] b[i]).0 == an;
        let bn = b.last().0;
        lemma_entry_map_values(b, b.len() - 1);
        lemma_entry_map_keys(a, bn);
        let j = choose|j: int| 0 <= j < a.len() && (#[trigger] a[j]).0 == bn;
        if i < b.len() - 1 {
            assert(text_before(b[i].0, b[b.len() - 1].0));
            if j < a.len() - 1 {
                assert(text_before(a[j].0, a[a.len() - 1].0));
            }
            assert(false);
        }
        let a0 = a.drop_last();
        let b0 = b.drop_last();
        lemma_drop_last_of_entries(a);
        lemma_drop_last_of_entries(b);
        law_entries_are_decided_by_the_map(a0, b0);
        assert(a == a0.push(a.last()));
        assert(b == b0.push(b.last()));
    }
}

proof fn lemma_drop_last_of_entries(a: Seq<(Seq<char>, FanView)>)
    requires
        in_name_order(a),
        a.len() > 0,
    ensures
        in_name_order(a.drop_last()),
        entry_map(a.drop_last()) == entry_map(a).remove(a.last().0),
{
    lemma_text_order();
    let before = a.drop_last();
    assert forall|i: int, j: int| 0 <= i < j < before.len() implies text_before(
        (#[trigger] before[i]).0,
        (#[trigger] before[j]).0,
    ) by {
        assert(before[i] == a[i] && before[j] == a[j]);
    }
    lemma_entry_map_keys(before, a.last().0);
    if entry_map(before).contains_key(a.last().0) {
        let i = choose|i: int| 0 <= i < before.len() && (#[trigger] before[i]).0 == a.last().0;
        assert(text_before(a[i].0, a[a.len() - 1].0));
        assert(false);
    }
    assert(entry_map(before) =~= entry_map(a).remove(a.last().0));
}

/// Replacing the value of an entry replaces the value in the map.
proof fn lemma_entry_update(entries: Seq<(Seq<char>, FanView)>, k: int, value: FanView)
    requires
        in_name_order(entries),
        0 <= k < entries.len(),
    ensures
        in_name_order(entries.update(k, (entries[k].0, value))),
        entry_map(entries.update(k, (entries[k].0, value))) == entry_map(entries).insert(
            entries[k].0,
            value,
        ),
    decreases entries.len(),
{
    lemma_text_order();
    let new = entries.update(k, (entries[k].0, value));
    assert forall|i: int, j: int| 0 <= i < j < new.len() implies text_before(
        (#[trigger] new[i]).0,
        (#[trigger] new[j]).0,
    ) by {
        assert(text_before(entries[i].0, entries[j].0));
    }
    let before = entries.drop_last();
    lemma_drop_last_of_entries(entries);
    if k < entries.len() - 1 {
        lemma_entry_update(before, k, value);
        assert(new.drop_last() == before.update(k, (before[k].0, value)));
        assert(text_before(entries[k].0, entries[entries.len() - 1].0));
        assert(entry_map(new) =~= entry_map(entries).insert(entries[k].0, value));
    } else {
        assert(new.drop_last() == before);
        assert(entry_map(new) =~= entry_map(entries).insert(entries[k].0, value));
    }
}

/// A new entry at its place adds its name and value to the map.
proof fn lemma_entry_insert(
    entries: Seq<(Seq<char>, FanView)>,
    k: int,
    name: Seq<char>,
    value: FanView,
)
    requires
        in_name_order(entries),
        0 <= k <= entries.len(),
        forall|i: int| 0 <= i < k ==> text_before((#[trigger] entries[i]).0, name),
        forall|i: int| k <= i < entries.len() ==> text_before(name, (#[trigger] entries[i]).0),
    ensures
        in_name_order(entries.insert(k, (name, value))),
        entry_map(entries.insert(k, (name, value))) == entry_map(entries).insert(name, value),
    decreases entries.len(),
{
    lemma_text_order();
    let new = entries.insert(k, (name, value));
    assert forall|i: int, j: int| 0 <= i < j < new.len() implies text_before(
        (#[trigger] new[i]).0,
        (#[trigger] new[j]).0,
    ) by {
        let a = if i < k {
            i
        } else {
            i - 1
        };
        let b = if j < k {
            j
        } else {
            j - 1
        };
        assert(i != k ==> new[i] == entries[a]);
        assert(j != k ==> new[j] == entries[b]);
        if i != k && j != k {
            assert(text_before(entries[a].0, entries[b].0));
        }
    }
    if k == entries.len() {
        assert(new.drop_last() == entries);
    } else {
        let before = entries.drop_last();
        lemma_drop_last_of_entries(entries);
        assert forall|i: int| 0 <= i < k implies text_before((#[trigger] before[i]).0, name) by {
            assert(before[i] == entries[i]);
        }
        assert forall|i: int| k <= i < before.len() implies text_before(
            name,
            (#[trigger] before[i]).0,
        ) by {
            assert(before[i] == entries[i]);
        }
        lemma_entry_insert(before, k, name, value);
        assert(new.drop_last() == before.insert(k, (name, value)));
        assert(new.last() == entries.last());
        assert(text_before(name, entries[entries.len() - 1].0));
        assert(entry_map(new) =~= entry_map(entries).insert(name, value));
    }
}

impl FanSections {
    /// The sections in the order of their names.
    pub closed spec fn entries(&self) -> Seq<(Seq<char>, FanView)> {
        section_views(self.sections@)
    }

    #[verifier::type_invariant]
    spec fn ordered(self) -> bool {
        in_name_order(self.entries())
    }

    /// No section.
    pub fn new() -> (r: FanSections)
        ensures
            r.entries() == Seq::<(Seq<char>, FanView)>::empty(),
            r@ == Map::<Seq<char>, FanView>::empty(),
            in_name_order(r.entries()),
    {
        let r = FanSections { sections: Vec::new() };
        assert(r.entries() =~= Seq::<(Seq<char>, FanView)>::empty());
        r
    }

    /// How many sections there are.
    pub fn len(&self) -> (r: usize)
        ensures
            r == self.entries().len(),
            in_name_order(self.entries()),
    {
        proof {
            use_type_invariant(self);
        }
        self.sections.len()
    }

    /// The name of the section at `i`.
    pub fn name_at(&self, i: usize) -> (r: &str)
        requires
            i < self.entries().len(),
        ensures
            r@ == self.entries()[i as int].0,
    {
        self.sections[i].0.as_str()
    }

    /// The values of the section at `i`.
    pub fn config_at(&self, i: usize) -> (r: &RawFanConfig)
        requires
            i < self.entries().len(),
        ensures
            r@ == self.entries()[i as int].1,
    {
        &self.sections[i].1
    }

    /// The section with that name.
    pub fn get(&self, name: &str) -> (r: Option<&RawFanConfig>)
        ensures
            r is Some <==> self@.contains_key(name@),
            r matches Some(config) ==> config@ == self@[name@],
    {
        proof {
            use_type_invariant(self);
            lemma_entry_map_keys(self.entries(), name@);
        }
        let mut i: usize = 0;
        while i < self.sections.len()
            invariant
                i <= self.sections.len(),
                in_name_order(self.entries()),
                self.entries().len() == self.sections.len(),
                forall|j: int| 0 <= j < i ==> (#[trigger] self.entries()[j]).0 != name@,
                self@.contains_key(name@) <==> exists|i: int|
                    0 <= i < self.entries().len() && (#[trigger] self.entries()[i]).0 == name@,
            decreases self.sections.len() - i,
        {
            assert(self.entries()[i as int] == (
                self.sections@[i as int].0@,
                self.sections@[i as int].1@,
            ));
            if same_text(self.sections[i].0.as_str(), name) {
                proof {
                    lemma_entry_map_values(self.entries(), i as int);
                }
                return Some(&self.sections[i].1);
            }
            i = i + 1;
        }
        None
    }

    /// Adds a section, in place of one with the same name.
    pub fn insert(&mut self, name: String, config: RawFanConfig)
        ensures
            final(self)@ == old(self)@.insert(name@, config@),
            in_name_order(final(self).entries()),
    {
        proof {
            use_type_invariant(&*self);
            lemma_text_order();
        }
        let ghost entries = self.entries();
        let mut sections: Vec<(String, RawFanConfig)> = Vec::new();
        std::mem::swap(&mut sections, &mut self.sections);
        let mut k: usize = 0;
        while k < sections.len() && sorts_before(sections[k].0.as_str(), name.as_str())
            invariant
                k <= sections.len(),
                entries == section_views(sections@),
                forall|i: int| 0 <= i < k ==> text_before((#[trigger] entries[i]).0, name@),
            decreases sections.len() - k,
        {
            assert(entries[k as int].0 == sections@[k as int].0@);
            k = k + 1;
        }
        if k < sections.len() && same_text(sections[k].0.as_str(), name.as_str()) {
            assert(entries[k as int].0 == name@);
            sections.set(k, (name, config));
            proof {
                lemma_entry_update(entries, k as int, config@);
            }
            assert(section_views(sections@) =~= entries.update(k as int, (name@, config@)));
        } else {
            proof {
                if k < sections.len() {
                    assert(entries[k as int].0 == sections@[k as int].0@);
                    assert(text_before(name@, entries[k as int].0));
                }
                assert forall|i: int| k <= i < entries.len() implies text_before(
                    name@,
                    (#[trigger] entries[i]).0,
                ) by {
                    if i > k {
                        assert(text_before(entries[k as int].0, entries[i].0));
                    }
                }
                lemma_entry_insert(entries, k as int, name@, config@);
            }
            sections.insert(k, (name, config));
            assert(section_views(sections@) =~= entries.insert(k as int, (name@, config@)));
        }
        self.sections = sections;
    }
}

/// A configuration as the file states it.
#[derive(Debug)]
pub struct RawConfig {
    pub defaults: DefaultsConfig,
    pub fan: FanSections,
    pub degraded: DegradedConfig,
}

impl Default for RawConfig {
    fn default() -> (r: RawConfig)
        ensures
            r.defaults@ == standard_defaults(),
            r.fan@ == Map::<Seq<char>, FanView>::empty(),
            r.fan.entries() == Seq::<(Seq<char>, FanView)>::empty(),
            r.degraded@ == standard_degraded(),
    {
        RawConfig {
            defaults: DefaultsConfig::default(),
            fan: FanSections::new(),
            degraded: DegradedConfig::default(),
        }
    }
}

/// What a fan runs with.
#[derive(Debug)]
pub struct ResolvedFanConfig {
    pub low_temp: u8,
    pub high_temp: u8,
    pub speed_curve: SpeedCurve,
    pub sensor_aggregation: SensorAggregation,
    pub ramp_down_rate: String,
    pub sensor_indices: Option<Vec<usize>>,
}

/// The values of a `ResolvedFanConfig`.
#[verifier::ext_equal]
pub ghost struct ResolvedView {
    pub low_temp: u8,
    pub high_temp: u8,
    pub speed_curve: SpeedCurve,
    pub sensor_aggregation: SensorAggregation,
    pub ramp_down_rate: Seq<char>,
    pub sensor_indices: Option<Seq<usize>>,
}

impl View for ResolvedFanConfig {
    type V = ResolvedView;

    open spec fn view(&self) -> ResolvedView {
        ResolvedView {
            low_temp: self.low_temp,
            high_temp: self.high_temp,
            speed_curve: self.speed_curve,
            sensor_aggregation: self.sensor_aggregation,
            ramp_down_rate: self.ramp_down_rate@,
            sensor_indices: match self.sensor_indices {
                Some(indices) => Some(indices@),
                None => None,
            },
        }
    }
}

impl Clone for ResolvedFanConfig {
    fn clone(&self) -> (r: ResolvedFanConfig)
        ensures
            r@ == self@,
    {
        ResolvedFanConfig {
            low_temp: self.low_temp,
            high_temp: self.high_temp,
            speed_curve: self.speed_curve,
            sensor_aggregation: self.sensor_aggregation,
            ramp_down_rate: self.ramp_down_rate.clone(),
            sensor_indices: match &self.sensor_indices {
                Some(indices) => Some(vstd::slice::slice_to_vec(indices.as_slice())),
                None => None,
            },
        }
    }
}

/// Where the configuration is read from: the path given on the command line, or the system's.
pub open spec fn config_location(cli_override: Option<Seq<char>>) -> Seq<char> {
    match cli_override {
        Some(path) => path,
        None => "/etc/macprot2fans.toml"@,
    }
}

/// The path of the configuration file.
pub fn config_path(cli_override: Option<&str>) -> (r: String)
    ensures
        cli_override matches Some(path) ==> r@ == config_location(Some(path@)),
        cli_override is None ==> r@ == config_location(None),
{
    match cli_override {
        Some(path) => path.to_string(),
        None => "/etc/macprot2fans.toml".to_string(),
    }
}

/// What loading the configuration comes to.
#[derive(Debug)]
pub enum ConfigPlan {
    /// The text of the file is to be parsed.
    Parse(String),
    /// There is no file: the configuration is the standard one, and a file with `content` is
    /// to be written.
    Create { config: RawConfig, content: String },
}

/// Decides what to do with the configuration file.
pub fn load_config(read: FileRead) -> (r: Result<ConfigPlan, Error>)
    ensures
        match read {
            FileRead::Content(text) => r == Ok::<ConfigPlan, Error>(ConfigPlan::Parse(text)),
            FileRead::Missing => r matches Ok(ConfigPlan::Create { config, content })
                && config.defaults@ == standard_defaults() && config.fan@ == Map::<
                Seq<char>,
                FanView,
            >::empty() && config.degraded@ == standard_degraded() && content@ == config_template(
                Seq::empty(),
                Seq::empty(),
            ),
            FileRead::Failed(e) => r == Err::<ConfigPlan, Error>(Error::ConfigRead(e)),
        },
{
    match read {
        FileRead::Content(text) => Ok(ConfigPlan::Parse(text)),
        FileRead::Missing => {
            let sensors: Vec<HwmonSensor<()>> = Vec::new();
            let fans: Vec<FanPath> = Vec::new();
            let content = generate_config_toml(&sensors, &fans);
            assert(crate::sensor::sensor_names(crate::sensor::sensor_views(sensors@)) =~= Seq::<
                Seq<char>,
            >::empty());
            assert(template::fan_names(fans@) =~= Seq::<Seq<char>>::empty());
            Ok(ConfigPlan::Create { config: RawConfig::default(), content })
        },
        FileRead::Failed(e) => Err(Error::ConfigRead(e)),
    }
}

/// What a fan uses where neither the file nor its section says otherwise: from 55 to 75 degrees
/// along a straight line, by the hottest sensor, and slowing down by a degree per second.
pub proof fn law_standard_values()
    ensures
        standard_defaults().low_temp == 55,
        standard_defaults().high_temp == 75,
        standard_defaults().speed_curve == SpeedCurve::Linear,
        standard_defaults().always_full_speed == false,
        standard_defaults().sensor_aggregation == SensorAggregation::Max,
        standard_defaults().ramp_down_rate == "1"@,
        standard_degraded().expected_drivers == seq!["coretemp"@, "amdgpu"@],
        standard_degraded().initial_percent == 60,
        standard_degraded().escalated_percent == 80,
        standard_degraded().escalation_delay == 60,
        no_overrides().low_temp is None && no_overrides().high_temp is None,
        no_overrides().speed_curve is None && no_overrides().sensor_aggregation is None,
        no_overrides().ramp_down_rate is None && no_overrides().sensors is None,
{
}

/// The names of the curves and methods in a configuration file.
pub proof fn law_names_in_the_file(s: Seq<char>)
    ensures
        curve_named("linear"@) == Some(SpeedCurve::Linear),
        curve_named("exponential"@) == Some(SpeedCurve::Exponential),
        curve_named("logarithmic"@) == Some(SpeedCurve::Logarithmic),
        s != "linear"@ && s != "exponential"@ && s != "logarithmic"@ ==> curve_named(s) is None,
        aggregation_named("max"@) == Some(SensorAggregation::Max),
        aggregation_named("average"@) == Some(SensorAggregation::Average),
        aggregation_named("min"@) == Some(SensorAggregation::Min),
        s != "max"@ && s != "average"@ && s != "min"@ ==> aggregation_named(s) is None,
{
    law_curve_reads_back(SpeedCurve::Linear, "linear"@);
    law_curve_reads_back(SpeedCurve::Exponential, "exponential"@);
    law_curve_reads_back(SpeedCurve::Logarithmic, "logarithmic"@);
    law_aggregation_reads_back(SensorAggregation::Max, "max"@);
    law_aggregation_reads_back(SensorAggregation::Average, "average"@);
    law_aggregation_reads_back(SensorAggregation::Min, "min"@);
}

/// In order, every entry is in the map with its value, and the map holds nothing else.
pub proof fn law_map_holds_the_entries(entries: Seq<(Seq<char>, FanView)>, i: int, name: Seq<char>)
    requires
        in_name_order(entries),
    ensures
        0 <= i < entries.len() ==> entry_map(entries).contains_key(entries[i].0) && entry_map(
            entries,
        )[entries[i].0] == entries[i].1,
        entry_map(entries).contains_key(name) ==> exists|k: int|
            0 <= k < entries.len() && (#[trigger] entries[k]).0 == name && entries[k].1
                == entry_map(entries)[name],
{
    if 0 <= i < entries.len() {
        lemma_entry_map_values(entries, i);
    }
    lemma_entry_map_keys(entries, name);
    if entry_map(entries).contains_key(name) {
        let k = choose|k: int| 0 <= k < entries.len() && (#[trigger] entries[k]).0 == name;
        lemma_entry_map_values(entries, k);
        assert(entries[k].0 == name);
    }
}

/// The configuration is read from the path on the command line, and without one from `/etc`.
pub proof fn law_configuration_is_where_the_command_line_says(path: Seq<char>)
    ensures
        config_location(Some(path)) == path,
        config_location(None) == "/etc/macprot2fans.toml"@,
{
}

} // verus!
