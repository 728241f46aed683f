//! The interactive configuration wizard, and how its result is written.
pub mod answers;
pub mod format;
pub mod laws;
pub mod layout;
pub mod prompt;
pub mod standard;
pub mod written;

use vstd::prelude::*;

use crate::config::resolve::names_of_sensors;
use crate::config::template::fan_names;
use crate::config::{no_overrides, opt_texts, standard_defaults, standard_degraded, DefaultsConfig, DefaultsView, DegradedConfig, FanSections, FanView, RawConfig, RawFanConfig, SensorAggregation, SpeedCurve};
use crate::fan::discovery::FanPath;
use crate::sensor::{sensor_names, sensor_views, HwmonSensor};
use crate::text::{decimal, decimal_text, opt_text, parse_u8, parse_usize, parsed, same_text, split, split_at_char, texts, trim, trimmed};

use prompt::{ask_line, ask_selection, fan_heading, fan_heading_text, heading, heading_text, line_question, selection_question, sensor_lines, sensor_list_text};

pub use format::{format_nix, format_toml};

verus! {

/// What the wizard asks for next.
#[derive(Clone, Copy, Debug, PartialEq, Eq, Structural)]
pub enum Step {
    /// The low temperature of the defaults.
    Low,
    /// The high temperature of the defaults.
    High,
    /// The curve of the defaults.
    Curve,
    /// The aggregation of the defaults.
    Aggregation,
    /// The ramp-down rate of the defaults.
    Rate,
    /// Whether the current fan gets a section.
    Customize,
    /// The low temperature of the current fan.
    FanLow,
    /// The high temperature of the current fan.
    FanHigh,
    /// The curve of the current fan.
    FanCurve,
    /// The aggregation of the current fan.
    FanAggregation,
    /// The ramp-down rate of the current fan.
    FanRate,
    /// The sensors of the current fan.
    FanSensors,
    /// Nothing more.
    Done,
}

impl Step {
    /// Whether the step is about the current fan.
    pub open spec fn about_a_fan(self) -> bool {
        match self {
            Step::Low | Step::High | Step::Curve | Step::Aggregation | Step::Rate | Step::Done => false,
            _ => true,
        }
    }
}

/// An answer: the line that was typed and, where a rate was asked for, the number that the line
/// (or the default, if it is blank) gives, in decimal (`rate`, if it gives one), and whether
/// that number, or the default where there is none, is the default but for less than a
/// thousandth (`near`).
#[derive(Debug)]
pub struct Answer {
    pub line: String,
    pub rate: Option<String>,
    pub near: bool,
}

/// The values of an `Answer`.
#[verifier::ext_equal]
pub ghost struct AnswerView {
    pub line: Seq<char>,
    pub rate: Option<Seq<char>>,
    pub near: bool,
}

impl View for Answer {
    type V = AnswerView;

    open spec fn view(&self) -> AnswerView {
        AnswerView { line: self.line@, rate: opt_text(self.rate), near: self.near }
    }
}

/// What a line says: the default where it is blank.
pub open spec fn given(line: Seq<char>, default: Seq<char>) -> Seq<char> {
    if trimmed(line).len() == 0 {
        default
    } else {
        trimmed(line)
    }
}

/// What a line says: the default where it is blank.
pub fn prompt_line(line: &str, default: &str) -> (r: String)
    ensures
        r@ == given(line@, default@),
{
    let t = trim(line);
    if t.is_empty() {
        default.to_string()
    } else {
        t.to_string()
    }
}

/// The option that a line selects, counted from one in the line and from zero here: the
/// default where the line is blank or selects none.
pub open spec fn selected(line: Seq<char>, options: nat, default_idx: usize) -> usize {
    if trimmed(line).len() == 0 {
        default_idx
    } else {
        match parsed(trimmed(line), false, 0, usize::MAX as int) {
            Ok(n) => if 1 <= n <= options {
                (n - 1) as usize
            } else {
                default_idx
            },
            Err(_) => default_idx,
        }
    }
}

/// Whether a line selects none of the options.
pub open spec fn selects_none(line: Seq<char>, options: nat) -> bool {
    trimmed(line).len() > 0 && match parsed(trimmed(line), false, 0, usize::MAX as int) {
        Ok(n) => !(1 <= n <= options),
        Err(_) => true,
    }
}

/// The option that a line selects, and whether it selects none.
pub fn prompt_select(line: &str, options: usize, default_idx: usize) -> (r: (usize, bool))
    ensures
        r.0 == selected(line@, options as nat, default_idx),
        r.1 == selects_none(line@, options as nat),
{
    let t = trim(line);
    if t.is_empty() {
        return (default_idx, false);
    }
    match parse_usize(t) {
        Ok(n) => {
            if n >= 1 && n <= options {
                (n - 1, false)
            } else {
                (default_idx, true)
            }
        },
        Err(_) => (default_idx, true),
    }
}

/// The temperature that a text gives, or else the default.
pub open spec fn temp_or(text: Seq<char>, default: u8) -> u8 {
    match parsed(text, false, 0, u8::MAX as int) {
        Ok(v) => v as u8,
        Err(_) => default,
    }
}

fn parse_temp_or(text: &str, default: u8) -> (r: u8)
    ensures
        r == temp_or(text@, default),
{
    match parse_u8(text) {
        Ok(v) => v,
        Err(_) => default,
    }
}

/// The temperature that a text gives, if it gives one that is not the default.
pub open spec fn temp_override(text: Seq<char>, default: u8) -> Option<u8> {
    match parsed(text, false, 0, u8::MAX as int) {
        Ok(v) => if v == default {
            None
        } else {
            Some(v as u8)
        },
        Err(_) => None,
    }
}

fn parse_temp_override(text: &str, default: u8) -> (r: Option<u8>)
    ensures
        r == temp_override(text@, default),
{
    match parse_u8(text) {
        Ok(v) => {
            if v == default {
                None
            } else {
                Some(v)
            }
        },
        Err(_) => None,
    }
}

/// The curve at a position of the list of curves.
pub open spec fn curve_at(idx: usize) -> SpeedCurve {
    if idx == 1 {
        SpeedCurve::Exponential
    } else if idx == 2 {
        SpeedCurve::Logarithmic
    } else {
        SpeedCurve::Linear
    }
}

fn pick_curve(idx: usize) -> (r: SpeedCurve)
    ensures
        r == curve_at(idx),
{
    match idx {
        1 => SpeedCurve::Exponential,
        2 => SpeedCurve::Logarithmic,
        _ => SpeedCurve::Linear,
    }
}

/// The method at a position of the list of methods.
pub open spec fn aggregation_at(idx: usize) -> SensorAggregation {
    if idx == 1 {
        SensorAggregation::Average
    } else if idx == 2 {
        SensorAggregation::Min
    } else {
        SensorAggregation::Max
    }
}

fn pick_aggregation(idx: usize) -> (r: SensorAggregation)
    ensures
        r == aggregation_at(idx),
{
    match idx {
        1 => SensorAggregation::Average,
        2 => SensorAggregation::Min,
        _ => SensorAggregation::Max,
    }
}

/// Whether the text says yes: `y`, in either case.
pub open spec fn says_yes(text: Seq<char>) -> bool {
    text == "y"@ || text == "Y"@
}

/// The sensors that the pieces of a list select, counted from one; a piece that selects none
/// is passed over.
pub open spec fn picked(pieces: Seq<Seq<char>>, sensors: Seq<Seq<char>>) -> Seq<Seq<char>>
    decreases pieces.len(),
{
    if pieces.len() == 0 {
        Seq::empty()
    } else {
        let before = picked(pieces.drop_last(), sensors);
        match parsed(trimmed(pieces.last()), false, 0, usize::MAX as int) {
            Ok(n) => if 1 <= n <= sensors.len() {
                before.push(sensors[n - 1])
            } else {
                before
            },
            Err(_) => before,
        }
    }
}

/// The sensors that a text selects: `None` for all of them.
pub open spec fn sensor_choice(text: Seq<char>, sensors: Seq<Seq<char>>) -> Option<Seq<Seq<char>>> {
    if text == "all"@ || picked(split(text, ','), sensors).len() == 0 {
        None
    } else {
        Some(picked(split(text, ','), sensors))
    }
}

fn choose_sensors(text: &str, sensors: &Vec<String>) -> (r: Option<Vec<String>>)
    ensures
        opt_texts(r) == sensor_choice(text@, texts(sensors@)),
{
    if same_text(text, "all") {
        return None;
    }
    let pieces = split_at_char(text, ',');
    let ghost all = texts(pieces@);
    let mut names: Vec<String> = Vec::new();
    let mut i: usize = 0;
    assert(all.take(0) == Seq::<Seq<char>>::empty());
    assert(texts(names@) == Seq::<Seq<char>>::empty());
    while i < pieces.len()
        invariant
            i <= pieces.len(),
            all == texts(pieces@),
            texts(names@) == picked(all.take(i as int), texts(sensors@)),
        decreases pieces.len() - i,
    {
        assert(all.take(i + 1).drop_last() == all.take(i as int));
        assert(all.take(i + 1).last() == pieces@[i as int]@);
        match parse_usize(trim(pieces[i].as_str())) {
            Ok(n) => {
                if n >= 1 && n <= sensors.len() {
                    let ghost had = names@;
                    names.push(sensors[n - 1].clone());
                    assert(texts(names@) == texts(had).push(texts(sensors@)[n - 1]));
                }
            },
            Err(_) => {},
        }
        i = i + 1;
    }
    assert(all.take(i as int) == all);
    assert(texts(names@).len() == names.len());
    if names.len() == 0 {
        None
    } else {
        Some(names)
    }
}

/// The wizard between two questions.
#[derive(Debug)]
pub struct Wizard {
    sensors: Vec<String>,
    fans: Vec<String>,
    step: Step,
    current: usize,
    defaults: DefaultsConfig,
    curve_idx: usize,
    aggregation_idx: usize,
    own: RawFanConfig,
    sections: FanSections,
}

/// The values of a `Wizard`: the names of the sensors and fans, the step, the number of the
/// current fan, the defaults and their curve and method by position, what the current fan
/// overrides, and the sections so far.
#[verifier::ext_equal]
pub ghost struct WizardState {
    pub sensors: Seq<Seq<char>>,
    pub fans: Seq<Seq<char>>,
    pub step: Step,
    pub current: usize,
    pub defaults: DefaultsView,
    pub curve_idx: usize,
    pub aggregation_idx: usize,
    pub own: FanView,
    pub sections: Map<Seq<char>, FanView>,
}

impl View for Wizard {
    type V = WizardState;

    closed spec fn view(&self) -> WizardState {
        WizardState {
            sensors: texts(self.sensors@),
            fans: texts(self.fans@),
            step: self.step,
            current: self.current,
            defaults: self.defaults@,
            curve_idx: self.curve_idx,
            aggregation_idx: self.aggregation_idx,
            own: self.own@,
            sections: self.sections@,
        }
    }
}

/// There is a current fan where the step is about one, and the positions are of the lists.
pub open spec fn wizard_in_range(state: WizardState) -> bool {
    &&& state.step.about_a_fan() ==> state.current < state.fans.len()
    &&& state.current <= state.fans.len()
    &&& state.fans.len() <= usize::MAX
    &&& state.curve_idx < 3
    &&& state.aggregation_idx < 3
}

/// The wizard before its first question.
pub open spec fn wizard_start(sensors: Seq<Seq<char>>, fans: Seq<Seq<char>>) -> WizardState {
    WizardState {
        sensors,
        fans,
        step: Step::Low,
        current: 0,
        defaults: standard_defaults(),
        curve_idx: 0,
        aggregation_idx: 0,
        own: no_overrides(),
        sections: Map::empty(),
    }
}

/// The wizard at the fan with number `current`, or at its end.
pub open spec fn at_fan(state: WizardState, current: usize) -> WizardState {
    WizardState {
        step: if current < state.fans.len() {
            Step::Customize
        } else {
            Step::Done
        },
        current,
        own: no_overrides(),
        ..state
    }
}

/// The wizard after the section of the current fan is complete.
pub open spec fn with_section(state: WizardState, own: FanView) -> WizardState {
    at_fan(
        WizardState {
            sections: state.sections.insert(state.fans[state.current as int], own),
            ..state
        },
        (state.current + 1) as usize,
    )
}

/// The wizard after an answer.
pub open spec fn wizard_next(state: WizardState, answer: AnswerView) -> WizardState {
    let d = state.defaults;
    let own = state.own;
    match state.step {
        Step::Low => WizardState {
            step: Step::High,
            defaults: DefaultsView { low_temp: temp_or(given(answer.line, "55"@), 55), ..d },
            ..state
        },
        Step::High => WizardState {
            step: Step::Curve,
            defaults: DefaultsView { high_temp: temp_or(given(answer.line, "75"@), 75), ..d },
            ..state
        },
        Step::Curve => {
            let idx = selected(answer.line, 3, 0);
            WizardState {
                step: Step::Aggregation,
                curve_idx: idx,
                defaults: DefaultsView { speed_curve: curve_at(idx), ..d },
                ..state
            }
        },
        Step::Aggregation => {
            let idx = selected(answer.line, 3, 0);
            WizardState {
                step: Step::Rate,
                aggregation_idx: idx,
                defaults: DefaultsView { sensor_aggregation: aggregation_at(idx), ..d },
                ..state
            }
        },
        Step::Rate => at_fan(
            WizardState {
                defaults: DefaultsView {
                    ramp_down_rate: match answer.rate {
                        Some(rate) => rate,
                        None => "1"@,
                    },
                    ..d
                },
                ..state
            },
            0,
        ),
        Step::Customize => if says_yes(given(answer.line, "n"@)) {
            WizardState { step: Step::FanLow, ..state }
        } else {
            at_fan(state, (state.current + 1) as usize)
        },
        Step::FanLow => WizardState {
            step: Step::FanHigh,
            own: FanView {
                low_temp: temp_override(
                    given(answer.line, decimal(d.low_temp as nat)),
                    d.low_temp,
                ),
                ..own
            },
            ..state
        },
        Step::FanHigh => WizardState {
            step: Step::FanCurve,
            own: FanView {
                high_temp: temp_override(
                    given(answer.line, decimal(d.high_temp as nat)),
                    d.high_temp,
                ),
                ..own
            },
            ..state
        },
        Step::FanCurve => {
            let idx = selected(answer.line, 3, state.curve_idx);
            WizardState {
                step: Step::FanAggregation,
                own: FanView {
                    speed_curve: if idx == state.curve_idx {
                        None
                    } else {
                        Some(curve_at(idx))
                    },
                    ..own
                },
                ..state
            }
        },
        Step::FanAggregation => {
            let idx = selected(answer.line, 3, state.aggregation_idx);
            WizardState {
                step: Step::FanRate,
                own: FanView {
                    sensor_aggregation: if idx == state.aggregation_idx {
                        None
                    } else {
                        Some(aggregation_at(idx))
                    },
                    ..own
                },
                ..state
            }
        },
        Step::FanRate => {
            let now = FanView {
                ramp_down_rate: if answer.near {
                    None
                } else {
                    Some(
                        match answer.rate {
                            Some(rate) => rate,
                            None => d.ramp_down_rate,
                        },
                    )
                },
                ..own
            };
            if state.sensors.len() > 0 {
                WizardState { step: Step::FanSensors, own: now, ..state }
            } else {
                with_section(state, now)
            }
        },
        Step::FanSensors => with_section(
            state,
            FanView {
                sensors: sensor_choice(given(answer.line, "all"@), state.sensors),
                ..own
            },
        ),
        Step::Done => state,
    }
}

/// Whether the line of the answer selects none of the options that were asked for.
pub open spec fn invalid_choice(state: WizardState, answer: AnswerView) -> bool {
    match state.step {
        Step::Curve | Step::Aggregation | Step::FanCurve | Step::FanAggregation => selects_none(
            answer.line,
            3,
        ),
        _ => false,
    }
}

/// What the wizard says to an answer that selects none of the options.
pub const INVALID_SELECTION: &'static str = "Invalid selection, using default.";

/// The names of the curves, in the order of their list.
pub open spec fn curve_options() -> Seq<Seq<char>> {
    seq!["linear"@, "exponential"@, "logarithmic"@]
}

fn list_curves() -> (r: Vec<String>)
    ensures
        texts(r@) == curve_options(),
{
    let r: Vec<String> = vec!["linear".to_string(), "exponential".to_string(), "logarithmic".to_string()];
    assert(texts(r@) =~= curve_options());
    r
}

/// The names of the methods, in the order of their list.
pub open spec fn aggregation_options() -> Seq<Seq<char>> {
    seq!["max"@, "average"@, "min"@]
}

fn list_aggregations() -> (r: Vec<String>)
    ensures
        texts(r@) == aggregation_options(),
{
    let r: Vec<String> = vec!["max".to_string(), "average".to_string(), "min".to_string()];
    assert(texts(r@) =~= aggregation_options());
    r
}

/// The rate that a blank answer gives.
pub open spec fn blank_rate(state: WizardState) -> Seq<char> {
    match state.step {
        Step::Rate => "1.0"@,
        _ => state.defaults.ramp_down_rate,
    }
}

/// What is shown before an answer is read.
pub open spec fn question(state: WizardState) -> Seq<char> {
    match state.step {
        Step::Low => heading(state.sensors.len(), state.fans.len()) + line_question(
            "Low temp (min RPM)"@,
            "55"@,
        ),
        Step::High => line_question("High temp (max RPM)"@, "75"@),
        Step::Curve => selection_question("Speed curve?"@, curve_options(), 0),
        Step::Aggregation => selection_question("Sensor aggregation?"@, aggregation_options(), 0),
        Step::Rate => line_question("Ramp down rate (°C/sec)"@, blank_rate(state)),
        Step::Customize => fan_heading(state.fans[state.current as int]) + line_question(
            "Customize this fan? (y/n)"@,
            "n"@,
        ),
        Step::FanLow => line_question(
            "  Low temp override (Enter=inherit)"@,
            decimal(state.defaults.low_temp as nat),
        ),
        Step::FanHigh => line_question(
            "  High temp override (Enter=inherit)"@,
            decimal(state.defaults.high_temp as nat),
        ),
        Step::FanCurve => selection_question(
            "  Speed curve?"@,
            curve_options(),
            state.curve_idx as int,
        ),
        Step::FanAggregation => selection_question(
            "  Sensor aggregation?"@,
            aggregation_options(),
            state.aggregation_idx as int,
        ),
        Step::FanRate => line_question(
            "  Ramp down rate (Enter=inherit)"@,
            blank_rate(state),
        ),
        Step::FanSensors => "  Available sensors:\n"@ + sensor_lines(state.sensors) + line_question(
            "  Sensors (comma-separated numbers, or 'all')"@,
            "all"@,
        ),
        Step::Done => Seq::empty(),
    }
}

fn copy_fan_names(fan_paths: &Vec<FanPath>) -> (r: Vec<String>)
    ensures
        texts(r@) == fan_names(fan_paths@),
{
    let ghost all = fan_names(fan_paths@);
    let mut out: Vec<String> = Vec::new();
    let mut i: usize = 0;
    while i < fan_paths.len()
        invariant
            i <= fan_paths.len(),
            all == fan_names(fan_paths@),
            texts(out@) == all.take(i as int),
        decreases fan_paths.len() - i,
    {
        let ghost had = out@;
        out.push(fan_paths[i].name.clone());
        i = i + 1;
        assert(texts(out@) == texts(had).push(all[i - 1]));
        assert(texts(out@) == all.take(i as int));
    }
    assert(all.take(i as int) == all);
    out
}

/// Starts the wizard for the discovered hardware.
pub fn run_wizard<H>(sensors: &Vec<HwmonSensor<H>>, fan_paths: &Vec<FanPath>) -> (r: Wizard)
    ensures
        r@ == wizard_start(sensor_names(sensor_views(sensors@)), fan_names(fan_paths@)),
{
    let sensors = names_of_sensors(sensors);
    let fans = copy_fan_names(fan_paths);
    assert(texts(fans@).len() == fans.len());
    Wizard {
        sensors,
        fans,
        step: Step::Low,
        current: 0,
        defaults: DefaultsConfig::default(),
        curve_idx: 0,
        aggregation_idx: 0,
        own: RawFanConfig::default(),
        sections: FanSections::new(),
    }
}

impl Wizard {
    #[verifier::type_invariant]
    spec fn in_range(self) -> bool {
        wizard_in_range(self@)
    }

    /// What is asked for next.
    pub fn step(&self) -> (r: Step)
        ensures
            r == self@.step,
    {
        self.step
    }

    /// The rate that a blank answer gives.
    pub fn rate_default(&self) -> (r: &str)
        ensures
            r@ == blank_rate(self@),
    {
        match self.step {
            Step::Rate => "1.0",
            _ => self.defaults.ramp_down_rate.as_str(),
        }
    }

    /// What to show before an answer is read.
    pub fn prompt(&self) -> (r: String)
        ensures
            r@ == question(self@),
    {
        proof {
            use_type_invariant(self);
        }
        match self.step {
            Step::Low => {
                assert(texts(self.sensors@).len() == self.sensors.len());
                assert(texts(self.fans@).len() == self.fans.len());
                let mut out = heading_text(self.sensors.len(), self.fans.len());
                out.append(ask_line("Low temp (min RPM)", "55").as_str());
                out
            },
            Step::High => ask_line("High temp (max RPM)", "75"),
            Step::Curve => {
                let options = list_curves();
                assert(options.len() == texts(options@).len());
                ask_selection("Speed curve?", &options, 0)
            },
            Step::Aggregation => {
                let options = list_aggregations();
                assert(options.len() == texts(options@).len());
                ask_selection("Sensor aggregation?", &options, 0)
            },
            Step::Rate => ask_line("Ramp down rate (°C/sec)", self.rate_default()),
            Step::Customize => {
                assert(texts(self.fans@).len() == self.fans.len());
                let mut out = fan_heading_text(self.fans[self.current].as_str());
                out.append(ask_line("Customize this fan? (y/n)", "n").as_str());
                out
            },
            Step::FanLow => ask_line(
                "  Low temp override (Enter=inherit)",
                decimal_text(self.defaults.low_temp as u64).as_str(),
            ),
            Step::FanHigh => ask_line(
                "  High temp override (Enter=inherit)",
                decimal_text(self.defaults.high_temp as u64).as_str(),
            ),
            Step::FanCurve => {
                let options = list_curves();
                assert(options.len() == texts(options@).len());
                ask_selection("  Speed curve?", &options, self.curve_idx)
            },
            Step::FanAggregation => {
                let options = list_aggregations();
                assert(options.len() == texts(options@).len());
                ask_selection("  Sensor aggregation?", &options, self.aggregation_idx)
            },
            Step::FanRate => ask_line(
                "  Ramp down rate (Enter=inherit)",
                self.rate_default(),
            ),
            Step::FanSensors => {
                let mut out = sensor_list_text(&self.sensors);
                out.append(ask_line("  Sensors (comma-separated numbers, or 'all')", "all").as_str());
                out
            },
            Step::Done => String::new(),
        }
    }

    fn to_fan(self, current: usize) -> (r: Wizard)
        requires
            current <= self@.fans.len(),
            wizard_in_range(self@),
        ensures
            r@ == at_fan(self@, current),
    {
        let step = if current < self.fans.len() {
            Step::Customize
        } else {
            Step::Done
        };
        Wizard {
            sensors: self.sensors,
            fans: self.fans,
            step,
            current,
            defaults: self.defaults,
            curve_idx: self.curve_idx,
            aggregation_idx: self.aggregation_idx,
            own: RawFanConfig::default(),
            sections: self.sections,
        }
    }

    fn finish_fan(self, own: RawFanConfig) -> (r: Wizard)
        requires
            wizard_in_range(self@),
            self@.step.about_a_fan(),
        ensures
            r@ == with_section(self@, own@),
    {
        let ghost before = self@;
        let Wizard {
            sensors,
            fans,
            step,
            current,
            defaults,
            curve_idx,
            aggregation_idx,
            own: _,
            sections,
        } = self;
        let mut sections = sections;
        let name = fans[current].clone();
        assert(name@ == before.fans[current as int]);
        sections.insert(name, own);
        let next: usize = current + 1;
        let step = if next < fans.len() {
            Step::Customize
        } else {
            Step::Done
        };
        Wizard {
            sensors,
            fans,
            step,
            current: next,
            defaults,
            curve_idx,
            aggregation_idx,
            own: RawFanConfig::default(),
            sections,
        }
    }

    /// Takes an answer; the second result says whether it selects none of the options.
    pub fn answer(self, answer: Answer) -> (r: (Wizard, bool))
        ensures
            r.0@ == wizard_next(self@, answer@),
            r.1 == invalid_choice(self@, answer@),
    {
        proof {
            use_type_invariant(&self);
        }
        let line = answer.line.as_str();
        match self.step {
            Step::Low => {
                let text = prompt_line(line, "55");
                let defaults = DefaultsConfig {
                    low_temp: parse_temp_or(text.as_str(), 55),
                    ..self.defaults
                };
                (Wizard { step: Step::High, defaults, ..self }, false)
            },
            Step::High => {
                let text = prompt_line(line, "75");
                let defaults = DefaultsConfig {
                    high_temp: parse_temp_or(text.as_str(), 75),
                    ..self.defaults
                };
                (Wizard { step: Step::Curve, defaults, ..self }, false)
            },
            Step::Curve => {
                let (idx, invalid) = prompt_select(line, 3, 0);
                let defaults = DefaultsConfig { speed_curve: pick_curve(idx), ..self.defaults };
                (Wizard { step: Step::Aggregation, curve_idx: idx, defaults, ..self }, invalid)
            },
            Step::Aggregation => {
                let (idx, invalid) = prompt_select(line, 3, 0);
                let defaults = DefaultsConfig {
                    sensor_aggregation: pick_aggregation(idx),
                    ..self.defaults
                };
                (Wizard { step: Step::Rate, aggregation_idx: idx, defaults, ..self }, invalid)
            },
            Step::Rate => {
                let rate = match answer.rate {
                    Some(rate) => rate,
                    None => "1".to_string(),
                };
                let defaults = DefaultsConfig { ramp_down_rate: rate, ..self.defaults };
                let next = Wizard { defaults, ..self };
                (next.to_fan(0), false)
            },
            Step::Customize => {
                let text = prompt_line(line, "n");
                if same_text(text.as_str(), "y") || same_text(text.as_str(), "Y") {
                    (Wizard { step: Step::FanLow, ..self }, false)
                } else {
                    let next: usize = self.current + 1;
                    (self.to_fan(next), false)
                }
            },
            Step::FanLow => {
                let default = self.defaults.low_temp;
                let text = prompt_line(line, decimal_text(default as u64).as_str());
                let own = RawFanConfig {
                    low_temp: parse_temp_override(text.as_str(), default),
                    ..self.own
                };
                (Wizard { step: Step::FanHigh, own, ..self }, false)
            },
            Step::FanHigh => {
                let default = self.defaults.high_temp;
                let text = prompt_line(line, decimal_text(default as u64).as_str());
                let own = RawFanConfig {
                    high_temp: parse_temp_override(text.as_str(), default),
                    ..self.own
                };
                (Wizard { step: Step::FanCurve, own, ..self }, false)
            },
            Step::FanCurve => {
                let (idx, invalid) = prompt_select(line, 3, self.curve_idx);
                let curve = if idx == self.curve_idx {
                    None
                } else {
                    Some(pick_curve(idx))
                };
                let own = RawFanConfig { speed_curve: curve, ..self.own };
                (Wizard { step: Step::FanAggregation, own, ..self }, invalid)
            },
            Step::FanAggregation => {
                let (idx, invalid) = prompt_select(line, 3, self.aggregation_idx);
                let method = if idx == self.aggregation_idx {
                    None
                } else {
                    Some(pick_aggregation(idx))
                };
                let own = RawFanConfig { sensor_aggregation: method, ..self.own };
                (Wizard { step: Step::FanRate, own, ..self }, invalid)
            },
            Step::FanRate => {
                let rate = if answer.near {
                    None
                } else {
                    Some(
                        match answer.rate {
                            Some(rate) => rate,
                            None => self.defaults.ramp_down_rate.clone(),
                        },
                    )
                };
                let own = RawFanConfig { ramp_down_rate: rate, ..self.own };
                if self.sensors.len() > 0 {
                    (Wizard { step: Step::FanSensors, own, ..self }, false)
                } else {
                    let rest = Wizard { own: RawFanConfig::default(), ..self };
                    (rest.finish_fan(own), false)
                }
            },
            Step::FanSensors => {
                let text = prompt_line(line, "all");
                let own = RawFanConfig {
                    sensors: choose_sensors(text.as_str(), &self.sensors),
                    ..self.own
                };
                let rest = Wizard { own: RawFanConfig::default(), ..self };
                (rest.finish_fan(own), false)
            },
            Step::Done => (self, false),
        }
    }

    /// The configuration that the answers make.
    pub fn config(self) -> (r: RawConfig)
        requires
            self@.step == Step::Done,
        ensures
            r.defaults@ == self@.defaults,
            r.fan@ == self@.sections,
            r.degraded@ == standard_degraded(),
    {
        RawConfig {
            defaults: self.defaults,
            fan: self.sections,
            degraded: DegradedConfig::default(),
        }
    }
}

} // verus!
