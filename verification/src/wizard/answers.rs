//! What each answer makes of the wizard.
use vstd::prelude::*;

use crate::config::{DefaultsView, FanView, SensorAggregation, SpeedCurve};
use crate::text::{all_white, decimal, digit_value, joined, law_decimal_reads_back, law_joined_parts_split_back, law_trimming_removes_the_white_space_around, lemma_decimal_digits, lemma_decimal_is_trimmed, lemma_filter_pushed, parsed, split, trimmed, white_space, ParseIntError};
use crate::wizard::laws::wizard_run;
use crate::wizard::prompt::{fan_heading, heading, line_question, option_lines, selection_question, sensor_lines};
use crate::wizard::{aggregation_at, blank_rate, curve_at, given, invalid_choice, picked, question, says_yes, selected, selects_none, sensor_choice, temp_or, temp_override, wizard_in_range, wizard_next, wizard_start, AnswerView, Step, WizardState};

verus! {

/// A line says the text in it, without the white space round it, and a blank line the default.
pub proof fn law_line_says_its_text(
    before: Seq<char>,
    text: Seq<char>,
    behind: Seq<char>,
    default: Seq<char>,
)
    requires
        all_white(before),
        all_white(behind),
    ensures
        text.len() > 0 && !white_space(text.first()) && !white_space(text.last()) ==> given(
            before + text + behind,
            default,
        ) == text,
        given(before, default) == default,
{
    let none = Seq::<char>::empty();
    if text.len() > 0 && !white_space(text.first()) && !white_space(text.last()) {
        law_trimming_removes_the_white_space_around(before, text, behind);
    }
    law_trimming_removes_the_white_space_around(before, none, none);
    assert(before + none + none =~= before);
}

/// Whether a line holds the number in decimal, with white space at most round it.
pub open spec fn holds_number(line: Seq<char>, n: nat) -> bool {
    exists|before: Seq<char>, behind: Seq<char>|
        #[trigger] all_white(before) && #[trigger] all_white(behind) && line == before + decimal(n)
            + behind
}

proof fn lemma_holds_number(line: Seq<char>, n: nat)
    requires
        holds_number(line, n),
    ensures
        trimmed(line) == decimal(n),
        trimmed(line).len() > 0,
        forall|default: Seq<char>| #[trigger] given(line, default) == decimal(n),
{
    let (before, behind) = choose|before: Seq<char>, behind: Seq<char>|
        #[trigger] all_white(before) && #[trigger] all_white(behind) && line == before + decimal(n)
            + behind;
    lemma_decimal_digits(n);
    let s = decimal(n);
    assert(digit_value(s[0]) is Some);
    assert(digit_value(s[s.len() - 1]) is Some);
    law_trimming_removes_the_white_space_around(before, s, behind);
}

proof fn lemma_blank(line: Seq<char>)
    requires
        all_white(line),
    ensures
        trimmed(line).len() == 0,
{
    let none = Seq::<char>::empty();
    law_trimming_removes_the_white_space_around(line, none, none);
    assert(line + none + none =~= line);
}

/// A number from one to that of the options selects the option of that number, a blank line the
/// default, and every other line selects none, with the default in its place.
pub proof fn law_number_selects_the_option(
    line: Seq<char>,
    n: nat,
    options: nat,
    default_idx: usize,
)
    requires
        options <= usize::MAX,
    ensures
        holds_number(line, n) && 1 <= n <= options ==> selected(line, options, default_idx) == n - 1
            && !selects_none(line, options),
        holds_number(line, n) && n <= usize::MAX && !(1 <= n <= options) ==> selected(
            line,
            options,
            default_idx,
        ) == default_idx && selects_none(line, options),
        all_white(line) ==> selected(line, options, default_idx) == default_idx && !selects_none(
            line,
            options,
        ),
        trimmed(line).len() > 0 && parsed(trimmed(line), false, 0, usize::MAX as int) is Err
            ==> selected(line, options, default_idx) == default_idx && selects_none(line, options),
{
    if holds_number(line, n) && n <= usize::MAX {
        lemma_holds_number(line, n);
        law_decimal_reads_back(n, false, 0, usize::MAX as int);
    }
    if all_white(line) {
        lemma_blank(line);
    }
}

/// The decimal of a temperature of a byte gives that temperature, and what is no such number
/// the default.
pub proof fn law_temperature_is_the_one_written(text: Seq<char>, t: u8, default: u8)
    ensures
        text == decimal(t as nat) ==> temp_or(text, default) == t,
        parsed(text, false, 0, 255) is Err ==> temp_or(text, default) == default,
        parsed(text, false, 0, 255) matches Ok(v) ==> temp_or(text, default) == v as u8,
{
    law_decimal_reads_back(t as nat, false, 0, 255);
}

/// The decimal of a temperature of a byte overrides the default with that temperature, above or
/// below it, unless it is the default; what is no such number overrides nothing.
pub proof fn law_override_is_the_one_written(text: Seq<char>, t: u8, default: u8)
    ensures
        text == decimal(t as nat) && t != default ==> temp_override(text, default) == Some(t),
        text == decimal(t as nat) && t == default ==> temp_override(text, default) is None,
        parsed(text, false, 0, 255) is Err ==> temp_override(text, default) is None,
        parsed(text, false, 0, 255) matches Ok(v) ==> (temp_override(text, default) is None
            <==> v == default),
        temp_override(text, default) matches Some(got) ==> parsed(text, false, 0, 255) is Ok && got
            == parsed(text, false, 0, 255)->Ok_0 as u8,
{
    law_decimal_reads_back(t as nat, false, 0, 255);
}

/// The curves and the methods in the order of their lists.
pub proof fn law_choices_are_in_the_order_of_their_lists()
    ensures
        curve_at(0) == SpeedCurve::Linear,
        curve_at(1) == SpeedCurve::Exponential,
        curve_at(2) == SpeedCurve::Logarithmic,
        aggregation_at(0) == SensorAggregation::Max,
        aggregation_at(1) == SensorAggregation::Average,
        aggregation_at(2) == SensorAggregation::Min,
{
}

/// Only a `y`, small or capital, is a yes.
pub proof fn law_only_y_is_a_yes(text: Seq<char>)
    ensures
        says_yes(text) <==> text.len() == 1 && (text[0] == 'y' || text[0] == 'Y'),
{
    reveal_strlit("y");
    reveal_strlit("Y");
    if text.len() == 1 && text[0] == 'y' {
        assert(text =~= "y"@);
    }
    if text.len() == 1 && text[0] == 'Y' {
        assert(text =~= "Y"@);
    }
}

/// The wizard begins with the low temperature, the standard defaults and no sections.
pub proof fn law_wizard_begins_with_the_defaults(sensors: Seq<Seq<char>>, fans: Seq<Seq<char>>)
    ensures
        ({
            let start = wizard_start(sensors, fans);
            &&& start.step == Step::Low && start.current == 0
            &&& start.sensors == sensors && start.fans == fans
            &&& start.defaults.low_temp == 55 && start.defaults.high_temp == 75
            &&& start.defaults.speed_curve == SpeedCurve::Linear && start.curve_idx == 0
            &&& start.defaults.sensor_aggregation == SensorAggregation::Max
                && start.aggregation_idx == 0
            &&& start.defaults.ramp_down_rate == "1"@ && !start.defaults.always_full_speed
            &&& start.sections == Map::<Seq<char>, FanView>::empty()
        }),
{
}

/// Whether nothing but the step and the defaults has changed.
pub open spec fn only_defaults_change(before: WizardState, after: WizardState) -> bool {
    after.sensors == before.sensors && after.fans == before.fans && after.own == before.own
        && after.sections == before.sections
}

/// A number that is answered to a question on the defaults is the one that they hold, and the
/// next question follows.
pub proof fn law_numbers_become_the_defaults(state: WizardState, answer: AnswerView, n: nat)
    requires
        holds_number(answer.line, n),
        n <= 255,
    ensures
        ({
            let next = wizard_next(state, answer);
            let d = state.defaults;
            &&& state.step == Step::Low ==> next.step == Step::High && only_defaults_change(
                state,
                next,
            ) && next.defaults == (DefaultsView { low_temp: n as u8, ..d })
            &&& state.step == Step::High ==> next.step == Step::Curve && only_defaults_change(
                state,
                next,
            ) && next.defaults == (DefaultsView { high_temp: n as u8, ..d })
            &&& state.step == Step::Curve && 1 <= n <= 3 ==> next.step == Step::Aggregation
                && only_defaults_change(state, next) && next.curve_idx == n - 1
                && next.aggregation_idx == state.aggregation_idx && next.defaults == (
            DefaultsView {
                speed_curve: if n == 1 {
                    SpeedCurve::Linear
                } else if n == 2 {
                    SpeedCurve::Exponential
                } else {
                    SpeedCurve::Logarithmic
                },
                ..d
            })
            &&& state.step == Step::Aggregation && 1 <= n <= 3 ==> next.step == Step::Rate
                && only_defaults_change(state, next) && next.aggregation_idx == n - 1
                && next.curve_idx == state.curve_idx && next.defaults == (DefaultsView {
                sensor_aggregation: if n == 1 {
                    SensorAggregation::Max
                } else if n == 2 {
                    SensorAggregation::Average
                } else {
                    SensorAggregation::Min
                },
                ..d
            })
        }),
{
    lemma_holds_number(answer.line, n);
    law_temperature_is_the_one_written(decimal(n), n as u8, 55);
    law_temperature_is_the_one_written(decimal(n), n as u8, 75);
    law_number_selects_the_option(answer.line, n, 3, 0);
}

/// What gives no number leaves the defaults at their standard: a blank line, and a line that
/// is no number in range.
pub proof fn law_other_answers_leave_the_standard(state: WizardState, answer: AnswerView)
    requires
        all_white(answer.line) || parsed(trimmed(answer.line), false, 0, 255) is Err,
    ensures
        ({
            let next = wizard_next(state, answer);
            &&& state.step == Step::Low ==> next.step == Step::High && next.defaults.low_temp == 55
            &&& state.step == Step::High ==> next.step == Step::Curve && next.defaults.high_temp
                == 75
        }),
        all_white(answer.line) || parsed(
            trimmed(answer.line),
            false,
            0,
            usize::MAX as int,
        ) is Err ==> {
            let next = wizard_next(state, answer);
            &&& state.step == Step::Curve ==> next.curve_idx == 0 && next.defaults.speed_curve
                == SpeedCurve::Linear
            &&& state.step == Step::Aggregation ==> next.aggregation_idx == 0
                && next.defaults.sensor_aggregation == SensorAggregation::Max
        },
{
    reveal_strlit("55");
    reveal_strlit("75");
    reveal_with_fuel(decimal, 2);
    assert("55"@ =~= decimal(55));
    assert("75"@ =~= decimal(75));
    law_temperature_is_the_one_written("55"@, 55, 55);
    law_temperature_is_the_one_written("75"@, 75, 75);
    if all_white(answer.line) {
        lemma_blank(answer.line);
    }
}

/// The rate that is answered becomes that of the defaults, or one degree per second where there
/// is none; then the fans follow, or the wizard ends without them.
pub proof fn law_rate_ends_the_defaults(state: WizardState, answer: AnswerView)
    requires
        state.step == Step::Rate,
    ensures
        ({
            let next = wizard_next(state, answer);
            &&& answer.rate matches Some(rate) ==> next.defaults.ramp_down_rate == rate
            &&& answer.rate is None ==> next.defaults.ramp_down_rate == "1"@
            &&& next.defaults == (DefaultsView {
                ramp_down_rate: next.defaults.ramp_down_rate,
                ..state.defaults
            })
            &&& next.sections == state.sections && next.current == 0
            &&& next.step == if state.fans.len() > 0 {
                Step::Customize
            } else {
                Step::Done
            }
        }),
{
}

/// A yes asks for the section of the current fan; anything else goes on to the next fan, or
/// ends the wizard after the last, without one.
pub proof fn law_yes_asks_for_a_section(state: WizardState, answer: AnswerView)
    requires
        wizard_in_range(state),
        state.step == Step::Customize,
    ensures
        ({
            let next = wizard_next(state, answer);
            let yes = trimmed(answer.line) == "y"@ || trimmed(answer.line) == "Y"@;
            &&& next.sections == state.sections && next.defaults == state.defaults
            &&& yes ==> next.step == Step::FanLow && next.current == state.current && next.own
                == state.own
            &&& !yes ==> next.current == state.current + 1 && next.step == if state.current + 1
                < state.fans.len() {
                Step::Customize
            } else {
                Step::Done
            }
        }),
{
    reveal_strlit("n");
    reveal_strlit("y");
    reveal_strlit("Y");
    assert("n"@[0] == 'n' && "y"@[0] == 'y' && "Y"@[0] == 'Y');
    assert("y"@.len() == 1 && "Y"@.len() == 1);
}

/// Whether nothing but the step and the section that is being made has changed.
pub open spec fn only_own_changes(before: WizardState, after: WizardState) -> bool {
    after.sensors == before.sensors && after.fans == before.fans && after.current
        == before.current && after.defaults == before.defaults && after.curve_idx
        == before.curve_idx && after.aggregation_idx == before.aggregation_idx && after.sections
        == before.sections
}

/// A number that is answered to a question on a fan is what its section overrides, unless it is
/// the default.
pub proof fn law_numbers_become_overrides(state: WizardState, answer: AnswerView, n: nat)
    requires
        holds_number(answer.line, n),
        n <= 255,
    ensures
        ({
            let next = wizard_next(state, answer);
            let d = state.defaults;
            &&& state.step == Step::FanLow ==> next.step == Step::FanHigh && only_own_changes(
                state,
                next,
            ) && next.own == (FanView {
                low_temp: if n == d.low_temp {
                    None
                } else {
                    Some(n as u8)
                },
                ..state.own
            })
            &&& state.step == Step::FanHigh ==> next.step == Step::FanCurve && only_own_changes(
                state,
                next,
            ) && next.own == (FanView {
                high_temp: if n == d.high_temp {
                    None
                } else {
                    Some(n as u8)
                },
                ..state.own
            })
            &&& state.step == Step::FanCurve && 1 <= n <= 3 ==> next.step == Step::FanAggregation
                && only_own_changes(state, next) && next.own == (FanView {
                speed_curve: if n - 1 == state.curve_idx {
                    None
                } else if n == 1 {
                    Some(SpeedCurve::Linear)
                } else if n == 2 {
                    Some(SpeedCurve::Exponential)
                } else {
                    Some(SpeedCurve::Logarithmic)
                },
                ..state.own
            })
            &&& state.step == Step::FanAggregation && 1 <= n <= 3 ==> next.step == Step::FanRate
                && only_own_changes(state, next) && next.own == (FanView {
                sensor_aggregation: if n - 1 == state.aggregation_idx {
                    None
                } else if n == 1 {
                    Some(SensorAggregation::Max)
                } else if n == 2 {
                    Some(SensorAggregation::Average)
                } else {
                    Some(SensorAggregation::Min)
                },
                ..state.own
            })
        }),
{
    lemma_holds_number(answer.line, n);
    law_override_is_the_one_written(decimal(n), n as u8, state.defaults.low_temp);
    law_override_is_the_one_written(decimal(n), n as u8, state.defaults.high_temp);
    law_number_selects_the_option(answer.line, n, 3, state.curve_idx);
    law_number_selects_the_option(answer.line, n, 3, state.aggregation_idx);
}

/// What gives no number overrides nothing: a blank line, and a line that is no number in range.
pub proof fn law_other_answers_override_nothing(state: WizardState, answer: AnswerView)
    requires
        all_white(answer.line) || parsed(trimmed(answer.line), false, 0, 255) is Err,
    ensures
        ({
            let next = wizard_next(state, answer);
            &&& state.step == Step::FanLow ==> next.step == Step::FanHigh && next.own == (FanView {
                low_temp: None,
                ..state.own
            })
            &&& state.step == Step::FanHigh ==> next.step == Step::FanCurve && next.own == (
            FanView { high_temp: None, ..state.own })
        }),
        all_white(answer.line) || parsed(
            trimmed(answer.line),
            false,
            0,
            usize::MAX as int,
        ) is Err ==> {
            let next = wizard_next(state, answer);
            &&& state.step == Step::FanCurve ==> next.step == Step::FanAggregation && next.own == (
            FanView { speed_curve: None, ..state.own })
            &&& state.step == Step::FanAggregation ==> next.step == Step::FanRate && next.own == (
            FanView { sensor_aggregation: None, ..state.own })
        },
{
    let d = state.defaults;
    law_override_is_the_one_written(decimal(d.low_temp as nat), d.low_temp, d.low_temp);
    law_override_is_the_one_written(decimal(d.high_temp as nat), d.high_temp, d.high_temp);
    if all_white(answer.line) {
        lemma_blank(answer.line);
    }
}

/// A rate near the default overrides nothing, and another is the one that was given, or the
/// default where none was; then the sensors are asked for, where there are any, and else the
/// section is complete.
pub proof fn law_rate_of_a_fan(state: WizardState, answer: AnswerView)
    requires
        wizard_in_range(state),
        state.step == Step::FanRate,
    ensures
        ({
            let next = wizard_next(state, answer);
            let name = state.fans[state.current as int];
            let own = FanView {
                ramp_down_rate: if answer.near {
                    None
                } else if answer.rate is Some {
                    answer.rate
                } else {
                    Some(state.defaults.ramp_down_rate)
                },
                ..state.own
            };
            &&& state.sensors.len() > 0 ==> next.step == Step::FanSensors && only_own_changes(
                state,
                next,
            ) && next.own == own
            &&& state.sensors.len() == 0 ==> completed(state, next, own)
        }),
{
}

/// Whether the section of the current fan is complete with those values: it is among the
/// sections under the name of the fan, the others stay, and the next fan follows, or the end.
pub open spec fn completed(before: WizardState, after: WizardState, own: FanView) -> bool {
    &&& after.sections == before.sections.insert(before.fans[before.current as int], own)
    &&& after.current == before.current + 1
    &&& after.defaults == before.defaults && after.fans == before.fans && after.sensors
        == before.sensors
    &&& after.own.low_temp is None && after.own.high_temp is None && after.own.speed_curve is None
        && after.own.sensor_aggregation is None && after.own.ramp_down_rate is None
        && after.own.sensors is None
    &&& after.step == if before.current + 1 < before.fans.len() {
        Step::Customize
    } else {
        Step::Done
    }
}

/// The sensors that are answered complete the section: none are named where the answer is blank
/// or `all`, and else those that the line picks.
pub proof fn law_sensors_complete_the_section(state: WizardState, answer: AnswerView)
    requires
        wizard_in_range(state),
        state.step == Step::FanSensors,
    ensures
        ({
            let next = wizard_next(state, answer);
            let text = trimmed(answer.line);
            let names = picked(split(text, ','), state.sensors);
            completed(
                state,
                next,
                FanView {
                    sensors: if text.len() == 0 || text == "all"@ || names.len() == 0 {
                        None
                    } else {
                        Some(names)
                    },
                    ..state.own
                },
            )
        }),
{
}

/// The pieces that pick a sensor, as a condition: numbers from one to that of the sensors.
pub open spec fn picks(sensors: Seq<Seq<char>>) -> spec_fn(Seq<char>) -> bool {
    |piece: Seq<char>|
        parsed(trimmed(piece), false, 0, usize::MAX as int) is Ok && 1 <= parsed(
            trimmed(piece),
            false,
            0,
            usize::MAX as int,
        )->Ok_0 <= sensors.len()
}

/// The sensor that a piece picks.
pub open spec fn picked_by(sensors: Seq<Seq<char>>) -> spec_fn(Seq<char>) -> Seq<char> {
    |piece: Seq<char>| sensors[parsed(trimmed(piece), false, 0, usize::MAX as int)->Ok_0 - 1]
}

/// Each piece that is the number of a sensor, from one on, picks that sensor, in order; the
/// others pick none.
pub proof fn law_pieces_pick_by_number(pieces: Seq<Seq<char>>, sensors: Seq<Seq<char>>)
    ensures
        picked(pieces, sensors) == pieces.filter(picks(sensors)).map_values(picked_by(sensors)),
    decreases pieces.len(),
{
    let keep = picks(sensors);
    let value = picked_by(sensors);
    if pieces.len() == 0 {
        lemma_filter_pushed(pieces, arbitrary(), keep);
        assert(pieces =~= Seq::<Seq<char>>::empty());
        assert(pieces.filter(keep).map_values(value) =~= Seq::<Seq<char>>::empty());
    } else {
        let before = pieces.drop_last();
        let last = pieces.last();
        law_pieces_pick_by_number(before, sensors);
        lemma_filter_pushed(before, last, keep);
        assert(pieces =~= before.push(last));
        if keep(last) {
            assert(before.filter(keep).push(last).map_values(value) =~= before.filter(
                keep,
            ).map_values(value).push(value(last)));
        }
    }
}

/// The decimals of a list of numbers.
pub open spec fn decimals(numbers: Seq<nat>) -> Seq<Seq<char>> {
    Seq::new(numbers.len(), |i: int| decimal(numbers[i]))
}

proof fn lemma_decimals_pick(numbers: Seq<nat>, sensors: Seq<Seq<char>>)
    requires
        sensors.len() <= usize::MAX,
        forall|i: int| 0 <= i < numbers.len() ==> 1 <= #[trigger] numbers[i] <= sensors.len(),
    ensures
        picked(decimals(numbers), sensors) == Seq::new(
            numbers.len(),
            |i: int| sensors[numbers[i] - 1],
        ),
    decreases numbers.len(),
{
    let want = Seq::new(numbers.len(), |i: int| sensors[numbers[i] - 1]);
    if numbers.len() == 0 {
        assert(picked(decimals(numbers), sensors) =~= want);
    } else {
        let before = numbers.drop_last();
        let last = numbers.last();
        assert forall|i: int| 0 <= i < before.len() implies 1 <= #[trigger] before[i]
            <= sensors.len() by {
            assert(before[i] == numbers[i]);
        }
        lemma_decimals_pick(before, sensors);
        assert(decimals(numbers).drop_last() =~= decimals(before));
        assert(1 <= numbers[numbers.len() - 1] <= sensors.len());
        lemma_decimal_is_trimmed(last);
        law_decimal_reads_back(last, false, 0, usize::MAX as int);
        assert(picked(decimals(numbers), sensors) =~= want);
    }
}

/// A list of the numbers of sensors, with commas between, chooses those sensors, in that order;
/// `all` chooses none by name.
pub proof fn law_numbers_choose_the_sensors(numbers: Seq<nat>, sensors: Seq<Seq<char>>)
    requires
        sensors.len() <= usize::MAX,
        numbers.len() > 0,
        forall|i: int| 0 <= i < numbers.len() ==> 1 <= #[trigger] numbers[i] <= sensors.len(),
    ensures
        sensor_choice(joined(decimals(numbers), seq![',']), sensors) == Some(
            Seq::new(numbers.len(), |i: int| sensors[numbers[i] - 1]),
        ),
        sensor_choice("all"@, sensors) is None,
{
    let parts = decimals(numbers);
    let text = joined(parts, seq![',']);
    assert forall|i: int| 0 <= i < parts.len() implies !(#[trigger] parts[i]).contains(',') by {
        lemma_decimal_digits(numbers[i]);
        if parts[i].contains(',') {
            let k = choose|k: int| 0 <= k < parts[i].len() && parts[i][k] == ',';
            assert(digit_value(decimal(numbers[i])[k]) is Some);
        }
    }
    law_joined_parts_split_back(parts, ',');
    lemma_decimals_pick(numbers, sensors);
    lemma_joined_begins(parts, seq![',']);
    lemma_decimal_digits(numbers[0]);
    assert(digit_value(decimal(numbers[0])[0]) is Some);
    reveal_strlit("all");
    assert("all"@[0] == 'a');
    assert(text[0] == decimal(numbers[0])[0]);
}

proof fn lemma_joined_begins(parts: Seq<Seq<char>>, sep: Seq<char>)
    requires
        parts.len() > 0,
        parts[0].len() > 0,
    ensures
        joined(parts, sep).len() > 0,
        joined(parts, sep)[0] == parts[0][0],
    decreases parts.len(),
{
    if parts.len() > 1 {
        assert(parts.drop_last()[0] == parts[0]);
        lemma_joined_begins(parts.drop_last(), sep);
    }
}

/// What is answered for a fan reaches its section: with the numbers of its low and high
/// temperature, its curve and its method, its rate, and its sensors, the section of the fan holds
/// each of them that is not the default.
pub proof fn law_answers_reach_the_section(
    state: WizardState,
    answers: Seq<AnswerView>,
    low: nat,
    high: nat,
    curve: nat,
    method: nat,
)
    requires
        wizard_in_range(state),
        state.step == Step::FanLow,
        state.sensors.len() > 0,
        answers.len() == 6,
        holds_number(answers[0].line, low) && low <= 255,
        holds_number(answers[1].line, high) && high <= 255,
        holds_number(answers[2].line, curve) && 1 <= curve <= 3,
        holds_number(answers[3].line, method) && 1 <= method <= 3,
    ensures
        ({
            let end = wizard_run(state, answers);
            let name = state.fans[state.current as int];
            let section = end.sections[name];
            let d = state.defaults;
            &&& end.sections.contains_key(name)
            &&& low != d.low_temp ==> section.low_temp == Some(low as u8)
            &&& low == d.low_temp ==> section.low_temp is None
            &&& high != d.high_temp ==> section.high_temp == Some(high as u8)
            &&& high == d.high_temp ==> section.high_temp is None
            &&& curve - 1 != state.curve_idx ==> section.speed_curve == Some(
                if curve == 1 {
                    SpeedCurve::Linear
                } else if curve == 2 {
                    SpeedCurve::Exponential
                } else {
                    SpeedCurve::Logarithmic
                },
            )
            &&& curve - 1 == state.curve_idx ==> section.speed_curve is None
            &&& method - 1 != state.aggregation_idx ==> section.sensor_aggregation == Some(
                if method == 1 {
                    SensorAggregation::Max
                } else if method == 2 {
                    SensorAggregation::Average
                } else {
                    SensorAggregation::Min
                },
            )
            &&& method - 1 == state.aggregation_idx ==> section.sensor_aggregation is None
            &&& answers[4].near ==> section.ramp_down_rate is None
            &&& !answers[4].near && answers[4].rate is Some ==> section.ramp_down_rate
                == answers[4].rate
            &&& section.sensors == sensor_choice(given(answers[5].line, "all"@), state.sensors)
            &&& end.defaults == state.defaults
        }),
{
    let s0 = state;
    let s1 = wizard_next(s0, answers[0]);
    let s2 = wizard_next(s1, answers[1]);
    let s3 = wizard_next(s2, answers[2]);
    let s4 = wizard_next(s3, answers[3]);
    let s5 = wizard_next(s4, answers[4]);
    let s6 = wizard_next(s5, answers[5]);
    law_numbers_become_overrides(s0, answers[0], low);
    law_numbers_become_overrides(s1, answers[1], high);
    law_numbers_become_overrides(s2, answers[2], curve);
    law_numbers_become_overrides(s3, answers[3], method);
    law_rate_of_a_fan(s4, answers[4]);
    assert(wizard_run(state, answers) == s6) by {
        reveal_with_fuel(wizard_run, 7);
        let a5 = answers.drop_last();
        let a4 = a5.drop_last();
        let a3 = a4.drop_last();
        let a2 = a3.drop_last();
        let a1 = a2.drop_last();
        assert(a1.drop_last() =~= Seq::<AnswerView>::empty());
        assert(answers.last() == answers[5] && a5.last() == answers[4] && a4.last() == answers[3]
            && a3.last() == answers[2] && a2.last() == answers[1] && a1.last() == answers[0]);
        assert(wizard_run(state, a1) == s1);
        assert(wizard_run(state, a2) == s2);
        assert(wizard_run(state, a3) == s3);
        assert(wizard_run(state, a4) == s4);
        assert(wizard_run(state, a5) == s5);
    }
}

/// A line is told to select none exactly where an option was asked for and it selects none.
pub proof fn law_wrong_selections_are_told(state: WizardState, answer: AnswerView)
    ensures
        invalid_choice(state, answer) <==> (state.step == Step::Curve || state.step
            == Step::Aggregation || state.step == Step::FanCurve || state.step
            == Step::FanAggregation) && selects_none(answer.line, 3),
{
}

/// A wizard that has ended takes no more answers.
pub proof fn law_ended_wizard_stays(state: WizardState, answer: AnswerView)
    requires
        state.step == Step::Done,
    ensures
        wizard_next(state, answer) == state,
{
}

/// A question for a line shows what a blank line gives, and one for an option the options with
/// their numbers from one on, and the number of the default.
pub proof fn law_questions_show_their_default(
    prompt: Seq<char>,
    default: Seq<char>,
    options: Seq<Seq<char>>,
    option: Seq<char>,
    default_idx: int,
)
    requires
        default_idx >= 0,
    ensures
        line_question(prompt, default) == prompt + " ["@ + default + "]: "@,
        selection_question(prompt, options, default_idx) == prompt + "\n"@ + option_lines(
            options,
            default_idx,
        ) + "Selection ["@ + decimal((default_idx + 1) as nat) + "]: "@,
        option_lines(Seq::<Seq<char>>::empty(), default_idx) == Seq::<char>::empty(),
        option_lines(options.push(option), default_idx) == option_lines(options, default_idx)
            + "  "@ + decimal((options.len() + 1) as nat) + ") "@ + option + if options.len()
            == default_idx {
            " (default)\n"@
        } else {
            "\n"@
        },
{
    assert(options.push(option).drop_last() =~= options);
    assert(option_lines(options.push(option), default_idx) =~= option_lines(options, default_idx)
        + "  "@ + decimal((options.len() + 1) as nat) + ") "@ + option + if options.len()
        == default_idx {
        " (default)\n"@
    } else {
        "\n"@
    });
}

/// The sensors are shown with their numbers from one on, and the headings with what was found.
pub proof fn law_headings_show_what_was_found(
    names: Seq<Seq<char>>,
    name: Seq<char>,
    sensors: nat,
    fans: nat,
)
    ensures
        sensor_lines(Seq::<Seq<char>>::empty()) == Seq::<char>::empty(),
        sensor_lines(names.push(name)) == sensor_lines(names) + "    "@ + decimal(
            (names.len() + 1) as nat,
        ) + ") "@ + name + "\n"@,
        fan_heading(name) == "\n── "@ + name + " ──\n"@,
        heading(sensors, fans)
            == "\n=== macprot2fans Configuration Wizard ===\n\nDiscovered "@ + decimal(sensors)
            + " sensor(s), "@ + decimal(fans) + " fan(s).\n\n── Global Defaults ──\n"@,
{
    assert(names.push(name).drop_last() =~= names);
}

/// What is asked at each step, with the default that a blank answer stands for.
pub proof fn law_each_step_has_its_question(state: WizardState)
    ensures
        ({
            let curves = seq!["linear"@, "exponential"@, "logarithmic"@];
            let methods = seq!["max"@, "average"@, "min"@];
            let d = state.defaults;
            match state.step {
                Step::Low => question(state) == heading(state.sensors.len(), state.fans.len())
                    + line_question("Low temp (min RPM)"@, "55"@),
                Step::High => question(state) == line_question("High temp (max RPM)"@, "75"@),
                Step::Curve => question(state) == selection_question("Speed curve?"@, curves, 0),
                Step::Aggregation => question(state) == selection_question(
                    "Sensor aggregation?"@,
                    methods,
                    0,
                ),
                Step::Rate => question(state) == line_question("Ramp down rate (°C/sec)"@, "1.0"@)
                    && blank_rate(state) == "1.0"@,
                Step::Customize => question(state) == fan_heading(
                    state.fans[state.current as int],
                ) + line_question("Customize this fan? (y/n)"@, "n"@),
                Step::FanLow => question(state) == line_question(
                    "  Low temp override (Enter=inherit)"@,
                    decimal(d.low_temp as nat),
                ),
                Step::FanHigh => question(state) == line_question(
                    "  High temp override (Enter=inherit)"@,
                    decimal(d.high_temp as nat),
                ),
                Step::FanCurve => question(state) == selection_question(
                    "  Speed curve?"@,
                    curves,
                    state.curve_idx as int,
                ),
                Step::FanAggregation => question(state) == selection_question(
                    "  Sensor aggregation?"@,
                    methods,
                    state.aggregation_idx as int,
                ),
                Step::FanRate => question(state) == line_question(
                    "  Ramp down rate (Enter=inherit)"@,
                    d.ramp_down_rate,
                ) && blank_rate(state) == d.ramp_down_rate,
                Step::FanSensors => question(state) == "  Available sensors:\n"@ + sensor_lines(
                    state.sensors,
                ) + line_question("  Sensors (comma-separated numbers, or 'all')"@, "all"@),
                Step::Done => question(state).len() == 0,
            }
        }),
{
}

/// However a temperature is written, with a sign or with zeros before it, it counts as the number
/// that it is: for the defaults as it is, and for a fan where it is not the default.
pub proof fn law_written_temperatures_count(state: WizardState, answer: AnswerView, t: u8)
    requires
        parsed(trimmed(answer.line), false, 0, 255) == Ok::<int, ParseIntError>(t as int),
    ensures
        ({
            let next = wizard_next(state, answer);
            let d = state.defaults;
            &&& state.step == Step::Low ==> next.defaults == (DefaultsView { low_temp: t, ..d })
            &&& state.step == Step::High ==> next.defaults == (DefaultsView { high_temp: t, ..d })
            &&& state.step == Step::FanLow ==> next.own == (FanView {
                low_temp: if t == d.low_temp {
                    None
                } else {
                    Some(t)
                },
                ..state.own
            })
            &&& state.step == Step::FanHigh ==> next.own == (FanView {
                high_temp: if t == d.high_temp {
                    None
                } else {
                    Some(t)
                },
                ..state.own
            })
        }),
{
}

/// Whatever line is answered, the option that it selects, or the default where it selects none,
/// is the one that counts: for the defaults as it is, and for a fan where it is another than that
/// of the defaults.
pub proof fn law_selected_option_counts(state: WizardState, answer: AnswerView)
    ensures
        ({
            let next = wizard_next(state, answer);
            let first = selected(answer.line, 3, 0);
            let curve = selected(answer.line, 3, state.curve_idx);
            let method = selected(answer.line, 3, state.aggregation_idx);
            &&& state.step == Step::Curve ==> next.curve_idx == first && next.defaults == (
            DefaultsView { speed_curve: curve_at(first), ..state.defaults })
            &&& state.step == Step::Aggregation ==> next.aggregation_idx == first && next.defaults
                == (DefaultsView { sensor_aggregation: aggregation_at(first), ..state.defaults })
            &&& state.step == Step::FanCurve ==> next.own == (FanView {
                speed_curve: if curve == state.curve_idx {
                    None
                } else {
                    Some(curve_at(curve))
                },
                ..state.own
            })
            &&& state.step == Step::FanAggregation ==> next.own == (FanView {
                sensor_aggregation: if method == state.aggregation_idx {
                    None
                } else {
                    Some(aggregation_at(method))
                },
                ..state.own
            })
        }),
{
}

} // verus!
