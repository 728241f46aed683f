//! What holds of a whole run of the wizard.
use vstd::prelude::*;

use crate::config::{no_overrides, standard_defaults, DefaultsView, FanView};
use crate::text::{decimal, law_decimal_reads_back, parsed, split, trimmed};
use crate::wizard::{aggregation_at, aggregation_options, curve_at, curve_options, given, picked, says_yes, temp_or, wizard_in_range, wizard_next, wizard_start, AnswerView, Step, WizardState};

verus! {

/// The wizard after a list of answers.
#[verifier::opaque]
pub open spec fn wizard_run(state: WizardState, answers: Seq<AnswerView>) -> WizardState
    decreases answers.len(),
{
    if answers.len() == 0 {
        state
    } else {
        wizard_next(wizard_run(state, answers.drop_last()), answers.last())
    }
}

/// The most questions that are left.
pub open spec fn questions_left(state: WizardState) -> int {
    let left = 7 * (state.fans.len() - state.current);
    match state.step {
        Step::Low => left + 5,
        Step::High => left + 4,
        Step::Curve => left + 3,
        Step::Aggregation => left + 2,
        Step::Rate => left + 1,
        Step::Customize => left,
        Step::FanLow => left - 1,
        Step::FanHigh => left - 2,
        Step::FanCurve => left - 3,
        Step::FanAggregation => left - 4,
        Step::FanRate => left - 5,
        Step::FanSensors => left - 6,
        Step::Done => 0,
    }
}

/// Every answer brings the wizard nearer to its end, and a wizard that has not ended has a
/// question left.
pub proof fn law_every_answer_counts(state: WizardState, answer: AnswerView)
    requires
        wizard_in_range(state),
        state.step != Step::Done,
        !state.step.about_a_fan() ==> state.current == 0,
    ensures
        questions_left(state) > 0,
        0 <= questions_left(wizard_next(state, answer)) < questions_left(state),
{
}

/// The step is one of those on the defaults.
pub open spec fn about_defaults(step: Step) -> bool {
    step == Step::Low || step == Step::High || step == Step::Curve || step == Step::Aggregation
        || step == Step::Rate
}

/// The names of a choice are those of the values that it makes.
pub proof fn law_options_name_the_choices(idx: usize)
    requires
        idx < 3,
    ensures
        curve_options().len() == 3,
        curve_options()[idx as int] == curve_at(idx).text(),
        aggregation_options().len() == 3,
        aggregation_options()[idx as int] == aggregation_at(idx).text(),
{
}

/// Whether an answer is blank: at most white space was typed, and the rate that it gives, if
/// the wizard asked for one, is the default.
pub open spec fn blank(answer: AnswerView) -> bool {
    &&& trimmed(answer.line).len() == 0
    &&& answer.rate matches Some(rate) ==> rate == "1"@
}

proof fn lemma_standard_temps()
    ensures
        temp_or("55"@, 55) == 55,
        temp_or("75"@, 75) == 75,
{
    reveal_strlit("55");
    reveal_strlit("75");
    reveal_with_fuel(decimal, 2);
    assert("55"@ =~= decimal(55));
    assert("75"@ =~= decimal(75));
    law_decimal_reads_back(55, false, 0, u8::MAX as int);
    law_decimal_reads_back(75, false, 0, u8::MAX as int);
}

/// Blank answers leave the defaults at their standard and no fan with a section.
pub proof fn law_blank_answers_give_the_defaults(
    sensors: Seq<Seq<char>>,
    fans: Seq<Seq<char>>,
    answers: Seq<AnswerView>,
)
    requires
        fans.len() <= usize::MAX,
        forall|i: int| 0 <= i < answers.len() ==> blank(#[trigger] answers[i]),
    ensures
        ({
            let end = wizard_run(wizard_start(sensors, fans), answers);
            end.defaults == standard_defaults() && end.sections == Map::<
                Seq<char>,
                FanView,
            >::empty() && (end.step.about_a_fan() ==> end.step == Step::Customize)
        }),
    decreases answers.len(),
{
    reveal(wizard_run);
    if answers.len() > 0 {
        let before = wizard_run(wizard_start(sensors, fans), answers.drop_last());
        law_blank_answers_give_the_defaults(sensors, fans, answers.drop_last());
        let answer = answers.last();
        assert(blank(answer));
        lemma_standard_temps();
        reveal_strlit("n");
        reveal_strlit("y");
        reveal_strlit("Y");
        assert(given(answer.line, "n"@)[0] == 'n');
        assert("y"@[0] == 'y');
        assert("Y"@[0] == 'Y');
        assert(wizard_next(before, answer).defaults =~= standard_defaults());
    }
}

/// What a section overrides differs from what it would inherit, and the sensors that it names
/// exist.
pub open spec fn differs(
    defaults: DefaultsView,
    sensors: Seq<Seq<char>>,
    own: FanView,
) -> bool {
    &&& own.low_temp != Some(defaults.low_temp)
    &&& own.high_temp != Some(defaults.high_temp)
    &&& own.speed_curve != Some(defaults.speed_curve)
    &&& own.sensor_aggregation != Some(defaults.sensor_aggregation)
    &&& own.sensors matches Some(names) ==> names.len() > 0 && forall|i: int|
        0 <= i < names.len() ==> sensors.contains(#[trigger] names[i])
}

/// A state that the wizard can be in.
pub open spec fn sound(state: WizardState) -> bool {
    &&& wizard_in_range(state)
    &&& state.defaults.speed_curve == curve_at(state.curve_idx)
    &&& state.defaults.sensor_aggregation == aggregation_at(state.aggregation_idx)
    &&& !state.defaults.always_full_speed
    &&& about_defaults(state.step) ==> state.current == 0 && state.own == no_overrides()
        && state.sections == Map::<Seq<char>, FanView>::empty()
    &&& differs(state.defaults, state.sensors, state.own)
    &&& forall|name: Seq<char>| #[trigger]
        state.sections.contains_key(name) ==> state.fans.contains(name) && differs(
            state.defaults,
            state.sensors,
            state.sections[name],
        )
}

proof fn lemma_picked_exist(pieces: Seq<Seq<char>>, sensors: Seq<Seq<char>>)
    ensures
        forall|i: int|
            0 <= i < picked(pieces, sensors).len() ==> sensors.contains(
                #[trigger] picked(pieces, sensors)[i],
            ),
    decreases pieces.len(),
{
    if pieces.len() > 0 {
        lemma_picked_exist(pieces.drop_last(), sensors);
        let before = picked(pieces.drop_last(), sensors);
        let all = picked(pieces, sensors);
        assert forall|i: int| 0 <= i < all.len() implies sensors.contains(#[trigger] all[i]) by {
            if i < before.len() {
                assert(all[i] == before[i]);
            } else {
                match parsed(trimmed(pieces.last()), false, 0, usize::MAX as int) {
                    Ok(n) => {
                        assert(all[i] == sensors[n - 1]);
                    },
                    Err(_) => {},
                }
            }
        }
    }
}

/// The wizard stays in the states that `sound` describes.
pub proof fn law_wizard_stays_sound(state: WizardState, answer: AnswerView)
    requires
        sound(state),
    ensures
        sound(wizard_next(state, answer)),
        wizard_next(state, answer).sensors == state.sensors,
        wizard_next(state, answer).fans == state.fans,
{
    let next = wizard_next(state, answer);
    match state.step {
        Step::FanSensors => {
            let text = given(answer.line, "all"@);
            lemma_picked_exist(split(text, ','), state.sensors);
            assert(state.fans.contains(state.fans[state.current as int]));
        },
        Step::FanRate => {
            assert(state.fans.contains(state.fans[state.current as int]));
        },
        _ => {},
    }
}

/// Whatever is answered, every section that the wizard makes is of a fan that was found,
/// overrides nothing with the value that it would inherit, and names only sensors that were
/// found.
pub proof fn law_sections_hold_only_differences(
    sensors: Seq<Seq<char>>,
    fans: Seq<Seq<char>>,
    answers: Seq<AnswerView>,
)
    requires
        fans.len() <= usize::MAX,
    ensures
        ({
            let end = wizard_run(wizard_start(sensors, fans), answers);
            sound(end) && end.sensors == sensors && end.fans == fans
        }),
    decreases answers.len(),
{
    reveal(wizard_run);
    if answers.len() > 0 {
        law_sections_hold_only_differences(sensors, fans, answers.drop_last());
        law_wizard_stays_sound(
            wizard_run(wizard_start(sensors, fans), answers.drop_last()),
            answers.last(),
        );
    }
}

/// The wizard ends: after five questions on the defaults and seven on each fan nothing is left
/// to ask.
pub proof fn law_wizard_ends(
    sensors: Seq<Seq<char>>,
    fans: Seq<Seq<char>>,
    answers: Seq<AnswerView>,
)
    requires
        fans.len() <= usize::MAX,
    ensures
        ({
            let end = wizard_run(wizard_start(sensors, fans), answers);
            end.step == Step::Done || questions_left(end) + answers.len() <= 5 + 7 * fans.len()
        }),
        answers.len() >= 5 + 7 * fans.len() ==> wizard_run(
            wizard_start(sensors, fans),
            answers,
        ).step == Step::Done,
    decreases answers.len(),
{
    reveal(wizard_run);
    law_sections_hold_only_differences(sensors, fans, answers);
    if answers.len() > 0 {
        let before = wizard_run(wizard_start(sensors, fans), answers.drop_last());
        law_wizard_ends(sensors, fans, answers.drop_last());
        law_sections_hold_only_differences(sensors, fans, answers.drop_last());
        if before.step != Step::Done {
            law_every_answer_counts(before, answers.last());
        }
    }
    let end = wizard_run(wizard_start(sensors, fans), answers);
    if end.step != Step::Done {
        law_every_answer_counts(end, AnswerView { line: Seq::empty(), rate: None, near: true });
    }
}

/// Whether one of the answers meets `p`, which sees it with the answers before it.
pub open spec fn answered(
    answers: Seq<AnswerView>,
    p: spec_fn(Seq<AnswerView>, AnswerView) -> bool,
) -> bool {
    exists|k: int| 0 <= k < answers.len() && p(#[trigger] answers.take(k), answers[k])
}

/// One of the answers meets `p` if one before the last does, or the last.
proof fn lemma_answered_step(
    answers: Seq<AnswerView>,
    p: spec_fn(Seq<AnswerView>, AnswerView) -> bool,
)
    requires
        answers.len() > 0,
    ensures
        answered(answers, p) <==> answered(answers.drop_last(), p) || p(
            answers.drop_last(),
            answers.last(),
        ),
{
    let before = answers.drop_last();
    let last = answers.len() - 1;
    assert(answers.take(last) == before);
    if answered(answers, p) {
        let k = choose|k: int|
            0 <= k < answers.len() && p(#[trigger] answers.take(k), answers[k]);
        if k < last {
            assert(before.take(k) == answers.take(k));
        }
    }
    if answered(before, p) {
        let k = choose|k: int| 0 <= k < before.len() && p(#[trigger] before.take(k), before[k]);
        assert(before.take(k) == answers.take(k));
        assert(p(answers.take(k), answers[k]));
    }
    if p(before, answers.last()) {
        assert(p(answers.take(last), answers[last]));
    }
}

/// The answers that say yes to a section for the fan with number `fan`.
pub open spec fn yes_for(start: WizardState, fan: int) -> spec_fn(
    Seq<AnswerView>,
    AnswerView,
) -> bool {
    |before: Seq<AnswerView>, answer: AnswerView|
        {
            let state = wizard_run(start, before);
            state.step == Step::Customize && state.current == fan && says_yes(
                given(answer.line, "n"@),
            )
        }
}

/// Whether the fan with number `fan` is to get a section.
pub open spec fn said_yes(start: WizardState, answers: Seq<AnswerView>, fan: int) -> bool {
    answered(answers, yes_for(start, fan))
}

/// Whether the answer gives the current fan this rate, and it is not near the default. What is
/// no number gives the default.
pub open spec fn far_rate(state: WizardState, answer: AnswerView, rate: Seq<char>) -> bool {
    state.step == Step::FanRate && !answer.near && rate == match answer.rate {
        Some(given) => given,
        None => state.defaults.ramp_down_rate,
    }
}

/// The answers that give the fan with number `fan` this rate, where it is not near the default.
pub open spec fn far_rate_for(start: WizardState, fan: int, rate: Seq<char>) -> spec_fn(
    Seq<AnswerView>,
    AnswerView,
) -> bool {
    |before: Seq<AnswerView>, answer: AnswerView|
        {
            let state = wizard_run(start, before);
            state.current == fan && far_rate(state, answer, rate)
        }
}

/// Whether the fan with number `fan` was given this rate, and it is not near the default.
pub open spec fn gave_far_rate(
    start: WizardState,
    answers: Seq<AnswerView>,
    fan: int,
    rate: Seq<char>,
) -> bool {
    answered(answers, far_rate_for(start, fan, rate))
}

/// Whether a fan of that name, among the first `fans`, is to get a section.
pub open spec fn wanted_section(
    start: WizardState,
    answers: Seq<AnswerView>,
    fans: int,
    name: Seq<char>,
) -> bool {
    exists|fan: int|
        0 <= fan < fans && start.fans[fan] == name && #[trigger] said_yes(start, answers, fan)
}

/// Whether a fan of that name was given this rate, and it is not near the default.
pub open spec fn wanted_rate(
    start: WizardState,
    answers: Seq<AnswerView>,
    name: Seq<char>,
    rate: Seq<char>,
) -> bool {
    exists|fan: int|
        0 <= fan < start.fans.len() && start.fans[fan] == name && #[trigger] gave_far_rate(
            start,
            answers,
            fan,
            rate,
        )
}

/// Whether the step is a question to a fan that is to get a section.
spec fn within_section(step: Step) -> bool {
    step.about_a_fan() && step != Step::Customize
}

/// The fans that were asked so far: those before the current one are done with, the current
/// one is to get a section while its questions are asked, and the others were not asked.
proof fn lemma_asked_so_far(start: WizardState, answers: Seq<AnswerView>, fan: int)
    requires
        sound(start),
        start.step == Step::Low,
    ensures
        ({
            let end = wizard_run(start, answers);
            &&& sound(end)
            &&& end.fans == start.fans
            &&& said_yes(start, answers, fan) ==> 0 <= fan && (fan < end.current || fan
                == end.current && within_section(end.step))
            &&& fan == end.current && within_section(end.step) ==> said_yes(start, answers, fan)
            &&& about_defaults(end.step) ==> !said_yes(start, answers, fan)
        }),
    decreases answers.len(),
{
    reveal(wizard_run);
    if answers.len() > 0 {
        let before = wizard_run(start, answers.drop_last());
        lemma_asked_so_far(start, answers.drop_last(), fan);
        lemma_answered_step(answers, yes_for(start, fan));
        law_wizard_stays_sound(before, answers.last());
    }
}

/// Whether the next answer completes a section.
spec fn completes(state: WizardState) -> bool {
    state.step == Step::FanSensors || state.step == Step::FanRate && state.sensors.len() == 0
}

/// What an answer changes of the current fan, the sections and the rate.
spec fn moved_on(before: WizardState, answer: AnswerView, after: WizardState) -> bool {
    let name = before.fans[before.current as int];
    &&& after.fans == before.fans
    &&& after.current == before.current || after.current == before.current + 1
    &&& completes(before) ==> {
        &&& before.current < before.fans.len()
        &&& after.current == before.current + 1
        &&& after.sections.contains_key(name)
        &&& after.sections == before.sections.insert(name, after.sections[name])
        &&& after.sections[name].ramp_down_rate matches Some(rate) ==> before.own.ramp_down_rate
            == Some(rate) || far_rate(before, answer, rate)
    }
    &&& !completes(before) ==> {
        &&& after.sections == before.sections
        &&& after.current == before.current + 1 ==> before.step == Step::Customize && !says_yes(
            given(answer.line, "n"@),
        )
    }
    &&& after.own.ramp_down_rate matches Some(rate) ==> after.current == before.current && (
    before.own.ramp_down_rate == Some(rate) || far_rate(before, answer, rate))
}

proof fn lemma_moves_on(state: WizardState, answer: AnswerView)
    requires
        sound(state),
    ensures
        moved_on(state, answer, wizard_next(state, answer)),
{
}

proof fn lemma_run_moves_on(start: WizardState, answers: Seq<AnswerView>)
    requires
        sound(start),
        start.step == Step::Low,
        answers.len() > 0,
    ensures
        ({
            let before = wizard_run(start, answers.drop_last());
            &&& before.fans == start.fans
            &&& moved_on(before, answers.last(), wizard_run(start, answers))
        }),
{
    reveal(wizard_run);
    lemma_done_is_past_the_fans(start, answers.drop_last());
    lemma_moves_on(wizard_run(start, answers.drop_last()), answers.last());
}

/// The sections so far are those of the fans that were asked and are to get one.
proof fn lemma_sections_so_far(start: WizardState, answers: Seq<AnswerView>, name: Seq<char>)
    requires
        sound(start),
        start.step == Step::Low,
    ensures
        ({
            let end = wizard_run(start, answers);
            end.sections.contains_key(name) <==> wanted_section(
                start,
                answers,
                end.current as int,
                name,
            )
        }),
    decreases answers.len(),
{
    let end = wizard_run(start, answers);
    if answers.len() == 0 {
        assert(end == start) by {
            reveal(wizard_run);
        }
    } else {
        let shorter = answers.drop_last();
        let before = wizard_run(start, shorter);
        let now = before.current as int;
        lemma_sections_so_far(start, shorter, name);
        lemma_run_moves_on(start, answers);
        lemma_asked_so_far(start, shorter, now);
        lemma_answered_step(answers, yes_for(start, now));
        if wanted_section(start, shorter, now, name) {
            let fan = choose|fan: int|
                0 <= fan < now && start.fans[fan] == name && #[trigger] said_yes(
                    start,
                    shorter,
                    fan,
                );
            lemma_answered_step(answers, yes_for(start, fan));
            assert(said_yes(start, answers, fan));
        }
        if wanted_section(start, answers, end.current as int, name) {
            let fan = choose|fan: int|
                0 <= fan < end.current && start.fans[fan] == name && #[trigger] said_yes(
                    start,
                    answers,
                    fan,
                );
            lemma_answered_step(answers, yes_for(start, fan));
            if fan < now {
                assert(said_yes(start, shorter, fan));
            }
        }
        if completes(before) {
            assert(said_yes(start, answers, now));
        }
    }
}

/// The sections that the wizard makes are those of the fans for which the answer was yes, and
/// of no others.
pub proof fn law_sections_are_of_fans_answered_yes(
    sensors: Seq<Seq<char>>,
    fans: Seq<Seq<char>>,
    answers: Seq<AnswerView>,
    name: Seq<char>,
)
    requires
        fans.len() <= usize::MAX,
        wizard_run(wizard_start(sensors, fans), answers).step == Step::Done,
    ensures
        wizard_run(wizard_start(sensors, fans), answers).sections.contains_key(name)
            <==> wanted_section(wizard_start(sensors, fans), answers, fans.len() as int, name),
{
    let start = wizard_start(sensors, fans);
    lemma_sections_so_far(start, answers, name);
    lemma_done_is_past_the_fans(start, answers);
}

proof fn lemma_done_is_past_the_fans(start: WizardState, answers: Seq<AnswerView>)
    requires
        sound(start),
        start.step == Step::Low,
    ensures
        ({
            let end = wizard_run(start, answers);
            sound(end) && end.fans == start.fans && (end.step == Step::Done ==> end.current
                == start.fans.len())
        }),
    decreases answers.len(),
{
    reveal(wizard_run);
    if answers.len() > 0 {
        lemma_done_is_past_the_fans(start, answers.drop_last());
        law_wizard_stays_sound(wizard_run(start, answers.drop_last()), answers.last());
    }
}

/// A section that the wizard makes, and the one that is being made, hold a rate only where an
/// answer gave that very rate for the fan, and it is not near the default.
pub proof fn law_rates_are_those_given(
    sensors: Seq<Seq<char>>,
    fans: Seq<Seq<char>>,
    answers: Seq<AnswerView>,
)
    requires
        fans.len() <= usize::MAX,
    ensures
        ({
            let start = wizard_start(sensors, fans);
            let end = wizard_run(start, answers);
            &&& end.own.ramp_down_rate matches Some(rate) ==> gave_far_rate(
                start,
                answers,
                end.current as int,
                rate,
            )
            &&& forall|name: Seq<char>| #[trigger]
                end.sections.contains_key(name) && end.sections[name].ramp_down_rate is Some
                    ==> wanted_rate(
                    start,
                    answers,
                    name,
                    end.sections[name].ramp_down_rate->0,
                )
        }),
    decreases answers.len(),
{
    let start = wizard_start(sensors, fans);
    let end = wizard_run(start, answers);
    if answers.len() == 0 {
        assert(end == start) by {
            reveal(wizard_run);
        }
    } else {
        let shorter = answers.drop_last();
        let before = wizard_run(start, shorter);
        let now = before.current as int;
        law_rates_are_those_given(sensors, fans, shorter);
        lemma_run_moves_on(start, answers);
        if end.own.ramp_down_rate is Some {
            lemma_answered_step(answers, far_rate_for(start, now, end.own.ramp_down_rate->0));
        }
        assert forall|name: Seq<char>| #[trigger]
            end.sections.contains_key(name) && end.sections[name].ramp_down_rate is Some
            implies wanted_rate(
            start,
            answers,
            name,
            end.sections[name].ramp_down_rate->0,
        ) by {
            let rate = end.sections[name].ramp_down_rate->0;
            if completes(before) && name == start.fans[now] {
                lemma_answered_step(answers, far_rate_for(start, now, rate));
                assert(gave_far_rate(start, answers, now, rate));
            } else {
                assert(before.sections.contains_key(name));
                let fan = choose|fan: int|
                    0 <= fan < start.fans.len() && start.fans[fan] == name
                        && #[trigger] gave_far_rate(start, shorter, fan, rate);
                lemma_answered_step(answers, far_rate_for(start, fan, rate));
                assert(gave_far_rate(start, answers, fan, rate));
            }
        }
    }
}

} // verus!
