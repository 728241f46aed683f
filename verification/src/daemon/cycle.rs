//! The loop that follows the temperatures: what it does next, and what it learns from it.
use vstd::prelude::*;

use crate::daemon::temps::{latest, TempBuffer, BUFFER_LEN};
use crate::error::Error;
use crate::sensor::registry::{degraded_percent, elapsed, time_since, RegistryState, SensorRegistry};

verus! {

/// The time between two searches for missing drivers, in nanoseconds. In degraded mode it is
/// also the time between two rounds.
pub const RETRY_INTERVAL: u64 = 3_000_000_000;

/// The time between two reports, in nanoseconds.
pub const STATUS_INTERVAL: u64 = 10_000_000_000;

/// The time to the next round after a speed has changed, in milliseconds.
pub const BUSY_PAUSE: u64 = 100;

/// The time to the next round after no speed has changed, in milliseconds.
pub const IDLE_PAUSE: u64 = 500;

/// What the loop does next.
#[derive(Debug)]
pub enum Action {
    /// Look whether the loop is to end, and whether degraded mode holds.
    Check,
    /// Set a fan to a percentage of its range.
    SetPercent { fan: usize, percent: u8 },
    /// Search for missing drivers.
    Search,
    /// Wait for `RETRY_INTERVAL`.
    Rest,
    /// Read the sensors; `elapsed` is the time since the last round, in nanoseconds.
    Poll { elapsed: u64 },
    /// Find the next sample of a fan's temperature.
    Sample { fan: usize, elapsed: u64 },
    /// Find the speed that a fan's samples ask for.
    Decide { fan: usize, elapsed: u64 },
    /// Set the speed of a fan.
    SetSpeed { fan: usize, speed: u32, elapsed: u64 },
    /// Report on the fans.
    Report,
    /// Wait for some milliseconds.
    Pause { millis: u64 },
    /// Nothing more.
    Stop(Result<(), Error>),
}

/// What came of an action. `T` is a sample.
#[derive(Debug)]
pub enum Event<T> {
    /// Whether the loop is to end, and the percentage that degraded mode asks for if it holds.
    Checked { cancelled: bool, percent: Option<u8> },
    /// A command was written to a fan, or not.
    Written(Result<(), Error>),
    /// The search is done.
    Searched,
    /// The wait for `RETRY_INTERVAL` is over.
    Rested,
    /// The sensors were read.
    Polled,
    /// The sample.
    Sampled(T),
    /// The speed.
    Decided(u32),
    /// The report is done.
    Reported,
    /// The wait is over.
    Paused,
}

/// The state of the loop. `T` is a sample.
#[derive(Debug)]
pub struct TempLoop<T> {
    buffers: Vec<TempBuffer<T>>,
    last_speeds: Vec<u32>,
    changed: bool,
    last_cycle: u64,
    last_retry: u64,
    last_status: u64,
    action: Action,
}

/// The values of a `TempLoop`: the samples and the last speed of each fan, whether a speed has
/// changed in this round, when the last round, search and report were, and what comes next.
#[verifier::ext_equal]
pub ghost struct LoopState<T> {
    pub buffers: Seq<Seq<T>>,
    pub last_speeds: Seq<u32>,
    pub changed: bool,
    pub last_cycle: u64,
    pub last_retry: u64,
    pub last_status: u64,
    pub action: Action,
}

/// The samples of a list of buffers.
pub open spec fn buffer_views<T>(buffers: Seq<TempBuffer<T>>) -> Seq<Seq<T>> {
    Seq::new(buffers.len(), |i: int| buffers[i]@)
}

impl<T> View for TempLoop<T> {
    type V = LoopState<T>;

    closed spec fn view(&self) -> LoopState<T> {
        LoopState {
            buffers: buffer_views(self.buffers@),
            last_speeds: self.last_speeds@,
            changed: self.changed,
            last_cycle: self.last_cycle,
            last_retry: self.last_retry,
            last_status: self.last_status,
            action: self.action,
        }
    }
}

/// The fan that an action is about.
pub open spec fn fan_of(action: Action) -> Option<usize> {
    match action {
        Action::SetPercent { fan, .. } => Some(fan),
        Action::Sample { fan, .. } => Some(fan),
        Action::Decide { fan, .. } => Some(fan),
        Action::SetSpeed { fan, .. } => Some(fan),
        _ => None,
    }
}

/// Every fan has samples and a last speed, and the action is about one of the fans if it is
/// about one.
pub open spec fn loop_in_range<T>(state: LoopState<T>) -> bool {
    &&& state.buffers.len() == state.last_speeds.len() <= usize::MAX
    &&& fan_of(state.action) matches Some(fan) ==> fan < state.buffers.len()
}

/// The loop before its first round.
pub open spec fn loop_start<T>(fans: nat, now: u64) -> LoopState<T> {
    LoopState {
        buffers: Seq::new(fans, |i: int| Seq::empty()),
        last_speeds: Seq::new(fans, |i: int| 0u32),
        changed: false,
        last_cycle: now,
        last_retry: now,
        last_status: now,
        action: Action::Check,
    }
}

/// The loop with another action next.
pub open spec fn doing<T>(state: LoopState<T>, action: Action) -> LoopState<T> {
    LoopState { action, ..state }
}

/// What follows when the percentage is set: a search if the last one is long enough ago.
pub open spec fn after_percent<T>(state: LoopState<T>, now: u64) -> LoopState<T> {
    if elapsed(state.last_retry, now) >= RETRY_INTERVAL {
        doing(state, Action::Search)
    } else {
        doing(state, Action::Rest)
    }
}

/// The wait at the end of a round.
pub open spec fn pausing<T>(state: LoopState<T>) -> LoopState<T> {
    doing(
        state,
        Action::Pause {
            millis: if state.changed {
                BUSY_PAUSE
            } else {
                IDLE_PAUSE
            },
        },
    )
}

/// What follows when every fan has been seen to: a report if the last one is long enough ago.
pub open spec fn after_fans<T>(state: LoopState<T>, now: u64) -> LoopState<T> {
    if elapsed(state.last_status, now) >= STATUS_INTERVAL {
        LoopState { last_status: now, action: Action::Report, ..state }
    } else {
        pausing(state)
    }
}

/// The fan with number `fan`, or the end of the round.
pub open spec fn at_sample<T>(state: LoopState<T>, fan: int, elapsed: u64, now: u64) -> LoopState<T> {
    if fan < state.buffers.len() {
        doing(state, Action::Sample { fan: fan as usize, elapsed })
    } else {
        after_fans(state, now)
    }
}

/// The same for a fan in degraded mode.
pub open spec fn at_percent<T>(state: LoopState<T>, fan: int, percent: u8, now: u64) -> LoopState<T> {
    if fan < state.buffers.len() {
        doing(state, Action::SetPercent { fan: fan as usize, percent })
    } else {
        after_percent(state, now)
    }
}

/// The loop after an event at the time `now`. An event that does not belong to the action
/// changes nothing.
pub open spec fn cycle_next<T>(state: LoopState<T>, event: Event<T>, now: u64) -> LoopState<T> {
    match (state.action, event) {
        (Action::Check, Event::Checked { cancelled, percent }) => if cancelled {
            doing(state, Action::Stop(Ok(())))
        } else {
            match percent {
                Some(p) => at_percent(state, 0, p, now),
                None => LoopState {
                    last_cycle: now,
                    action: Action::Poll { elapsed: elapsed(state.last_cycle, now) },
                    ..state
                },
            }
        },
        (Action::SetPercent { fan, percent }, Event::Written(outcome)) => match outcome {
            Ok(_) => at_percent(state, fan + 1, percent, now),
            Err(e) => doing(state, Action::Stop(Err(e))),
        },
        (Action::Search, Event::Searched) => LoopState {
            last_retry: now,
            action: Action::Rest,
            ..state
        },
        (Action::Rest, Event::Rested) => LoopState {
            last_cycle: now,
            action: Action::Check,
            ..state
        },
        (Action::Poll { elapsed }, Event::Polled) => at_sample(
            LoopState { changed: false, ..state },
            0,
            elapsed,
            now,
        ),
        (Action::Sample { fan, elapsed }, Event::Sampled(sample)) => LoopState {
            buffers: state.buffers.update(
                fan as int,
                latest(state.buffers[fan as int].push(sample)),
            ),
            action: Action::Decide { fan, elapsed },
            ..state
        },
        (Action::Decide { fan, elapsed }, Event::Decided(speed)) => if speed
            != state.last_speeds[fan as int] {
            LoopState {
                last_speeds: state.last_speeds.update(fan as int, speed),
                action: Action::SetSpeed { fan, speed, elapsed },
                ..state
            }
        } else {
            at_sample(state, fan + 1, elapsed, now)
        },
        (Action::SetSpeed { fan, speed, elapsed }, Event::Written(outcome)) => match outcome {
            Ok(_) => at_sample(LoopState { changed: true, ..state }, fan + 1, elapsed, now),
            Err(e) => doing(state, Action::Stop(Err(e))),
        },
        (Action::Report, Event::Reported) => pausing(state),
        (Action::Pause { millis }, Event::Paused) => doing(state, Action::Check),
        _ => state,
    }
}

/// Whether an event belongs to an action.
pub open spec fn answers<T>(action: Action, event: Event<T>) -> bool {
    match action {
        Action::Check => event is Checked,
        Action::SetPercent { .. } => event is Written,
        Action::Search => event is Searched,
        Action::Rest => event is Rested,
        Action::Poll { .. } => event is Polled,
        Action::Sample { .. } => event is Sampled,
        Action::Decide { .. } => event is Decided,
        Action::SetSpeed { .. } => event is Written,
        Action::Report => event is Reported,
        Action::Pause { .. } => event is Paused,
        Action::Stop(_) => false,
    }
}

/// The percentage that degraded mode asks for, if it holds.
pub open spec fn demanded<H>(registry: RegistryState<H>, now: u64) -> Option<u8> {
    if registry.degraded_since is Some {
        Some(degraded_percent(registry, now))
    } else {
        None
    }
}

/// The percentage that degraded mode asks for, if it holds.
pub fn demanded_percent<H>(registry: &SensorRegistry<H>, now: u64) -> (r: Option<u8>)
    ensures
        r == demanded(registry@, now),
{
    if registry.is_degraded() {
        Some(registry.degraded_fan_percent(now))
    } else {
        None
    }
}

impl<T> TempLoop<T> {
    #[verifier::type_invariant]
    spec fn in_range(self) -> bool {
        loop_in_range(self@)
    }

    /// The loop before its first round.
    pub fn new(fans: usize, now: u64) -> (r: TempLoop<T>)
        ensures
            r@ == loop_start::<T>(fans as nat, now),
    {
        let mut buffers: Vec<TempBuffer<T>> = Vec::new();
        let mut last_speeds: Vec<u32> = Vec::new();
        let mut i: usize = 0;
        while i < fans
            invariant
                i <= fans,
                buffers.len() == i,
                last_speeds.len() == i,
                forall|j: int| 0 <= j < i ==> (#[trigger] buffers@[j])@ == Seq::<T>::empty(),
                forall|j: int| 0 <= j < i ==> #[trigger] last_speeds@[j] == 0,
            decreases fans - i,
        {
            buffers.push(TempBuffer::new());
            last_speeds.push(0);
            i = i + 1;
        }
        assert(buffer_views(buffers@) =~= loop_start::<T>(fans as nat, now).buffers);
        assert(last_speeds@ =~= loop_start::<T>(fans as nat, now).last_speeds);
        TempLoop {
            buffers,
            last_speeds,
            changed: false,
            last_cycle: now,
            last_retry: now,
            last_status: now,
            action: Action::Check,
        }
    }

    /// What the loop does next.
    pub fn action(&self) -> (r: &Action)
        ensures
            *r == self@.action,
    {
        &self.action
    }

    /// How the loop ended, once it has.
    pub fn result(self) -> (r: Option<Result<(), Error>>)
        ensures
            r == match self@.action {
                Action::Stop(outcome) => Some(outcome),
                _ => None,
            },
    {
        match self.action {
            Action::Stop(outcome) => Some(outcome),
            _ => None,
        }
    }

    /// The samples of a fan.
    pub fn buffer(&self, fan: usize) -> (r: &TempBuffer<T>)
        requires
            fan < self@.buffers.len(),
        ensures
            r@ == self@.buffers[fan as int],
    {
        &self.buffers[fan]
    }

    fn then_pause(self) -> (r: TempLoop<T>)
        requires
            loop_in_range(self@),
        ensures
            r@ == pausing(self@),
    {
        let millis: u64 = if self.changed {
            BUSY_PAUSE
        } else {
            IDLE_PAUSE
        };
        TempLoop { action: Action::Pause { millis }, ..self }
    }

    fn then_percent(self, fan: usize, percent: u8, now: u64) -> (r: TempLoop<T>)
        requires
            loop_in_range(self@),
            fan <= self@.buffers.len(),
        ensures
            r@ == at_percent(self@, fan as int, percent, now),
    {
        let action = if fan < self.buffers.len() {
            Action::SetPercent { fan, percent }
        } else if time_since(self.last_retry, now) >= RETRY_INTERVAL {
            Action::Search
        } else {
            Action::Rest
        };
        TempLoop { action, ..self }
    }

    fn then_sample(self, fan: usize, elapsed: u64, now: u64) -> (r: TempLoop<T>)
        requires
            loop_in_range(self@),
            fan <= self@.buffers.len(),
        ensures
            r@ == at_sample(self@, fan as int, elapsed, now),
    {
        if fan < self.buffers.len() {
            TempLoop { action: Action::Sample { fan, elapsed }, ..self }
        } else if time_since(self.last_status, now) >= STATUS_INTERVAL {
            TempLoop { last_status: now, action: Action::Report, ..self }
        } else {
            self.then_pause()
        }
    }

    /// The loop after an event at the time `now`.
    pub fn step(self, event: Event<T>, now: u64) -> (r: TempLoop<T>)
        ensures
            r@ == cycle_next(self@, event, now),
    {
        proof {
            use_type_invariant(&self);
        }
        match (self.action, event) {
            (Action::Check, Event::Checked { cancelled, percent }) => {
                if cancelled {
                    return TempLoop { action: Action::Stop(Ok(())), ..self };
                }
                match percent {
                    Some(p) => {
                        let rest = TempLoop { action: Action::Check, ..self };
                        rest.then_percent(0, p, now)
                    },
                    None => {
                        let elapsed: u64 = time_since(self.last_cycle, now);
                        TempLoop { last_cycle: now, action: Action::Poll { elapsed }, ..self }
                    },
                }
            },
            (Action::SetPercent { fan, percent }, Event::Written(outcome)) => {
                match outcome {
                    Ok(_) => {
                        let rest = TempLoop { action: Action::Check, ..self };
                        rest.then_percent(fan + 1, percent, now)
                    },
                    Err(e) => TempLoop { action: Action::Stop(Err(e)), ..self },
                }
            },
            (Action::Search, Event::Searched) => {
                TempLoop { last_retry: now, action: Action::Rest, ..self }
            },
            (Action::Rest, Event::Rested) => {
                TempLoop { last_cycle: now, action: Action::Check, ..self }
            },
            (Action::Poll { elapsed }, Event::Polled) => {
                let rest = TempLoop { changed: false, action: Action::Check, ..self };
                rest.then_sample(0, elapsed, now)
            },
            (Action::Sample { fan, elapsed }, Event::Sampled(sample)) => {
                let ghost before = self.buffers@;
                let mut buffers = self.buffers;
                buffers[fan].push(sample);
                assert(buffer_views(buffers@) =~= buffer_views(before).update(
                    fan as int,
                    latest(buffer_views(before)[fan as int].push(sample)),
                ));
                TempLoop { buffers, action: Action::Decide { fan, elapsed }, ..self }
            },
            (Action::Decide { fan, elapsed }, Event::Decided(speed)) => {
                if speed != self.last_speeds[fan] {
                    let mut last_speeds = self.last_speeds;
                    last_speeds.set(fan, speed);
                    TempLoop {
                        last_speeds,
                        action: Action::SetSpeed { fan, speed, elapsed },
                        ..self
                    }
                } else {
                    let rest = TempLoop { action: Action::Check, ..self };
                    rest.then_sample(fan + 1, elapsed, now)
                }
            },
            (Action::SetSpeed { fan, speed: _, elapsed }, Event::Written(outcome)) => {
                match outcome {
                    Ok(_) => {
                        let rest = TempLoop { changed: true, action: Action::Check, ..self };
                        rest.then_sample(fan + 1, elapsed, now)
                    },
                    Err(e) => TempLoop { action: Action::Stop(Err(e)), ..self },
                }
            },
            (Action::Report, Event::Reported) => {
                let rest = TempLoop { action: Action::Check, ..self };
                rest.then_pause()
            },
            (Action::Pause { millis: _ }, Event::Paused) => {
                TempLoop { action: Action::Check, ..self }
            },
            (action, _) => TempLoop { action, ..self },
        }
    }
}

/// The loop after a list of events with their times.
pub open spec fn loop_run<T>(state: LoopState<T>, events: Seq<(Event<T>, u64)>) -> LoopState<T>
    decreases events.len(),
{
    if events.len() == 0 {
        state
    } else {
        cycle_next(
            loop_run(state, events.drop_last()),
            events.last().0,
            events.last().1,
        )
    }
}

/// The most actions that are left of a round.
pub open spec fn work_left<T>(state: LoopState<T>) -> int {
    let fans = state.buffers.len() as int;
    match state.action {
        Action::Check => 0,
        Action::SetPercent { fan, .. } => fans - fan + 3,
        Action::Search => 2,
        Action::Rest => 1,
        Action::Poll { .. } => 3 * fans + 4,
        Action::Sample { fan, .. } => 3 * (fans - fan) + 3,
        Action::Decide { fan, .. } => 3 * (fans - fan) + 2,
        Action::SetSpeed { fan, .. } => 3 * (fans - fan) + 1,
        Action::Report => 2,
        Action::Pause { .. } => 1,
        Action::Stop(_) => 0,
    }
}

/// Every round ends: what comes of an action leaves less of the round to do, until the loop
/// looks again whether it is to end.
pub proof fn law_rounds_end<T>(state: LoopState<T>, event: Event<T>, now: u64)
    requires
        loop_in_range(state),
        answers(state.action, event),
        !(state.action is Check),
    ensures
        0 <= work_left(cycle_next(state, event, now)) < work_left(state),
{
}

/// Whatever happens, the loop stays with its fans and keeps no more samples of a fan than fit
/// its buffer.
pub proof fn law_loop_stays_in_range<T>(state: LoopState<T>, event: Event<T>, now: u64)
    requires
        loop_in_range(state),
        forall|i: int| 0 <= i < state.buffers.len() ==> #[trigger] state.buffers[i].len() <= BUFFER_LEN,
    ensures
        loop_in_range(cycle_next(state, event, now)),
        cycle_next(state, event, now).buffers.len() == state.buffers.len(),
        forall|i: int|
            0 <= i < state.buffers.len() ==> #[trigger] cycle_next(
                state,
                event,
                now,
            ).buffers[i].len() <= BUFFER_LEN,
{
}

/// A loop that is to end ends without an error before anything else is done.
pub proof fn law_cancelled_loop_stops<T>(state: LoopState<T>, percent: Option<u8>, now: u64)
    requires
        state.action is Check,
    ensures
        cycle_next(state, Event::Checked { cancelled: true, percent }, now) == (LoopState {
            action: Action::Stop(Ok(())),
            ..state
        }),
{
}

/// A command that cannot be written ends the loop with its error.
pub proof fn law_failed_write_stops<T>(state: LoopState<T>, error: Error, now: u64)
    requires
        state.action is SetPercent || state.action is SetSpeed,
    ensures
        cycle_next(state, Event::Written(Err(error)), now).action == Action::Stop(Err(error)),
{
}

/// A loop that has ended stays so.
pub proof fn law_stopped_loop_stays<T>(state: LoopState<T>, event: Event<T>, now: u64)
    requires
        state.action is Stop,
    ensures
        cycle_next(state, event, now) == state,
{
}

/// A speed is written exactly when it is not the last one of the fan, and is the last one from
/// then on.
pub proof fn law_speed_is_written_on_change<T>(
    state: LoopState<T>,
    fan: usize,
    elapsed: u64,
    speed: u32,
    now: u64,
)
    requires
        loop_in_range(state),
        state.action == (Action::Decide { fan, elapsed }),
    ensures
        ({
            let next = cycle_next(state, Event::Decided(speed), now);
            (next.action == (Action::SetSpeed { fan, speed, elapsed }) <==> speed
                != state.last_speeds[fan as int]) && next.last_speeds[fan as int] == speed
        }),
{
}

/// Searches for missing drivers are at least `RETRY_INTERVAL` apart, and reports at least
/// `STATUS_INTERVAL`.
pub proof fn law_intervals_are_kept<T>(state: LoopState<T>, event: Event<T>, now: u64)
    ensures
        ({
            let next = cycle_next(state, event, now);
            &&& next.action is Search && !(state.action is Search) ==> elapsed(
                state.last_retry,
                now,
            ) >= RETRY_INTERVAL
            &&& state.action is Search && !(next.action is Search) ==> next.last_retry == now
            &&& !(state.action is Search) ==> next.last_retry == state.last_retry
            &&& next.action is Report && !(state.action is Report) ==> elapsed(
                state.last_status,
                now,
            ) >= STATUS_INTERVAL && next.last_status == now
            &&& !(next.action is Report) ==> next.last_status == state.last_status
        }),
{
}

/// Whether one sample more was taken.
pub open spec fn took_one<T>(before: Seq<T>, after: Seq<T>) -> bool {
    exists|sample: T| after == #[trigger] latest(before.push(sample))
}

/// How many fans have taken their sample of the round.
pub open spec fn fans_sampled<T>(state: LoopState<T>) -> int {
    match state.action {
        Action::Sample { fan, .. } => fan as int,
        Action::Decide { fan, .. } => fan + 1,
        Action::SetSpeed { fan, .. } => fan + 1,
        Action::Report => state.buffers.len() as int,
        Action::Pause { .. } => state.buffers.len() as int,
        _ => 0,
    }
}

/// Whether the loop is in a round that began with those samples: the fans in turn have taken
/// one sample each.
pub open spec fn in_round<T>(before: Seq<Seq<T>>, state: LoopState<T>) -> bool {
    &&& loop_in_range(state)
    &&& state.buffers.len() == before.len()
    &&& state.action is Poll || state.action is Sample || state.action is Decide
        || state.action is SetSpeed || state.action is Report || state.action is Pause
    &&& forall|i: int|
        0 <= i < fans_sampled(state) ==> took_one(before[i], #[trigger] state.buffers[i])
    &&& forall|i: int|
        fans_sampled(state) <= i < before.len() ==> #[trigger] state.buffers[i] == before[i]
}

proof fn lemma_round_goes_on<T>(before: Seq<Seq<T>>, state: LoopState<T>, event: Event<T>, now: u64)
    requires
        in_round(before, state),
    ensures
        ({
            let next = cycle_next(state, event, now);
            in_round(before, next) || next.action is Check || next.action is Stop
        }),
{
    let next = cycle_next(state, event, now);
    match (state.action, event) {
        (Action::Sample { fan, .. }, Event::Sampled(sample)) => {
            assert(state.buffers[fan as int] == before[fan as int]);
            assert(took_one(before[fan as int], next.buffers[fan as int])) by {
                assert(next.buffers[fan as int] == latest(before[fan as int].push(sample)));
            }
            assert forall|i: int| 0 <= i < fan + 1 implies took_one(
                before[i],
                #[trigger] next.buffers[i],
            ) by {
                if i < fan {
                    assert(next.buffers[i] == state.buffers[i]);
                }
            }
        },
        _ => {
            assert(next.buffers == state.buffers);
        },
    }
}

/// In a round that is not broken off every fan takes exactly one sample: `events` are those
/// from the reading of the sensors on, before the next look whether the loop is to end.
pub proof fn law_every_fan_takes_one_sample<T>(state: LoopState<T>, events: Seq<(Event<T>, u64)>)
    requires
        loop_in_range(state),
        state.action is Poll,
        forall|k: int|
            0 <= k <= events.len() ==> !((#[trigger] loop_run(state, events.take(k))).action is Check),
    ensures
        ({
            let end = loop_run(state, events);
            end.action is Report || end.action is Pause ==> end.buffers.len()
                == state.buffers.len() && forall|i: int|
                0 <= i < state.buffers.len() ==> took_one(state.buffers[i], #[trigger] end.buffers[i])
        }),
{
    lemma_in_round(state, events);
}

proof fn lemma_in_round<T>(state: LoopState<T>, events: Seq<(Event<T>, u64)>)
    requires
        loop_in_range(state),
        state.action is Poll,
        forall|k: int|
            0 <= k <= events.len() ==> !((#[trigger] loop_run(state, events.take(k))).action is Check),
    ensures
        in_round(state.buffers, loop_run(state, events)) || loop_run(state, events).action is Stop,
    decreases events.len(),
{
    if events.len() > 0 {
        let before = events.drop_last();
        assert forall|k: int| 0 <= k <= before.len() implies !((#[trigger] loop_run(
            state,
            before.take(k),
        )).action is Check) by {
            assert(before.take(k) == events.take(k));
            assert(!(loop_run(state, events.take(k)).action is Check));
        }
        lemma_in_round(state, before);
        let middle = loop_run(state, before);
        if !(middle.action is Stop) {
            lemma_round_goes_on(state.buffers, middle, events.last().0, events.last().1);
        }
        assert(events.take(events.len() as int) == events);
        assert(!(loop_run(state, events.take(events.len() as int)).action is Check));
    }
}

/// While degraded mode holds, every fan is set to the percentage that it asks for, one after
/// the other, and only then comes a search or a wait: `events` are a look that finds degraded
/// mode, and commands that were written.
pub proof fn law_degraded_mode_sets_every_fan<T>(
    state: LoopState<T>,
    percent: u8,
    events: Seq<(Event<T>, u64)>,
)
    requires
        loop_in_range(state),
        state.action is Check,
        0 < events.len() <= state.buffers.len() + 1,
        events[0].0 == (Event::<T>::Checked { cancelled: false, percent: Some(percent) }),
        forall|i: int| 1 <= i < events.len() ==> #[trigger] events[i].0 == Event::<T>::Written(Ok(())),
    ensures
        ({
            let end = loop_run(state, events);
            let set = events.len() - 1;
            &&& end.buffers == state.buffers
            &&& set < state.buffers.len() ==> end.action == (Action::SetPercent {
                fan: set as usize,
                percent,
            })
            &&& set == state.buffers.len() ==> end.action is Search || end.action is Rest
        }),
    decreases events.len(),
{
    let before = events.drop_last();
    if before.len() == 0 {
        assert(events.last() == events[0]);
        assert(loop_run(state, before) == state);
    } else {
        assert(before[0] == events[0]);
        assert forall|i: int| 1 <= i < before.len() implies #[trigger] before[i].0 == Event::<
            T,
        >::Written(Ok(())) by {
            assert(before[i] == events[i]);
        }
        law_degraded_mode_sets_every_fan(state, percent, before);
        assert(events.last() == events[events.len() - 1]);
    }
}

/// The loop begins with a look whether it is to end: every fan has no samples and the last speed
/// zero, and the clocks begin now.
pub proof fn law_loop_begins_anew<T>(fans: nat, now: u64, i: int)
    requires
        0 <= i < fans,
    ensures
        loop_start::<T>(fans, now).buffers.len() == fans,
        loop_start::<T>(fans, now).last_speeds.len() == fans,
        loop_start::<T>(fans, now).buffers[i].len() == 0,
        loop_start::<T>(fans, now).last_speeds[i] == 0,
        loop_start::<T>(fans, now).action is Check,
        !loop_start::<T>(fans, now).changed,
        loop_start::<T>(fans, now).last_cycle == now,
        loop_start::<T>(fans, now).last_retry == now,
        loop_start::<T>(fans, now).last_status == now,
{
}

/// Without degraded mode the sensors are read, and the time since the last round, or the last
/// wait in degraded mode, is what the round reckons with.
pub proof fn law_round_begins_with_the_sensors<T>(state: LoopState<T>, now: u64)
    requires
        state.action is Check,
        state.last_cycle <= now,
    ensures
        ({
            let next = cycle_next(
                state,
                Event::<T>::Checked { cancelled: false, percent: None },
                now,
            );
            &&& next.action matches Action::Poll { elapsed } && elapsed == now - state.last_cycle
            &&& next.last_cycle == now
            &&& next.buffers == state.buffers && next.last_speeds == state.last_speeds
            &&& next.last_retry == state.last_retry && next.last_status == state.last_status
        }),
{
}

/// After the sensors the fans take their turns: the first one samples, no speed has changed yet,
/// and the time of the round goes along.
pub proof fn law_first_fan_samples_first<T>(state: LoopState<T>, elapsed: u64, now: u64)
    requires
        state.action == (Action::Poll { elapsed }),
        state.buffers.len() > 0,
    ensures
        ({
            let next = cycle_next(state, Event::<T>::Polled, now);
            &&& next.action == (Action::Sample { fan: 0, elapsed })
            &&& !next.changed
            &&& next.buffers == state.buffers && next.last_speeds == state.last_speeds
        }),
{
}

/// A sample goes behind those of its fan, of which the last sixteen stay, and to no other fan;
/// then the speed of the fan is decided.
pub proof fn law_sample_goes_to_its_fan<T>(
    state: LoopState<T>,
    fan: usize,
    elapsed: u64,
    sample: T,
    other: int,
    now: u64,
)
    requires
        loop_in_range(state),
        state.action == (Action::Sample { fan, elapsed }),
    ensures
        ({
            let next = cycle_next(state, Event::Sampled(sample), now);
            let had = state.buffers[fan as int];
            let has = next.buffers[fan as int];
            &&& next.action == (Action::Decide { fan, elapsed })
            &&& has.len() > 0 && has.last() == sample
            &&& had.len() < 16 ==> has == had.push(sample)
            &&& had.len() == 16 ==> has == had.drop_first().push(sample)
            &&& 0 <= other < state.buffers.len() && other != fan ==> next.buffers[other]
                == state.buffers[other]
            &&& next.last_speeds == state.last_speeds && next.changed == state.changed
        }),
{
    let next = cycle_next(state, Event::Sampled(sample), now);
    let had = state.buffers[fan as int];
    if had.len() == 16 {
        assert(next.buffers[fan as int] =~= had.drop_first().push(sample));
    }
}

/// The next fan, or what follows the last one: a report if ten seconds or more have passed since
/// the last, and else the wait, of a tenth of a second where a speed has changed in the round and
/// of half a second where none has.
pub open spec fn follows_fan<T>(
    state: LoopState<T>,
    next: LoopState<T>,
    fan: usize,
    elapsed: u64,
    now: u64,
) -> bool {
    if fan + 1 < state.buffers.len() {
        next.action == (Action::Sample { fan: (fan + 1) as usize, elapsed })
    } else if now - state.last_status >= 10_000_000_000 {
        next.action is Report && next.last_status == now
    } else {
        next.last_status == state.last_status && next.action == (Action::Pause {
            millis: if next.changed {
                100
            } else {
                500
            },
        })
    }
}

/// A fan whose speed stays as it was is passed over: nothing is written, and the next fan
/// follows.
pub proof fn law_same_speed_is_not_written<T>(
    state: LoopState<T>,
    fan: usize,
    elapsed: u64,
    now: u64,
)
    requires
        loop_in_range(state),
        state.action == (Action::Decide { fan, elapsed }),
        state.last_status <= now,
    ensures
        ({
            let next = cycle_next(
                state,
                Event::<T>::Decided(state.last_speeds[fan as int]),
                now,
            );
            &&& next.changed == state.changed
            &&& next.last_speeds == state.last_speeds && next.buffers == state.buffers
            &&& follows_fan(state, next, fan, elapsed, now)
        }),
{
}

/// A new speed is kept as the last one of its fan, and of no other, and is written.
pub proof fn law_new_speed_is_written_and_kept<T>(
    state: LoopState<T>,
    fan: usize,
    elapsed: u64,
    speed: u32,
    now: u64,
)
    requires
        loop_in_range(state),
        state.action == (Action::Decide { fan, elapsed }),
        speed != state.last_speeds[fan as int],
    ensures
        ({
            let next = cycle_next(state, Event::<T>::Decided(speed), now);
            &&& next.action == (Action::SetSpeed { fan, speed, elapsed })
            &&& next.last_speeds == state.last_speeds.update(fan as int, speed)
            &&& next.buffers == state.buffers && next.changed == state.changed
        }),
{
}

/// After a speed was written the round counts as one with a change, and the next fan follows.
pub proof fn law_written_speed_is_a_change<T>(
    state: LoopState<T>,
    fan: usize,
    speed: u32,
    elapsed: u64,
    now: u64,
)
    requires
        loop_in_range(state),
        state.action == (Action::SetSpeed { fan, speed, elapsed }),
        state.last_status <= now,
    ensures
        ({
            let next = cycle_next(state, Event::<T>::Written(Ok(())), now);
            &&& next.changed
            &&& next.last_speeds == state.last_speeds && next.buffers == state.buffers
            &&& follows_fan(state, next, fan, elapsed, now)
        }),
{
}

/// After a report comes the wait, shorter where a speed has changed; after the wait the loop
/// looks again whether it is to end.
pub proof fn law_round_ends_with_a_wait<T>(state: LoopState<T>, millis: u64, now: u64)
    ensures
        state.action is Report ==> cycle_next(state, Event::<T>::Reported, now).action == (
        Action::Pause {
            millis: if state.changed {
                100
            } else {
                500
            },
        }),
        state.action == (Action::Pause { millis }) ==> cycle_next(state, Event::<T>::Paused, now)
            == (LoopState { action: Action::Check, ..state }),
{
}

/// In degraded mode the fans are set in turn, and after the last one the drivers are searched for
/// if three seconds or more have passed since the last search; else, and after the search, the
/// loop waits, and then begins a new round from that moment.
pub proof fn law_degraded_round<T>(state: LoopState<T>, fan: usize, percent: u8, now: u64)
    requires
        loop_in_range(state),
        state.last_retry <= now,
    ensures
        state.action is Check ==> {
            let next = cycle_next(
                state,
                Event::<T>::Checked { cancelled: false, percent: Some(percent) },
                now,
            );
            state.buffers.len() > 0 ==> next.action == (Action::SetPercent { fan: 0, percent })
        },
        state.action == (Action::SetPercent { fan, percent }) ==> {
            let next = cycle_next(state, Event::<T>::Written(Ok(())), now);
            &&& fan + 1 < state.buffers.len() ==> next.action == (Action::SetPercent {
                fan: (fan + 1) as usize,
                percent,
            })
            &&& fan + 1 == state.buffers.len() && now - state.last_retry >= 3_000_000_000
                ==> next.action is Search
            &&& fan + 1 == state.buffers.len() && now - state.last_retry < 3_000_000_000
                ==> next.action is Rest
        },
        state.action is Search ==> {
            let next = cycle_next(state, Event::<T>::Searched, now);
            next.action is Rest && next.last_retry == now
        },
        state.action is Rest ==> {
            let next = cycle_next(state, Event::<T>::Rested, now);
            next.action is Check && next.last_cycle == now && next.last_retry == state.last_retry
        },
{
}

/// An event that does not belong to the action changes nothing.
pub proof fn law_other_events_change_nothing<T>(state: LoopState<T>, event: Event<T>, now: u64)
    requires
        !answers(state.action, event),
    ensures
        cycle_next(state, event, now) == state,
{
}

/// Degraded mode asks for a percentage exactly while it holds: the escalated one once its delay
/// has passed since it began, and the initial one before.
pub proof fn law_percentage_is_demanded_in_degraded_mode<H>(
    registry: RegistryState<H>,
    now: u64,
)
    ensures
        registry.degraded_since is None ==> demanded(registry, now) is None,
        registry.degraded_since matches Some(since) ==> (since <= now ==> demanded(registry, now)
            == Some(
            if now - since >= registry.degraded_config.escalation_delay * 1_000_000_000 {
                registry.degraded_config.escalated_percent
            } else {
                registry.degraded_config.initial_percent
            },
        )),
{
}

/// Without fans a round goes on to its report or its wait, and in degraded mode to the search or
/// the wait, by the same times.
pub proof fn law_round_without_fans<T>(state: LoopState<T>, elapsed: u64, percent: u8, now: u64)
    requires
        state.buffers.len() == 0,
        state.last_status <= now,
        state.last_retry <= now,
    ensures
        state.action == (Action::Poll { elapsed }) ==> {
            let next = cycle_next(state, Event::<T>::Polled, now);
            &&& now - state.last_status >= 10_000_000_000 ==> next.action is Report
            &&& now - state.last_status < 10_000_000_000 ==> next.action == (Action::Pause {
                millis: 500,
            })
        },
        state.action is Check ==> {
            let next = cycle_next(
                state,
                Event::<T>::Checked { cancelled: false, percent: Some(percent) },
                now,
            );
            &&& now - state.last_retry >= 3_000_000_000 ==> next.action is Search
            &&& now - state.last_retry < 3_000_000_000 ==> next.action is Rest
        },
{
}

} // verus!
