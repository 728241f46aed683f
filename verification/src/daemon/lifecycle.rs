//! How the daemon starts and ends.
use vstd::prelude::*;

use crate::error::{Error, FileRead};
use crate::text::{trim, trimmed};

verus! {

/// What the daemon does next.
#[derive(Debug)]
pub enum Stage {
    /// Find the user that the daemon runs as.
    CheckRoot,
    /// Read the pid file.
    ReadPid,
    /// Look whether the process that the pid file names exists.
    FindProcess,
    /// Write the pid file.
    WritePid,
    /// Load the configuration and find the fans and sensors.
    Prepare,
    /// Open the control files of a fan.
    OpenFiles { fan: usize },
    /// Take over a fan.
    TakeOver { fan: usize },
    /// Give back a fan that was taken over before another refused.
    GiveBack { fan: usize },
    /// Follow the temperatures.
    Run,
    /// Give a fan back.
    Release { fan: usize },
    /// Delete the pid file.
    RemovePid,
    /// Nothing more.
    End(Result<(), Error>),
}

/// What came of a stage.
#[derive(Debug)]
pub enum StageEvent {
    /// The effective user.
    Euid(u32),
    /// The pid file.
    PidFile(FileRead),
    /// Whether the process exists.
    Process { exists: bool },
    /// The pid file was written, or not, for the reason given.
    PidWritten(Result<(), String>),
    /// The number of fans.
    Prepared(Result<usize, Error>),
    /// The control files are open, or not.
    Opened(Result<(), Error>),
    /// The fan was taken over, or not.
    TakenOver(Result<(), Error>),
    /// How the loop ended.
    LoopEnded(Result<(), Error>),
    /// The fan was given back, or not.
    Released(Result<(), Error>),
    /// The pid file was deleted, or not, for the reason given.
    PidRemoved(Result<(), String>),
}

/// The state of the daemon.
#[derive(Debug)]
pub struct Daemon {
    stage: Stage,
    process: String,
    fans: usize,
    taken: usize,
    outcome: Result<(), Error>,
}

/// The values of a `Daemon`: its stage, the path of the process that the pid file names, the
/// number of fans, how many of them were taken over before one refused, and how the loop or
/// the start ended, until the daemon ends so itself.
#[verifier::ext_equal]
pub ghost struct DaemonState {
    pub stage: Stage,
    pub process: Seq<char>,
    pub fans: usize,
    pub taken: usize,
    pub outcome: Result<(), Error>,
}

impl View for Daemon {
    type V = DaemonState;

    closed spec fn view(&self) -> DaemonState {
        DaemonState {
            stage: self.stage,
            process: self.process@,
            fans: self.fans,
            taken: self.taken,
            outcome: self.outcome,
        }
    }
}

/// The stage is about one of the fans if it is about one.
pub open spec fn stage_in_range(state: DaemonState) -> bool {
    match state.stage {
        Stage::OpenFiles { fan } => fan < state.fans,
        Stage::TakeOver { fan } => fan < state.fans,
        Stage::GiveBack { fan } => fan < state.taken <= state.fans,
        Stage::Release { fan } => fan < state.fans,
        _ => true,
    }
}

/// Where a process with that pid file is found.
pub open spec fn process_place(content: Seq<char>) -> Seq<char> {
    "/proc/"@ + trimmed(content)
}

/// The daemon before it does anything.
pub open spec fn daemon_start() -> DaemonState {
    DaemonState {
        stage: Stage::CheckRoot,
        process: Seq::empty(),
        fans: 0,
        taken: 0,
        outcome: Ok(()),
    }
}

/// The daemon at another stage.
pub open spec fn staged(state: DaemonState, stage: Stage) -> DaemonState {
    DaemonState { stage, ..state }
}

/// The daemon at its end with that error.
pub open spec fn failed(state: DaemonState, error: Error) -> DaemonState {
    staged(state, Stage::End(Err(error)))
}

/// The control files of the fan with number `fan`, or what follows the last.
pub open spec fn at_opening(state: DaemonState, fan: int) -> DaemonState {
    if fan < state.fans {
        staged(state, Stage::OpenFiles { fan: fan as usize })
    } else {
        at_taking_over(state, 0)
    }
}

/// Taking over the fan with number `fan`, or what follows the last.
pub open spec fn at_taking_over(state: DaemonState, fan: int) -> DaemonState {
    if fan < state.fans {
        staged(state, Stage::TakeOver { fan: fan as usize })
    } else {
        staged(state, Stage::Run)
    }
}

/// Giving back the fan with number `fan` of those that were taken over before one refused, or
/// the end with that error.
pub open spec fn at_giving_back(state: DaemonState, fan: int) -> DaemonState {
    if fan < state.taken {
        staged(state, Stage::GiveBack { fan: fan as usize })
    } else {
        DaemonState { stage: Stage::End(state.outcome), outcome: Ok(()), ..state }
    }
}

/// Giving back the fan with number `fan` after the loop, or what follows the last.
pub open spec fn at_release(state: DaemonState, fan: int) -> DaemonState {
    if fan < state.fans {
        staged(state, Stage::Release { fan: fan as usize })
    } else {
        staged(state, Stage::RemovePid)
    }
}

/// How the daemon ends: the error of the loop comes before that of the pid file.
pub open spec fn ending(outcome: Result<(), Error>, removed: Result<(), String>) -> Result<(), Error> {
    match outcome {
        Err(e) => Err(e),
        Ok(_) => match removed {
            Err(e) => Err(Error::PidDelete(e)),
            Ok(_) => Ok(()),
        },
    }
}

/// The daemon after an event. An event that does not belong to the stage changes nothing.
pub open spec fn stage_next(state: DaemonState, event: StageEvent) -> DaemonState {
    match (state.stage, event) {
        (Stage::CheckRoot, StageEvent::Euid(uid)) => if uid != 0 {
            failed(state, Error::NotRoot)
        } else {
            staged(state, Stage::ReadPid)
        },
        (Stage::ReadPid, StageEvent::PidFile(read)) => match read {
            FileRead::Content(content) => DaemonState {
                stage: Stage::FindProcess,
                process: process_place(content@),
                ..state
            },
            FileRead::Missing => staged(state, Stage::WritePid),
            FileRead::Failed(e) => failed(state, Error::PidRead(e)),
        },
        (Stage::FindProcess, StageEvent::Process { exists }) => if exists {
            failed(state, Error::AlreadyRunning)
        } else {
            staged(state, Stage::WritePid)
        },
        (Stage::WritePid, StageEvent::PidWritten(outcome)) => match outcome {
            Ok(_) => staged(state, Stage::Prepare),
            Err(e) => failed(state, Error::PidWrite(e)),
        },
        (Stage::Prepare, StageEvent::Prepared(outcome)) => match outcome {
            Ok(fans) => at_opening(DaemonState { fans, ..state }, 0),
            Err(e) => failed(state, e),
        },
        (Stage::OpenFiles { fan }, StageEvent::Opened(outcome)) => match outcome {
            Ok(_) => at_opening(state, fan + 1),
            Err(e) => failed(state, e),
        },
        (Stage::TakeOver { fan }, StageEvent::TakenOver(outcome)) => match outcome {
            Ok(_) => at_taking_over(state, fan + 1),
            Err(e) => at_giving_back(DaemonState { taken: fan, outcome: Err(e), ..state }, 0),
        },
        (Stage::GiveBack { fan }, StageEvent::Released(_)) => at_giving_back(state, fan + 1),
        (Stage::Run, StageEvent::LoopEnded(outcome)) => at_release(
            DaemonState { outcome, ..state },
            0,
        ),
        (Stage::Release { fan }, StageEvent::Released(_)) => at_release(state, fan + 1),
        (Stage::RemovePid, StageEvent::PidRemoved(removed)) => DaemonState {
            stage: Stage::End(ending(state.outcome, removed)),
            outcome: Ok(()),
            ..state
        },
        _ => state,
    }
}

impl Daemon {
    #[verifier::type_invariant]
    spec fn in_range(self) -> bool {
        stage_in_range(self@)
    }

    /// The daemon before it does anything.
    pub fn new() -> (r: Daemon)
        ensures
            r@ == daemon_start(),
    {
        Daemon { stage: Stage::CheckRoot, process: String::new(), fans: 0, taken: 0, outcome: Ok(()) }
    }

    /// What the daemon does next.
    pub fn stage(&self) -> (r: &Stage)
        ensures
            *r == self@.stage,
    {
        &self.stage
    }

    /// The path of the process that the pid file names.
    pub fn process(&self) -> (r: &str)
        ensures
            r@ == self@.process,
    {
        self.process.as_str()
    }

    /// How the daemon ended, once it has.
    pub fn result(self) -> (r: Option<Result<(), Error>>)
        ensures
            r == match self@.stage {
                Stage::End(outcome) => Some(outcome),
                _ => None,
            },
    {
        match self.stage {
            Stage::End(outcome) => Some(outcome),
            _ => None,
        }
    }

    fn then_take_over(self, fan: usize) -> (r: Daemon)
        requires
            fan <= self@.fans,
        ensures
            r@ == at_taking_over(self@, fan as int),
    {
        let stage = if fan < self.fans {
            Stage::TakeOver { fan }
        } else {
            Stage::Run
        };
        Daemon { stage, ..self }
    }

    fn then_open(self, fan: usize) -> (r: Daemon)
        requires
            fan <= self@.fans,
        ensures
            r@ == at_opening(self@, fan as int),
    {
        if fan < self.fans {
            Daemon { stage: Stage::OpenFiles { fan }, ..self }
        } else {
            self.then_take_over(0)
        }
    }

    fn then_give_back(self, fan: usize) -> (r: Daemon)
        requires
            fan <= self@.taken <= self@.fans,
        ensures
            r@ == at_giving_back(self@, fan as int),
    {
        if fan < self.taken {
            Daemon { stage: Stage::GiveBack { fan }, ..self }
        } else {
            Daemon { stage: Stage::End(self.outcome), outcome: Ok(()), ..self }
        }
    }

    fn then_release(self, fan: usize) -> (r: Daemon)
        requires
            fan <= self@.fans,
        ensures
            r@ == at_release(self@, fan as int),
    {
        let stage = if fan < self.fans {
            Stage::Release { fan }
        } else {
            Stage::RemovePid
        };
        Daemon { stage, ..self }
    }

    /// The daemon after an event.
    pub fn step(self, event: StageEvent) -> (r: Daemon)
        ensures
            r@ == stage_next(self@, event),
    {
        proof {
            use_type_invariant(&self);
        }
        match (self.stage, event) {
            (Stage::CheckRoot, StageEvent::Euid(uid)) => {
                if uid != 0 {
                    Daemon { stage: Stage::End(Err(Error::NotRoot)), ..self }
                } else {
                    Daemon { stage: Stage::ReadPid, ..self }
                }
            },
            (Stage::ReadPid, StageEvent::PidFile(read)) => {
                match read {
                    FileRead::Content(content) => {
                        let mut process = "/proc/".to_string();
                        process.append(trim(content.as_str()));
                        Daemon { stage: Stage::FindProcess, process, ..self }
                    },
                    FileRead::Missing => Daemon { stage: Stage::WritePid, ..self },
                    FileRead::Failed(e) => Daemon {
                        stage: Stage::End(Err(Error::PidRead(e))),
                        ..self
                    },
                }
            },
            (Stage::FindProcess, StageEvent::Process { exists }) => {
                if exists {
                    Daemon { stage: Stage::End(Err(Error::AlreadyRunning)), ..self }
                } else {
                    Daemon { stage: Stage::WritePid, ..self }
                }
            },
            (Stage::WritePid, StageEvent::PidWritten(outcome)) => {
                match outcome {
                    Ok(_) => Daemon { stage: Stage::Prepare, ..self },
                    Err(e) => Daemon { stage: Stage::End(Err(Error::PidWrite(e))), ..self },
                }
            },
            (Stage::Prepare, StageEvent::Prepared(outcome)) => {
                match outcome {
                    Ok(fans) => {
                        let rest = Daemon { stage: Stage::Prepare, fans, ..self };
                        rest.then_open(0)
                    },
                    Err(e) => Daemon { stage: Stage::End(Err(e)), ..self },
                }
            },
            (Stage::OpenFiles { fan }, StageEvent::Opened(outcome)) => {
                match outcome {
                    Ok(_) => {
                        let rest = Daemon { stage: Stage::Prepare, ..self };
                        rest.then_open(fan + 1)
                    },
                    Err(e) => Daemon { stage: Stage::End(Err(e)), ..self },
                }
            },
            (Stage::TakeOver { fan }, StageEvent::TakenOver(outcome)) => {
                match outcome {
                    Ok(_) => {
                        let rest = Daemon { stage: Stage::Prepare, ..self };
                        rest.then_take_over(fan + 1)
                    },
                    Err(e) => {
                        let rest = Daemon {
                            stage: Stage::Prepare,
                            taken: fan,
                            outcome: Err(e),
                            ..self
                        };
                        rest.then_give_back(0)
                    },
                }
            },
            (Stage::GiveBack { fan }, StageEvent::Released(_)) => {
                let rest = Daemon { stage: Stage::Prepare, ..self };
                rest.then_give_back(fan + 1)
            },
            (Stage::Run, StageEvent::LoopEnded(outcome)) => {
                let rest = Daemon { stage: Stage::Run, outcome, ..self };
                rest.then_release(0)
            },
            (Stage::Release { fan }, StageEvent::Released(_)) => {
                let rest = Daemon { stage: Stage::Run, ..self };
                rest.then_release(fan + 1)
            },
            (Stage::RemovePid, StageEvent::PidRemoved(removed)) => {
                let result: Result<(), Error> = match self.outcome {
                    Err(e) => Err(e),
                    Ok(_) => match removed {
                        Err(e) => Err(Error::PidDelete(e)),
                        Ok(_) => Ok(()),
                    },
                };
                Daemon {
                    stage: Stage::End(result),
                    process: self.process,
                    fans: self.fans,
                    taken: self.taken,
                    outcome: Ok(()),
                }
            },
            (stage, _) => Daemon { stage, ..self },
        }
    }
}

/// The daemon after a list of events.
pub open spec fn daemon_run(state: DaemonState, events: Seq<StageEvent>) -> DaemonState
    decreases events.len(),
{
    if events.len() == 0 {
        state
    } else {
        stage_next(daemon_run(state, events.drop_last()), events.last())
    }
}

/// Whether the daemon comes through a stage, from `state` on.
pub open spec fn passes(state: DaemonState, events: Seq<StageEvent>, stage: Stage) -> bool {
    exists|k: int|
        0 <= k <= events.len() && (#[trigger] daemon_run(state, events.take(k))).stage == stage
}

/// A daemon that has ended stays so.
pub proof fn law_ended_daemon_stays(state: DaemonState, events: Seq<StageEvent>)
    requires
        state.stage is End,
    ensures
        daemon_run(state, events) == state,
    decreases events.len(),
{
    if events.len() > 0 {
        law_ended_daemon_stays(state, events.drop_last());
    }
}

/// Only root runs the daemon: for any other user it ends at once with that error.
pub proof fn law_only_root_runs(uid: u32, events: Seq<StageEvent>)
    requires
        uid != 0,
    ensures
        daemon_run(stage_next(daemon_start(), StageEvent::Euid(uid)), events).stage == Stage::End(
            Err(Error::NotRoot),
        ),
{
    law_ended_daemon_stays(stage_next(daemon_start(), StageEvent::Euid(uid)), events);
}

/// While the process that the pid file names exists, the daemon does not start, and leaves the
/// pid file as it is.
pub proof fn law_one_daemon_at_a_time(state: DaemonState, events: Seq<StageEvent>)
    requires
        state.stage is FindProcess,
    ensures
        daemon_run(
            stage_next(state, StageEvent::Process { exists: true }),
            events,
        ).stage == Stage::End(Err(Error::AlreadyRunning)),
{
    law_ended_daemon_stays(stage_next(state, StageEvent::Process { exists: true }), events);
}

proof fn lemma_passes_more(state: DaemonState, events: Seq<StageEvent>, stage: Stage)
    requires
        events.len() > 0,
        passes(state, events.drop_last(), stage),
    ensures
        passes(state, events, stage),
{
    let before = events.drop_last();
    let k = choose|k: int|
        0 <= k <= before.len() && (#[trigger] daemon_run(state, before.take(k))).stage == stage;
    assert(before.take(k) == events.take(k));
    assert(daemon_run(state, events.take(k)).stage == stage);
}

proof fn lemma_passes_now(state: DaemonState, events: Seq<StageEvent>)
    ensures
        passes(state, events, daemon_run(state, events).stage),
{
    let k = events.len() as int;
    assert(events.take(k) == events);
    assert(daemon_run(state, events.take(k)).stage == daemon_run(state, events).stage);
}

/// Whether the first fans have been given back.
pub open spec fn released(state: DaemonState, events: Seq<StageEvent>, fans: int) -> bool {
    forall|fan: usize| fan < fans ==> #[trigger] passes(state, events, Stage::Release { fan })
}

proof fn lemma_released_more(state: DaemonState, events: Seq<StageEvent>, fans: int)
    requires
        events.len() > 0,
        released(state, events.drop_last(), fans),
    ensures
        released(state, events, fans),
{
    assert forall|fan: usize| fan < fans implies #[trigger] passes(
        state,
        events,
        Stage::Release { fan },
    ) by {
        assert(passes(state, events.drop_last(), Stage::Release { fan }));
        lemma_passes_more(state, events, Stage::Release { fan });
    }
}

/// Once the loop has begun, the daemon does not end before it has given every fan back and
/// deleted the pid file, whatever goes wrong on the way.
pub proof fn law_shutdown_gives_everything_back(state: DaemonState, events: Seq<StageEvent>)
    requires
        state.stage is Run,
    ensures
        ({
            let end = daemon_run(state, events);
            match end.stage {
                Stage::Run => true,
                Stage::Release { fan } => released(state, events, fan + 1),
                Stage::RemovePid => released(state, events, state.fans as int),
                Stage::End(_) => released(state, events, state.fans as int) && passes(
                    state,
                    events,
                    Stage::RemovePid,
                ),
                _ => false,
            }
        }),
        daemon_run(state, events).fans == state.fans,
    decreases events.len(),
{
    lemma_passes_now(state, events);
    if events.len() > 0 {
        let before = daemon_run(state, events.drop_last());
        law_shutdown_gives_everything_back(state, events.drop_last());
        lemma_passes_now(state, events.drop_last());
        match before.stage {
            Stage::Release { fan } => {
                lemma_released_more(state, events, fan + 1);
            },
            Stage::RemovePid => {
                lemma_released_more(state, events, state.fans as int);
                lemma_passes_more(state, events, Stage::RemovePid);
            },
            Stage::End(_) => {
                lemma_released_more(state, events, state.fans as int);
                lemma_passes_more(state, events, Stage::RemovePid);
            },
            _ => {},
        }
    }
}

/// Whether the daemon takes over a fan with its event at position `k`.
pub open spec fn takes_over_at(events: Seq<StageEvent>, k: int, fan: usize) -> bool {
    &&& 0 <= k < events.len()
    &&& daemon_run(daemon_start(), events.take(k)).stage == (Stage::TakeOver { fan })
    &&& events[k] matches StageEvent::TakenOver(Ok(_))
}

/// Whether a stage gives a fan back.
pub open spec fn gives_back(stage: Stage, fan: usize) -> bool {
    stage == (Stage::GiveBack { fan }) || stage == (Stage::Release { fan })
}

/// Whether the daemon comes through a stage that gives the fan back, after its event at
/// position `k`.
pub open spec fn gives_back_after(events: Seq<StageEvent>, k: int, fan: usize) -> bool {
    exists|j: int|
        k < j <= events.len() && gives_back(
            (#[trigger] daemon_run(daemon_start(), events.take(j))).stage,
            fan,
        )
}

/// How far the daemon is with a fan that it has taken over with its event at position `k`.
spec fn accounted_for(events: Seq<StageEvent>, k: int, fan: usize) -> bool {
    let end = daemon_run(daemon_start(), events);
    &&& fan < end.fans
    &&& match end.stage {
        Stage::TakeOver { fan: next } => fan < next,
        Stage::Run => true,
        Stage::GiveBack { fan: next } => fan < end.taken && (fan <= next ==> gives_back_after(
            events,
            k,
            fan,
        )),
        Stage::Release { fan: next } => fan <= next ==> gives_back_after(events, k, fan),
        Stage::RemovePid => gives_back_after(events, k, fan),
        Stage::End(_) => gives_back_after(events, k, fan),
        _ => false,
    }
}

proof fn lemma_gives_back_more(events: Seq<StageEvent>, k: int, fan: usize)
    requires
        events.len() > 0,
        0 <= k,
        gives_back_after(events.drop_last(), k, fan),
    ensures
        gives_back_after(events, k, fan),
{
    let before = events.drop_last();
    let j = choose|j: int|
        k < j <= before.len() && gives_back(
            (#[trigger] daemon_run(daemon_start(), before.take(j))).stage,
            fan,
        );
    assert(before.take(j) == events.take(j));
    assert(gives_back(daemon_run(daemon_start(), events.take(j)).stage, fan));
}

proof fn lemma_run_in_range(events: Seq<StageEvent>)
    ensures
        stage_in_range(daemon_run(daemon_start(), events)),
    decreases events.len(),
{
    if events.len() > 0 {
        lemma_run_in_range(events.drop_last());
    }
}

proof fn lemma_accounted_for(events: Seq<StageEvent>, k: int, fan: usize)
    requires
        takes_over_at(events, k, fan),
    ensures
        accounted_for(events, k, fan),
    decreases events.len(),
{
    let before = events.drop_last();
    let state = daemon_run(daemon_start(), before);
    let end = daemon_run(daemon_start(), events);
    lemma_run_in_range(before);
    let all = events.len() as int;
    assert(events.take(all) == events);
    if gives_back(end.stage, fan) {
        assert(gives_back(daemon_run(daemon_start(), events.take(all)).stage, fan));
        assert(gives_back_after(events, k, fan));
    }
    if k < before.len() {
        assert(before.take(k) == events.take(k));
        assert(before[k] == events[k]);
        lemma_accounted_for(before, k, fan);
        if gives_back_after(before, k, fan) {
            lemma_gives_back_more(events, k, fan);
        }
    } else {
        assert(events.take(k) == before);
        assert(events.last() == events[k]);
    }
}

/// A daemon that ends, however it ends, has given back every fan that it took over: where the
/// event at position `k` took over a fan, a later stage gives that fan back.
pub proof fn law_ended_daemon_has_given_fans_back(events: Seq<StageEvent>, k: int, fan: usize)
    requires
        daemon_run(daemon_start(), events).stage is End,
        takes_over_at(events, k, fan),
    ensures
        gives_back_after(events, k, fan),
{
    lemma_accounted_for(events, k, fan);
}

/// Where a fan refuses to be taken over, the daemon gives back the others and ends with that
/// error, whether or not they can be given back.
pub proof fn law_refused_fan_ends_the_start(
    state: DaemonState,
    fan: usize,
    error: Error,
    events: Seq<StageEvent>,
)
    requires
        state.stage == (Stage::TakeOver { fan }),
    ensures
        ({
            let end = daemon_run(
                stage_next(state, StageEvent::TakenOver(Err(error))),
                events,
            );
            ||| end.stage == Stage::End(Err(error))
            ||| end.stage is GiveBack && end.outcome == Err::<(), Error>(error) && end.taken == fan
        }),
    decreases events.len(),
{
    if events.len() > 0 {
        law_refused_fan_ends_the_start(state, fan, error, events.drop_last());
    }
}

/// The stages, in their order.
pub open spec fn rank(stage: Stage) -> int {
    match stage {
        Stage::CheckRoot => 0,
        Stage::ReadPid => 1,
        Stage::FindProcess => 2,
        Stage::WritePid => 3,
        Stage::Prepare => 4,
        Stage::OpenFiles { .. } => 5,
        Stage::TakeOver { .. } => 6,
        Stage::GiveBack { .. } => 7,
        Stage::Run => 8,
        Stage::Release { .. } => 9,
        Stage::RemovePid => 10,
        Stage::End(_) => 11,
    }
}

/// The daemon never goes back to an earlier stage.
pub proof fn law_stages_are_in_order(state: DaemonState, event: StageEvent)
    ensures
        rank(state.stage) <= rank(stage_next(state, event).stage),
{
}

/// Whether the first fans have been taken over.
pub open spec fn taken_over(state: DaemonState, events: Seq<StageEvent>, fans: int) -> bool {
    forall|fan: usize| fan < fans ==> #[trigger] passes(state, events, Stage::TakeOver { fan })
}

proof fn lemma_taken_more(state: DaemonState, events: Seq<StageEvent>, fans: int)
    requires
        events.len() > 0,
        taken_over(state, events.drop_last(), fans),
    ensures
        taken_over(state, events, fans),
{
    assert forall|fan: usize| fan < fans implies #[trigger] passes(
        state,
        events,
        Stage::TakeOver { fan },
    ) by {
        assert(passes(state, events.drop_last(), Stage::TakeOver { fan }));
        lemma_passes_more(state, events, Stage::TakeOver { fan });
    }
}

/// The loop does not begin before the daemon has read and written the pid file and taken over
/// every fan.
pub proof fn law_loop_begins_with_every_fan(events: Seq<StageEvent>)
    ensures
        ({
            let state = daemon_start();
            let end = daemon_run(state, events);
            let up_to = match end.stage {
                Stage::TakeOver { fan } => fan + 1,
                Stage::Run => end.fans as int,
                _ => 0,
            };
            &&& taken_over(state, events, up_to)
            &&& 1 <= rank(end.stage) <= 8 ==> passes(state, events, Stage::ReadPid)
            &&& 3 <= rank(end.stage) <= 8 ==> passes(state, events, Stage::WritePid)
        }),
    decreases events.len(),
{
    let state = daemon_start();
    lemma_passes_now(state, events);
    if events.len() > 0 {
        let before = daemon_run(state, events.drop_last());
        law_loop_begins_with_every_fan(events.drop_last());
        if 1 <= rank(before.stage) <= 8 {
            lemma_passes_more(state, events, Stage::ReadPid);
        }
        if 3 <= rank(before.stage) <= 8 {
            lemma_passes_more(state, events, Stage::WritePid);
        }
        match before.stage {
            Stage::TakeOver { fan } => {
                lemma_taken_more(state, events, fan + 1);
            },
            Stage::Run => {
                lemma_taken_more(state, events, before.fans as int);
            },
            _ => {},
        }
    }
}

/// The error of the loop is the one that the daemon ends with, whether or not the pid file
/// could be deleted.
pub proof fn law_loop_error_comes_first(state: DaemonState, error: Error, removed: Result<(), String>)
    requires
        state.stage is RemovePid,
        state.outcome == Err::<(), Error>(error),
    ensures
        stage_next(state, StageEvent::PidRemoved(removed)).stage == Stage::End(Err(error)),
{
}

/// Only the stage changes.
pub open spec fn only_stage_changes(before: DaemonState, after: DaemonState) -> bool {
    after.process == before.process && after.fans == before.fans && after.taken == before.taken
        && after.outcome == before.outcome
}

/// How the daemon starts: root goes on to the pid file; without one, or where no process has
/// the number in it, it is written, and the daemon prepares. The process is looked for under
/// `/proc`, by what the pid file holds between white space.
pub proof fn law_start_goes_step_by_step(state: DaemonState, content: String)
    ensures
        state.stage is CheckRoot ==> {
            let next = stage_next(state, StageEvent::Euid(0));
            next.stage == Stage::ReadPid && only_stage_changes(state, next)
        },
        state.stage is ReadPid ==> {
            let next = stage_next(state, StageEvent::PidFile(FileRead::Missing));
            next.stage == Stage::WritePid && only_stage_changes(state, next)
        },
        state.stage is ReadPid ==> {
            let next = stage_next(state, StageEvent::PidFile(FileRead::Content(content)));
            next.stage == Stage::FindProcess && next.process == "/proc/"@ + trimmed(content@)
                && next.fans == state.fans && next.taken == state.taken && next.outcome
                == state.outcome
        },
        state.stage is FindProcess ==> {
            let next = stage_next(state, StageEvent::Process { exists: false });
            next.stage == Stage::WritePid && only_stage_changes(state, next)
        },
        state.stage is WritePid ==> {
            let next = stage_next(state, StageEvent::PidWritten(Ok(())));
            next.stage == Stage::Prepare && only_stage_changes(state, next)
        },
{
}

/// What goes wrong on the way to the fans ends the daemon with that error.
pub proof fn law_failed_start_ends_with_its_error(state: DaemonState, reason: String, error: Error)
    ensures
        state.stage is ReadPid ==> stage_next(
            state,
            StageEvent::PidFile(FileRead::Failed(reason)),
        ).stage == Stage::End(Err(Error::PidRead(reason))),
        state.stage is WritePid ==> stage_next(
            state,
            StageEvent::PidWritten(Err(reason)),
        ).stage == Stage::End(Err(Error::PidWrite(reason))),
        state.stage is Prepare ==> stage_next(state, StageEvent::Prepared(Err(error))).stage
            == Stage::End(Err(error)),
        state.stage is OpenFiles ==> stage_next(state, StageEvent::Opened(Err(error))).stage
            == Stage::End(Err(error)),
{
}

/// The fans are opened one after the other, then taken over one after the other, and then the
/// loop runs; without fans it runs at once.
pub proof fn law_fans_are_taken_in_turn(state: DaemonState, fans: usize, fan: usize)
    ensures
        state.stage is Prepare ==> {
            let next = stage_next(state, StageEvent::Prepared(Ok(fans)));
            next.fans == fans && next.stage == if fans > 0 {
                Stage::OpenFiles { fan: 0 }
            } else {
                Stage::Run
            }
        },
        state.stage == (Stage::OpenFiles { fan }) && fan < state.fans ==> {
            let next = stage_next(state, StageEvent::Opened(Ok(())));
            only_stage_changes(state, next) && next.stage == if fan + 1 < state.fans {
                Stage::OpenFiles { fan: (fan + 1) as usize }
            } else {
                Stage::TakeOver { fan: 0 }
            }
        },
        state.stage == (Stage::TakeOver { fan }) && fan < state.fans ==> {
            let next = stage_next(state, StageEvent::TakenOver(Ok(())));
            only_stage_changes(state, next) && next.stage == if fan + 1 < state.fans {
                Stage::TakeOver { fan: (fan + 1) as usize }
            } else {
                Stage::Run
            }
        },
{
}

/// Where a fan refuses, those before it are given back one after the other, beginning with the
/// first, and the daemon ends with the error of the one that refused.
pub proof fn law_refusal_gives_back_in_turn(
    state: DaemonState,
    fan: usize,
    error: Error,
    released: Result<(), Error>,
)
    ensures
        state.stage == (Stage::TakeOver { fan }) ==> {
            let next = stage_next(state, StageEvent::TakenOver(Err(error)));
            next.stage == if fan > 0 {
                Stage::GiveBack { fan: 0 }
            } else {
                Stage::End(Err(error))
            }
        },
        state.stage == (Stage::GiveBack { fan }) && fan < state.taken ==> {
            let next = stage_next(state, StageEvent::Released(released));
            next.stage == if fan + 1 < state.taken {
                Stage::GiveBack { fan: (fan + 1) as usize }
            } else {
                Stage::End(state.outcome)
            }
        },
{
}

/// However the loop ended, the fans are given back one after the other, whether or not they take
/// it, and then the pid file is deleted.
pub proof fn law_shutdown_goes_step_by_step(
    state: DaemonState,
    fan: usize,
    outcome: Result<(), Error>,
    released: Result<(), Error>,
)
    ensures
        state.stage is Run ==> {
            let next = stage_next(state, StageEvent::LoopEnded(outcome));
            next.outcome == outcome && next.fans == state.fans && next.stage == if state.fans > 0 {
                Stage::Release { fan: 0 }
            } else {
                Stage::RemovePid
            }
        },
        state.stage == (Stage::Release { fan }) && fan < state.fans ==> {
            let next = stage_next(state, StageEvent::Released(released));
            only_stage_changes(state, next) && next.stage == if fan + 1 < state.fans {
                Stage::Release { fan: (fan + 1) as usize }
            } else {
                Stage::RemovePid
            }
        },
{
}

/// After a loop without an error the daemon ends well if the pid file could be deleted, and else
/// with that error.
pub proof fn law_pid_file_decides_after_a_good_loop(state: DaemonState, reason: String)
    requires
        state.stage is RemovePid,
        state.outcome is Ok,
    ensures
        stage_next(state, StageEvent::PidRemoved(Ok(()))).stage == Stage::End(Ok(())),
        stage_next(state, StageEvent::PidRemoved(Err(reason))).stage == Stage::End(
            Err(Error::PidDelete(reason)),
        ),
{
}

/// Whether an event belongs to a stage.
pub open spec fn belongs(stage: Stage, event: StageEvent) -> bool {
    match stage {
        Stage::CheckRoot => event is Euid,
        Stage::ReadPid => event is PidFile,
        Stage::FindProcess => event is Process,
        Stage::WritePid => event is PidWritten,
        Stage::Prepare => event is Prepared,
        Stage::OpenFiles { .. } => event is Opened,
        Stage::TakeOver { .. } => event is TakenOver,
        Stage::GiveBack { .. } => event is Released,
        Stage::Run => event is LoopEnded,
        Stage::Release { .. } => event is Released,
        Stage::RemovePid => event is PidRemoved,
        Stage::End(_) => false,
    }
}

/// An event that does not belong to the stage changes nothing.
pub proof fn law_other_events_change_nothing(state: DaemonState, event: StageEvent)
    requires
        !belongs(state.stage, event),
    ensures
        stage_next(state, event) == state,
{
}

/// The daemon begins with the question who runs it, with no fans and nothing gone wrong.
pub proof fn law_daemon_begins_with_the_user()
    ensures
        daemon_start().stage == Stage::CheckRoot,
        daemon_start().fans == 0 && daemon_start().taken == 0,
        daemon_start().outcome is Ok,
{
}

} // verus!
