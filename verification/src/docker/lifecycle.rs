//! The life of the container and volume of one remote build.
//!
//! The machine decides; the caller acts. The caller asks the machine for
//! the pending action, performs it, and hands back what happened. Whatever
//! happens, the machine stops and removes the container that it started and
//! removes the volume that it created, container first, before it is done.
//! A volume that the user keeps is never created or removed.

use crate::docker::remote::{parse_container_state, state_of};
use crate::text::{trim};
use vstd::prelude::*;

verus! {

/// What came of an action.
#[derive(Debug, Clone, PartialEq, Eq)]
pub struct Outcome {
    /// Whether the command could be run at all.
    pub executed: bool,
    /// The exit status of the command, where it ran.
    pub code: i32,
    /// What the command printed.
    pub stdout: String,
}

/// The plain values of an `Outcome`.
pub ghost struct OutcomeView {
    pub executed: bool,
    pub code: i32,
    pub stdout: Seq<char>,
}

impl View for Outcome {
    type V = OutcomeView;

    open spec fn view(&self) -> OutcomeView {
        OutcomeView { executed: self.executed, code: self.code, stdout: self.stdout@ }
    }
}

impl OutcomeView {
    /// The command ran and reported no failure.
    pub open spec fn ok(self) -> bool {
        self.executed && self.code == 0
    }
}

impl Outcome {
    /// Whether the command ran and reported no failure.
    pub fn success(&self) -> (ok: bool)
        ensures
            ok == self@.ok(),
    {
        self.executed && self.code == 0
    }
}

/// Where a run stands. Each phase but `Done` has one pending action.
#[derive(Debug, Clone, Copy, PartialEq, Eq, Structural)]
pub enum Phase {
    /// Asking whether the user keeps a volume for this build.
    ProbeKeep,
    /// Asking for the state of a container left by an earlier run.
    ProbeContainer,
    /// Stopping the container left by an earlier run.
    StopStale,
    /// Removing the container left by an earlier run.
    RemoveStale,
    /// Asking whether an earlier run left its volume.
    ProbeVolume,
    /// Removing the volume left by an earlier run.
    RemoveStaleVolume,
    /// Creating the volume of this run.
    CreateVolume,
    /// Starting the container that holds the volume.
    StartContainer,
    /// Copying the toolchain: the step with this index.
    Toolchain(usize),
    /// Copying the project: the step with this index.
    Project(usize),
    /// Linking the copied data to the places where the build expects it.
    Symlink,
    /// Running the build.
    Build,
    /// Copying the results back.
    CopyBack,
    /// Stopping the container of this run.
    ReleaseStop,
    /// Removing the container of this run.
    ReleaseRemove,
    /// Removing the volume of this run.
    ReleaseVolume,
    /// Nothing is left to do.
    Done,
}

/// The failures that end a run early.
#[derive(Debug, Clone, Copy, PartialEq, Eq, Structural)]
pub enum Failure {
    /// An engine command could not be run or reported a failure.
    ExecutionFailed,
    /// The engine named a container state that is not known.
    UnknownContainerState,
    /// A real file stands where a link was to be made.
    SymlinkCollision,
}

/// How a run ended.
#[derive(Debug, Clone, Copy, PartialEq, Eq, Structural)]
pub enum Verdict {
    /// The build ran and left this exit status.
    Exit(i32),
    /// The run failed before the build had run.
    Failed(Failure),
}

/// The part of a run that decides what happens next.
#[derive(Debug, Clone, Copy, PartialEq, Eq, Structural)]
pub struct State {
    pub phase: Phase,
    /// Whether the volume is one to discard. Meaningful from the second
    /// phase on.
    pub discard: bool,
    /// Whether this run has started a container that is not yet removed.
    pub container_live: bool,
    /// Whether this run has created a volume that is not yet removed.
    pub volume_live: bool,
    /// How the run ended, once that is known.
    pub result: Option<Verdict>,
    /// The number of steps that copy the toolchain.
    pub toolchain_steps: usize,
    /// The number of steps that copy the project.
    pub project_steps: usize,
}

impl State {
    pub open spec fn at(self, phase: Phase) -> State {
        State { phase, ..self }
    }

    /// The phase in which the next resource is released, or `Done`.
    pub open spec fn release(self) -> State {
        if self.container_live {
            self.at(Phase::ReleaseStop)
        } else if self.volume_live {
            self.at(Phase::ReleaseVolume)
        } else {
            self.at(Phase::Done)
        }
    }

    /// Ends the run early. A result that is already known is kept.
    pub open spec fn fail(self, failure: Failure) -> State {
        let result = if self.result is Some {
            self.result
        } else {
            Some(Verdict::Failed(failure))
        };
        State { result, ..self }.release()
    }

    /// What follows once no container is left from an earlier run.
    pub open spec fn container_is_gone(self) -> State {
        if self.discard {
            self.at(Phase::ProbeVolume)
        } else {
            self.at(Phase::StartContainer)
        }
    }

    /// The project step `i`, or what follows the last one.
    pub open spec fn project_from(self, i: nat) -> State {
        if i < self.project_steps {
            self.at(Phase::Project(i as usize))
        } else {
            self.at(Phase::Symlink)
        }
    }

    /// The toolchain step `i`, or what follows the last one. The toolchain
    /// is copied only into a volume that is discarded: a kept volume holds
    /// it already.
    pub open spec fn toolchain_from(self, i: nat) -> State {
        if self.discard && i < self.toolchain_steps {
            self.at(Phase::Toolchain(i as usize))
        } else {
            self.project_from(0)
        }
    }
}

/// The state in which a run begins.
pub open spec fn initial(toolchain_steps: usize, project_steps: usize) -> State {
    State {
        phase: Phase::ProbeKeep,
        discard: false,
        container_live: false,
        volume_live: false,
        result: None,
        toolchain_steps,
        project_steps,
    }
}

/// The state that follows `s` when the pending action of `s` came out as
/// `ev`.
pub open spec fn next(s: State, ev: OutcomeView) -> State {
    match s.phase {
        Phase::ProbeKeep => if !ev.executed {
            s.fail(Failure::ExecutionFailed)
        } else {
            State { phase: Phase::ProbeContainer, discard: ev.code != 0, ..s }
        },
        Phase::ProbeContainer => if !ev.ok() {
            s.fail(Failure::ExecutionFailed)
        } else {
            match state_of(trim(ev.stdout)) {
                None => s.fail(Failure::UnknownContainerState),
                Some(found) => if !found.spec_is_stopped() {
                    s.at(Phase::StopStale)
                } else if found.spec_is_present() {
                    s.at(Phase::RemoveStale)
                } else {
                    s.container_is_gone()
                },
            }
        },
        Phase::StopStale => if !ev.ok() {
            s.fail(Failure::ExecutionFailed)
        } else {
            s.at(Phase::RemoveStale)
        },
        Phase::RemoveStale => if !ev.ok() {
            s.fail(Failure::ExecutionFailed)
        } else {
            s.container_is_gone()
        },
        Phase::ProbeVolume => if !ev.executed {
            s.fail(Failure::ExecutionFailed)
        } else if ev.code == 0 {
            s.at(Phase::RemoveStaleVolume)
        } else {
            s.at(Phase::CreateVolume)
        },
        Phase::RemoveStaleVolume => if !ev.ok() {
            s.fail(Failure::ExecutionFailed)
        } else {
            s.at(Phase::CreateVolume)
        },
        Phase::CreateVolume => if !ev.executed {
            s.fail(Failure::ExecutionFailed)
        } else if ev.code != 0 {
            State { volume_live: true, ..s }.fail(Failure::ExecutionFailed)
        } else {
            State { volume_live: true, ..s }.at(Phase::StartContainer)
        },
        Phase::StartContainer => if !ev.executed {
            s.fail(Failure::ExecutionFailed)
        } else if ev.code != 0 {
            State { container_live: true, ..s }.fail(Failure::ExecutionFailed)
        } else {
            State { container_live: true, ..s }.toolchain_from(0)
        },
        Phase::Toolchain(i) => if !ev.ok() {
            s.fail(Failure::ExecutionFailed)
        } else {
            s.toolchain_from(i as nat + 1)
        },
        Phase::Project(i) => if !ev.ok() {
            s.fail(Failure::ExecutionFailed)
        } else {
            s.project_from(i as nat + 1)
        },
        Phase::Symlink => if !ev.executed {
            s.fail(Failure::ExecutionFailed)
        } else if ev.code != 0 {
            s.fail(Failure::SymlinkCollision)
        } else {
            s.at(Phase::Build)
        },
        Phase::Build => State {
            phase: Phase::CopyBack,
            result: Some(
                if ev.executed {
                    Verdict::Exit(ev.code)
                } else {
                    Verdict::Failed(Failure::ExecutionFailed)
                },
            ),
            ..s
        },
        Phase::CopyBack => State {
            result: if s.result == Some(Verdict::Exit(0)) && !ev.ok() {
                Some(Verdict::Failed(Failure::ExecutionFailed))
            } else {
                s.result
            },
            ..s
        }.release(),
        Phase::ReleaseStop => s.at(Phase::ReleaseRemove),
        Phase::ReleaseRemove => State { container_live: false, ..s }.release(),
        Phase::ReleaseVolume => State { volume_live: false, ..s }.release(),
        Phase::Done => s,
    }
}

/// The state after a series of outcomes, each answering the action that
/// was pending when it came.
pub open spec fn run(s: State, events: Seq<OutcomeView>) -> State
    decreases events.len(),
{
    if events.len() == 0 {
        s
    } else {
        next(run(s, events.drop_last()), events.last())
    }
}

/// Whether the phase's action creates, removes or asks for the volume
/// that is named like the container.
pub open spec fn touches_volume(phase: Phase) -> bool {
    phase == Phase::ProbeVolume || phase == Phase::RemoveStaleVolume || phase
        == Phase::CreateVolume || phase == Phase::ReleaseVolume
}

/// Whether the phase lies before the volume of this run is created.
pub open spec fn before_volume(phase: Phase) -> bool {
    phase == Phase::ProbeKeep || phase == Phase::ProbeContainer || phase == Phase::StopStale
        || phase == Phase::RemoveStale || phase == Phase::ProbeVolume || phase
        == Phase::RemoveStaleVolume || phase == Phase::CreateVolume
}

/// Whether the phase lies between the start of the container and the
/// release.
pub open spec fn in_container(phase: Phase) -> bool {
    phase is Toolchain || phase is Project || phase == Phase::Symlink || phase == Phase::Build
        || phase == Phase::CopyBack
}

/// What holds of every state that a run passes through.
pub open spec fn inv(s: State) -> bool {
    &&& s.volume_live ==> s.discard
    &&& touches_volume(s.phase) ==> s.discard
    &&& s.phase == Phase::Done ==> !s.container_live && !s.volume_live && s.result is Some
    &&& s.phase == Phase::ReleaseVolume ==> !s.container_live && s.volume_live
    &&& (s.phase == Phase::ReleaseStop || s.phase == Phase::ReleaseRemove) ==> s.container_live
    &&& before_volume(s.phase) ==> !s.container_live && !s.volume_live
    &&& s.phase == Phase::StartContainer ==> !s.container_live && s.volume_live == s.discard
    &&& in_container(s.phase) ==> s.container_live && s.volume_live == s.discard
    &&& s.container_live ==> s.volume_live == s.discard
    &&& (s.phase == Phase::ReleaseStop || s.phase == Phase::ReleaseRemove || s.phase
        == Phase::ReleaseVolume || s.phase == Phase::CopyBack) ==> s.result is Some
    &&& s.phase matches Phase::Toolchain(i) ==> s.discard && i < s.toolchain_steps
    &&& s.phase matches Phase::Project(i) ==> i < s.project_steps
    &&& (before_volume(s.phase) || s.phase == Phase::StartContainer || s.phase is Toolchain
        || s.phase is Project || s.phase == Phase::Symlink || s.phase == Phase::Build)
        ==> s.result is None
}

/// Whether the state is one that a run can be in.
pub fn check(s: State) -> (ok: bool)
    ensures
        ok == inv(s),
{
    let touches = matches!(
        s.phase,
        Phase::ProbeVolume | Phase::RemoveStaleVolume | Phase::CreateVolume | Phase::ReleaseVolume
    );
    let early = matches!(
        s.phase,
        Phase::ProbeKeep | Phase::ProbeContainer | Phase::StopStale | Phase::RemoveStale
            | Phase::ProbeVolume | Phase::RemoveStaleVolume | Phase::CreateVolume
    );
    let inside = matches!(
        s.phase,
        Phase::Toolchain(_) | Phase::Project(_) | Phase::Symlink | Phase::Build | Phase::CopyBack
    );
    let releasing = matches!(s.phase, Phase::ReleaseStop | Phase::ReleaseRemove);
    let has_result = s.result.is_some();
    let in_bounds = match s.phase {
        Phase::Toolchain(i) => s.discard && i < s.toolchain_steps,
        Phase::Project(i) => i < s.project_steps,
        _ => true,
    };
    (!s.volume_live || s.discard) && (!touches || s.discard) && (!matches!(s.phase, Phase::Done) || (
    !s.container_live && !s.volume_live && has_result)) && (!matches!(s.phase, Phase::ReleaseVolume)
        || (!s.container_live && s.volume_live)) && (!releasing || s.container_live) && (!early || (
    !s.container_live && !s.volume_live)) && (!matches!(s.phase, Phase::StartContainer) || (
    !s.container_live && s.volume_live == s.discard)) && (!inside || (s.container_live
        && s.volume_live == s.discard)) && (!s.container_live || s.volume_live == s.discard) && (!(
    releasing || matches!(s.phase, Phase::ReleaseVolume | Phase::CopyBack)) || has_result)
        && in_bounds && (!(early || matches!(
        s.phase,
        Phase::StartContainer | Phase::Toolchain(_) | Phase::Project(_) | Phase::Symlink
            | Phase::Build
    )) || !has_result)
}

/// A step keeps the invariant.
pub proof fn lemma_next_keeps_inv(s: State, ev: OutcomeView)
    requires
        inv(s),
    ensures
        inv(next(s, ev)),
        next(s, ev).toolchain_steps == s.toolchain_steps,
        next(s, ev).project_steps == s.project_steps,
{
}

/// Every state of a run satisfies the invariant.
pub proof fn lemma_run_keeps_inv(
    toolchain_steps: usize,
    project_steps: usize,
    events: Seq<OutcomeView>,
)
    ensures
        inv(run(initial(toolchain_steps, project_steps), events)),
        run(initial(toolchain_steps, project_steps), events).toolchain_steps == toolchain_steps,
        run(initial(toolchain_steps, project_steps), events).project_steps == project_steps,
    decreases events.len(),
{
    if events.len() > 0 {
        lemma_run_keeps_inv(toolchain_steps, project_steps, events.drop_last());
        lemma_next_keeps_inv(
            run(initial(toolchain_steps, project_steps), events.drop_last()),
            events.last(),
        );
    }
}

/// The choice of the volume is made once, by the first answer, and stands
/// for the rest of the run: where the engine has the kept volume, that one
/// is used, under its own name, whatever happens later.
pub proof fn lemma_volume_choice_stands(s: State, ev: OutcomeView)
    requires
        s.phase != Phase::ProbeKeep,
    ensures
        next(s, ev).discard == s.discard,
        next(s, ev).phase != Phase::ProbeKeep,
{
}

/// The first answer decides the volume for the whole run: where the
/// engine has the kept volume, it is used in every later state, whatever
/// else happens; where it has none, the run uses a volume of its own.
pub proof fn lemma_first_answer_chooses_the_volume(
    toolchain_steps: usize,
    project_steps: usize,
    events: Seq<OutcomeView>,
)
    requires
        events.len() > 0,
        events[0].executed,
    ensures
        run(initial(toolchain_steps, project_steps), events).discard == (events[0].code != 0),
        run(initial(toolchain_steps, project_steps), events).phase != Phase::ProbeKeep,
    decreases events.len(),
{
    if events.len() > 1 {
        let before = events.drop_last();
        assert(before[0] == events[0]);
        lemma_first_answer_chooses_the_volume(toolchain_steps, project_steps, before);
        lemma_volume_choice_stands(
            run(initial(toolchain_steps, project_steps), before),
            events.last(),
        );
    } else {
        let start = initial(toolchain_steps, project_steps);
        assert(events.drop_last().len() == 0);
        assert(run(start, events.drop_last()) == start);
        assert(events.last() == events[0]);
        assert(run(start, events) == next(start, events[0]));
    }
}

/// A run that uses a kept volume never asks the engine to create or remove
/// a volume: no state of such a run is in a phase whose action does.
pub proof fn lemma_kept_volume_is_never_touched(
    toolchain_steps: usize,
    project_steps: usize,
    events: Seq<OutcomeView>,
)
    ensures
        ({
            let s = run(initial(toolchain_steps, project_steps), events);
            !s.discard ==> !touches_volume(s.phase) && !s.volume_live
        }),
{
    lemma_run_keeps_inv(toolchain_steps, project_steps, events);
}

/// A run that is done has released what it acquired: the container that it
/// started and the volume that it created are gone, whether the build
/// succeeded, failed, or never ran.
pub proof fn lemma_done_means_released(
    toolchain_steps: usize,
    project_steps: usize,
    events: Seq<OutcomeView>,
)
    ensures
        ({
            let s = run(initial(toolchain_steps, project_steps), events);
            s.phase == Phase::Done ==> !s.container_live && !s.volume_live && s.result is Some
        }),
{
    lemma_run_keeps_inv(toolchain_steps, project_steps, events);
}

/// Resources are released by their release actions alone, and in order: a
/// volume stops being live only in the step that answers its removal, which
/// is pending only when the container is gone; a container stops being live
/// only in the step that answers its removal, which follows its stop.
pub proof fn lemma_release_order(s: State, ev: OutcomeView)
    requires
        inv(s),
    ensures
        s.volume_live && !next(s, ev).volume_live ==> s.phase == Phase::ReleaseVolume
            && !s.container_live,
        s.container_live && !next(s, ev).container_live ==> s.phase == Phase::ReleaseRemove,
        next(s, ev).phase == Phase::ReleaseRemove ==> s.phase == Phase::ReleaseStop,
        next(s, ev).phase == Phase::ReleaseVolume ==> !next(s, ev).container_live,
{
}

/// What the release comes to never changes how the run ended: a failure
/// to stop or remove is passed over, and neither replaces nor hides the
/// result that is known when the release begins.
pub proof fn lemma_release_keeps_the_result(s: State, ev: OutcomeView)
    requires
        s.phase == Phase::ReleaseStop || s.phase == Phase::ReleaseRemove || s.phase
            == Phase::ReleaseVolume,
    ensures
        next(s, ev).result == s.result,
{
}

/// A failure is never replaced by a later one: once a run has failed, it
/// ends with that failure.
pub proof fn lemma_first_failure_stands(s: State, ev: OutcomeView)
    requires
        inv(s),
        s.result matches Some(Verdict::Failed(_)),
    ensures
        next(s, ev).result == s.result,
{
}

/// The exit status of a build that failed is handed on as it is: nothing
/// that happens after the build changes it.
pub proof fn lemma_failed_build_is_handed_on(s: State, ev: OutcomeView, code: i32)
    requires
        inv(s),
        s.result == Some(Verdict::Exit(code)),
        code != 0,
    ensures
        next(s, ev).result == s.result,
{
}

/// How many steps a run can still take, at most.
pub open spec fn steps_left(s: State) -> nat {
    let t = s.toolchain_steps as nat;
    let p = s.project_steps as nat;
    match s.phase {
        Phase::ProbeKeep => 15 + t + p,
        Phase::ProbeContainer => 14 + t + p,
        Phase::StopStale => 13 + t + p,
        Phase::RemoveStale => 12 + t + p,
        Phase::ProbeVolume => 11 + t + p,
        Phase::RemoveStaleVolume => 10 + t + p,
        Phase::CreateVolume => 9 + t + p,
        Phase::StartContainer => 8 + t + p,
        Phase::Toolchain(i) => (7 + p + (if i < t {
            t - i
        } else {
            0
        })) as nat,
        Phase::Project(i) => (6 + (if i < p {
            p - i
        } else {
            0
        })) as nat,
        Phase::Symlink => 6,
        Phase::Build => 5,
        Phase::CopyBack => 4,
        Phase::ReleaseStop => 3,
        Phase::ReleaseRemove => 2,
        Phase::ReleaseVolume => 1,
        Phase::Done => 0,
    }
}

/// Every step brings the run closer to its end: no series of outcomes can
/// keep a run from releasing its resources.
pub proof fn lemma_run_ends(s: State, ev: OutcomeView)
    requires
        inv(s),
        s.phase != Phase::Done,
    ensures
        steps_left(next(s, ev)) < steps_left(s),
{
}

/// The state with another phase.
fn at(s: State, phase: Phase) -> (t: State)
    ensures
        t == s.at(phase),
{
    State { phase, ..s }
}

/// The state in which the next resource is released.
fn release(s: State) -> (t: State)
    ensures
        t == s.release(),
{
    if s.container_live {
        at(s, Phase::ReleaseStop)
    } else if s.volume_live {
        at(s, Phase::ReleaseVolume)
    } else {
        at(s, Phase::Done)
    }
}

/// The state after a failure.
fn fail(s: State, failure: Failure) -> (t: State)
    ensures
        t == s.fail(failure),
{
    let result = if s.result.is_some() {
        s.result
    } else {
        Some(Verdict::Failed(failure))
    };
    release(State { result, ..s })
}

/// The state once no container is left from an earlier run.
fn container_is_gone(s: State) -> (t: State)
    ensures
        t == s.container_is_gone(),
{
    if s.discard {
        at(s, Phase::ProbeVolume)
    } else {
        at(s, Phase::StartContainer)
    }
}

/// The state at project step `i`.
fn project_from(s: State, i: usize) -> (t: State)
    ensures
        t == s.project_from(i as nat),
{
    if i < s.project_steps {
        at(s, Phase::Project(i))
    } else {
        at(s, Phase::Symlink)
    }
}

/// The state at toolchain step `i`.
fn toolchain_from(s: State, i: usize) -> (t: State)
    ensures
        t == s.toolchain_from(i as nat),
{
    if s.discard && i < s.toolchain_steps {
        at(s, Phase::Toolchain(i))
    } else {
        project_from(s, 0)
    }
}

/// The state that follows `s` when the pending action of `s` came out as
/// `outcome`.
pub fn advance(s: State, outcome: &Outcome) -> (t: State)
    ensures
        t == next(s, outcome@),
{
    let ok = outcome.success();
    match s.phase {
        Phase::ProbeKeep => {
            if !outcome.executed {
                fail(s, Failure::ExecutionFailed)
            } else {
                State { phase: Phase::ProbeContainer, discard: outcome.code != 0, ..s }
            }
        },
        Phase::ProbeContainer => {
            if !ok {
                fail(s, Failure::ExecutionFailed)
            } else {
                match parse_container_state(outcome.stdout.as_str()) {
                    Err(_) => fail(s, Failure::UnknownContainerState),
                    Ok(found) => {
                        if !found.is_stopped() {
                            at(s, Phase::StopStale)
                        } else if found.is_present() {
                            at(s, Phase::RemoveStale)
                        } else {
                            container_is_gone(s)
                        }
                    },
                }
            }
        },
        Phase::StopStale => {
            if !ok {
                fail(s, Failure::ExecutionFailed)
            } else {
                at(s, Phase::RemoveStale)
            }
        },
        Phase::RemoveStale => {
            if !ok {
                fail(s, Failure::ExecutionFailed)
            } else {
                container_is_gone(s)
            }
        },
        Phase::ProbeVolume => {
            if !outcome.executed {
                fail(s, Failure::ExecutionFailed)
            } else if outcome.code == 0 {
                at(s, Phase::RemoveStaleVolume)
            } else {
                at(s, Phase::CreateVolume)
            }
        },
        Phase::RemoveStaleVolume => {
            if !ok {
                fail(s, Failure::ExecutionFailed)
            } else {
                at(s, Phase::CreateVolume)
            }
        },
        Phase::CreateVolume => {
            if !outcome.executed {
                fail(s, Failure::ExecutionFailed)
            } else if outcome.code != 0 {
                fail(State { volume_live: true, ..s }, Failure::ExecutionFailed)
            } else {
                at(State { volume_live: true, ..s }, Phase::StartContainer)
            }
        },
        Phase::StartContainer => {
            if !outcome.executed {
                fail(s, Failure::ExecutionFailed)
            } else if outcome.code != 0 {
                fail(State { container_live: true, ..s }, Failure::ExecutionFailed)
            } else {
                toolchain_from(State { container_live: true, ..s }, 0)
            }
        },
        Phase::Toolchain(i) => {
            if !ok {
                fail(s, Failure::ExecutionFailed)
            } else if i < usize::MAX {
                toolchain_from(s, i + 1)
            } else {
                project_from(s, 0)
            }
        },
        Phase::Project(i) => {
            if !ok {
                fail(s, Failure::ExecutionFailed)
            } else if i < usize::MAX {
                project_from(s, i + 1)
            } else {
                at(s, Phase::Symlink)
            }
        },
        Phase::Symlink => {
            if !outcome.executed {
                fail(s, Failure::ExecutionFailed)
            } else if outcome.code != 0 {
                fail(s, Failure::SymlinkCollision)
            } else {
                at(s, Phase::Build)
            }
        },
        Phase::Build => {
            let verdict = if outcome.executed {
                Verdict::Exit(outcome.code)
            } else {
                Verdict::Failed(Failure::ExecutionFailed)
            };
            State { phase: Phase::CopyBack, result: Some(verdict), ..s }
        },
        Phase::CopyBack => {
            let built = match s.result {
                Some(Verdict::Exit(code)) => code == 0,
                _ => false,
            };
            let result = if built && !ok {
                Some(Verdict::Failed(Failure::ExecutionFailed))
            } else {
                s.result
            };
            release(State { result, ..s })
        },
        Phase::ReleaseStop => at(s, Phase::ReleaseRemove),
        Phase::ReleaseRemove => release(State { container_live: false, ..s }),
        Phase::ReleaseVolume => release(State { volume_live: false, ..s }),
        Phase::Done => s,
    }
}

} // verus!
