//! The volumes and containers that builds leave on an engine.

use crate::command::{bare, Command, CommandView};
use crate::docker::engine::{docker_subcommand, engine_command, Engine};
use crate::docker::lifecycle::{Outcome, OutcomeView};
use crate::docker::plan::{clone_step, stage_toolchain, toolchain_steps, Facts, MOUNT_PREFIX};
use crate::docker::remote::{
    container_rm, container_rm_cmd, container_state, container_state_cmd, container_stop,
    container_stop_cmd, keep_name, parse_container_state, state_of, steps_view, volume_create,
    volume_create_cmd, volume_exists, volume_exists_cmd, volume_rm, volume_rm_cmd, ContainerState,
    Step, StepView,
};
use crate::docker::shared::Directories;
use crate::errors::{Error, ErrorView};
use crate::path::parent;
use crate::text::{
    first_match, lemma_first_match_is, after_first, before_first, concat, concat3, is_ascending,
    lemma_strs_push, lines, lines_of, opt_ref, sort_strings, split_at_first, strs, trim, trimmed,
};
use vstd::prelude::*;

verus! {

/// What is asked when volumes are listed.
#[derive(Debug, Clone, PartialEq, Eq)]
pub struct ListVolumes {
    pub verbose: bool,
    pub engine: Option<String>,
}

/// What is asked when the volumes of this project are removed.
#[derive(Debug, Clone, PartialEq, Eq)]
pub struct RemoveVolumes {
    pub verbose: bool,
    pub force: bool,
    pub execute: bool,
    pub engine: Option<String>,
}

/// What is asked when all volumes of this project are removed.
#[derive(Debug, Clone, PartialEq, Eq)]
pub struct RemoveAllVolumes {
    pub verbose: bool,
    pub force: bool,
    pub execute: bool,
    pub engine: Option<String>,
}

/// What is asked when unused volumes are pruned.
#[derive(Debug, Clone, PartialEq, Eq)]
pub struct PruneVolumes {
    pub verbose: bool,
    pub execute: bool,
    pub engine: Option<String>,
}

/// What is asked when a volume is created for a crate.
#[derive(Debug, Clone, PartialEq, Eq)]
pub struct CreateCrateVolume {
    pub target: String,
    pub docker_in_docker: bool,
    pub copy_registry: bool,
    pub verbose: bool,
    pub engine: Option<String>,
}

/// What is asked when a volume is created for a toolchain.
#[derive(Debug, Clone, PartialEq, Eq)]
pub struct CreateVolume {
    pub docker_in_docker: bool,
    pub copy_registry: bool,
    pub verbose: bool,
    pub engine: Option<String>,
}

/// What is asked when the volume of a crate is removed.
#[derive(Debug, Clone, PartialEq, Eq)]
pub struct RemoveCrateVolume {
    pub target: String,
    pub docker_in_docker: bool,
    pub verbose: bool,
    pub engine: Option<String>,
}

/// What is asked when the volume of a toolchain is removed.
#[derive(Debug, Clone, PartialEq, Eq)]
pub struct RemoveVolume {
    pub target: String,
    pub docker_in_docker: bool,
    pub verbose: bool,
    pub engine: Option<String>,
}

/// What is asked when containers are listed.
#[derive(Debug, Clone, PartialEq, Eq)]
pub struct ListContainers {
    pub verbose: bool,
    pub engine: Option<String>,
}

/// What is asked when the containers of this project are removed.
#[derive(Debug, Clone, PartialEq, Eq)]
pub struct RemoveContainers {
    pub verbose: bool,
    pub force: bool,
    pub execute: bool,
    pub engine: Option<String>,
}

/// What is asked when all containers of this project are removed.
#[derive(Debug, Clone, PartialEq, Eq)]
pub struct RemoveAllContainers {
    pub verbose: bool,
    pub force: bool,
    pub execute: bool,
    pub engine: Option<String>,
}

/// What can be asked about volumes.
#[derive(Debug, Clone, PartialEq, Eq)]
pub enum Volumes {
    List(ListVolumes),
    RemoveAll(RemoveAllVolumes),
    Prune(PruneVolumes),
    Create(CreateVolume),
    Remove(RemoveVolume),
}

/// What can be asked about containers.
#[derive(Debug, Clone, PartialEq, Eq)]
pub enum Containers {
    List(ListContainers),
    RemoveAll(RemoveAllContainers),
}

/// The string in an option, where it has one.
fn as_deref(engine: &Option<String>) -> (out: Option<&str>)
    ensures
        opt_ref(out) == crate::text::opt_str(*engine),
{
    match engine {
        Some(e) => Some(e.as_str()),
        None => None,
    }
}

impl Volumes {
    /// The engine that was asked for.
    pub open spec fn spec_engine(&self) -> Option<String> {
        match self {
            Volumes::List(l) => l.engine,
            Volumes::RemoveAll(l) => l.engine,
            Volumes::Prune(l) => l.engine,
            Volumes::Create(l) => l.engine,
            Volumes::Remove(l) => l.engine,
        }
    }

    /// The engine that was asked for.
    pub fn engine(&self) -> (out: Option<&str>)
        ensures
            opt_ref(out) == crate::text::opt_str(self.spec_engine()),
    {
        match self {
            Volumes::List(l) => as_deref(&l.engine),
            Volumes::RemoveAll(l) => as_deref(&l.engine),
            Volumes::Prune(l) => as_deref(&l.engine),
            Volumes::Create(l) => as_deref(&l.engine),
            Volumes::Remove(l) => as_deref(&l.engine),
        }
    }

    /// Whether the commands are traced.
    pub fn verbose(&self) -> (yes: bool)
        ensures
            yes == match self {
                Volumes::List(l) => l.verbose,
                Volumes::RemoveAll(l) => l.verbose,
                Volumes::Prune(l) => l.verbose,
                Volumes::Create(l) => l.verbose,
                Volumes::Remove(l) => l.verbose,
            },
    {
        match self {
            Volumes::List(l) => l.verbose,
            Volumes::RemoveAll(l) => l.verbose,
            Volumes::Prune(l) => l.verbose,
            Volumes::Create(l) => l.verbose,
            Volumes::Remove(l) => l.verbose,
        }
    }
}

impl Containers {
    /// The engine that was asked for.
    pub open spec fn spec_engine(&self) -> Option<String> {
        match self {
            Containers::List(l) => l.engine,
            Containers::RemoveAll(l) => l.engine,
        }
    }

    /// The engine that was asked for.
    pub fn engine(&self) -> (out: Option<&str>)
        ensures
            opt_ref(out) == crate::text::opt_str(self.spec_engine()),
    {
        match self {
            Containers::List(l) => as_deref(&l.engine),
            Containers::RemoveAll(l) => as_deref(&l.engine),
        }
    }

    /// Whether the commands are traced.
    pub fn verbose(&self) -> (yes: bool)
        ensures
            yes == match self {
                Containers::List(l) => l.verbose,
                Containers::RemoveAll(l) => l.verbose,
            },
    {
        match self {
            Containers::List(l) => l.verbose,
            Containers::RemoveAll(l) => l.verbose,
        }
    }
}

/// The command that lists the volumes of this project, one name on each
/// line.
pub fn cross_volumes_command(engine: &Engine) -> (cmd: Command)
    ensures
        cmd@ == engine_command(engine).arg("volume"@).arg("list"@).arg("--format"@).arg(
            "{{.Name}}"@,
        ).arg("--filter"@).arg("name=^cross-"@),
{
    let mut cmd = docker_subcommand(engine, "volume");
    cmd.arg("list");
    cmd.arg2("--format", "{{.Name}}");
    cmd.arg2("--filter", "name=^cross-");
    cmd
}

/// The volumes of this project in what the engine listed, in ascending
/// order.
pub fn get_cross_volumes(stdout: &str) -> (volumes: Vec<String>)
    ensures
        is_ascending(strs(volumes@)),
        strs(volumes@).to_multiset() == lines(stdout@).to_multiset(),
{
    sort_strings(&lines_of(stdout))
}

/// What is shown when volumes are listed: each volume, in ascending order.
pub fn list_volumes(stdout: &str) -> (shown: Vec<String>)
    ensures
        is_ascending(strs(shown@)),
        strs(shown@).to_multiset() == lines(stdout@).to_multiset(),
{
    get_cross_volumes(stdout)
}

/// The command that removes volumes.
pub open spec fn remove_volumes_cmd(engine: &Engine, volumes: Seq<Seq<char>>, force: bool) -> CommandView {
    if force {
        engine_command(engine).arg("volume"@).arg("rm"@).arg("--force"@).args(volumes)
    } else {
        engine_command(engine).arg("volume"@).arg("rm"@).args(volumes)
    }
}

/// The command that removes the volumes.
pub fn remove_volumes(engine: &Engine, volumes: &Vec<String>, force: bool) -> (cmd: Command)
    ensures
        cmd@ == remove_volumes_cmd(engine, strs(volumes@), force),
{
    let mut cmd = docker_subcommand(engine, "volume");
    cmd.arg("rm");
    if force {
        cmd.arg("--force");
    }
    cmd.args(volumes);
    cmd
}

/// The command that removes the volumes; none where there is no volume.
pub fn remove_all_volumes(engine: &Engine, volumes: &Vec<String>, force: bool) -> (cmd: Option<
    Command,
>)
    ensures
        cmd is Some <==> volumes@.len() > 0,
        cmd is Some ==> cmd->0@ == remove_volumes_cmd(engine, strs(volumes@), force),
{
    if volumes.len() == 0 {
        None
    } else {
        Some(remove_volumes(engine, volumes, force))
    }
}

/// The command that removes the volumes that no container uses.
pub fn prune_volumes(engine: &Engine) -> (cmd: Command)
    ensures
        cmd@ == engine_command(engine).arg("volume"@).arg("prune"@).arg("--force"@),
{
    let mut cmd = docker_subcommand(engine, "volume");
    cmd.arg2("prune", "--force");
    cmd
}

/// The command that removes the kept volume of `container`. A volume that
/// does not exist cannot be removed: that is an error that keeps the
/// volume's name.
pub fn remove_crate_volume(engine: &Engine, container: &str, exists: bool) -> (made: Result<
    Command,
    Error,
>)
    ensures
        exists <==> made is Ok,
        made is Ok ==> made->Ok_0@ == volume_rm_cmd(engine, keep_name(container@)),
        made is Err ==> (made->Err_0 matches Error::PreconditionViolated(name) && name@
            == keep_name(container@)),
{
    let volume = concat(container, "-keep");
    if !exists {
        return Err(Error::PreconditionViolated(volume));
    }
    Ok(volume_rm(engine, volume.as_str()))
}

/// The command that removes the kept volume of `container`.
pub fn remove_persistent_volume(engine: &Engine, container: &str, exists: bool) -> (made: Result<
    Command,
    Error,
>)
    ensures
        exists <==> made is Ok,
        made is Ok ==> made->Ok_0@ == volume_rm_cmd(engine, keep_name(container@)),
        made is Err ==> (made->Err_0 matches Error::PreconditionViolated(name) && name@
            == keep_name(container@)),
{
    remove_crate_volume(engine, container, exists)
}

/// The command that lists the containers of this project, each with its
/// state.
pub fn cross_containers_command(engine: &Engine) -> (cmd: Command)
    ensures
        cmd@ == engine_command(engine).arg("ps"@).arg("-a"@).arg("--format"@).arg(
            "{{.Names}}: {{.State}}"@,
        ).arg("--filter"@).arg("name=^cross-"@),
{
    let mut cmd = docker_subcommand(engine, "ps");
    cmd.arg("-a");
    cmd.arg2("--format", "{{.Names}}: {{.State}}");
    cmd.arg2("--filter", "name=^cross-");
    cmd
}

/// The containers of this project in what the engine listed, in ascending
/// order.
pub fn get_cross_containers(stdout: &str) -> (containers: Vec<String>)
    ensures
        is_ascending(strs(containers@)),
        strs(containers@).to_multiset() == lines(stdout@).to_multiset(),
{
    sort_strings(&lines_of(stdout))
}

/// What is shown when containers are listed: each container with its
/// state, in ascending order.
pub fn list_containers(stdout: &str) -> (shown: Vec<String>)
    ensures
        is_ascending(strs(shown@)),
        strs(shown@).to_multiset() == lines(stdout@).to_multiset(),
{
    get_cross_containers(stdout)
}

/// The state in a line of the form `name: state`, where the line has that
/// form and the state is known.
pub open spec fn line_state(line: Seq<char>) -> Option<ContainerState> {
    match after_first(line, ':') {
        Some(state) => state_of(trim(state)),
        None => None,
    }
}

/// The name in a line of the form `name: state`.
pub open spec fn line_name(line: Seq<char>) -> Seq<char> {
    trim(before_first(line, ':'))
}

/// Whether every line has the form `name: state` with a known state.
pub open spec fn all_states_known(all: Seq<Seq<char>>) -> bool {
    forall|i: int| 0 <= i < all.len() ==> line_state(#[trigger] all[i]) is Some
}

/// The names of those containers that are stopped, if `stopped`, else of
/// those that are not, in order.
pub open spec fn names_where(all: Seq<Seq<char>>, stopped: bool) -> Seq<Seq<char>>
    decreases all.len(),
{
    if all.len() == 0 {
        Seq::empty()
    } else {
        let before = names_where(all.drop_last(), stopped);
        match line_state(all.last()) {
            Some(state) => if state.spec_is_stopped() == stopped {
                before.push(line_name(all.last()))
            } else {
                before
            },
            None => before,
        }
    }
}

/// The predicate "has no known state".
pub open spec fn has_no_state() -> spec_fn(Seq<char>) -> bool {
    |line: Seq<char>| line_state(line) is None
}

/// Why the first line without a known state has none: it has not the
/// form `name: state`, or its state is not known.
pub open spec fn state_failure(all: Seq<Seq<char>>) -> ErrorView {
    let line = all[first_match(all, has_no_state())];
    match after_first(line, ':') {
        Some(state) => ErrorView::UnknownContainerState(trim(state)),
        None => ErrorView::Malformed(line),
    }
}

/// The commands that remove containers: the running ones are stopped,
/// then all are removed, the running ones first. None where there is no
/// container.
pub open spec fn remove_containers_cmds(
    engine: &Engine,
    running: Seq<Seq<char>>,
    stopped: Seq<Seq<char>>,
    force: bool,
) -> Seq<CommandView> {
    (if running.len() > 0 {
        seq![engine_command(engine).arg("stop"@).args(running)]
    } else {
        Seq::empty()
    }) + (if running.len() > 0 || stopped.len() > 0 {
        seq![
            (if force {
                engine_command(engine).arg("rm"@).arg("--force"@)
            } else {
                engine_command(engine).arg("rm"@)
            }).args(running).args(stopped),
        ]
    } else {
        Seq::empty()
    })
}

/// The views of a sequence of commands.
pub open spec fn command_views(v: Seq<Command>) -> Seq<CommandView> {
    Seq::new(v.len(), |i: int| v[i]@)
}

/// The commands that remove the containers, each of which is given as a
/// line of the form `name: state`. A line of another form, or with a state
/// that is not known, is an error.
pub fn remove_containers(engine: &Engine, containers: &Vec<String>, force: bool) -> (made: Result<
    Vec<Command>,
    Error,
>)
    ensures
        all_states_known(strs(containers@)) <==> made is Ok,
        made is Ok ==> command_views(made->Ok_0@) == remove_containers_cmds(
            engine,
            names_where(strs(containers@), false),
            names_where(strs(containers@), true),
            force,
        ),
        made is Err ==> made->Err_0@ == state_failure(strs(containers@)),
{
    let mut running: Vec<String> = Vec::new();
    let mut stopped: Vec<String> = Vec::new();
    let ghost all = strs(containers@);
    let mut i: usize = 0;
    assert(all.take(0) =~= Seq::empty());
    assert(strs(running@) =~= Seq::empty());
    assert(strs(stopped@) =~= Seq::empty());
    while i < containers.len()
        invariant
            i <= containers.len(),
            all == strs(containers@),
            all_states_known(all.take(i as int)),
            strs(running@) == names_where(all.take(i as int), false),
            strs(stopped@) == names_where(all.take(i as int), true),
        decreases containers.len() - i,
    {
        proof {
            let now = all.take(i + 1);
            assert(now.drop_last() =~= all.take(i as int));
            assert(now.last() == all[i as int]);
        }
        proof {
            assert forall|j: int| 0 <= j < i implies !has_no_state()(#[trigger] all[j]) by {
                assert(all.take(i as int)[j] == all[j]);
            }
        }
        let (name, state) = split_at_first(containers[i].as_str(), ':');
        let state = match state {
            Some(state) => state,
            None => {
                proof {
                    assert(line_state(all[i as int]) is None);
                    lemma_first_match_is(all, has_no_state(), i as int);
                }
                return Err(Error::Malformed(containers[i].clone()));
            },
        };
        let state = match parse_container_state(state.as_str()) {
            Ok(state) => state,
            Err(e) => {
                proof {
                    assert(line_state(all[i as int]) is None);
                    lemma_first_match_is(all, has_no_state(), i as int);
                }
                return Err(e);
            },
        };
        let name = trimmed(name.as_str());
        if state.is_stopped() {
            proof {
                lemma_strs_push(stopped@, name);
            }
            stopped.push(name);
        } else {
            proof {
                lemma_strs_push(running@, name);
            }
            running.push(name);
        }
        i += 1;
        assert forall|j: int| 0 <= j < i implies line_state(#[trigger] all.take(i as int)[j]) is Some by {
            if j < i - 1 {
                assert(all.take(i - 1)[j] == all.take(i as int)[j]);
            }
        }
    }
    assert(all.take(containers.len() as int) =~= all);
    let mut commands: Vec<Command> = Vec::new();
    if running.len() > 0 {
        let mut stop = docker_subcommand(engine, "stop");
        stop.args(&running);
        commands.push(stop);
    }
    if !(stopped.len() == 0 && running.len() == 0) {
        let mut rm = docker_subcommand(engine, "rm");
        if force {
            rm.arg("--force");
        }
        rm.args(&running);
        rm.args(&stopped);
        commands.push(rm);
    }
    assert(command_views(commands@) =~= remove_containers_cmds(
        engine,
        strs(running@),
        strs(stopped@),
        force,
    ));
    Ok(commands)
}

/// The commands that remove all containers of this project.
pub fn remove_all_containers(engine: &Engine, containers: &Vec<String>, force: bool) -> (made:
    Result<Vec<Command>, Error>)
    ensures
        all_states_known(strs(containers@)) <==> made is Ok,
        made is Ok ==> command_views(made->Ok_0@) == remove_containers_cmds(
            engine,
            names_where(strs(containers@), false),
            names_where(strs(containers@), true),
            force,
        ),
        made is Err ==> made->Err_0@ == state_failure(strs(containers@)),
{
    remove_containers(engine, containers, force)
}

/// Where the making of a kept volume stands. Each phase but `Done` has
/// one pending action.
#[derive(Debug, Clone, Copy, PartialEq, Eq, Structural)]
pub enum SetupPhase {
    /// Asking whether the volume exists already.
    ProbeVolume,
    /// Creating the volume.
    CreateVolume,
    /// Asking for the state of a container left by an earlier run.
    ProbeContainer,
    /// Stopping the container left by an earlier run.
    StopStale,
    /// Removing the container left by an earlier run.
    RemoveStale,
    /// Starting the container that holds the volume.
    Start,
    /// Copying the toolchain: the step with this index.
    Copy(usize),
    /// Stopping the container.
    Stop,
    /// Removing the container.
    Remove,
    /// Nothing is left to do.
    Done,
}

/// Why a kept volume was not made.
#[derive(Debug, Clone, Copy, PartialEq, Eq, Structural)]
pub enum SetupFailure {
    /// The volume exists already.
    VolumeExists,
    /// An engine command could not be run or reported a failure.
    ExecutionFailed,
    /// The engine named a container state that is not known.
    UnknownContainerState,
}

/// The part of the making of a kept volume that decides what happens
/// next.
#[derive(Debug, Clone, Copy, PartialEq, Eq, Structural)]
pub struct SetupState {
    pub phase: SetupPhase,
    /// Whether a container was started that is not yet removed.
    pub container_live: bool,
    /// Why the volume was not made, once that is known.
    pub failure: Option<SetupFailure>,
    /// The number of steps that copy the toolchain.
    pub steps: usize,
}

impl SetupState {
    pub open spec fn at(self, phase: SetupPhase) -> SetupState {
        SetupState { phase, ..self }
    }

    /// The phase in which the container is released, or `Done`.
    pub open spec fn release(self) -> SetupState {
        if self.container_live {
            self.at(SetupPhase::Stop)
        } else {
            self.at(SetupPhase::Done)
        }
    }

    /// Ends the making early. A failure that is already known is kept.
    pub open spec fn fail(self, failure: SetupFailure) -> SetupState {
        SetupState {
            failure: if self.failure is Some {
                self.failure
            } else {
                Some(failure)
            },
            ..self
        }.release()
    }

    /// The copy step `i`, or what follows the last one.
    pub open spec fn copy_from(self, i: nat) -> SetupState {
        if i < self.steps {
            self.at(SetupPhase::Copy(i as usize))
        } else {
            self.release()
        }
    }
}

/// The state in which the making of a kept volume begins.
pub open spec fn setup_initial(steps: usize) -> SetupState {
    SetupState { phase: SetupPhase::ProbeVolume, container_live: false, failure: None, steps }
}

/// The state that follows `s` when the pending action of `s` came out as
/// `ev`.
pub open spec fn setup_next(s: SetupState, ev: OutcomeView) -> SetupState {
    match s.phase {
        SetupPhase::ProbeVolume => if !ev.executed {
            s.fail(SetupFailure::ExecutionFailed)
        } else if ev.code == 0 {
            s.fail(SetupFailure::VolumeExists)
        } else {
            s.at(SetupPhase::CreateVolume)
        },
        SetupPhase::CreateVolume => if !ev.ok() {
            s.fail(SetupFailure::ExecutionFailed)
        } else {
            s.at(SetupPhase::ProbeContainer)
        },
        SetupPhase::ProbeContainer => if !ev.ok() {
            s.fail(SetupFailure::ExecutionFailed)
        } else {
            match state_of(trim(ev.stdout)) {
                None => s.fail(SetupFailure::UnknownContainerState),
                Some(found) => if !found.spec_is_stopped() {
                    s.at(SetupPhase::StopStale)
                } else if found.spec_is_present() {
                    s.at(SetupPhase::RemoveStale)
                } else {
                    s.at(SetupPhase::Start)
                },
            }
        },
        SetupPhase::StopStale => if !ev.ok() {
            s.fail(SetupFailure::ExecutionFailed)
        } else {
            s.at(SetupPhase::RemoveStale)
        },
        SetupPhase::RemoveStale => if !ev.ok() {
            s.fail(SetupFailure::ExecutionFailed)
        } else {
            s.at(SetupPhase::Start)
        },
        SetupPhase::Start => if !ev.executed {
            s.fail(SetupFailure::ExecutionFailed)
        } else if ev.code != 0 {
            SetupState { container_live: true, ..s }.fail(SetupFailure::ExecutionFailed)
        } else {
            SetupState { container_live: true, ..s }.copy_from(0)
        },
        SetupPhase::Copy(i) => if !ev.ok() {
            s.fail(SetupFailure::ExecutionFailed)
        } else {
            s.copy_from(i as nat + 1)
        },
        SetupPhase::Stop => s.at(SetupPhase::Remove),
        SetupPhase::Remove => SetupState { container_live: false, ..s }.at(SetupPhase::Done),
        SetupPhase::Done => s,
    }
}

/// The state after a series of outcomes.
pub open spec fn setup_run(s: SetupState, events: Seq<OutcomeView>) -> SetupState
    decreases events.len(),
{
    if events.len() == 0 {
        s
    } else {
        setup_next(setup_run(s, events.drop_last()), events.last())
    }
}

/// What holds of every state that the making of a volume passes through.
pub open spec fn setup_inv(s: SetupState) -> bool {
    &&& s.phase == SetupPhase::Done ==> !s.container_live
    &&& (s.phase == SetupPhase::Stop || s.phase == SetupPhase::Remove) ==> s.container_live
    &&& s.phase is Copy ==> s.container_live && s.failure is None
    &&& (s.phase == SetupPhase::ProbeVolume || s.phase == SetupPhase::CreateVolume || s.phase
        == SetupPhase::ProbeContainer || s.phase == SetupPhase::StopStale || s.phase
        == SetupPhase::RemoveStale || s.phase == SetupPhase::Start) ==> !s.container_live
        && s.failure is None
    &&& s.phase matches SetupPhase::Copy(i) ==> i < s.steps
    &&& s.failure == Some(SetupFailure::VolumeExists) ==> s.phase == SetupPhase::Done
}

/// Every state that the making of a volume passes through satisfies the
/// invariant: above all, once it is done no container is left, whether the
/// volume was made or not.
pub proof fn lemma_setup_keeps_inv(steps: usize, events: Seq<OutcomeView>)
    ensures
        setup_inv(setup_run(setup_initial(steps), events)),
        setup_run(setup_initial(steps), events).steps == steps,
    decreases events.len(),
{
    if events.len() > 0 {
        lemma_setup_keeps_inv(steps, events.drop_last());
    }
}

/// A volume that exists already is not made again: the first answer ends
/// the making, and no other command is sent.
pub proof fn lemma_existing_volume_is_refused(steps: usize, ev: OutcomeView)
    requires
        ev.executed,
        ev.code == 0,
    ensures
        setup_next(setup_initial(steps), ev).phase == SetupPhase::Done,
        setup_next(setup_initial(steps), ev).failure == Some(SetupFailure::VolumeExists),
{
}

/// How many steps the making of a volume can still take, at most.
pub open spec fn setup_steps_left(s: SetupState) -> nat {
    match s.phase {
        SetupPhase::ProbeVolume => 9 + s.steps as nat,
        SetupPhase::CreateVolume => 8 + s.steps as nat,
        SetupPhase::ProbeContainer => 7 + s.steps as nat,
        SetupPhase::StopStale => 6 + s.steps as nat,
        SetupPhase::RemoveStale => 5 + s.steps as nat,
        SetupPhase::Start => 4 + s.steps as nat,
        SetupPhase::Copy(i) => (3 + (if i < s.steps {
            s.steps - i
        } else {
            0
        })) as nat,
        SetupPhase::Stop => 2,
        SetupPhase::Remove => 1,
        SetupPhase::Done => 0,
    }
}

/// Every step brings the making of a volume closer to its end.
pub proof fn lemma_setup_ends(s: SetupState, ev: OutcomeView)
    requires
        setup_inv(s),
        s.phase != SetupPhase::Done,
    ensures
        setup_steps_left(setup_next(s, ev)) < setup_steps_left(s),
{
}

/// The state with another phase.
fn setup_at(s: SetupState, phase: SetupPhase) -> (t: SetupState)
    ensures
        t == s.at(phase),
{
    SetupState { phase, ..s }
}

/// The state in which the container is released.
fn setup_release(s: SetupState) -> (t: SetupState)
    ensures
        t == s.release(),
{
    if s.container_live {
        setup_at(s, SetupPhase::Stop)
    } else {
        setup_at(s, SetupPhase::Done)
    }
}

/// The state after a failure.
fn setup_fail(s: SetupState, failure: SetupFailure) -> (t: SetupState)
    ensures
        t == s.fail(failure),
{
    let failure = if s.failure.is_some() {
        s.failure
    } else {
        Some(failure)
    };
    setup_release(SetupState { failure, ..s })
}

/// The state at copy step `i`.
fn setup_copy_from(s: SetupState, i: usize) -> (t: SetupState)
    ensures
        t == s.copy_from(i as nat),
{
    if i < s.steps {
        setup_at(s, SetupPhase::Copy(i))
    } else {
        setup_release(s)
    }
}

/// The state that follows `s` when the pending action of `s` came out as
/// `outcome`.
pub fn setup_advance(s: SetupState, outcome: &Outcome) -> (t: SetupState)
    ensures
        t == setup_next(s, outcome@),
{
    let ok = outcome.success();
    match s.phase {
        SetupPhase::ProbeVolume => {
            if !outcome.executed {
                setup_fail(s, SetupFailure::ExecutionFailed)
            } else if outcome.code == 0 {
                setup_fail(s, SetupFailure::VolumeExists)
            } else {
                setup_at(s, SetupPhase::CreateVolume)
            }
        },
        SetupPhase::CreateVolume => {
            if !ok {
                setup_fail(s, SetupFailure::ExecutionFailed)
            } else {
                setup_at(s, SetupPhase::ProbeContainer)
            }
        },
        SetupPhase::ProbeContainer => {
            if !ok {
                setup_fail(s, SetupFailure::ExecutionFailed)
            } else {
                match parse_container_state(outcome.stdout.as_str()) {
                    Err(_) => setup_fail(s, SetupFailure::UnknownContainerState),
                    Ok(found) => {
                        if !found.is_stopped() {
                            setup_at(s, SetupPhase::StopStale)
                        } else if found.is_present() {
                            setup_at(s, SetupPhase::RemoveStale)
                        } else {
                            setup_at(s, SetupPhase::Start)
                        }
                    },
                }
            }
        },
        SetupPhase::StopStale => {
            if !ok {
                setup_fail(s, SetupFailure::ExecutionFailed)
            } else {
                setup_at(s, SetupPhase::RemoveStale)
            }
        },
        SetupPhase::RemoveStale => {
            if !ok {
                setup_fail(s, SetupFailure::ExecutionFailed)
            } else {
                setup_at(s, SetupPhase::Start)
            }
        },
        SetupPhase::Start => {
            if !outcome.executed {
                setup_fail(s, SetupFailure::ExecutionFailed)
            } else if outcome.code != 0 {
                setup_fail(SetupState { container_live: true, ..s }, SetupFailure::ExecutionFailed)
            } else {
                setup_copy_from(SetupState { container_live: true, ..s }, 0)
            }
        },
        SetupPhase::Copy(i) => {
            if !ok {
                setup_fail(s, SetupFailure::ExecutionFailed)
            } else if i < usize::MAX {
                setup_copy_from(s, i + 1)
            } else {
                setup_release(s)
            }
        },
        SetupPhase::Stop => setup_at(s, SetupPhase::Remove),
        SetupPhase::Remove => setup_at(SetupState { container_live: false, ..s }, SetupPhase::Done),
        SetupPhase::Done => s,
    }
}

/// What the caller is to do next while a kept volume is made.
#[derive(Debug, PartialEq, Eq)]
pub enum SetupAction {
    /// Perform the step and hand back its outcome.
    Do(Step),
    /// Nothing is left to do: the volume was made, or this is why not.
    Finish(Result<(), Error>),
}

/// The command that starts the container that holds the volume while the
/// volume is filled.
pub open spec fn setup_start_cmd(
    engine: &Engine,
    container: Seq<char>,
    volume: Seq<char>,
    tty: bool,
) -> CommandView {
    let head = engine_command(engine).arg("run"@).arg("--name"@).arg(container).arg("-v"@).arg(
        volume + ":"@ + MOUNT_PREFIX@,
    ).arg("-d"@);
    (if tty {
        head.arg("-t"@)
    } else {
        head
    }).arg("ubuntu:16.04"@).arg("sh"@).arg("-c"@).arg("sleep infinity"@)
}

/// The making of one kept volume: what it sends to the engine, and where
/// it stands.
#[derive(Debug, Clone, PartialEq, Eq)]
pub struct VolumeSetup {
    pub engine: Engine,
    /// The name of the container that holds the volume while it is
    /// filled.
    pub container: String,
    /// The name of the volume.
    pub volume: String,
    /// Whether the container is given a terminal.
    pub tty: bool,
    /// The steps that copy the toolchain.
    pub steps: Vec<Step>,
    pub state: SetupState,
    /// The state name that was not understood, where one was not.
    pub stale: String,
}

impl VolumeSetup {
    /// The making is in a state that it can reach, and counts its steps.
    pub open spec fn wf(&self) -> bool {
        setup_inv(self.state) && self.state.steps == self.steps@.len()
    }

    /// The step that is pending, in every phase but the last.
    pub open spec fn pending(&self) -> StepView {
        let engine = &self.engine;
        match self.state.phase {
            SetupPhase::ProbeVolume => StepView::Run(volume_exists_cmd(engine, self.volume@)),
            SetupPhase::CreateVolume => StepView::Run(volume_create_cmd(engine, self.volume@)),
            SetupPhase::ProbeContainer => StepView::Run(
                container_state_cmd(engine, self.container@),
            ),
            SetupPhase::StopStale => StepView::Run(container_stop_cmd(engine, self.container@)),
            SetupPhase::RemoveStale => StepView::Run(container_rm_cmd(engine, self.container@)),
            SetupPhase::Start => StepView::Run(
                setup_start_cmd(engine, self.container@, self.volume@, self.tty),
            ),
            SetupPhase::Copy(i) => self.steps@[i as int]@,
            SetupPhase::Stop => StepView::Run(container_stop_cmd(engine, self.container@)),
            SetupPhase::Remove => StepView::Run(container_rm_cmd(engine, self.container@)),
            SetupPhase::Done => StepView::Run(bare(Seq::empty())),
        }
    }

    /// Whether `r` tells how the making ended.
    pub open spec fn tells(&self, r: Result<(), Error>) -> bool {
        match self.state.failure {
            None => r is Ok,
            Some(SetupFailure::VolumeExists) => (r matches Err(Error::PreconditionViolated(name))
                && name@ == self.volume@),
            Some(SetupFailure::ExecutionFailed) => r == Err::<(), Error>(Error::ExecutionFailed),
            Some(SetupFailure::UnknownContainerState) => (r matches Err(
                Error::UnknownContainerState(name),
            ) && name@ == self.stale@),
        }
    }

    /// Whether nothing is left to do.
    pub fn is_done(&self) -> (done: bool)
        ensures
            done == (self.state.phase == SetupPhase::Done),
    {
        matches!(self.state.phase, SetupPhase::Done)
    }

    /// Whether the making is in a state that it can reach, and counts its
    /// steps.
    pub fn is_consistent(&self) -> (ok: bool)
        ensures
            ok == self.wf(),
    {
        let s = self.state;
        let early = matches!(
            s.phase,
            SetupPhase::ProbeVolume | SetupPhase::CreateVolume | SetupPhase::ProbeContainer
                | SetupPhase::StopStale | SetupPhase::RemoveStale | SetupPhase::Start
        );
        let copying = matches!(s.phase, SetupPhase::Copy(_));
        let in_bounds = match s.phase {
            SetupPhase::Copy(i) => i < s.steps,
            _ => true,
        };
        let refused = match s.failure {
            Some(SetupFailure::VolumeExists) => true,
            _ => false,
        };
        (!matches!(s.phase, SetupPhase::Done) || !s.container_live) && (!matches!(
            s.phase,
            SetupPhase::Stop | SetupPhase::Remove
        ) || s.container_live) && (!copying || (s.container_live && s.failure.is_none())) && (
        !early || (!s.container_live && s.failure.is_none())) && in_bounds && (!refused || matches!(
            s.phase,
            SetupPhase::Done
        )) && s.steps == self.steps.len()
    }

    /// What the caller is to do next.
    pub fn action(&self) -> (out: SetupAction)
        requires
            self.wf(),
        ensures
            self.state.phase != SetupPhase::Done ==> (out matches SetupAction::Do(step) && step@
                == self.pending()),
            self.state.phase == SetupPhase::Done ==> (out matches SetupAction::Finish(r)
                && self.tells(r)),
    {
        let engine = &self.engine;
        let container = self.container.as_str();
        let volume = self.volume.as_str();
        match self.state.phase {
            SetupPhase::ProbeVolume => SetupAction::Do(Step::Run(volume_exists(engine, volume))),
            SetupPhase::CreateVolume => SetupAction::Do(Step::Run(volume_create(engine, volume))),
            SetupPhase::ProbeContainer => SetupAction::Do(
                Step::Run(container_state(engine, container)),
            ),
            SetupPhase::StopStale => SetupAction::Do(Step::Run(container_stop(engine, container))),
            SetupPhase::RemoveStale => SetupAction::Do(Step::Run(container_rm(engine, container))),
            SetupPhase::Start => {
                let mut cmd = docker_subcommand(engine, "run");
                cmd.arg2("--name", container);
                cmd.arg2("-v", concat3(volume, ":", MOUNT_PREFIX).as_str());
                cmd.arg("-d");
                if self.tty {
                    cmd.arg("-t");
                }
                cmd.arg("ubuntu:16.04");
                cmd.arg2("sh", "-c");
                cmd.arg("sleep infinity");
                SetupAction::Do(Step::Run(cmd))
            },
            SetupPhase::Copy(i) => SetupAction::Do(clone_step(&self.steps[i])),
            SetupPhase::Stop => SetupAction::Do(Step::Run(container_stop(engine, container))),
            SetupPhase::Remove => SetupAction::Do(Step::Run(container_rm(engine, container))),
            SetupPhase::Done => {
                let result = match self.state.failure {
                    None => Ok(()),
                    Some(SetupFailure::VolumeExists) => Err(
                        Error::PreconditionViolated(self.volume.clone()),
                    ),
                    Some(SetupFailure::ExecutionFailed) => Err(Error::ExecutionFailed),
                    Some(SetupFailure::UnknownContainerState) => Err(
                        Error::UnknownContainerState(self.stale.clone()),
                    ),
                };
                SetupAction::Finish(result)
            },
        }
    }

    /// Takes in the outcome of the pending step and moves on.
    pub fn step(&mut self, outcome: &Outcome)
        requires
            old(self).wf(),
        ensures
            final(self).wf(),
            final(self).state == setup_next(old(self).state, outcome@),
            final(self).engine == old(self).engine,
            final(self).container == old(self).container,
            final(self).volume == old(self).volume,
            final(self).tty == old(self).tty,
            final(self).steps == old(self).steps,
            final(self).stale@ == (if old(self).state.phase == SetupPhase::ProbeContainer {
                trim(outcome.stdout@)
            } else {
                old(self).stale@
            }),
    {
        if matches!(self.state.phase, SetupPhase::ProbeContainer) {
            self.stale = trimmed(outcome.stdout.as_str());
        }
        self.state = setup_advance(self.state, outcome);
    }
}

/// The making of the kept volume of `container`, filled with the
/// toolchain. It fails at its first step where the volume exists already.
pub fn create_crate_volume(
    engine: Engine,
    container: String,
    triple: &str,
    dirs: &Directories,
    facts: &Facts,
    tty: bool,
) -> (made: Result<VolumeSetup, Error>)
    ensures
        parent(trim(facts.libdir@)) is Some <==> made is Ok,
        made is Ok ==> ({
            let setup = made->Ok_0;
            &&& setup.wf()
            &&& setup.engine == engine
            &&& setup.container == container
            &&& setup.volume@ == keep_name(container@)
            &&& setup.tty == tty
            &&& steps_view(setup.steps@) == toolchain_steps(
                &engine,
                container@,
                triple@,
                dirs,
                facts,
            )
            &&& setup.state == setup_initial(setup.steps.len())
        }),
        made is Err ==> made->Err_0@ == ErrorView::NoParent(trim(facts.libdir@)),
{
    let steps = match stage_toolchain(&engine, container.as_str(), triple, dirs, facts) {
        Ok(steps) => steps,
        Err(e) => {
            return Err(e);
        },
    };
    let volume = concat(container.as_str(), "-keep");
    let state = SetupState {
        phase: SetupPhase::ProbeVolume,
        container_live: false,
        failure: None,
        steps: steps.len(),
    };
    Ok(VolumeSetup { engine, container, volume, tty, steps, state, stale: String::new() })
}

/// The making of the kept volume of `container`.
pub fn create_persistent_volume(
    engine: Engine,
    container: String,
    triple: &str,
    dirs: &Directories,
    facts: &Facts,
    tty: bool,
) -> (made: Result<VolumeSetup, Error>)
    ensures
        parent(trim(facts.libdir@)) is Some <==> made is Ok,
        made is Ok ==> ({
            let setup = made->Ok_0;
            &&& setup.wf()
            &&& setup.engine == engine
            &&& setup.container == container
            &&& setup.volume@ == keep_name(container@)
            &&& setup.tty == tty
            &&& steps_view(setup.steps@) == toolchain_steps(
                &engine,
                container@,
                triple@,
                dirs,
                facts,
            )
            &&& setup.state == setup_initial(setup.steps.len())
        }),
        made is Err ==> made->Err_0@ == ErrorView::NoParent(trim(facts.libdir@)),
{
    create_crate_volume(engine, container, triple, dirs, facts, tty)
}

} // verus!
