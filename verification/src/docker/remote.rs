//! Building on an engine that cannot see this machine's files: the data is
//! copied into a volume, the build runs in a container that holds the
//! volume, and the results are copied back.

use crate::command::{Command, CommandView};
use crate::docker::engine::{docker_subcommand, engine_command, Engine};
use crate::errors::Error;
use crate::path::{parent, parent_of, push_component, push_path};
use crate::cargo::{CargoMetadata, Package};
use crate::path::{path_eq, same_path};
use crate::text::{
    chars_of, concat, concat3, first_match, lemma_first_match_is, lemma_middle_is_determined,
    str_eq, string_of_range, strs, trim, trimmed,
};
use vstd::prelude::*;
use vstd::string::StringSliceAdditionalSpecFns;

verus! {

/// The lifecycle state that the engine reports for a container.
#[derive(Debug, Clone, Copy, PartialEq, Eq, Structural)]
pub enum ContainerState {
    Created,
    Running,
    Paused,
    Restarting,
    Dead,
    Exited,
    DoesNotExist,
}

/// The state that a name stands for, where it is one of the seven known
/// names; the empty name stands for a container that does not exist.
pub open spec fn state_of(name: Seq<char>) -> Option<ContainerState> {
    if name == "created"@ {
        Some(ContainerState::Created)
    } else if name == "running"@ {
        Some(ContainerState::Running)
    } else if name == "paused"@ {
        Some(ContainerState::Paused)
    } else if name == "restarting"@ {
        Some(ContainerState::Restarting)
    } else if name == "dead"@ {
        Some(ContainerState::Dead)
    } else if name == "exited"@ {
        Some(ContainerState::Exited)
    } else if name == ""@ {
        Some(ContainerState::DoesNotExist)
    } else {
        None
    }
}

impl ContainerState {
    /// The state that `state` names. Any name but the seven known ones is
    /// an error that keeps the name.
    pub fn new(state: &str) -> (made: Result<ContainerState, Error>)
        ensures
            match made {
                Ok(s) => state_of(state@) == Some(s),
                Err(e) => state_of(state@) is None && (e matches Error::UnknownContainerState(
                    name,
                ) && name@ == state@),
            },
    {
        if str_eq(state, "created") {
            Ok(ContainerState::Created)
        } else if str_eq(state, "running") {
            Ok(ContainerState::Running)
        } else if str_eq(state, "paused") {
            Ok(ContainerState::Paused)
        } else if str_eq(state, "restarting") {
            Ok(ContainerState::Restarting)
        } else if str_eq(state, "dead") {
            Ok(ContainerState::Dead)
        } else if str_eq(state, "exited") {
            Ok(ContainerState::Exited)
        } else if str_eq(state, "") {
            Ok(ContainerState::DoesNotExist)
        } else {
            Err(Error::UnknownContainerState(state.to_owned()))
        }
    }

    /// Whether nothing of the container runs: it has exited or does not
    /// exist.
    pub open spec fn spec_is_stopped(&self) -> bool {
        *self == ContainerState::Exited || *self == ContainerState::DoesNotExist
    }

    #[verifier::when_used_as_spec(spec_is_stopped)]
    pub fn is_stopped(&self) -> (stopped: bool)
        ensures
            stopped == self.spec_is_stopped(),
    {
        matches!(self, ContainerState::Exited | ContainerState::DoesNotExist)
    }

    /// Whether the engine knows the container at all.
    pub open spec fn spec_is_present(&self) -> bool {
        *self != ContainerState::DoesNotExist
    }

    #[verifier::when_used_as_spec(spec_is_present)]
    pub fn is_present(&self) -> (known: bool)
        ensures
            known == self.spec_is_present(),
    {
        !matches!(self, ContainerState::DoesNotExist)
    }
}

/// The volume that holds the data of a build.
#[derive(Debug, Clone, PartialEq, Eq)]
pub enum VolumeId {
    /// A volume that the user made and keeps: it is never removed here.
    Keep(String),
    /// A volume of this build alone, removed when the build is over.
    Discard(String),
}

/// The name of the volume that the user may keep for `container`.
pub open spec fn keep_name(container: Seq<char>) -> Seq<char> {
    container + "-keep"@
}

/// The name of the volume of `container`: the kept one where it exists,
/// else one named like the container.
pub open spec fn volume_name(container: Seq<char>, discard: bool) -> Seq<char> {
    if discard {
        container
    } else {
        keep_name(container)
    }
}

impl VolumeId {
    /// The volume's name.
    pub open spec fn name(&self) -> Seq<char> {
        match self {
            VolumeId::Keep(s) => s@,
            VolumeId::Discard(s) => s@,
        }
    }

    /// The volume for `container`: the kept volume where `keep_exists`
    /// says that the engine has it, else a volume to discard.
    pub fn create(container: &str, keep_exists: bool) -> (id: VolumeId)
        ensures
            keep_exists <==> id is Keep,
            id.name() == volume_name(container@, !keep_exists),
    {
        if keep_exists {
            VolumeId::Keep(concat(container, "-keep"))
        } else {
            VolumeId::Discard(container.to_owned())
        }
    }

    /// The volume's name.
    pub fn as_ref(&self) -> (name: &str)
        ensures
            name@ == self.name(),
    {
        match self {
            VolumeId::Keep(s) => s.as_str(),
            VolumeId::Discard(s) => s.as_str(),
        }
    }
}

/// The command that creates `volume`.
pub open spec fn volume_create_cmd(engine: &Engine, volume: Seq<char>) -> CommandView {
    engine_command(engine).arg("volume"@).arg("create"@).arg(volume)
}

/// The command that removes `volume`.
pub open spec fn volume_rm_cmd(engine: &Engine, volume: Seq<char>) -> CommandView {
    engine_command(engine).arg("volume"@).arg("rm"@).arg(volume)
}

/// The command that succeeds exactly where `volume` exists.
pub open spec fn volume_exists_cmd(engine: &Engine, volume: Seq<char>) -> CommandView {
    engine_command(engine).arg("volume"@).arg("inspect"@).arg(volume)
}

/// The command that stops `container`.
pub open spec fn container_stop_cmd(engine: &Engine, container: Seq<char>) -> CommandView {
    engine_command(engine).arg("stop"@).arg(container)
}

/// The command that removes `container`.
pub open spec fn container_rm_cmd(engine: &Engine, container: Seq<char>) -> CommandView {
    engine_command(engine).arg("rm"@).arg(container)
}

/// The command that prints the state of `container`, and nothing where
/// there is no such container.
pub open spec fn container_state_cmd(engine: &Engine, container: Seq<char>) -> CommandView {
    engine_command(engine).arg("ps"@).arg("-a"@).arg("--filter"@).arg("name="@ + container).arg(
        "--format"@,
    ).arg("{{.State}}"@)
}

/// The command that creates `volume`.
pub fn volume_create(engine: &Engine, volume: &str) -> (cmd: Command)
    ensures
        cmd@ == volume_create_cmd(engine, volume@),
{
    let mut cmd = docker_subcommand(engine, "volume");
    cmd.arg2("create", volume);
    cmd
}

/// The command that removes `volume`.
pub fn volume_rm(engine: &Engine, volume: &str) -> (cmd: Command)
    ensures
        cmd@ == volume_rm_cmd(engine, volume@),
{
    let mut cmd = docker_subcommand(engine, "volume");
    cmd.arg2("rm", volume);
    cmd
}

/// The command that succeeds exactly where `volume` exists.
pub fn volume_exists(engine: &Engine, volume: &str) -> (cmd: Command)
    ensures
        cmd@ == volume_exists_cmd(engine, volume@),
{
    let mut cmd = docker_subcommand(engine, "volume");
    cmd.arg2("inspect", volume);
    cmd
}

/// The command that stops `container`.
pub fn container_stop(engine: &Engine, container: &str) -> (cmd: Command)
    ensures
        cmd@ == container_stop_cmd(engine, container@),
{
    let mut cmd = docker_subcommand(engine, "stop");
    cmd.arg(container);
    cmd
}

/// The command that removes `container`.
pub fn container_rm(engine: &Engine, container: &str) -> (cmd: Command)
    ensures
        cmd@ == container_rm_cmd(engine, container@),
{
    let mut cmd = docker_subcommand(engine, "rm");
    cmd.arg(container);
    cmd
}

/// The command that prints the state of `container`.
pub fn container_state(engine: &Engine, container: &str) -> (cmd: Command)
    ensures
        cmd@ == container_state_cmd(engine, container@),
{
    let mut cmd = docker_subcommand(engine, "ps");
    cmd.arg("-a");
    cmd.arg2("--filter", concat("name=", container).as_str());
    cmd.arg2("--format", "{{.State}}");
    cmd
}

/// The state that the output of the state command stands for.
pub fn parse_container_state(stdout: &str) -> (made: Result<ContainerState, Error>)
    ensures
        match made {
            Ok(s) => state_of(trim(stdout@)) == Some(s),
            Err(e) => state_of(trim(stdout@)) is None && (e matches Error::UnknownContainerState(
                name,
            ) && name@ == trim(stdout@)),
        },
{
    ContainerState::new(trimmed(stdout).as_str())
}

/// One step of copying data into the container.
#[derive(Debug, Clone, PartialEq, Eq)]
pub enum Step {
    /// Run the command.
    Run(Command),
    /// Copy the tree at `src` to `dst` in the container, without the
    /// directories that are marked as caches.
    CopyClean { src: String, dst: String },
    /// Copy the toolchain's library directory `lib` to `dst` in the
    /// container; of its part `rustlib`, only the files and the
    /// directories `src` and `etc`.
    CopyLibs { lib: String, rustlib: String, dst: String },
}

/// The plain values of a `Step`.
pub ghost enum StepView {
    Run(CommandView),
    CopyClean { src: Seq<char>, dst: Seq<char> },
    CopyLibs { lib: Seq<char>, rustlib: Seq<char>, dst: Seq<char> },
}

impl View for Step {
    type V = StepView;

    open spec fn view(&self) -> StepView {
        match self {
            Step::Run(cmd) => StepView::Run(cmd@),
            Step::CopyClean { src, dst } => StepView::CopyClean { src: src@, dst: dst@ },
            Step::CopyLibs { lib, rustlib, dst } => StepView::CopyLibs {
                lib: lib@,
                rustlib: rustlib@,
                dst: dst@,
            },
        }
    }
}

/// The views of a sequence of steps.
pub open spec fn steps_view(v: Seq<Step>) -> Seq<StepView> {
    Seq::new(v.len(), |i: int| v[i]@)
}

/// Appends a step.
pub fn push_step(steps: &mut Vec<Step>, step: Step)
    ensures
        steps_view(final(steps)@) == steps_view(old(steps)@).push(step@),
{
    steps.push(step);
    assert(steps_view(steps@) =~= steps_view(old(steps)@).push(step@));
}

/// Appends all of `more`.
pub fn append_steps(steps: &mut Vec<Step>, more: Vec<Step>)
    ensures
        steps_view(final(steps)@) == steps_view(old(steps)@) + steps_view(more@),
{
    let mut more = more;
    let ghost a = steps@;
    let ghost b = more@;
    steps.append(&mut more);
    assert(steps_view(steps@) =~= steps_view(a) + steps_view(b));
}

/// The command that makes the directory `dir`, with its parents, inside
/// the container.
pub open spec fn create_volume_dir_cmd(
    engine: &Engine,
    container: Seq<char>,
    dir: Seq<char>,
) -> CommandView {
    engine_command(engine).arg("exec"@).arg(container).arg("sh"@).arg("-c"@).arg(
        "mkdir -p '"@ + dir + "'"@,
    )
}

/// The command that copies `src` of this machine to `dst` in the
/// container.
pub open spec fn copy_volume_files_cmd(
    engine: &Engine,
    container: Seq<char>,
    src: Seq<char>,
    dst: Seq<char>,
) -> CommandView {
    engine_command(engine).arg("cp"@).arg("-a"@).arg(src).arg(container + ":"@ + dst)
}

/// The command that makes the directory `dir` inside the container.
pub fn create_volume_dir(engine: &Engine, container: &str, dir: &str) -> (cmd: Command)
    ensures
        cmd@ == create_volume_dir_cmd(engine, container@, dir@),
{
    let mut cmd = docker_subcommand(engine, "exec");
    cmd.arg(container);
    cmd.arg2("sh", "-c");
    cmd.arg(concat3("mkdir -p '", dir, "'").as_str());
    cmd
}

/// The command that copies `src` of this machine to `dst` in the
/// container.
pub fn copy_volume_files(engine: &Engine, container: &str, src: &str, dst: &str) -> (cmd: Command)
    ensures
        cmd@ == copy_volume_files_cmd(engine, container@, src@, dst@),
{
    let mut cmd = docker_subcommand(engine, "cp");
    cmd.arg("-a");
    cmd.arg(src);
    cmd.arg(concat3(container, ":", dst).as_str());
    cmd
}

/// The step that copies `src` to `dst`: as it is where caches are wanted,
/// else without the directories marked as caches.
pub open spec fn copy_step(
    engine: &Engine,
    container: Seq<char>,
    src: Seq<char>,
    dst: Seq<char>,
    copy_cache: bool,
) -> StepView {
    if copy_cache {
        StepView::Run(copy_volume_files_cmd(engine, container, src, dst))
    } else {
        StepView::CopyClean { src, dst }
    }
}

/// The step that copies `src` to `dst`.
pub fn copy_tree(engine: &Engine, container: &str, src: &str, dst: &str, copy_cache: bool) -> (step:
    Step)
    ensures
        step@ == copy_step(engine, container@, src@, dst@, copy_cache),
{
    if copy_cache {
        Step::Run(copy_volume_files(engine, container, src, dst))
    } else {
        Step::CopyClean { src: src.to_owned(), dst: dst.to_owned() }
    }
}

/// The bytes that mark a directory as a cache, as the first bytes of the
/// file `CACHEDIR.TAG` in it.
pub open spec fn cachedir_signature() -> Seq<u8> {
    "Signature: 8a477f597d28d172789f06886806bc55".spec_bytes()
}

/// The marker has forty-three bytes.
pub proof fn lemma_signature_length()
    ensures
        cachedir_signature().len() == 43,
{
    reveal_strlit("Signature: 8a477f597d28d172789f06886806bc55");
    let s = "Signature: 8a477f597d28d172789f06886806bc55";
    assert(vstd::string::is_ascii(s)) by {
        assert forall|i: int| 0 <= i < s@.len() implies (s@[i] as u32) < 128 by {}
    }
    vstd::string::is_ascii_spec_bytes(s);
}

/// Whether `buffer` is the cache marker: the same bytes, neither fewer nor
/// more.
pub fn is_cachedir_tag(buffer: &[u8]) -> (yes: bool)
    ensures
        yes == (buffer@ == cachedir_signature()),
{
    let want = "Signature: 8a477f597d28d172789f06886806bc55".as_bytes();
    if buffer.len() != want.len() {
        return false;
    }
    let mut i: usize = 0;
    while i < want.len()
        invariant
            i <= want.len(),
            want.len() == buffer.len(),
            want@ == cachedir_signature(),
            forall|j: int| 0 <= j < i ==> buffer@[j] == want@[j],
        decreases want.len() - i,
    {
        if buffer[i] != want[i] {
            return false;
        }
        i += 1;
    }
    assert(buffer@ =~= want@);
    true
}

/// Whether a directory entry is a cache that is left out of a copy: a
/// directory whose `CACHEDIR.TAG` begins with the marker. `tag` holds the
/// first bytes of that file, as many as the marker has, where the file
/// exists and has that many.
pub fn is_cachedir(is_dir: bool, tag: Option<&[u8]>) -> (yes: bool)
    ensures
        yes == (is_dir && tag is Some && tag->0@ == cachedir_signature()),
{
    if is_dir {
        match tag {
            Some(buffer) => is_cachedir_tag(buffer),
            None => false,
        }
    } else {
        false
    }
}

/// Whether an entry of the toolchain's library directory is left out of
/// its copy: the directory `rustlib` at the top, which is copied apart.
pub fn skip_rustlib(depth: u32, name: &str) -> (skip: bool)
    ensures
        skip == (depth == 0 && name@ == "rustlib"@),
{
    depth == 0 && str_eq(name, "rustlib")
}

/// Whether an entry of `rustlib` is left out of its copy: at the top,
/// whatever is neither a file nor one of the directories `src` and `etc`,
/// and whatever has no known type. These are the libraries of the other
/// targets.
pub fn skip_target_libs(depth: u32, is_file: Option<bool>, name: &str) -> (skip: bool)
    ensures
        skip == (depth == 0 && match is_file {
            Some(file) => !(file || name@ == "src"@ || name@ == "etc"@),
            None => true,
        }),
{
    if depth != 0 {
        return false;
    }
    match is_file {
        Some(file) => !(file || str_eq(name, "src") || str_eq(name, "etc")),
        None => true,
    }
}

/// The place of the target's libraries below a toolchain directory `dir`.
pub open spec fn rustlib_of(dir: Seq<char>, triple: Seq<char>) -> Seq<char> {
    push_component(rustlib_dir(dir), triple)
}

/// The place of all targets' libraries below a toolchain directory `dir`.
pub open spec fn rustlib_dir(dir: Seq<char>) -> Seq<char> {
    push_component(push_component(dir, "lib"@), "rustlib"@)
}

/// The place of all targets' libraries below `dir`.
pub fn rustlib_path(dir: &str) -> (out: String)
    ensures
        out@ == rustlib_dir(dir@),
{
    push_path(push_path(dir, "lib").as_str(), "rustlib")
}

/// The steps that copy xargo's libraries for the target: none where xargo
/// has none for it, else the directory above them is made and they are
/// copied.
pub open spec fn xargo_steps(
    engine: &Engine,
    container: Seq<char>,
    xargo_dir: Seq<char>,
    triple: Seq<char>,
    mount_prefix: Seq<char>,
    exists: bool,
) -> Seq<StepView> {
    let dst = push_component(mount_prefix, "xargo"@);
    if exists {
        seq![
            StepView::Run(create_volume_dir_cmd(engine, container, rustlib_dir(dst))),
            StepView::Run(
                copy_volume_files_cmd(
                    engine,
                    container,
                    rustlib_of(xargo_dir, triple),
                    rustlib_of(dst, triple),
                ),
            ),
        ]
    } else {
        Seq::empty()
    }
}

/// The steps that copy xargo's libraries for the target. `exists` says
/// whether xargo has libraries for it.
pub fn copy_volume_xargo(
    engine: &Engine,
    container: &str,
    xargo_dir: &str,
    triple: &str,
    mount_prefix: &str,
    exists: bool,
) -> (steps: Vec<Step>)
    ensures
        steps_view(steps@) == xargo_steps(
            engine,
            container@,
            xargo_dir@,
            triple@,
            mount_prefix@,
            exists,
        ),
{
    let mut steps: Vec<Step> = Vec::new();
    assert(steps_view(steps@) =~= Seq::empty());
    if exists {
        let dst = push_path(mount_prefix, "xargo");
        let above = rustlib_path(dst.as_str());
        let to = push_path(above.as_str(), triple);
        let from = push_path(rustlib_path(xargo_dir).as_str(), triple);
        push_step(&mut steps, Step::Run(create_volume_dir(engine, container, above.as_str())));
        push_step(
            &mut steps,
            Step::Run(copy_volume_files(engine, container, from.as_str(), to.as_str())),
        );
        assert(steps_view(steps@) =~= xargo_steps(
            engine,
            container@,
            xargo_dir@,
            triple@,
            mount_prefix@,
            exists,
        ));
    }
    steps
}

/// Whether an entry of cargo's home is copied: not a hidden one, and
/// neither the checkouts nor the registry, which cargo can fetch again.
pub open spec fn is_copied_entry(name: Seq<char>) -> bool {
    !(name.len() > 0 && name[0] == '.') && name != "git"@ && name != "registry"@
}

/// The copies of those of `entries` that are copied, in order.
pub open spec fn entry_copies(
    engine: &Engine,
    container: Seq<char>,
    cargo_dir: Seq<char>,
    dst: Seq<char>,
    entries: Seq<Seq<char>>,
) -> Seq<StepView>
    decreases entries.len(),
{
    if entries.len() == 0 {
        Seq::empty()
    } else {
        let before = entry_copies(engine, container, cargo_dir, dst, entries.drop_last());
        if is_copied_entry(entries.last()) {
            before.push(
                StepView::Run(
                    copy_volume_files_cmd(
                        engine,
                        container,
                        push_component(cargo_dir, entries.last()),
                        dst,
                    ),
                ),
            )
        } else {
            before
        }
    }
}

/// The steps that copy cargo's home: all of it where the registry is
/// wanted, else its directory is made and the entries that are copied
/// follow one by one.
pub open spec fn cargo_steps(
    engine: &Engine,
    container: Seq<char>,
    cargo_dir: Seq<char>,
    mount_prefix: Seq<char>,
    copy_registry: bool,
    entries: Seq<Seq<char>>,
) -> Seq<StepView> {
    let dst = push_component(mount_prefix, "cargo"@);
    if copy_registry {
        seq![StepView::Run(copy_volume_files_cmd(engine, container, cargo_dir, dst))]
    } else {
        seq![StepView::Run(create_volume_dir_cmd(engine, container, dst))] + entry_copies(
            engine,
            container,
            cargo_dir,
            dst,
            entries,
        )
    }
}

/// Whether an entry of cargo's home is copied.
pub fn copies_entry(name: &str) -> (yes: bool)
    ensures
        yes == is_copied_entry(name@),
{
    let c = chars_of(name);
    let hidden = c.len() > 0 && c[0] == '.';
    !hidden && !str_eq(name, "git") && !str_eq(name, "registry")
}

/// The steps that copy cargo's home. `entries` holds the names found in
/// it.
pub fn copy_volume_cargo(
    engine: &Engine,
    container: &str,
    cargo_dir: &str,
    mount_prefix: &str,
    copy_registry: bool,
    entries: &Vec<String>,
) -> (steps: Vec<Step>)
    ensures
        steps_view(steps@) == cargo_steps(
            engine,
            container@,
            cargo_dir@,
            mount_prefix@,
            copy_registry,
            strs(entries@),
        ),
{
    let dst = push_path(mount_prefix, "cargo");
    let mut steps: Vec<Step> = Vec::new();
    assert(steps_view(steps@) =~= Seq::empty());
    if copy_registry {
        push_step(
            &mut steps,
            Step::Run(copy_volume_files(engine, container, cargo_dir, dst.as_str())),
        );
        assert(steps_view(steps@) =~= cargo_steps(
            engine,
            container@,
            cargo_dir@,
            mount_prefix@,
            copy_registry,
            strs(entries@),
        ));
        return steps;
    }
    push_step(&mut steps, Step::Run(create_volume_dir(engine, container, dst.as_str())));
    let ghost head = steps_view(steps@);
    let mut i: usize = 0;
    assert(strs(entries@).take(0) =~= Seq::empty());
    assert(head + Seq::empty() =~= head);
    while i < entries.len()
        invariant
            i <= entries.len(),
            steps_view(steps@) == head + entry_copies(
                engine,
                container@,
                cargo_dir@,
                dst@,
                strs(entries@).take(i as int),
            ),
        decreases entries.len() - i,
    {
        let name = entries[i].as_str();
        let ghost before = strs(entries@).take(i as int);
        let ghost so_far = entry_copies(engine, container@, cargo_dir@, dst@, before);
        if copies_entry(name) {
            let from = push_path(cargo_dir, name);
            push_step(
                &mut steps,
                Step::Run(copy_volume_files(engine, container, from.as_str(), dst.as_str())),
            );
        }
        i += 1;
        proof {
            let now = strs(entries@).take(i as int);
            assert(now.drop_last() =~= before);
            assert(now.last() == name@);
            let added = entry_copies(engine, container@, cargo_dir@, dst@, now);
            assert(steps_view(steps@) =~= head + added);
        }
    }
    assert(strs(entries@).take(entries.len() as int) =~= strs(entries@));
    steps
}

/// The steps that copy the toolchain at `sysroot`: its programs, then its
/// libraries without those of other targets, then the libraries of the
/// target, where the toolchain has them, and those of the host, which stand
/// in `host_libs`.
pub open spec fn rust_steps(
    engine: &Engine,
    container: Seq<char>,
    sysroot: Seq<char>,
    triple: Seq<char>,
    mount_prefix: Seq<char>,
    target_exists: bool,
    host_libs: Seq<char>,
) -> Seq<StepView> {
    let dst = push_component(mount_prefix, "rust"@);
    let first = seq![
        StepView::Run(create_volume_dir_cmd(engine, container, dst)),
        StepView::Run(
            copy_volume_files_cmd(engine, container, push_component(sysroot, "bin"@), dst),
        ),
        StepView::Run(
            copy_volume_files_cmd(engine, container, push_component(sysroot, "libexec"@), dst),
        ),
        StepView::Run(
            copy_volume_files_cmd(engine, container, push_component(sysroot, "etc"@), dst),
        ),
        StepView::CopyLibs {
            lib: push_component(sysroot, "lib"@),
            rustlib: rustlib_dir(sysroot),
            dst: push_component(dst, "lib"@),
        },
        StepView::Run(create_volume_dir_cmd(engine, container, rustlib_dir(dst))),
    ];
    let target = if target_exists {
        seq![
            StepView::Run(
                copy_volume_files_cmd(
                    engine,
                    container,
                    rustlib_of(sysroot, triple),
                    rustlib_dir(dst),
                ),
            ),
        ]
    } else {
        Seq::empty()
    };
    first + target + seq![
        StepView::Run(copy_volume_files_cmd(engine, container, host_libs, rustlib_dir(dst))),
    ]
}

/// The steps that copy the toolchain at `sysroot`. `target_exists` says
/// whether the toolchain has libraries for the target; `libdir` is what the
/// toolchain's compiler names as the directory of the host's libraries. The
/// directory above it is copied; a `libdir` without one is an error.
pub fn copy_volume_rust(
    engine: &Engine,
    container: &str,
    sysroot: &str,
    triple: &str,
    mount_prefix: &str,
    target_exists: bool,
    libdir: &str,
) -> (made: Result<Vec<Step>, Error>)
    ensures
        parent(trim(libdir@)) is Some <==> made is Ok,
        made is Ok ==> steps_view(made->Ok_0@) == rust_steps(
            engine,
            container@,
            sysroot@,
            triple@,
            mount_prefix@,
            target_exists,
            parent(trim(libdir@))->0,
        ),
        made is Err ==> (made->Err_0 matches Error::NoParent(p) && p@ == trim(libdir@)),
{
    let named = trimmed(libdir);
    let host_libs = match parent_of(named.as_str()) {
        Some(dir) => dir,
        None => {
            return Err(Error::NoParent(named));
        },
    };
    let dst = push_path(mount_prefix, "rust");
    let dst_rustlib = rustlib_path(dst.as_str());
    let src_rustlib = rustlib_path(sysroot);
    let mut steps: Vec<Step> = Vec::new();
    assert(steps_view(steps@) =~= Seq::empty());
    push_step(&mut steps, Step::Run(create_volume_dir(engine, container, dst.as_str())));
    push_step(
        &mut steps,
        Step::Run(
            copy_volume_files(engine, container, push_path(sysroot, "bin").as_str(), dst.as_str()),
        ),
    );
    push_step(
        &mut steps,
        Step::Run(
            copy_volume_files(
                engine,
                container,
                push_path(sysroot, "libexec").as_str(),
                dst.as_str(),
            ),
        ),
    );
    push_step(
        &mut steps,
        Step::Run(
            copy_volume_files(engine, container, push_path(sysroot, "etc").as_str(), dst.as_str()),
        ),
    );
    push_step(
        &mut steps,
        Step::CopyLibs {
            lib: push_path(sysroot, "lib"),
            rustlib: rustlib_path(sysroot),
            dst: push_path(dst.as_str(), "lib"),
        },
    );
    push_step(&mut steps, Step::Run(create_volume_dir(engine, container, dst_rustlib.as_str())));
    if target_exists {
        let from = push_path(src_rustlib.as_str(), triple);
        push_step(
            &mut steps,
            Step::Run(copy_volume_files(engine, container, from.as_str(), dst_rustlib.as_str())),
        );
    }
    push_step(
        &mut steps,
        Step::Run(copy_volume_files(engine, container, host_libs.as_str(), dst_rustlib.as_str())),
    );
    assert(steps_view(steps@) =~= rust_steps(
        engine,
        container@,
        sysroot@,
        triple@,
        mount_prefix@,
        target_exists,
        host_libs@,
    ));
    Ok(steps)
}

/// The SHA-1 digest of a text's bytes, as forty hexadecimal digits.
pub uninterp spec fn sha1_hex(data: Seq<char>) -> Seq<char>;

/// Trusted: calls `sha1_smol::Sha1::from` on the bytes of the text and
/// prints the digest. The result is named `sha1_hex` of the text; the crate
/// prints five words of eight digits each, so it has forty characters.
#[verifier::external_body]
fn sha1_digest(data: &str) -> (hex: String)
    ensures
        hex@ == sha1_hex(data@),
        hex@.len() == 40,
{
    sha1_smol::Sha1::from(data.as_bytes()).digest().to_string()
}

/// The short name that stands for a path in an identifier: the first five
/// digits of its digest.
pub open spec fn short_hash(path: Seq<char>) -> Seq<char> {
    sha1_hex(path).take(5)
}

/// The short name that stands for a path in an identifier.
pub fn path_hash(path: &str) -> (hash: String)
    ensures
        hash@ == short_hash(path@),
        hash@.len() == 5,
{
    let hex = sha1_digest(path);
    let c = chars_of(hex.as_str());
    let hash = string_of_range(&c, 0, 5);
    assert(c@.subrange(0, 5) =~= c@.take(5));
    hash
}

/// The name of the container of a build: it tells apart the package, the
/// target, the place of the project, the toolchain and the compiler.
pub open spec fn identifier(
    name: Seq<char>,
    triple: Seq<char>,
    manifest_path: Seq<char>,
    sysroot: Seq<char>,
    commit: Seq<char>,
) -> Seq<char> {
    "cross-"@ + name + "-"@ + triple + "-"@ + short_hash(manifest_path) + "-"@ + short_hash(
        sysroot,
    ) + "-"@ + commit
}

/// The predicate "has its manifest in the directory `root`".
pub open spec fn lies_in(root: Seq<char>) -> spec_fn(Package) -> bool {
    |p: Package| parent(p.manifest_path@) is Some && same_path(parent(p.manifest_path@)->0, root)
}

/// The index of the package that names the build: the first one whose
/// manifest lies in the workspace root, or the first of all where there is
/// none.
pub open spec fn naming_package(metadata: &CargoMetadata) -> int {
    let i = first_match(metadata.packages@, lies_in(metadata.workspace_root@));
    if i < metadata.packages@.len() {
        i
    } else {
        0
    }
}

/// What names the compiler: the hash of its commit where it has one, else
/// its short version text.
pub open spec fn compiler_name(commit_hash: Option<Seq<char>>, short_version: Seq<char>) -> Seq<
    char,
> {
    match commit_hash {
        Some(hash) => hash,
        None => short_version,
    }
}

/// The name of the container of a build, from the package that names the
/// build, the target, the toolchain and the compiler. The same values give
/// the same name, so a later run finds what an earlier one left. Metadata
/// without packages names no build.
pub fn remote_identifier(
    triple: &str,
    metadata: &CargoMetadata,
    sysroot: &str,
    commit_hash: Option<&str>,
    short_version: &str,
) -> (name: Option<String>)
    ensures
        name is Some <==> metadata.packages@.len() > 0,
        name is Some ==> name->0@ == identifier(
            metadata.packages@[naming_package(metadata)].name@,
            triple@,
            metadata.packages@[naming_package(metadata)].manifest_path@,
            sysroot@,
            compiler_name(
                match commit_hash {
                    Some(h) => Some(h@),
                    None => None,
                },
                short_version@,
            ),
        ),
{
    if metadata.packages.len() == 0 {
        return None;
    }
    let mut i: usize = 0;
    let mut found = false;
    while i < metadata.packages.len() && !found
        invariant
            i <= metadata.packages.len(),
            found ==> i < metadata.packages.len() && lies_in(metadata.workspace_root@)(
                metadata.packages@[i as int],
            ),
            forall|j: int|
                0 <= j < i ==> !lies_in(metadata.workspace_root@)(#[trigger] metadata.packages@[j]),
        decreases metadata.packages.len() - i + (if found { 0int } else { 1int }),
    {
        let here = match parent_of(metadata.packages[i].manifest_path.as_str()) {
            Some(dir) => path_eq(dir.as_str(), metadata.workspace_root.as_str()),
            None => false,
        };
        if here {
            found = true;
        } else {
            i += 1;
        }
    }
    proof {
        lemma_first_match_is(metadata.packages@, lies_in(metadata.workspace_root@), i as int);
    }
    let package = if found {
        &metadata.packages[i]
    } else {
        &metadata.packages[0]
    };
    let commit = match commit_hash {
        Some(hash) => hash,
        None => short_version,
    };
    let mut name = concat3("cross-", package.name.as_str(), "-");
    name.append(triple);
    name.append("-");
    name.append(path_hash(package.manifest_path.as_str()).as_str());
    name.append("-");
    name.append(path_hash(sysroot).as_str());
    name.append("-");
    name.append(commit);
    Some(name)
}

/// Two builds that differ in the package's name alone have different
/// names.
pub proof fn lemma_identifier_tells_packages_apart(
    a: Seq<char>,
    b: Seq<char>,
    triple: Seq<char>,
    manifest_path: Seq<char>,
    sysroot: Seq<char>,
    commit: Seq<char>,
)
    requires
        a != b,
    ensures
        identifier(a, triple, manifest_path, sysroot, commit) != identifier(
            b,
            triple,
            manifest_path,
            sysroot,
            commit,
        ),
{
    let tail = "-"@ + triple + "-"@ + short_hash(manifest_path) + "-"@ + short_hash(sysroot) + "-"@
        + commit;
    assert(identifier(a, triple, manifest_path, sysroot, commit) =~= "cross-"@ + a + tail);
    assert(identifier(b, triple, manifest_path, sysroot, commit) =~= "cross-"@ + b + tail);
    if "cross-"@ + a + tail == "cross-"@ + b + tail {
        lemma_middle_is_determined("cross-"@, a, b, tail);
    }
}

/// Two builds that differ in the target alone have different names.
pub proof fn lemma_identifier_tells_targets_apart(
    name: Seq<char>,
    a: Seq<char>,
    b: Seq<char>,
    manifest_path: Seq<char>,
    sysroot: Seq<char>,
    commit: Seq<char>,
)
    requires
        a != b,
    ensures
        identifier(name, a, manifest_path, sysroot, commit) != identifier(
            name,
            b,
            manifest_path,
            sysroot,
            commit,
        ),
{
    let head = "cross-"@ + name + "-"@;
    let tail = "-"@ + short_hash(manifest_path) + "-"@ + short_hash(sysroot) + "-"@ + commit;
    assert(identifier(name, a, manifest_path, sysroot, commit) =~= head + a + tail);
    assert(identifier(name, b, manifest_path, sysroot, commit) =~= head + b + tail);
    if head + a + tail == head + b + tail {
        lemma_middle_is_determined(head, a, b, tail);
    }
}

/// Two builds that differ in the compiler alone have different names.
pub proof fn lemma_identifier_tells_compilers_apart(
    name: Seq<char>,
    triple: Seq<char>,
    manifest_path: Seq<char>,
    sysroot: Seq<char>,
    a: Seq<char>,
    b: Seq<char>,
)
    requires
        a != b,
    ensures
        identifier(name, triple, manifest_path, sysroot, a) != identifier(
            name,
            triple,
            manifest_path,
            sysroot,
            b,
        ),
{
    let head = "cross-"@ + name + "-"@ + triple + "-"@ + short_hash(manifest_path) + "-"@
        + short_hash(sysroot) + "-"@;
    let empty = Seq::<char>::empty();
    assert(identifier(name, triple, manifest_path, sysroot, a) =~= head + a + empty);
    assert(identifier(name, triple, manifest_path, sysroot, b) =~= head + b + empty);
    if head + a + empty == head + b + empty {
        lemma_middle_is_determined(head, a, b, empty);
    }
}

/// Two builds that differ in the project's place alone have different
/// names, as far as the short hashes of the two places differ; so have two
/// that differ in the toolchain's place alone.
pub proof fn lemma_identifier_tells_places_apart(
    name: Seq<char>,
    triple: Seq<char>,
    a: Seq<char>,
    b: Seq<char>,
    sysroot: Seq<char>,
    commit: Seq<char>,
)
    requires
        short_hash(a) != short_hash(b),
    ensures
        identifier(name, triple, a, sysroot, commit) != identifier(name, triple, b, sysroot, commit),
        identifier(name, triple, sysroot, a, commit) != identifier(name, triple, sysroot, b, commit),
{
    let head = "cross-"@ + name + "-"@ + triple + "-"@;
    let tail = "-"@ + short_hash(sysroot) + "-"@ + commit;
    assert(identifier(name, triple, a, sysroot, commit) =~= head + short_hash(a) + tail);
    assert(identifier(name, triple, b, sysroot, commit) =~= head + short_hash(b) + tail);
    if head + short_hash(a) + tail == head + short_hash(b) + tail {
        lemma_middle_is_determined(head, short_hash(a), short_hash(b), tail);
    }
    let head2 = "cross-"@ + name + "-"@ + triple + "-"@ + short_hash(sysroot) + "-"@;
    let tail2 = "-"@ + commit;
    assert(identifier(name, triple, sysroot, a, commit) =~= head2 + short_hash(a) + tail2);
    assert(identifier(name, triple, sysroot, b, commit) =~= head2 + short_hash(b) + tail2);
    if head2 + short_hash(a) + tail2 == head2 + short_hash(b) + tail2 {
        lemma_middle_is_determined(head2, short_hash(a), short_hash(b), tail2);
    }
}

} // verus!
