//! The options of the engine's `run` and `exec` that do not depend on how
//! the data reaches the container.

use crate::command::{Command};
use crate::docker::engine::{docker_subcommand, engine_command, Engine, EngineType};
use crate::errors::{Error, ErrorView};
use crate::path::{
    components, push_component, push_path, same_path, split_components, strip_components,
    strip_prefix, path_eq,
};
use crate::text::{
    after_first, before_first, concat, concat3, opt_ref, opt_str, push_all, push_pair,
    split_at_first, str_eq, strs,
};
use vstd::prelude::*;

verus! {

/// Where the images of this project are published.
pub const CROSS_IMAGE: &'static str = "ghcr.io/cross-rs";

/// What `shell_words::split` makes of a text: the words, or nothing where a
/// quote is left open.
pub uninterp spec fn shell_words(s: Seq<char>) -> Option<Seq<Seq<char>>>;

/// Trusted: the error of `shell_words::split`, an opaque value.
#[verifier::external_type_specification]
#[verifier::external_body]
pub struct ExParseError(shell_words::ParseError);

/// Trusted: calls `shell_words::split`. The words are named `shell_words`
/// of the text; the call fails exactly where that is nothing.
#[verifier::external_body]
fn shell_split(s: &str) -> (words: Result<Vec<String>, shell_words::ParseError>)
    ensures
        match words {
            Ok(v) => shell_words(s@) == Some(strs(v@)),
            Err(_) => shell_words(s@) is None,
        },
{
    shell_words::split(s)
}

/// The name of the variable that `var` sets or hands on: what stands before
/// its first `=`.
pub open spec fn var_name(var: Seq<char>) -> Seq<char> {
    before_first(var, '=')
}

/// Whether the variable may be handed into the container: the variable
/// that names the runner is set by this library alone.
pub open spec fn is_allowed(var: Seq<char>) -> bool {
    var_name(var) != "CROSS_RUNNER"@
}

/// The name of a variable and, where `var` sets one, its value. The
/// variable that names the runner is refused.
pub fn validate_env_var(var: &str) -> (parts: Result<(String, Option<String>), Error>)
    ensures
        is_allowed(var@) <==> parts is Ok,
        parts is Ok ==> parts->Ok_0.0@ == var_name(var@) && opt_str(parts->Ok_0.1) == after_first(
            var@,
            '=',
        ),
        parts is Err ==> parts->Err_0 == Error::ReservedVariable,
{
    let (key, value) = split_at_first(var, '=');
    if str_eq(key.as_str(), "CROSS_RUNNER") {
        return Err(Error::ReservedVariable);
    }
    Ok((key, value))
}

/// The words of extra engine options. A quote left open is an error that
/// keeps the text.
pub fn parse_docker_opts(value: &str) -> (words: Result<Vec<String>, Error>)
    ensures
        shell_words(value@) is Some <==> words is Ok,
        words is Ok ==> strs(words->Ok_0@) == shell_words(value@)->0,
        words is Err ==> (words->Err_0 matches Error::InvalidOptions(text) && text@ == value@),
{
    match shell_split(value) {
        Ok(words) => Ok(words),
        Err(_) => Err(Error::InvalidOptions(value.to_owned())),
    }
}

/// What the build needs to know of the environment of this process.
#[derive(Debug, Clone, PartialEq, Eq)]
pub struct HostEnv {
    /// The name of the user.
    pub username: Option<String>,
    /// The number of the user inside the container.
    pub uid: String,
    /// The number of the user's group inside the container.
    pub gid: String,
    /// `QEMU_STRACE`, where it is set.
    pub qemu_strace: Option<String>,
    /// `CROSS_DEBUG`, where it is set.
    pub cross_debug: Option<String>,
    /// `CROSS_CONTAINER_OPTS`, where it is set.
    pub container_opts: Option<String>,
    /// `DOCKER_OPTS`, where it is set: the older name of the same.
    pub docker_opts: Option<String>,
}

/// `-e` before each variable.
pub open spec fn passed(vars: Seq<Seq<char>>) -> Seq<Seq<char>>
    decreases vars.len(),
{
    if vars.len() == 0 {
        Seq::empty()
    } else {
        passed(vars.drop_last()).push("-e"@).push(vars.last())
    }
}

/// Whether every variable may be handed into the container.
pub open spec fn all_allowed(vars: Seq<Seq<char>>) -> bool {
    forall|i: int| 0 <= i < vars.len() ==> is_allowed(#[trigger] vars[i])
}

/// The variables that every build gets.
pub open spec fn fixed_vars(runner: Option<Seq<char>>) -> Seq<Seq<char>> {
    seq![
        "-e"@,
        "PKG_CONFIG_ALLOW_CROSS=1"@,
        "-e"@,
        "XARGO_HOME=/xargo"@,
        "-e"@,
        "CARGO_HOME=/cargo"@,
        "-e"@,
        "CARGO_TARGET_DIR=/target"@,
        "-e"@,
        "CROSS_RUNNER="@ + (match runner {
            Some(r) => r,
            None => Seq::empty(),
        }),
    ]
}

/// `-e` and `name` with `value`, where there is a value.
pub open spec fn optional_var(name: Seq<char>, value: Option<Seq<char>>) -> Seq<Seq<char>> {
    match value {
        Some(v) => seq!["-e"@, name + v],
        None => Seq::empty(),
    }
}

/// The text of the extra engine options: the newer variable where it is
/// set, else the older one.
pub open spec fn extra_opts_text(env: &HostEnv) -> Option<Seq<char>> {
    if env.container_opts is Some {
        opt_str(env.container_opts)
    } else {
        opt_str(env.docker_opts)
    }
}

/// The words of the extra engine options: none where neither variable is
/// set; nothing where the text cannot be split.
pub open spec fn extra_opts(env: &HostEnv) -> Option<Seq<Seq<char>>> {
    match extra_opts_text(env) {
        Some(text) => shell_words(text),
        None => Some(Seq::empty()),
    }
}

/// The arguments that set the environment inside the container.
pub open spec fn env_args(
    passthrough: Seq<Seq<char>>,
    runner: Option<Seq<char>>,
    env: &HostEnv,
) -> Seq<Seq<char>> {
    passed(passthrough) + fixed_vars(runner) + optional_var("USER="@, opt_str(env.username))
        + optional_var("QEMU_STRACE="@, opt_str(env.qemu_strace)) + optional_var(
        "CROSS_DEBUG="@,
        opt_str(env.cross_debug),
    ) + extra_opts(env)->0
}

/// Why the environment cannot be set: a reserved variable is handed on,
/// or else the extra options cannot be split.
pub open spec fn env_failure(passthrough: Seq<Seq<char>>, env: &HostEnv) -> ErrorView {
    if !all_allowed(passthrough) {
        ErrorView::ReservedVariable
    } else {
        ErrorView::InvalidOptions(extra_opts_text(env)->0)
    }
}

/// Appends `-e` and `name` with `value`, where there is a value.
fn push_optional_var(out: &mut Vec<String>, name: &str, value: &Option<String>)
    ensures
        strs(final(out)@) == strs(old(out)@) + optional_var(name@, opt_str(*value)),
{
    match value {
        Some(v) => {
            push_pair(out, "-e", concat(name, v.as_str()).as_str());
            assert(strs(out@) =~= strs(old(out)@) + optional_var(name@, opt_str(*value)));
        },
        None => {
            assert(strs(out@) =~= strs(old(out)@) + optional_var(name@, opt_str(*value)));
        },
    }
}

/// The arguments that set the environment inside the container. A
/// reserved variable among `passthrough` is an error; so are extra options
/// that cannot be split.
pub fn envvar_args(passthrough: &Vec<String>, runner: Option<&str>, env: &HostEnv) -> (made: Result<
    Vec<String>,
    Error,
>)
    ensures
        all_allowed(strs(passthrough@)) && extra_opts(env) is Some <==> made is Ok,
        made is Ok ==> strs(made->Ok_0@) == env_args(strs(passthrough@), opt_ref(runner), env),
        made is Err ==> made->Err_0@ == env_failure(strs(passthrough@), env),
{
    let mut out: Vec<String> = Vec::new();
    let mut i: usize = 0;
    let ghost vars = strs(passthrough@);
    assert(vars.take(0) =~= Seq::empty());
    assert(strs(out@) =~= Seq::empty());
    while i < passthrough.len()
        invariant
            i <= passthrough.len(),
            vars == strs(passthrough@),
            strs(out@) == passed(vars.take(i as int)),
            all_allowed(vars.take(i as int)),
        decreases passthrough.len() - i,
    {
        let var = passthrough[i].as_str();
        match validate_env_var(var) {
            Ok(_) => {},
            Err(e) => {
                assert(!is_allowed(vars[i as int]));
                return Err(e);
            },
        }
        push_pair(&mut out, "-e", var);
        i += 1;
        proof {
            assert(vars.take(i as int).drop_last() =~= vars.take(i - 1));
            assert(vars.take(i as int).last() == var@);
        }
    }
    assert(vars.take(passthrough.len() as int) =~= vars);
    let ghost head = strs(out@);
    push_pair(&mut out, "-e", "PKG_CONFIG_ALLOW_CROSS=1");
    push_pair(&mut out, "-e", "XARGO_HOME=/xargo");
    push_pair(&mut out, "-e", "CARGO_HOME=/cargo");
    push_pair(&mut out, "-e", "CARGO_TARGET_DIR=/target");
    let runner_text = match runner {
        Some(r) => concat("CROSS_RUNNER=", r),
        None => {
            proof {
                reveal_strlit("");
            }
            concat("CROSS_RUNNER=", "")
        },
    };
    assert(runner_text@ =~= "CROSS_RUNNER="@ + (match opt_ref(runner) {
        Some(r) => r,
        None => Seq::empty(),
    }));
    push_pair(&mut out, "-e", runner_text.as_str());
    assert(strs(out@) =~= head + fixed_vars(opt_ref(runner)));
    push_optional_var(&mut out, "USER=", &env.username);
    push_optional_var(&mut out, "QEMU_STRACE=", &env.qemu_strace);
    push_optional_var(&mut out, "CROSS_DEBUG=", &env.cross_debug);
    let ghost so_far = strs(out@);
    let text = if env.container_opts.is_some() {
        &env.container_opts
    } else {
        &env.docker_opts
    };
    match text {
        Some(value) => {
            match parse_docker_opts(value.as_str()) {
                Ok(words) => {
                    push_all(&mut out, &words);
                },
                Err(e) => {
                    return Err(e);
                },
            }
        },
        None => {
            assert(so_far + Seq::<Seq<char>>::empty() =~= so_far);
        },
    }
    Ok(out)
}

/// Sets the environment inside the container.
pub fn docker_envvars(
    docker: &mut Command,
    passthrough: &Vec<String>,
    runner: Option<&str>,
    env: &HostEnv,
) -> (done: Result<(), Error>)
    ensures
        all_allowed(strs(passthrough@)) && extra_opts(env) is Some <==> done is Ok,
        done is Ok ==> final(docker)@ == old(docker)@.args(
            env_args(strs(passthrough@), opt_ref(runner), env),
        ),
        done is Err ==> final(docker)@ == old(docker)@ && done->Err_0@ == env_failure(
            strs(passthrough@),
            env,
        ),
{
    match envvar_args(passthrough, runner, env) {
        Ok(list) => {
            docker.args(&list);
            Ok(())
        },
        Err(e) => Err(e),
    }
}

/// The option that names the user, for the engine that needs it: docker
/// does, podman maps the user by itself.
pub open spec fn user_args(kind: EngineType, uid: Seq<char>, gid: Seq<char>) -> Seq<Seq<char>> {
    if kind == EngineType::Docker {
        seq!["--user"@, uid + ":"@ + gid]
    } else {
        Seq::empty()
    }
}

/// Names the user for the engine that needs it.
pub fn docker_user_id(docker: &mut Command, engine_type: EngineType, uid: &str, gid: &str)
    ensures
        final(docker)@ == old(docker)@.args(user_args(engine_type, uid@, gid@)),
{
    if matches!(engine_type, EngineType::Docker) {
        docker.arg2("--user", concat3(uid, ":", gid).as_str());
        assert(docker@.args =~= old(docker)@.args + user_args(engine_type, uid@, gid@));
    } else {
        assert(docker@.args =~= old(docker)@.args + user_args(engine_type, uid@, gid@));
    }
}

/// The option that sets the system call filter, for a target that needs
/// one: the profile at `profile`, or none at all for docker on a host that
/// cannot read the profile.
pub open spec fn seccomp_args(
    kind: EngineType,
    needs_seccomp: bool,
    unreadable: bool,
    profile: Seq<char>,
) -> Seq<Seq<char>> {
    if needs_seccomp {
        seq![
            "--security-opt"@,
            "seccomp="@ + (if kind == EngineType::Docker && unreadable {
                "unconfined"@
            } else {
                profile
            }),
        ]
    } else {
        Seq::empty()
    }
}

/// Sets the system call filter for a target that needs one.
pub fn docker_seccomp(
    docker: &mut Command,
    engine_type: EngineType,
    needs_seccomp: bool,
    unreadable: bool,
    profile: &str,
)
    ensures
        final(docker)@ == old(docker)@.args(
            seccomp_args(engine_type, needs_seccomp, unreadable, profile@),
        ),
{
    if needs_seccomp {
        let value = if matches!(engine_type, EngineType::Docker) && unreadable {
            concat("seccomp=", "unconfined")
        } else {
            concat("seccomp=", profile)
        };
        docker.arg2("--security-opt", value.as_str());
        assert(docker@.args =~= old(docker)@.args + seccomp_args(
            engine_type,
            needs_seccomp,
            unreadable,
            profile@,
        ));
    } else {
        assert(docker@.args =~= old(docker)@.args + seccomp_args(
            engine_type,
            needs_seccomp,
            unreadable,
            profile@,
        ));
    }
}

/// Where the profile of the system call filter is kept for a target: in
/// the build's output below `cwd`.
pub open spec fn seccomp_profile(cwd: Seq<char>, triple: Seq<char>) -> Seq<char> {
    push_component(
        push_component(push_component(cwd, "target"@), triple),
        "seccomp.json"@,
    )
}

/// Where the profile of the system call filter is kept for a target.
pub fn seccomp_path(cwd: &str, triple: &str) -> (path: String)
    ensures
        path@ == seccomp_profile(cwd@, triple@),
{
    push_path(push_path(push_path(cwd, "target").as_str(), triple).as_str(), "seccomp.json")
}

/// The build tool: xargo where the standard library is built too, else
/// cargo.
pub fn cargo_cmd(uses_xargo: bool) -> (cmd: Command)
    ensures
        cmd@ == crate::command::bare(
            if uses_xargo {
                "xargo"@
            } else {
                "cargo"@
            },
        ),
{
    if uses_xargo {
        Command::new("xargo")
    } else {
        Command::new("cargo")
    }
}

/// A path of this machine as the engine takes it in a mount. Paths are
/// held in the engine's form throughout, so it is the path itself.
pub fn canonicalize_mount_path(path: &str) -> (out: String)
    ensures
        out@ == path@,
{
    path.to_owned()
}

/// The place in the container that stands for the canonical path
/// `host_path` of this machine.
pub fn remote_mount_path(host_path: &str) -> (out: String)
    ensures
        out@ == host_path@,
{
    canonicalize_mount_path(host_path)
}

/// Mounts the canonical path `host_path` at the same place below
/// `prefix`, and hands back the place without the prefix.
pub fn mount(docker: &mut Command, host_path: &str, prefix: &str) -> (mount_path: String)
    ensures
        mount_path@ == host_path@,
        final(docker)@ == old(docker)@.arg("-v"@).arg(host_path@ + ":"@ + prefix@ + host_path@),
{
    let mount_path = canonicalize_mount_path(host_path);
    let mut spec_text = concat3(host_path, ":", prefix);
    spec_text.append(mount_path.as_str());
    docker.arg2("-v", spec_text.as_str());
    mount_path
}

/// The working directory inside the container, where the project is
/// mounted as `/project`: that place, followed by the components of `cwd`
/// below the workspace root, each behind a `/`.
pub open spec fn project_cwd(rest: Seq<Seq<char>>) -> Seq<char>
    decreases rest.len(),
{
    if rest.len() == 0 {
        "/project"@
    } else {
        project_cwd(rest.drop_last()) + "/"@ + rest.last()
    }
}

/// The working directory inside the container: the translated current
/// directory where the project is mounted under its own path; `/project`
/// where the current directory is the workspace root; else the place below
/// `/project` that mirrors the current directory. A current directory
/// outside the workspace has no such place.
pub open spec fn container_cwd(
    workspace_root: Seq<char>,
    mount_cwd: Seq<char>,
    cwd: Seq<char>,
    mount_volumes: bool,
) -> Option<Seq<char>> {
    if mount_volumes {
        Some(mount_cwd)
    } else if same_path(mount_cwd, workspace_root) {
        Some("/project"@)
    } else {
        match strip_prefix(cwd, workspace_root) {
            Some(rest) => Some(project_cwd(rest)),
            None => None,
        }
    }
}

/// Sets the working directory inside the container.
pub fn docker_cwd(
    docker: &mut Command,
    workspace_root: &str,
    mount_cwd: &str,
    cwd: &str,
    mount_volumes: bool,
) -> (done: Result<(), Error>)
    ensures
        container_cwd(workspace_root@, mount_cwd@, cwd@, mount_volumes) is Some <==> done is Ok,
        done is Ok ==> final(docker)@ == old(docker)@.arg("-w"@).arg(
            container_cwd(workspace_root@, mount_cwd@, cwd@, mount_volumes)->0,
        ),
        done is Err ==> final(docker)@ == old(docker)@ && done->Err_0 == Error::OutsideWorkspace,
{
    if mount_volumes {
        docker.arg2("-w", mount_cwd);
    } else if path_eq(mount_cwd, workspace_root) {
        docker.arg2("-w", "/project");
    } else {
        let c = split_components(cwd);
        let w = split_components(workspace_root);
        match strip_components(&c, &w) {
            Some(rest) => {
                let mut dir = "/project".to_owned();
                let mut i: usize = 0;
                assert(strs(rest@).take(0) =~= Seq::empty());
                while i < rest.len()
                    invariant
                        i <= rest.len(),
                        dir@ == project_cwd(strs(rest@).take(i as int)),
                    decreases rest.len() - i,
                {
                    dir.append("/");
                    dir.append(rest[i].as_str());
                    i += 1;
                    proof {
                        assert(strs(rest@).take(i as int).drop_last() =~= strs(rest@).take(i - 1));
                        assert(strs(rest@).take(i as int).last() == rest@[i - 1]@);
                    }
                }
                assert(strs(rest@).take(rest.len() as int) =~= strs(rest@));
                docker.arg2("-w", dir.as_str());
            },
            None => {
                return Err(Error::OutsideWorkspace);
            },
        }
    }
    Ok(())
}

/// A directory that a variable of the configuration asks to have inside
/// the container.
#[derive(Debug, Clone, PartialEq, Eq)]
pub struct EnvVolume {
    /// The variable's name.
    pub var: String,
    /// The variable's value: a path of this machine.
    pub value: String,
    /// The canonical form of that path.
    pub host_path: String,
}

/// A dependency that lies outside the workspace.
#[derive(Debug, Clone, PartialEq, Eq)]
pub struct PathDependency {
    /// The directory of the dependency.
    pub path: String,
    /// The canonical form of that path.
    pub host_path: String,
}

/// A directory of this machine and the place that stands for it inside the
/// container.
#[derive(Debug, Clone, PartialEq, Eq)]
pub struct Staged {
    pub src: String,
    pub dst: String,
}

/// The plain values of a `Staged`.
pub ghost struct StagedView {
    pub src: Seq<char>,
    pub dst: Seq<char>,
}

impl View for Staged {
    type V = StagedView;

    open spec fn view(&self) -> StagedView {
        StagedView { src: self.src@, dst: self.dst@ }
    }
}

/// The views of a sequence of staged directories.
pub open spec fn staged_views(v: Seq<Staged>) -> Seq<StagedView> {
    Seq::new(v.len(), |i: int| v[i]@)
}

/// The option that mounts `host_path` under its own name.
pub open spec fn bind(host_path: Seq<char>) -> Seq<Seq<char>> {
    seq!["-v"@, host_path + ":"@ + host_path]
}

/// The options for the directories that variables ask for: each is
/// mounted, where directories are mounted at all, and its place is handed
/// to the container in the variable.
pub open spec fn volume_args(volumes: Seq<EnvVolume>, local: bool) -> Seq<Seq<char>>
    decreases volumes.len(),
{
    if volumes.len() == 0 {
        Seq::empty()
    } else {
        let v = volumes.last();
        volume_args(volumes.drop_last(), local) + (if local {
            bind(v.host_path@)
        } else {
            Seq::empty()
        }) + seq!["-e"@, v.var@ + "="@ + v.host_path@]
    }
}

/// The options for the dependencies outside the workspace: each is
/// mounted, where directories are mounted at all.
pub open spec fn dependency_args(deps: Seq<PathDependency>, local: bool) -> Seq<Seq<char>>
    decreases deps.len(),
{
    if deps.len() == 0 {
        Seq::empty()
    } else {
        dependency_args(deps.drop_last(), local) + (if local {
            bind(deps.last().host_path@)
        } else {
            Seq::empty()
        })
    }
}

/// The directories that variables ask for, each with its place in the
/// container.
pub open spec fn volume_places(volumes: Seq<EnvVolume>) -> Seq<StagedView> {
    Seq::new(
        volumes.len(),
        |i: int| StagedView { src: volumes[i].value@, dst: volumes[i].host_path@ },
    )
}

/// The dependencies outside the workspace, each with its place in the
/// container.
pub open spec fn dependency_places(deps: Seq<PathDependency>) -> Seq<StagedView> {
    Seq::new(deps.len(), |i: int| StagedView { src: deps[i].path@, dst: deps[i].host_path@ })
}

/// Whether the project is mounted under its own path: it is where the
/// current directory lies outside the workspace, or where anything besides
/// the project is mounted.
pub open spec fn mounts_volumes(
    workspace_root: Seq<char>,
    cwd: Seq<char>,
    volumes: nat,
    deps: nat,
) -> bool {
    strip_prefix(cwd, workspace_root) is None || volumes > 0 || deps > 0
}

/// Places the directories that variables ask for and the dependencies
/// outside the workspace. With `local` they are mounted; without, only
/// their places are noted. Either way each is added to `store` with its
/// place. Hands back whether the project is mounted under its own path.
pub fn docker_mount(
    docker: &mut Command,
    workspace_root: &str,
    cwd: &str,
    volumes: &Vec<EnvVolume>,
    deps: &Vec<PathDependency>,
    local: bool,
    store: &mut Vec<Staged>,
) -> (mount_volumes: bool)
    ensures
        mount_volumes == mounts_volumes(
            workspace_root@,
            cwd@,
            volumes@.len(),
            deps@.len(),
        ),
        final(docker)@ == old(docker)@.args(
            volume_args(volumes@, local) + dependency_args(deps@, local),
        ),
        staged_views(final(store)@) == staged_views(old(store)@) + volume_places(volumes@)
            + dependency_places(deps@),
{
    let outside = !crate::path::path_starts_with(cwd, workspace_root);
    let mut list: Vec<String> = Vec::new();
    let mut i: usize = 0;
    assert(volumes@.take(0) =~= Seq::empty());
    assert(strs(list@) =~= Seq::empty());
    assert(staged_views(store@) =~= staged_views(old(store)@) + volume_places(volumes@.take(0)));
    while i < volumes.len()
        invariant
            i <= volumes.len(),
            strs(list@) == volume_args(volumes@.take(i as int), local),
            staged_views(store@) == staged_views(old(store)@) + volume_places(
                volumes@.take(i as int),
            ),
        decreases volumes.len() - i,
    {
        let v = &volumes[i];
        let ghost before = strs(list@);
        if local {
            push_pair(&mut list, "-v", concat3(v.host_path.as_str(), ":", v.host_path.as_str()).as_str());
        }
        let mut setting = concat(v.var.as_str(), "=");
        setting.append(v.host_path.as_str());
        push_pair(&mut list, "-e", setting.as_str());
        let ghost kept = staged_views(store@);
        store.push(Staged { src: v.value.clone(), dst: v.host_path.clone() });
        i += 1;
        proof {
            let place = StagedView { src: v.value@, dst: v.host_path@ };
            assert(staged_views(store@) =~= kept.push(place));
            assert(volume_places(volumes@.take(i as int)) =~= volume_places(
                volumes@.take(i - 1),
            ).push(place));
            assert(volumes@.take(i as int).drop_last() =~= volumes@.take(i - 1));
            assert(volumes@.take(i as int).last() == *v);
            assert(strs(list@) =~= before + (if local {
                bind(v.host_path@)
            } else {
                Seq::empty()
            }) + seq!["-e"@, v.var@ + "="@ + v.host_path@]);
            assert(staged_views(store@) =~= staged_views(old(store)@) + volume_places(
                volumes@.take(i as int),
            ));
        }
    }
    assert(volumes@.take(volumes.len() as int) =~= volumes@);
    let ghost first = strs(list@);
    let ghost stored = staged_views(store@);
    let mut k: usize = 0;
    assert(deps@.take(0) =~= Seq::empty());
    assert(first + Seq::<Seq<char>>::empty() =~= first);
    assert(stored + dependency_places(deps@.take(0)) =~= stored);
    while k < deps.len()
        invariant
            k <= deps.len(),
            strs(list@) == first + dependency_args(deps@.take(k as int), local),
            staged_views(store@) == stored + dependency_places(deps@.take(k as int)),
        decreases deps.len() - k,
    {
        let d = &deps[k];
        let ghost before = strs(list@);
        if local {
            push_pair(&mut list, "-v", concat3(d.host_path.as_str(), ":", d.host_path.as_str()).as_str());
        }
        let ghost kept = staged_views(store@);
        store.push(Staged { src: d.path.clone(), dst: d.host_path.clone() });
        k += 1;
        proof {
            let place = StagedView { src: d.path@, dst: d.host_path@ };
            assert(staged_views(store@) =~= kept.push(place));
            assert(dependency_places(deps@.take(k as int)) =~= dependency_places(
                deps@.take(k - 1),
            ).push(place));
            assert(deps@.take(k as int).drop_last() =~= deps@.take(k - 1));
            assert(deps@.take(k as int).last() == *d);
            assert(strs(list@) =~= first + dependency_args(deps@.take(k as int), local));
            assert(staged_views(store@) =~= stored + dependency_places(deps@.take(k as int)));
        }
    }
    assert(deps@.take(deps.len() as int) =~= deps@);
    docker.args(&list);
    outside || volumes.len() > 0 || deps.len() > 0
}

/// Whether this project publishes an image for the target.
pub open spec fn is_provided(triple: Seq<char>) -> bool {
    triple == "aarch64-linux-android"@ || triple == "aarch64-unknown-linux-gnu"@ || triple
        == "aarch64-unknown-linux-musl"@ || triple == "arm-linux-androideabi"@ || triple
        == "arm-unknown-linux-gnueabi"@ || triple == "arm-unknown-linux-gnueabihf"@ || triple
        == "arm-unknown-linux-musleabi"@ || triple == "arm-unknown-linux-musleabihf"@ || triple
        == "armv5te-unknown-linux-gnueabi"@ || triple == "armv5te-unknown-linux-musleabi"@
        || triple == "armv7-linux-androideabi"@ || triple == "armv7-unknown-linux-gnueabihf"@
        || triple == "armv7-unknown-linux-musleabihf"@ || triple == "asmjs-unknown-emscripten"@
        || triple == "i586-unknown-linux-gnu"@ || triple == "i586-unknown-linux-musl"@ || triple
        == "i686-linux-android"@ || triple == "i686-pc-windows-gnu"@ || triple
        == "i686-unknown-freebsd"@ || triple == "i686-unknown-linux-gnu"@ || triple
        == "i686-unknown-linux-musl"@ || triple == "mips-unknown-linux-gnu"@ || triple
        == "mips-unknown-linux-musl"@ || triple == "mips64-unknown-linux-gnuabi64"@ || triple
        == "mips64el-unknown-linux-gnuabi64"@ || triple == "mipsel-unknown-linux-gnu"@ || triple
        == "mipsel-unknown-linux-musl"@ || triple == "powerpc-unknown-linux-gnu"@ || triple
        == "powerpc64-unknown-linux-gnu"@ || triple == "powerpc64le-unknown-linux-gnu"@ || triple
        == "riscv64gc-unknown-linux-gnu"@ || triple == "s390x-unknown-linux-gnu"@ || triple
        == "sparc64-unknown-linux-gnu"@ || triple == "sparcv9-sun-solaris"@ || triple
        == "thumbv6m-none-eabi"@ || triple == "thumbv7em-none-eabi"@ || triple
        == "thumbv7em-none-eabihf"@ || triple == "thumbv7m-none-eabi"@ || triple
        == "wasm32-unknown-emscripten"@ || triple == "x86_64-linux-android"@ || triple
        == "x86_64-pc-windows-gnu"@ || triple == "x86_64-sun-solaris"@ || triple
        == "x86_64-unknown-freebsd"@ || triple == "x86_64-unknown-dragonfly"@ || triple
        == "x86_64-unknown-illumos"@ || triple == "x86_64-unknown-linux-gnu"@ || triple
        == "x86_64-unknown-linux-musl"@ || triple == "x86_64-unknown-netbsd"@
}

/// Whether this project publishes an image for the target.
pub fn provides_image(triple: &str) -> (yes: bool)
    ensures
        yes == is_provided(triple@),
{
    str_eq(triple, "aarch64-linux-android") || str_eq(triple, "aarch64-unknown-linux-gnu")
        || str_eq(triple, "aarch64-unknown-linux-musl") || str_eq(triple, "arm-linux-androideabi")
        || str_eq(triple, "arm-unknown-linux-gnueabi") || str_eq(
        triple,
        "arm-unknown-linux-gnueabihf",
    ) || str_eq(triple, "arm-unknown-linux-musleabi") || str_eq(
        triple,
        "arm-unknown-linux-musleabihf",
    ) || str_eq(triple, "armv5te-unknown-linux-gnueabi") || str_eq(
        triple,
        "armv5te-unknown-linux-musleabi",
    ) || str_eq(triple, "armv7-linux-androideabi") || str_eq(
        triple,
        "armv7-unknown-linux-gnueabihf",
    ) || str_eq(triple, "armv7-unknown-linux-musleabihf") || str_eq(
        triple,
        "asmjs-unknown-emscripten",
    ) || str_eq(triple, "i586-unknown-linux-gnu") || str_eq(triple, "i586-unknown-linux-musl")
        || str_eq(triple, "i686-linux-android") || str_eq(triple, "i686-pc-windows-gnu") || str_eq(
        triple,
        "i686-unknown-freebsd",
    ) || str_eq(triple, "i686-unknown-linux-gnu") || str_eq(triple, "i686-unknown-linux-musl")
        || str_eq(triple, "mips-unknown-linux-gnu") || str_eq(triple, "mips-unknown-linux-musl")
        || str_eq(triple, "mips64-unknown-linux-gnuabi64") || str_eq(
        triple,
        "mips64el-unknown-linux-gnuabi64",
    ) || str_eq(triple, "mipsel-unknown-linux-gnu") || str_eq(triple, "mipsel-unknown-linux-musl")
        || str_eq(triple, "powerpc-unknown-linux-gnu") || str_eq(
        triple,
        "powerpc64-unknown-linux-gnu",
    ) || str_eq(triple, "powerpc64le-unknown-linux-gnu") || str_eq(
        triple,
        "riscv64gc-unknown-linux-gnu",
    ) || str_eq(triple, "s390x-unknown-linux-gnu") || str_eq(triple, "sparc64-unknown-linux-gnu")
        || str_eq(triple, "sparcv9-sun-solaris") || str_eq(triple, "thumbv6m-none-eabi") || str_eq(
        triple,
        "thumbv7em-none-eabi",
    ) || str_eq(triple, "thumbv7em-none-eabihf") || str_eq(triple, "thumbv7m-none-eabi")
        || str_eq(triple, "wasm32-unknown-emscripten") || str_eq(triple, "x86_64-linux-android")
        || str_eq(triple, "x86_64-pc-windows-gnu") || str_eq(triple, "x86_64-sun-solaris")
        || str_eq(triple, "x86_64-unknown-freebsd") || str_eq(triple, "x86_64-unknown-dragonfly")
        || str_eq(triple, "x86_64-unknown-illumos") || str_eq(triple, "x86_64-unknown-linux-gnu")
        || str_eq(triple, "x86_64-unknown-linux-musl") || str_eq(triple, "x86_64-unknown-netbsd")
}

/// The tag of a published image: the version of a release, and the moving
/// tag of the main branch for a build that carries a commit.
pub open spec fn image_tag(version: Seq<char>, commit_info: Seq<char>) -> Seq<char> {
    if commit_info.len() == 0 {
        version
    } else {
        "main"@
    }
}

/// The published image for a target.
pub open spec fn published_image(
    triple: Seq<char>,
    version: Seq<char>,
    commit_info: Seq<char>,
) -> Seq<char> {
    CROSS_IMAGE@ + "/"@ + triple + ":"@ + image_tag(version, commit_info)
}

/// The image in which the target is built: the configured one, whatever
/// the target; else the published one, for a target that has one; else an
/// error that keeps the target.
pub fn image(config_image: Option<&str>, triple: &str, version: &str, commit_info: &str) -> (made:
    Result<String, Error>)
    ensures
        config_image is Some ==> made is Ok && made->Ok_0@ == config_image->0@,
        config_image is None && is_provided(triple@) ==> made is Ok && made->Ok_0@
            == published_image(triple@, version@, commit_info@),
        config_image is None && !is_provided(triple@) ==> (made matches Err(
            Error::ImageNotAvailable(t),
        ) && t@ == triple@),
{
    if let Some(configured) = config_image {
        return Ok(configured.to_owned());
    }
    if !provides_image(triple) {
        return Err(Error::ImageNotAvailable(triple.to_owned()));
    }
    let mut name = concat3(CROSS_IMAGE, "/", triple);
    name.append(":");
    if commit_info.is_empty() {
        name.append(version);
    } else {
        name.append("main");
    }
    Ok(name)
}

/// What registers the interpreters of foreign programs with the kernel:
/// wine for a Windows target, qemu for any other.
pub open spec fn register_script(windows: bool) -> Seq<char> {
    if windows {
        "mount binfmt_misc -t binfmt_misc /proc/sys/fs/binfmt_misc && echo ':wine:M::MZ::/usr/bin/run-detectors:' > /proc/sys/fs/binfmt_misc/register"@
    } else {
        "apt-get update && apt-get install --no-install-recommends --assume-yes binfmt-support qemu-user-static"@
    }
}

/// The command that registers the interpreters of foreign programs, in a
/// privileged container that is removed afterwards.
pub fn register(engine: &Engine, windows: bool) -> (cmd: Command)
    ensures
        cmd@ == engine_command(engine).arg("run"@).arg("--userns"@).arg("host"@).arg(
            "--privileged"@,
        ).arg("--rm"@).arg("ubuntu:16.04"@).arg("sh"@).arg("-c"@).arg(register_script(windows)),
{
    let mut cmd = docker_subcommand(engine, "run");
    cmd.arg2("--userns", "host");
    cmd.arg("--privileged");
    cmd.arg("--rm");
    cmd.arg("ubuntu:16.04");
    cmd.arg2("sh", "-c");
    if windows {
        cmd.arg(
            "mount binfmt_misc -t binfmt_misc /proc/sys/fs/binfmt_misc && echo ':wine:M::MZ::/usr/bin/run-detectors:' > /proc/sys/fs/binfmt_misc/register",
        );
    } else {
        cmd.arg(
            "apt-get update && apt-get install --no-install-recommends --assume-yes binfmt-support qemu-user-static",
        );
    }
    cmd
}

/// A number without its sign.
pub open spec fn unsigned(s: Seq<char>) -> Seq<char> {
    if s.len() > 0 && (s[0] == '+' || s[0] == '-') {
        s.skip(1)
    } else {
        s
    }
}

/// Whether a text holds zeros alone, and at least one.
pub open spec fn all_zeros(digits: Seq<char>) -> bool {
    digits.len() > 0 && forall|i: int| 0 <= i < digits.len() ==> #[trigger] digits[i] == '0'
}

/// Whether a text is a zero: an optional sign and then zeros alone, at
/// least one.
pub open spec fn is_zero(s: Seq<char>) -> bool {
    all_zeros(unsigned(s))
}

/// Whether the value of a variable switches something on: any value does
/// but the empty one, `false`, and a zero.
pub fn bool_from_envvar(value: &str) -> (on: bool)
    ensures
        on == !(value@.len() == 0 || value@ == "false"@ || is_zero(value@)),
{
    let c = crate::text::chars_of(value);
    if c.len() == 0 || str_eq(value, "false") {
        return false;
    }
    let start: usize = if c[0] == '+' || c[0] == '-' {
        1
    } else {
        0
    };
    let ghost digits = unsigned(value@);
    if start == c.len() {
        return true;
    }
    let mut i: usize = start;
    while i < c.len()
        invariant
            start <= i <= c.len(),
            start < c.len(),
            c@ == value@,
            value@ != "false"@,
            digits == unsigned(value@),
            digits.len() == c.len() - start,
            forall|j: int| 0 <= j < digits.len() ==> #[trigger] digits[j] == c@[start + j],
            forall|j: int| 0 <= j < i - start ==> #[trigger] digits[j] == '0',
        decreases c.len() - i,
    {
        if c[i] != '0' {
            assert(digits[i - start] == c@[start + (i - start)]);
            assert(!all_zeros(digits));
            return true;
        }
        i += 1;
    }
    assert(all_zeros(digits));
    false
}

} // verus!
