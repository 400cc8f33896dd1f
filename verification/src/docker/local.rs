//! Building on an engine that sees this machine's files: everything the
//! build needs is mounted into one container, which is removed when the
//! build is over.

use crate::command::{Command, CommandView};
use crate::docker::engine::{docker_subcommand, engine_command, Engine};
use crate::docker::options::{
    all_allowed, cargo_cmd, container_cwd, env_failure, dependency_args, docker_cwd, docker_envvars,
    docker_mount, docker_seccomp, docker_user_id, env_args, extra_opts, mounts_volumes,
    seccomp_args, user_args, volume_args, EnvVolume, HostEnv, PathDependency, Staged,
};
use crate::docker::shared::Directories;
use crate::errors::{Error, ErrorView};
use crate::text::{concat, concat3, opt_str, push_all, strs};
use vstd::prelude::*;

verus! {

/// What is built, and what the build is given.
#[derive(Debug, Clone, PartialEq, Eq)]
pub struct Build {
    /// The target's triple.
    pub triple: String,
    /// Whether the target needs a system call filter of its own.
    pub needs_seccomp: bool,
    /// Whether the host cannot hand the filter's profile to docker.
    pub seccomp_unreadable: bool,
    /// Where the filter's profile is kept.
    pub seccomp_profile: String,
    /// The arguments of the build tool.
    pub args: Vec<String>,
    /// Whether the build tool is xargo.
    pub uses_xargo: bool,
    /// The root of the workspace.
    pub workspace_root: String,
    /// The current directory.
    pub cwd: String,
    /// The variables that are handed into the container.
    pub passthrough: Vec<String>,
    /// The program that runs the target's binaries.
    pub runner: Option<String>,
    /// The image of the container.
    pub image: String,
    /// The directories that variables ask for.
    pub volumes: Vec<EnvVolume>,
    /// The dependencies outside the workspace.
    pub deps: Vec<PathDependency>,
    /// What is taken from the environment.
    pub env: HostEnv,
    /// Whether the standard input is a terminal.
    pub stdin_tty: bool,
    /// Whether the standard output is a terminal.
    pub stdout_tty: bool,
    /// Whether the standard error is a terminal.
    pub stderr_tty: bool,
    /// Whether the commands are to be traced.
    pub verbose: bool,
}

/// What `shell_words::join` makes of words: one line that a shell splits
/// into the same words.
pub uninterp spec fn shell_line(words: Seq<Seq<char>>) -> Seq<char>;

/// Trusted: calls `shell_words::join`; the result is named `shell_line` of
/// the words, and nothing more is claimed of it.
#[verifier::external_body]
fn shell_join(words: &Vec<String>) -> (line: String)
    ensures
        line@ == shell_line(strs(words@)),
{
    shell_words::join(words)
}

/// The name of the build tool.
pub open spec fn tool(uses_xargo: bool) -> Seq<char> {
    if uses_xargo {
        "xargo"@
    } else {
        "cargo"@
    }
}

/// What the shell inside the container runs: the build tool with its
/// arguments, with the toolchain's programs first among those in reach.
pub open spec fn build_script(uses_xargo: bool, args: Seq<Seq<char>>) -> Seq<char> {
    "PATH=/rust/bin:$PATH "@ + shell_line(seq![tool(uses_xargo)] + args)
}

/// What the shell inside the container runs.
pub fn build_line(uses_xargo: bool, args: &Vec<String>) -> (line: String)
    ensures
        line@ == build_script(uses_xargo, strs(args@)),
{
    let mut cmd = cargo_cmd(uses_xargo);
    cmd.args(args);
    let mut words: Vec<String> = Vec::new();
    crate::text::push_str(&mut words, cmd.program.as_str());
    push_all(&mut words, &cmd.args);
    assert(strs(words@) =~= seq![tool(uses_xargo)] + strs(args@));
    concat("PATH=/rust/bin:$PATH ", shell_join(&words).as_str())
}

/// The options that attach the terminal: the input, and a terminal of the
/// container's own, where input, output and errors are all terminals; none
/// at all where one of them is not.
pub open spec fn tty_args(stdin: bool, stdout: bool, stderr: bool) -> Seq<Seq<char>> {
    if stdin && stdout && stderr {
        seq!["-i"@, "-t"@]
    } else {
        Seq::empty()
    }
}

/// The option that mounts the Nix store, where there is one.
pub open spec fn nix_args(nix_store: Option<Seq<char>>) -> Seq<Seq<char>> {
    match nix_store {
        Some(store) => seq!["-v"@, store + ":"@ + store + ":Z"@],
        None => Seq::empty(),
    }
}

/// Where the project is mounted: under its own path where other
/// directories are mounted too, else at `/project`.
pub open spec fn project_mount(build: &Build, dirs: &Directories) -> Seq<char> {
    if mounts_volumes(build.workspace_root@, build.cwd@, build.volumes@.len(), build.deps@.len()) {
        dirs.mount_root@
    } else {
        "/project"@
    }
}

/// `c` with the options that every local build has before its mounts: the
/// environment, the extra directories, removal of the container when it is
/// over, the system call filter and the user.
pub open spec fn with_settings(c: CommandView, engine: &Engine, build: &Build) -> CommandView {
    c.args(env_args(strs(build.passthrough@), opt_str(build.runner), &build.env)).args(
        volume_args(build.volumes@, true) + dependency_args(build.deps@, true),
    ).arg("--rm"@).args(
        seccomp_args(
            engine.kind,
            build.needs_seccomp,
            build.seccomp_unreadable,
            build.seccomp_profile@,
        ),
    ).args(user_args(engine.kind, build.env.uid@, build.env.gid@))
}

/// `c` with the mounts of a local build: xargo's and cargo's homes, an
/// empty directory over cargo's programs so that none of this machine is
/// found inside, the project, the toolchain, which cannot be written, and
/// the output directory.
pub open spec fn with_mounts(c: CommandView, build: &Build, dirs: &Directories) -> CommandView {
    c.arg("-v"@).arg(dirs.xargo@ + ":/xargo:Z"@).arg("-v"@).arg(dirs.cargo@ + ":/cargo:Z"@).arg(
        "-v"@,
    ).arg("/cargo/bin"@).arg("-v"@).arg(
        dirs.host_root@ + ":"@ + project_mount(build, dirs) + ":Z"@,
    ).arg("-v"@).arg(dirs.sysroot@ + ":/rust:Z,ro"@).arg("-v"@).arg(dirs.target@ + ":/target:Z"@)
}

/// `c` with the Nix store and the terminal, then the image and what runs
/// in it.
pub open spec fn with_program(c: CommandView, build: &Build, dirs: &Directories) -> CommandView {
    c.args(nix_args(opt_str(dirs.nix_store))).args(
        tty_args(build.stdin_tty, build.stdout_tty, build.stderr_tty),
    ).arg(build.image@).arg("sh"@).arg("-c"@).arg(build_script(build.uses_xargo, strs(build.args@)))
}

/// The one command of a local build.
pub open spec fn local_command(engine: &Engine, build: &Build, dirs: &Directories) -> CommandView {
    with_program(
        with_mounts(
            with_settings(
                engine_command(engine).arg("run"@).arg("--userns"@).arg("host"@),
                engine,
                build,
            ),
            build,
            dirs,
        ).arg("-w"@).arg(
            container_cwd(
                build.workspace_root@,
                dirs.mount_cwd@,
                build.cwd@,
                mounts_volumes(
                    build.workspace_root@,
                    build.cwd@,
                    build.volumes@.len(),
                    build.deps@.len(),
                ),
            )->0,
        ),
        build,
        dirs,
    )
}

/// Whether the options of a build can be made: no reserved variable is
/// handed on, the extra options can be split, and the current directory has
/// a place inside the container.
pub open spec fn is_buildable(build: &Build, dirs: &Directories) -> bool {
    &&& all_allowed(strs(build.passthrough@))
    &&& extra_opts(&build.env) is Some
    &&& container_cwd(
        build.workspace_root@,
        dirs.mount_cwd@,
        build.cwd@,
        mounts_volumes(build.workspace_root@, build.cwd@, build.volumes@.len(), build.deps@.len()),
    ) is Some
}

/// Why the options of a build cannot be made: the environment cannot be
/// set, or else the current directory has no place inside the container.
pub open spec fn build_failure(build: &Build) -> ErrorView {
    if all_allowed(strs(build.passthrough@)) && extra_opts(&build.env) is Some {
        ErrorView::OutsideWorkspace
    } else {
        env_failure(strs(build.passthrough@), &build.env)
    }
}

/// Adds the options that every local build has before its mounts. Hands
/// back whether the project is mounted under its own path.
fn add_settings(docker: &mut Command, engine: &Engine, build: &Build) -> (made: Result<
    bool,
    Error,
>)
    ensures
        all_allowed(strs(build.passthrough@)) && extra_opts(&build.env) is Some <==> made is Ok,
        made is Ok ==> final(docker)@ == with_settings(old(docker)@, engine, build)
            && made->Ok_0 == mounts_volumes(
            build.workspace_root@,
            build.cwd@,
            build.volumes@.len(),
            build.deps@.len(),
        ),
        made is Err ==> made->Err_0@ == env_failure(strs(build.passthrough@), &build.env),
{
    let runner = match &build.runner {
        Some(r) => Some(r.as_str()),
        None => None,
    };
    match docker_envvars(docker, &build.passthrough, runner, &build.env) {
        Ok(()) => {},
        Err(e) => {
            return Err(e);
        },
    }
    let mut store: Vec<Staged> = Vec::new();
    let mount_volumes = docker_mount(
        docker,
        build.workspace_root.as_str(),
        build.cwd.as_str(),
        &build.volumes,
        &build.deps,
        true,
        &mut store,
    );
    docker.arg("--rm");
    docker_seccomp(
        docker,
        engine.kind,
        build.needs_seccomp,
        build.seccomp_unreadable,
        build.seccomp_profile.as_str(),
    );
    docker_user_id(docker, engine.kind, build.env.uid.as_str(), build.env.gid.as_str());
    Ok(mount_volumes)
}

/// Adds the mounts of a local build.
fn add_mounts(docker: &mut Command, build: &Build, dirs: &Directories, mount_volumes: bool)
    requires
        mount_volumes == mounts_volumes(
            build.workspace_root@,
            build.cwd@,
            build.volumes@.len(),
            build.deps@.len(),
        ),
    ensures
        final(docker)@ == with_mounts(old(docker)@, build, dirs),
{
    docker.arg2("-v", concat(dirs.xargo.as_str(), ":/xargo:Z").as_str());
    docker.arg2("-v", concat(dirs.cargo.as_str(), ":/cargo:Z").as_str());
    docker.arg2("-v", "/cargo/bin");
    let mut project = concat(dirs.host_root.as_str(), ":");
    if mount_volumes {
        project.append(dirs.mount_root.as_str());
    } else {
        project.append("/project");
    }
    project.append(":Z");
    docker.arg2("-v", project.as_str());
    docker.arg2("-v", concat(dirs.sysroot.as_str(), ":/rust:Z,ro").as_str());
    docker.arg2("-v", concat(dirs.target.as_str(), ":/target:Z").as_str());
}

/// Adds the Nix store and the terminal, then the image and what runs in
/// it.
fn add_program(docker: &mut Command, build: &Build, dirs: &Directories)
    ensures
        final(docker)@ == with_program(old(docker)@, build, dirs),
{
    match &dirs.nix_store {
        Some(store) => {
            let mut text = concat3(store.as_str(), ":", store.as_str());
            text.append(":Z");
            docker.arg2("-v", text.as_str());
        },
        None => {},
    }
    assert(docker@.args =~= old(docker)@.args(nix_args(opt_str(dirs.nix_store))).args);
    let ghost before_tty = docker@;
    if build.stdin_tty && build.stdout_tty && build.stderr_tty {
        docker.arg2("-i", "-t");
    }
    assert(docker@.args =~= before_tty.args(
        tty_args(build.stdin_tty, build.stdout_tty, build.stderr_tty),
    ).args);
    docker.arg(build.image.as_str());
    docker.arg2("sh", "-c");
    docker.arg(build_line(build.uses_xargo, &build.args).as_str());
}

/// The one command of a local build: the container mounts cargo's and
/// xargo's homes, the project, the toolchain and the output directory, and
/// runs the build tool in the place that mirrors the current directory.
pub fn local_run(engine: &Engine, build: &Build, dirs: &Directories) -> (made: Result<
    Command,
    Error,
>)
    ensures
        is_buildable(build, dirs) <==> made is Ok,
        made is Ok ==> made->Ok_0@ == local_command(engine, build, dirs),
        made is Err ==> made->Err_0@ == build_failure(build),
{
    let mut docker = docker_subcommand(engine, "run");
    docker.arg2("--userns", "host");
    let mount_volumes = match add_settings(&mut docker, engine, build) {
        Ok(flag) => flag,
        Err(e) => {
            return Err(e);
        },
    };
    add_mounts(&mut docker, build, dirs, mount_volumes);
    match docker_cwd(
        &mut docker,
        build.workspace_root.as_str(),
        dirs.mount_cwd.as_str(),
        build.cwd.as_str(),
        mount_volumes,
    ) {
        Ok(()) => {},
        Err(e) => {
            return Err(e);
        },
    }
    add_program(&mut docker, build, dirs);
    Ok(docker)
}

} // verus!
