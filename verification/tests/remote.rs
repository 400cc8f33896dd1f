use cross::cargo::{CargoMetadata, Package};
use cross::command::Command;
use cross::docker::engine::{Engine, EngineType};
use cross::docker::lifecycle::{advance, Failure, Outcome, Phase, State, Verdict};
use cross::docker::local::{build_line, local_run, Build};
use cross::docker::options::{EnvVolume, HostEnv, Staged};
use cross::docker::plan::{
    plan_remote, remote_run, stage_project, symlink_script, Action, Facts, RemoteRun,
};
use cross::docker::remote::{
    container_rm, container_state, container_stop, copy_volume_cargo, copy_volume_files,
    copy_volume_rust, copy_volume_xargo, create_volume_dir, is_cachedir, is_cachedir_tag,
    parse_container_state, path_hash, remote_identifier, skip_rustlib, skip_target_libs,
    volume_create, volume_exists, volume_rm, ContainerState, Step, VolumeId,
};
use cross::docker::shared::{Directories, HostDirectories, MountDetail, MountFinder};
use cross::errors::Error;

fn engine() -> Engine {
    Engine {
        kind: EngineType::Docker,
        path: "docker".to_owned(),
        is_remote: true,
    }
}

fn words(list: &[&str]) -> Vec<String> {
    list.iter().map(|s| s.to_string()).collect()
}

fn run(args: &[&str]) -> Step {
    Step::Run(Command {
        program: "docker".to_owned(),
        args: words(args),
    })
}

fn dirs() -> Directories {
    Directories {
        cargo: "/home/me/.cargo".to_owned(),
        xargo: "/home/me/.xargo".to_owned(),
        target: "/ws/target".to_owned(),
        nix_store: None,
        host_root: "/ws".to_owned(),
        mount_root: "/ws".to_owned(),
        mount_cwd: "/ws/crates/a".to_owned(),
        sysroot: "/sysroot".to_owned(),
    }
}

fn build() -> Build {
    Build {
        triple: "aarch64-unknown-linux-gnu".to_owned(),
        needs_seccomp: false,
        seccomp_unreadable: false,
        seccomp_profile: "/ws/target/aarch64-unknown-linux-gnu/seccomp.json".to_owned(),
        args: words(&["build", "--target", "aarch64-unknown-linux-gnu"]),
        uses_xargo: false,
        workspace_root: "/ws".to_owned(),
        cwd: "/ws/crates/a".to_owned(),
        passthrough: vec![],
        runner: None,
        image: "ghcr.io/cross-rs/aarch64-unknown-linux-gnu:0.2.1".to_owned(),
        volumes: vec![],
        deps: vec![],
        env: HostEnv {
            username: None,
            uid: "1000".to_owned(),
            gid: "1000".to_owned(),
            qemu_strace: None,
            cross_debug: None,
            container_opts: None,
            docker_opts: None,
        },
        stdin_tty: false,
        stdout_tty: false,
        stderr_tty: false,
        verbose: false,
    }
}

fn facts() -> Facts {
    Facts {
        xargo_exists: false,
        cargo_entries: words(&[".package-cache", "bin", "git", "registry", "env"]),
        copy_registry: false,
        copy_cache: false,
        toolchain_exists: true,
        libdir: "/sysroot/lib/rustlib/x86_64-unknown-linux-gnu/lib\n".to_owned(),
        canonical_target: "/ws/target".to_owned(),
    }
}

fn ok(stdout: &str) -> Outcome {
    Outcome {
        executed: true,
        code: 0,
        stdout: stdout.to_owned(),
    }
}

fn failed(code: i32) -> Outcome {
    Outcome {
        executed: true,
        code,
        stdout: String::new(),
    }
}

fn not_run() -> Outcome {
    Outcome {
        executed: false,
        code: -1,
        stdout: String::new(),
    }
}

/// Drives a run: `answer` is asked for the outcome of each step. Hands back
/// the steps in the order in which they were issued, and the result.
fn drive(
    mut run: RemoteRun,
    mut answer: impl FnMut(&Phase, &Step) -> Outcome,
) -> (Vec<(Phase, Step)>, Result<i32, Error>) {
    let mut issued = vec![];
    for _ in 0..1000 {
        match run.action() {
            Action::Do(step) => {
                let phase = run.state.phase;
                let outcome = answer(&phase, &step);
                issued.push((phase, step));
                run.step(&outcome);
            }
            Action::Finish(result) => {
                assert!(run.is_done());
                return (issued, result);
            }
        }
    }
    panic!("the run does not end");
}

fn phases(issued: &[(Phase, Step)]) -> Vec<Phase> {
    issued.iter().map(|(p, _)| *p).collect()
}

fn new_run() -> RemoteRun {
    remote_run(engine(), "cross-a".to_owned(), &build(), &dirs(), &facts()).unwrap()
}

#[test]
fn container_states_are_the_seven_known_names() {
    assert_eq!(ContainerState::new("created"), Ok(ContainerState::Created));
    assert_eq!(ContainerState::new("running"), Ok(ContainerState::Running));
    assert_eq!(ContainerState::new("paused"), Ok(ContainerState::Paused));
    assert_eq!(ContainerState::new("restarting"), Ok(ContainerState::Restarting));
    assert_eq!(ContainerState::new("dead"), Ok(ContainerState::Dead));
    assert_eq!(ContainerState::new("exited"), Ok(ContainerState::Exited));
    assert_eq!(ContainerState::new(""), Ok(ContainerState::DoesNotExist));
    for other in ["Running", "running ", " ", "removing", "exit", "created\n"] {
        assert_eq!(
            ContainerState::new(other),
            Err(Error::UnknownContainerState(other.to_owned()))
        );
    }
}

#[test]
fn stopped_and_present_states() {
    for state in [
        ContainerState::Created,
        ContainerState::Running,
        ContainerState::Paused,
        ContainerState::Restarting,
        ContainerState::Dead,
    ] {
        assert!(!state.is_stopped());
        assert!(state.is_present());
    }
    assert!(ContainerState::Exited.is_stopped());
    assert!(ContainerState::Exited.is_present());
    assert!(ContainerState::DoesNotExist.is_stopped());
    assert!(!ContainerState::DoesNotExist.is_present());
}

#[test]
fn the_state_is_read_from_trimmed_output() {
    assert_eq!(parse_container_state(" running\n"), Ok(ContainerState::Running));
    assert_eq!(parse_container_state("\n"), Ok(ContainerState::DoesNotExist));
    assert_eq!(parse_container_state("\u{2003}exited\u{a0}"), Ok(ContainerState::Exited));
    assert_eq!(
        parse_container_state("  up 3 days \n"),
        Err(Error::UnknownContainerState("up 3 days".to_owned()))
    );
}

#[test]
fn the_kept_volume_is_chosen_where_it_exists() {
    assert_eq!(VolumeId::create("cross-a", true), VolumeId::Keep("cross-a-keep".to_owned()));
    assert_eq!(VolumeId::create("cross-a", false), VolumeId::Discard("cross-a".to_owned()));
    assert_eq!(VolumeId::create("cross-a", true).as_ref(), "cross-a-keep");
    assert_eq!(VolumeId::create("cross-a", false).as_ref(), "cross-a");
    // choosing again gives the same volume
    assert_eq!(VolumeId::create("cross-a", true), VolumeId::create("cross-a", true));
}

#[test]
fn engine_commands_for_volumes_and_containers() {
    let e = engine();
    assert_eq!(Step::Run(volume_create(&e, "v")), run(&["volume", "create", "v"]));
    assert_eq!(Step::Run(volume_rm(&e, "v")), run(&["volume", "rm", "v"]));
    assert_eq!(Step::Run(volume_exists(&e, "v")), run(&["volume", "inspect", "v"]));
    assert_eq!(Step::Run(container_stop(&e, "c")), run(&["stop", "c"]));
    assert_eq!(Step::Run(container_rm(&e, "c")), run(&["rm", "c"]));
    assert_eq!(
        Step::Run(container_state(&e, "c")),
        run(&["ps", "-a", "--filter", "name=c", "--format", "{{.State}}"])
    );
    assert_eq!(
        Step::Run(create_volume_dir(&e, "c", "/cross/a b")),
        run(&["exec", "c", "sh", "-c", "mkdir -p '/cross/a b'"])
    );
    assert_eq!(
        Step::Run(copy_volume_files(&e, "c", "/src", "/cross/dst")),
        run(&["cp", "-a", "/src", "c:/cross/dst"])
    );
}

#[test]
fn the_cache_marker_is_exact() {
    let signature = b"Signature: 8a477f597d28d172789f06886806bc55";
    assert_eq!(signature.len(), 43);
    assert!(is_cachedir_tag(signature));
    // truncated
    assert!(!is_cachedir_tag(&signature[..42]));
    assert!(!is_cachedir_tag(b""));
    // extended
    let mut longer = signature.to_vec();
    longer.push(b'\n');
    assert!(!is_cachedir_tag(&longer));
    // one byte different, at each place
    for i in 0..signature.len() {
        let mut other = signature.to_vec();
        other[i] ^= 1;
        assert!(!is_cachedir_tag(&other));
    }
    assert!(is_cachedir(true, Some(signature)));
    assert!(!is_cachedir(false, Some(signature)));
    assert!(!is_cachedir(true, None));
    assert!(!is_cachedir(true, Some(&signature[1..])));
}

#[test]
fn the_toolchain_copy_leaves_out_other_targets() {
    assert!(skip_rustlib(0, "rustlib"));
    assert!(!skip_rustlib(1, "rustlib"));
    assert!(!skip_rustlib(0, "librustc.so"));
    assert!(skip_target_libs(0, Some(false), "x86_64-unknown-linux-gnu"));
    assert!(!skip_target_libs(0, Some(false), "src"));
    assert!(!skip_target_libs(0, Some(false), "etc"));
    assert!(!skip_target_libs(0, Some(true), "components"));
    assert!(skip_target_libs(0, None, "src"));
    assert!(!skip_target_libs(1, None, "anything"));
    assert!(!skip_target_libs(2, Some(false), "x86_64-unknown-linux-gnu"));
}

#[test]
fn paths_are_named_by_five_digits_of_their_digest() {
    assert_eq!(path_hash("/ws/Cargo.toml"), "fe6b4");
    assert_eq!(path_hash("/sysroot"), "e2750");
}

fn metadata() -> CargoMetadata {
    CargoMetadata {
        workspace_root: "/ws".to_owned(),
        target_directory: "/ws/target".to_owned(),
        packages: vec![
            Package {
                id: "a 0.1.0 (path+file:///ws/crates/a)".to_owned(),
                name: "a".to_owned(),
                manifest_path: "/ws/crates/a/Cargo.toml".to_owned(),
                source: None,
                version: "0.1.0".to_owned(),
                license: None,
            },
            Package {
                id: "root 0.1.0 (path+file:///ws)".to_owned(),
                name: "root".to_owned(),
                manifest_path: "/ws/Cargo.toml".to_owned(),
                source: None,
                version: "0.1.0".to_owned(),
                license: None,
            },
        ],
        workspace_members: vec![],
    }
}

#[test]
fn the_identifier_names_the_build() {
    let m = metadata();
    let name =
        remote_identifier("aarch64-unknown-linux-gnu", &m, "/sysroot", Some("5bb63ae9b"), "rustc 1.61.0");
    assert_eq!(
        name,
        Some("cross-root-aarch64-unknown-linux-gnu-fe6b4-e2750-5bb63ae9b".to_owned())
    );
    // the same values give the same name
    assert_eq!(
        name,
        remote_identifier("aarch64-unknown-linux-gnu", &m, "/sysroot", Some("5bb63ae9b"), "rustc 1.61.0")
    );
    // each value tells builds apart
    let other_target =
        remote_identifier("x86_64-unknown-linux-musl", &m, "/sysroot", Some("5bb63ae9b"), "");
    assert_ne!(name, other_target);
    let other_toolchain =
        remote_identifier("aarch64-unknown-linux-gnu", &m, "/ws/Cargo.toml", Some("5bb63ae9b"), "");
    assert_eq!(
        other_toolchain,
        Some("cross-root-aarch64-unknown-linux-gnu-fe6b4-fe6b4-5bb63ae9b".to_owned())
    );
    let no_commit = remote_identifier("aarch64-unknown-linux-gnu", &m, "/sysroot", None, "rustc 1.61.0");
    assert_eq!(
        no_commit,
        Some("cross-root-aarch64-unknown-linux-gnu-fe6b4-e2750-rustc 1.61.0".to_owned())
    );
    // without a package in the workspace root, the first package names the build
    let mut m = metadata();
    m.packages.pop();
    assert_eq!(
        remote_identifier("t", &m, "/sysroot", Some("c"), ""),
        Some("cross-a-t-5bcdd-e2750-c".to_owned())
    );
    m.packages.clear();
    assert_eq!(remote_identifier("t", &m, "/sysroot", Some("c"), ""), None);
}

#[test]
fn short_hashes_of_different_paths_can_agree() {
    assert_eq!(path_hash("/ws9/Cargo.toml"), "3207d");
    assert_eq!(path_hash("/ws1478/Cargo.toml"), "3207d");
    let at = |manifest: &str| {
        let mut m = metadata();
        m.packages.truncate(1);
        m.packages[0].manifest_path = manifest.to_owned();
        remote_identifier("t", &m, "/sysroot", Some("c"), "")
    };
    assert_eq!(at("/ws9/Cargo.toml"), at("/ws1478/Cargo.toml"));
    assert_ne!(at("/ws9/Cargo.toml"), at("/ws10/Cargo.toml"));
}

#[test]
fn xargo_and_cargo_are_copied_in_part() {
    let e = engine();
    assert_eq!(copy_volume_xargo(&e, "c", "/x", "t", "/cross", false), vec![]);
    assert_eq!(
        copy_volume_xargo(&e, "c", "/x", "t", "/cross", true),
        vec![
            run(&["exec", "c", "sh", "-c", "mkdir -p '/cross/xargo/lib/rustlib'"]),
            run(&["cp", "-a", "/x/lib/rustlib/t", "c:/cross/xargo/lib/rustlib/t"]),
        ]
    );
    assert_eq!(
        copy_volume_cargo(&e, "c", "/home/me/.cargo", "/cross", true, &words(&["git"])),
        vec![run(&["cp", "-a", "/home/me/.cargo", "c:/cross/cargo"])]
    );
    assert_eq!(
        copy_volume_cargo(
            &e,
            "c",
            "/home/me/.cargo",
            "/cross",
            false,
            &words(&[".package-cache", "bin", "git", "registry", "env", "registry2"])
        ),
        vec![
            run(&["exec", "c", "sh", "-c", "mkdir -p '/cross/cargo'"]),
            run(&["cp", "-a", "/home/me/.cargo/bin", "c:/cross/cargo"]),
            run(&["cp", "-a", "/home/me/.cargo/env", "c:/cross/cargo"]),
            run(&["cp", "-a", "/home/me/.cargo/registry2", "c:/cross/cargo"]),
        ]
    );
}

#[test]
fn the_toolchain_is_copied_for_target_and_host() {
    let e = engine();
    let steps = copy_volume_rust(
        &e,
        "c",
        "/sysroot",
        "aarch64-unknown-linux-gnu",
        "/cross",
        true,
        " /sysroot/lib/rustlib/x86_64-unknown-linux-gnu/lib\n",
    )
    .unwrap();
    assert_eq!(
        steps,
        vec![
            run(&["exec", "c", "sh", "-c", "mkdir -p '/cross/rust'"]),
            run(&["cp", "-a", "/sysroot/bin", "c:/cross/rust"]),
            run(&["cp", "-a", "/sysroot/libexec", "c:/cross/rust"]),
            run(&["cp", "-a", "/sysroot/etc", "c:/cross/rust"]),
            Step::CopyLibs {
                lib: "/sysroot/lib".to_owned(),
                rustlib: "/sysroot/lib/rustlib".to_owned(),
                dst: "/cross/rust/lib".to_owned(),
            },
            run(&["exec", "c", "sh", "-c", "mkdir -p '/cross/rust/lib/rustlib'"]),
            run(&[
                "cp",
                "-a",
                "/sysroot/lib/rustlib/aarch64-unknown-linux-gnu",
                "c:/cross/rust/lib/rustlib"
            ]),
            run(&[
                "cp",
                "-a",
                "/sysroot/lib/rustlib/x86_64-unknown-linux-gnu",
                "c:/cross/rust/lib/rustlib"
            ]),
        ]
    );
    let without = copy_volume_rust(&e, "c", "/sysroot", "t", "/cross", false, "/a/b").unwrap();
    assert_eq!(without.len(), 7);
    assert_eq!(
        copy_volume_rust(&e, "c", "/sysroot", "t", "/cross", false, " / "),
        Err(Error::NoParent("/".to_owned()))
    );
}

#[test]
fn a_local_build_mounts_the_workspace_as_the_project() {
    let local = Engine {
        kind: EngineType::Docker,
        path: "docker".to_owned(),
        is_remote: false,
    };
    let cmd = local_run(&local, &build(), &dirs()).unwrap();
    assert_eq!(cmd.program, "docker");
    assert_eq!(
        cmd.args,
        words(&[
            "run",
            "--userns",
            "host",
            "-e",
            "PKG_CONFIG_ALLOW_CROSS=1",
            "-e",
            "XARGO_HOME=/xargo",
            "-e",
            "CARGO_HOME=/cargo",
            "-e",
            "CARGO_TARGET_DIR=/target",
            "-e",
            "CROSS_RUNNER=",
            "--rm",
            "--user",
            "1000:1000",
            "-v",
            "/home/me/.xargo:/xargo:Z",
            "-v",
            "/home/me/.cargo:/cargo:Z",
            "-v",
            "/cargo/bin",
            "-v",
            "/ws:/project:Z",
            "-v",
            "/sysroot:/rust:Z,ro",
            "-v",
            "/ws/target:/target:Z",
            "-w",
            "/project/crates/a",
            "ghcr.io/cross-rs/aarch64-unknown-linux-gnu:0.2.1",
            "sh",
            "-c",
            "PATH=/rust/bin:$PATH cargo build --target aarch64-unknown-linux-gnu",
        ])
    );
}

#[test]
fn a_local_build_with_extra_directories_mounts_the_project_under_its_own_path() {
    let local = Engine {
        kind: EngineType::Podman,
        path: "podman".to_owned(),
        is_remote: false,
    };
    let mut b = build();
    b.volumes.push(EnvVolume {
        var: "DATA".to_owned(),
        value: "/srv/data".to_owned(),
        host_path: "/srv/data".to_owned(),
    });
    b.stdin_tty = true;
    b.stdout_tty = true;
    b.stderr_tty = true;
    b.needs_seccomp = true;
    let mut d = dirs();
    d.nix_store = Some("/nix/store".to_owned());
    let cmd = local_run(&local, &b, &d).unwrap();
    let args = cmd.args;
    let position = |what: &str| args.iter().position(|a| a == what).unwrap();
    assert!(args.contains(&"/ws:/ws:Z".to_owned()));
    assert!(!args.contains(&"--user".to_owned()));
    assert_eq!(args[position("-w") + 1], "/ws/crates/a");
    assert_eq!(args[position("/srv/data:/srv/data") - 1], "-v");
    assert_eq!(args[position("DATA=/srv/data") - 1], "-e");
    assert_eq!(
        args[position("--security-opt") + 1],
        "seccomp=/ws/target/aarch64-unknown-linux-gnu/seccomp.json"
    );
    assert_eq!(args[position("/nix/store:/nix/store:Z") + 1], "-i");
    assert_eq!(args[position("-i") + 1], "-t");
    let mut b = build();
    b.stdin_tty = true;
    let args = local_run(&local, &b, &dirs()).unwrap().args;
    assert!(!args.contains(&"-i".to_owned()) && !args.contains(&"-t".to_owned()));
    let mut b = build();
    b.stdout_tty = true;
    b.stderr_tty = true;
    let args = local_run(&local, &b, &dirs()).unwrap().args;
    assert!(!args.contains(&"-i".to_owned()) && !args.contains(&"-t".to_owned()));
}

#[test]
fn a_local_build_refuses_what_it_cannot_set_up() {
    let local = engine();
    let mut b = build();
    b.passthrough = words(&["CROSS_RUNNER"]);
    assert_eq!(local_run(&local, &b, &dirs()), Err(Error::ReservedVariable));
    let mut b = build();
    b.env.docker_opts = Some("'".to_owned());
    assert_eq!(
        local_run(&local, &b, &dirs()),
        Err(Error::InvalidOptions("'".to_owned()))
    );
}

#[test]
fn the_build_line_quotes_its_words() {
    assert_eq!(
        build_line(true, &words(&["build", "--features", "a b", "it's"])),
        "PATH=/rust/bin:$PATH xargo build --features 'a b' 'it'\\''s'"
    );
    assert_eq!(build_line(false, &vec![]), "PATH=/rust/bin:$PATH cargo");
}

#[test]
fn the_symlink_script_links_each_staged_path_once_and_fails_on_a_real_file() {
    let links = vec![
        Staged { src: "/cross/project/target".to_owned(), dst: "/target".to_owned() },
        Staged { src: "/cross/project/data".to_owned(), dst: "/srv/data".to_owned() },
    ];
    let script = symlink_script(false, "1000", "100", &links);
    let lines: Vec<&str> = script.split('\n').collect();
    assert_eq!(lines[0], "set -e pipefail");
    assert_eq!(lines[1], "chown -R 1000:100 /cross/*");
    assert_eq!(lines[2], "prefix=\"/cross\"");
    // a real file at a canonical path ends the script with a failure
    assert!(script.contains("if [ -f \"${dst}\" ]; then\n            echo \"invalid: got unexpected file at ${dst}\" 1>&2\n            exit 1"));
    // directories are entered, anything else is linked
    assert!(script.contains("elif [ -d \"${dst}\" ]; then\n            symlink_recurse \"${f}\""));
    assert!(script.contains("else\n            ln -s \"${f}\" \"${dst}\""));
    assert!(script.contains("\nsymlink_recurse \"${prefix}\"\n"));
    // exactly one link for each staged path
    for link in &links {
        let line = format!("ln -s \"{}\" \"{}\"", link.src, link.dst);
        assert_eq!(lines.iter().filter(|l| **l == line).count(), 1);
    }
    assert_eq!(lines.iter().filter(|l| l.starts_with("ln -s ")).count(), 2);
    assert_eq!(lines[lines.len() - 2], "ln -s \"/cross/project/target\" \"/target\"");
    assert_eq!(lines[lines.len() - 1], "ln -s \"/cross/project/data\" \"/srv/data\"");
    let traced = symlink_script(true, "0", "0", &vec![]);
    assert!(traced.starts_with("set -e pipefail\nset -x\nchown -R 0:0 /cross/*\nprefix="));
    assert!(traced.ends_with("symlink_recurse \"${prefix}\"\n"));
}

#[test]
fn the_project_is_staged_at_project_or_under_its_own_path() {
    let e = engine();
    let staging = stage_project(&e, "c", &dirs(), &facts(), false, &vec![]).unwrap();
    assert_eq!(
        staging.steps,
        vec![Step::CopyClean { src: "/ws".to_owned(), dst: "/cross/project".to_owned() }]
    );
    assert_eq!(
        staging.links,
        vec![Staged { src: "/cross/project/target".to_owned(), dst: "/target".to_owned() }]
    );
    assert_eq!(staging.target_dir, "/cross/project/target");

    let mut f = facts();
    f.copy_cache = true;
    f.canonical_target = "/elsewhere/target".to_owned();
    let mut d = dirs();
    d.target = "/elsewhere/target".to_owned();
    let extra = vec![
        Staged { src: "/ws/data".to_owned(), dst: "/ws/data".to_owned() },
        Staged { src: "/srv/x".to_owned(), dst: "/srv/x".to_owned() },
        Staged { src: "/top".to_owned(), dst: "/".to_owned() },
    ];
    let staging = stage_project(&e, "c", &d, &f, true, &extra).unwrap();
    assert_eq!(
        staging.steps,
        vec![
            run(&["exec", "c", "sh", "-c", "mkdir -p '/cross'"]),
            run(&["cp", "-a", "/ws", "c:/cross/ws"]),
            run(&["cp", "-a", "/elsewhere/target", "c:/cross/target"]),
            run(&["exec", "c", "sh", "-c", "mkdir -p '/cross/srv'"]),
            run(&["cp", "-a", "/srv/x", "c:/cross/srv/x"]),
            run(&["cp", "-a", "/top", "c:/cross"]),
        ]
    );
    assert_eq!(
        staging.links,
        vec![Staged { src: "/cross/ws/data".to_owned(), dst: "/ws/data".to_owned() }]
    );
    assert_eq!(staging.target_dir, "/cross/target");

    let mut f = facts();
    f.canonical_target = "/elsewhere/target".to_owned();
    let staging = stage_project(&e, "c", &dirs(), &f, false, &vec![]).unwrap();
    assert_eq!(
        staging.steps[1],
        run(&["exec", "c", "sh", "-c", "mkdir -p '/cross/target'"])
    );
    let bad = vec![Staged { src: "/srv/x".to_owned(), dst: "relative".to_owned() }];
    assert_eq!(
        stage_project(&e, "c", &dirs(), &facts(), false, &bad),
        Err(Error::NotAbsolute("relative".to_owned()))
    );
    let mut d = dirs();
    d.mount_root = "ws".to_owned();
    assert_eq!(
        stage_project(&e, "c", &d, &facts(), true, &vec![]),
        Err(Error::NotAbsolute("ws".to_owned()))
    );
}

#[test]
fn a_run_with_a_kept_volume_never_touches_a_volume() {
    let (issued, result) = drive(new_run(), |phase, _| match phase {
        Phase::ProbeKeep => ok(""),
        Phase::ProbeContainer => ok("\n"),
        Phase::Build => failed(101),
        _ => ok(""),
    });
    assert_eq!(result, Ok(101));
    assert_eq!(
        phases(&issued),
        vec![
            Phase::ProbeKeep,
            Phase::ProbeContainer,
            Phase::StartContainer,
            Phase::Project(0),
            Phase::Symlink,
            Phase::Build,
            Phase::CopyBack,
            Phase::ReleaseStop,
            Phase::ReleaseRemove,
        ]
    );
    assert_eq!(issued[0].1, run(&["volume", "inspect", "cross-a-keep"]));
    for (_, step) in &issued[1..] {
        if let Step::Run(cmd) = step {
            assert_ne!(cmd.args[0], "volume");
        }
    }
    match &issued[2].1 {
        Step::Run(cmd) => {
            assert_eq!(
                cmd.args[..7],
                words(&["run", "--userns", "host", "--name", "cross-a", "-v", "cross-a-keep:/cross"])[..]
            );
            let n = cmd.args.len();
            assert_eq!(
                cmd.args[n - 9..],
                words(&[
                    "--user",
                    "1000:1000",
                    "-v",
                    "/cross/cargo/bin",
                    "-d",
                    "ghcr.io/cross-rs/aarch64-unknown-linux-gnu:0.2.1",
                    "sh",
                    "-c",
                    "sleep infinity"
                ])[..]
            );
        }
        other => panic!("unexpected step {other:?}"),
    }
    assert_eq!(
        issued[5].1,
        run(&[
            "exec",
            "-w",
            "/project/crates/a",
            "cross-a",
            "sh",
            "-c",
            "PATH=/rust/bin:$PATH cargo build --target aarch64-unknown-linux-gnu"
        ])
    );
    assert_eq!(
        issued[6].1,
        run(&["cp", "-a", "cross-a:/cross/project/target", "/ws"])
    );
    assert_eq!(issued[7].1, run(&["stop", "cross-a"]));
    assert_eq!(issued[8].1, run(&["rm", "cross-a"]));
}

#[test]
fn a_run_with_its_own_volume_removes_it_after_the_container() {
    let (issued, result) = drive(new_run(), |phase, _| match phase {
        Phase::ProbeKeep => failed(1),
        Phase::ProbeContainer => ok("running\n"),
        Phase::ProbeVolume => ok(""),
        _ => ok(""),
    });
    assert_eq!(result, Ok(0));
    let seen = phases(&issued);
    assert_eq!(
        seen[..8],
        [
            Phase::ProbeKeep,
            Phase::ProbeContainer,
            Phase::StopStale,
            Phase::RemoveStale,
            Phase::ProbeVolume,
            Phase::RemoveStaleVolume,
            Phase::CreateVolume,
            Phase::StartContainer,
        ]
    );
    assert_eq!(issued[5].1, run(&["volume", "rm", "cross-a"]));
    assert_eq!(issued[6].1, run(&["volume", "create", "cross-a"]));
    let n = issued.len();
    assert_eq!(
        seen[n - 6..],
        [
            Phase::Symlink,
            Phase::Build,
            Phase::CopyBack,
            Phase::ReleaseStop,
            Phase::ReleaseRemove,
            Phase::ReleaseVolume,
        ]
    );
    assert_eq!(issued[n - 3].1, run(&["stop", "cross-a"]));
    assert_eq!(issued[n - 2].1, run(&["rm", "cross-a"]));
    assert_eq!(issued[n - 1].1, run(&["volume", "rm", "cross-a"]));
    // the toolchain is copied into the new volume before the project
    assert!(seen.contains(&Phase::Toolchain(0)));
    let first_project = seen.iter().position(|p| *p == Phase::Project(0)).unwrap();
    let last_toolchain = seen.iter().rposition(|p| matches!(p, Phase::Toolchain(_))).unwrap();
    assert!(last_toolchain < first_project);
}

#[test]
fn a_failure_at_any_step_still_releases_what_was_acquired() {
    let plan_len = {
        let (issued, _) = drive(new_run(), |phase, _| match phase {
            Phase::ProbeKeep => failed(1),
            Phase::ProbeContainer => ok(""),
            Phase::ProbeVolume => failed(1),
            _ => ok(""),
        });
        issued.len()
    };
    for failing in 0..plan_len {
        for outcome in [failed(1), not_run()] {
            let mut count = 0;
            let (issued, result) = drive(new_run(), |phase, _| {
                let index = count;
                count += 1;
                if index == failing {
                    return outcome.clone();
                }
                match phase {
                    Phase::ProbeKeep => failed(1),
                    Phase::ProbeContainer => ok(""),
                    Phase::ProbeVolume => failed(1),
                    _ => ok(""),
                }
            });
            let seen = phases(&issued);
            let created = issued.iter().enumerate().any(|(i, (p, _))| {
                *p == Phase::CreateVolume && !(i == failing && !outcome.executed)
            });
            let started = issued.iter().enumerate().any(|(i, (p, _))| {
                *p == Phase::StartContainer && !(i == failing && !outcome.executed)
            });
            let stops = seen.iter().filter(|p| **p == Phase::ReleaseStop).count();
            let removes = seen.iter().filter(|p| **p == Phase::ReleaseRemove).count();
            let volume_removes = seen.iter().filter(|p| **p == Phase::ReleaseVolume).count();
            assert_eq!(stops, started as usize);
            assert_eq!(removes, started as usize);
            assert_eq!(volume_removes, created as usize);
            if created {
                assert_eq!(seen[seen.len() - 1], Phase::ReleaseVolume);
            }
            if started {
                let stop = seen.iter().position(|p| *p == Phase::ReleaseStop).unwrap();
                assert_eq!(seen[stop + 1], Phase::ReleaseRemove);
            }
            // what fails the run, and what does not
            let failed_phase = seen[failing];
            match failed_phase {
                Phase::ReleaseStop | Phase::ReleaseRemove | Phase::ReleaseVolume => {
                    assert_eq!(result, Ok(0));
                }
                Phase::ProbeKeep | Phase::ProbeVolume if outcome.executed => {
                    // the answer "it does not exist" is no failure
                    assert_eq!(result, Ok(0));
                }
                Phase::Build if outcome.executed => assert_eq!(result, Ok(1)),
                Phase::Symlink if outcome.executed => {
                    assert_eq!(result, Err(Error::SymlinkCollision))
                }
                _ => assert_eq!(result, Err(Error::ExecutionFailed)),
            }
        }
    }
}

#[test]
fn an_unknown_container_state_ends_the_run() {
    let (issued, result) = drive(new_run(), |phase, _| match phase {
        Phase::ProbeKeep => failed(1),
        Phase::ProbeContainer => ok(" removing \n"),
        _ => ok(""),
    });
    assert_eq!(result, Err(Error::UnknownContainerState("removing".to_owned())));
    assert_eq!(phases(&issued), vec![Phase::ProbeKeep, Phase::ProbeContainer]);
}

#[test]
fn the_exit_status_of_the_build_is_handed_on() {
    for code in [0, 1, 101, -1] {
        let (_, result) = drive(new_run(), |phase, _| match phase {
            Phase::ProbeKeep => ok(""),
            Phase::ProbeContainer => ok(""),
            Phase::Build => failed(code),
            // the results cannot be copied back
            Phase::CopyBack => failed(1),
            _ => ok(""),
        });
        if code == 0 {
            assert_eq!(result, Err(Error::ExecutionFailed));
        } else {
            assert_eq!(result, Ok(code));
        }
    }
}

#[test]
fn runs_stay_in_states_that_a_run_can_reach() {
    let mut run = new_run();
    assert!(run.is_consistent());
    for _ in 0..100 {
        match run.action() {
            Action::Do(_) => {
                let outcome = if run.state.phase == Phase::ProbeKeep { failed(1) } else { ok("") };
                run.step(&outcome);
                assert!(run.is_consistent());
            }
            Action::Finish(result) => {
                assert_eq!(result, Ok(0));
                break;
            }
        }
    }
    assert!(run.is_done());
    let mut broken = new_run();
    broken.state.phase = Phase::ReleaseVolume;
    assert!(!broken.is_consistent());
    let mut broken = new_run();
    broken.state.toolchain_steps += 1;
    assert!(!broken.is_consistent());
}

#[test]
fn single_steps_of_the_machine() {
    let start = State {
        phase: Phase::ProbeKeep,
        discard: false,
        container_live: false,
        volume_live: false,
        result: None,
        toolchain_steps: 2,
        project_steps: 1,
    };
    let next = advance(start, &failed(1));
    assert_eq!(next, State { phase: Phase::ProbeContainer, discard: true, ..start });
    let next = advance(start, &not_run());
    assert_eq!(
        next,
        State {
            phase: Phase::Done,
            result: Some(Verdict::Failed(Failure::ExecutionFailed)),
            ..start
        }
    );
    let creating = State { phase: Phase::CreateVolume, discard: true, ..start };
    assert_eq!(
        advance(creating, &failed(1)),
        State {
            phase: Phase::ReleaseVolume,
            volume_live: true,
            result: Some(Verdict::Failed(Failure::ExecutionFailed)),
            ..creating
        }
    );
    let last_toolchain = State {
        phase: Phase::Toolchain(1),
        discard: true,
        container_live: true,
        volume_live: true,
        ..start
    };
    assert_eq!(advance(last_toolchain, &ok("")).phase, Phase::Project(0));
    let last_project = State { phase: Phase::Project(0), ..last_toolchain };
    assert_eq!(advance(last_project, &ok("")).phase, Phase::Symlink);
    let done = State { phase: Phase::Done, result: Some(Verdict::Exit(3)), ..start };
    assert_eq!(advance(done, &ok("x")), done);
}

#[test]
fn a_remote_build_that_cannot_be_planned_is_refused() {
    let mut f = facts();
    f.libdir = "/".to_owned();
    assert_eq!(
        plan_remote(&engine(), "c", &build(), &dirs(), &f).err(),
        Some(Error::NoParent("/".to_owned()))
    );
    let mut d = dirs();
    d.target = "/".to_owned();
    assert_eq!(
        remote_run(engine(), "c".to_owned(), &build(), &d, &facts()).err(),
        Some(Error::NoParent("/".to_owned()))
    );
    let mut b = build();
    b.cwd = "/elsewhere".to_owned();
    let mut d = dirs();
    d.mount_cwd = "/elsewhere".to_owned();
    // outside the workspace the project is mounted under its own path
    let plan = plan_remote(&engine(), "c", &b, &d, &facts()).unwrap();
    assert_eq!(plan.build.args[2], "/elsewhere");
    assert_eq!(plan.copy_back.args, words(&["cp", "-a", "c:/cross/ws/target", "/ws"]));
    assert_eq!(plan.project[0], run(&["exec", "c", "sh", "-c", "mkdir -p '/cross'"]));
}

#[test]
fn directories_are_translated_once() {
    let finder = MountFinder::new(vec![
        MountDetail { source: "/host/ws".to_owned(), destination: "/ws".to_owned() },
        MountDetail { source: "/merged".to_owned(), destination: "/".to_owned() },
    ]);
    let host = HostDirectories {
        cargo: "/root/.cargo".to_owned(),
        xargo: "/root/.xargo".to_owned(),
        nix_store: Some("/nix/store".to_owned()),
    };
    let d = Directories::create(&finder, &metadata(), "/ws/crates/a", "/rust", &host);
    assert_eq!(
        d,
        Directories {
            cargo: "/merged/root/.cargo".to_owned(),
            xargo: "/merged/root/.xargo".to_owned(),
            target: "/host/ws/target".to_owned(),
            nix_store: Some("/nix/store".to_owned()),
            host_root: "/host/ws".to_owned(),
            mount_root: "/merged/host/ws".to_owned(),
            mount_cwd: "/host/ws/crates/a".to_owned(),
            sysroot: "/merged/rust".to_owned(),
        }
    );
    // outside the workspace, the current directory is the root of the project
    let d = Directories::create(&MountFinder::default(), &metadata(), "/", "/rust", &host);
    assert_eq!(d.host_root, "/");
    assert_eq!(d.mount_cwd, "/");
    let d = Directories::create(&MountFinder::default(), &metadata(), "/other", "/rust", &host);
    assert_eq!(d.host_root, "/other");
    assert_eq!(d.mount_root, "/other");
    assert_eq!(d.cargo, "/root/.cargo");
    let d = Directories::create(&MountFinder::default(), &metadata(), "/ws", "/rust", &host);
    assert_eq!(d.host_root, "/ws");
}
