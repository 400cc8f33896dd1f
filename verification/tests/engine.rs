use cross::command::Command;
use cross::docker::engine::{
    docker_command, docker_subcommand, get_container_engine, get_engine_type, Engine, EngineType,
};
use cross::lock::is_valid_namespace;
use cross::docker::options::{
    bool_from_envvar, canonicalize_mount_path, cargo_cmd, docker_cwd, docker_envvars, docker_mount, docker_seccomp,
    docker_user_id, image, mount, parse_docker_opts, provides_image, register, remote_mount_path,
    seccomp_path, validate_env_var, EnvVolume, HostEnv, PathDependency, Staged,
};
use cross::errors::Error;

fn engine(kind: EngineType, is_remote: bool) -> Engine {
    Engine {
        kind,
        path: "/usr/bin/engine".to_owned(),
        is_remote,
    }
}

fn words(list: &[&str]) -> Vec<String> {
    list.iter().map(|s| s.to_string()).collect()
}

fn env() -> HostEnv {
    HostEnv {
        username: None,
        uid: "1000".to_owned(),
        gid: "1001".to_owned(),
        qemu_strace: None,
        cross_debug: None,
        container_opts: None,
        docker_opts: None,
    }
}

#[test]
fn the_dialect_is_read_from_the_help_text() {
    assert_eq!(get_engine_type("Usage: docker [OPTIONS] COMMAND"), EngineType::Docker);
    assert_eq!(get_engine_type("Usage:  DOCKER [OPTIONS]"), EngineType::Docker);
    assert_eq!(get_engine_type("Manage pods with Podman"), EngineType::Podman);
    assert_eq!(
        get_engine_type("podman-remote [options] [command]"),
        EngineType::PodmanRemote
    );
    assert_eq!(
        get_engine_type("Emulate Docker CLI using podman"),
        EngineType::Podman
    );
    assert_eq!(
        get_engine_type("this tool can emulate docker"),
        EngineType::Other
    );
    assert_eq!(get_engine_type("nerdctl"), EngineType::Other);
    assert_eq!(get_engine_type(""), EngineType::Other);
}

#[test]
fn engines_are_looked_for_in_order() {
    assert_eq!(get_container_engine(None), words(&["docker", "podman"]));
    assert_eq!(get_container_engine(Some("nerdctl")), words(&["nerdctl"]));
}

#[test]
fn a_missing_engine_is_an_error() {
    assert_eq!(
        Engine::new(None, false, ""),
        Err(Error::EngineNotFound)
    );
    assert_eq!(
        Engine::new(Some("/bin/podman".to_owned()), true, "podman"),
        Ok(Engine {
            kind: EngineType::Podman,
            path: "/bin/podman".to_owned(),
            is_remote: true
        })
    );
    assert_eq!(
        Engine::from_path("/bin/d".to_owned(), false, "Docker"),
        Engine {
            kind: EngineType::Docker,
            path: "/bin/d".to_owned(),
            is_remote: false
        }
    );
}

#[test]
fn only_remote_podman_needs_the_remote_flag() {
    assert!(engine(EngineType::Podman, true).needs_remote());
    assert!(!engine(EngineType::Podman, false).needs_remote());
    assert!(!engine(EngineType::Docker, true).needs_remote());
    assert!(!engine(EngineType::PodmanRemote, true).needs_remote());
    assert!(!engine(EngineType::Other, true).needs_remote());
    assert_eq!(
        docker_command(&engine(EngineType::Podman, true)),
        Command {
            program: "/usr/bin/engine".to_owned(),
            args: words(&["--remote"])
        }
    );
    assert_eq!(
        docker_subcommand(&engine(EngineType::Docker, true), "run"),
        Command {
            program: "/usr/bin/engine".to_owned(),
            args: words(&["run"])
        }
    );
}

#[test]
fn commands_collect_arguments() {
    let mut cmd = Command::new("prog");
    cmd.arg("a");
    cmd.arg2("b", "c");
    cmd.args(&words(&["d", "e"]));
    assert_eq!(cmd.program, "prog");
    assert_eq!(cmd.args, words(&["a", "b", "c", "d", "e"]));
}

#[test]
fn the_runner_variable_is_reserved() {
    assert_eq!(
        validate_env_var("KEY=value=more"),
        Ok(("KEY".to_owned(), Some("value=more".to_owned())))
    );
    assert_eq!(validate_env_var("KEY"), Ok(("KEY".to_owned(), None)));
    assert_eq!(validate_env_var("KEY="), Ok(("KEY".to_owned(), Some("".to_owned()))));
    assert_eq!(validate_env_var("CROSS_RUNNER"), Err(Error::ReservedVariable));
    assert_eq!(validate_env_var("CROSS_RUNNER=qemu"), Err(Error::ReservedVariable));
    assert_eq!(
        validate_env_var("CROSS_RUNNER_X=1"),
        Ok(("CROSS_RUNNER_X".to_owned(), Some("1".to_owned())))
    );
}

#[test]
fn extra_options_are_split_like_a_shell_does() {
    assert_eq!(
        parse_docker_opts("--cpus 2 -e 'A B' --label=\"x y\""),
        Ok(words(&["--cpus", "2", "-e", "A B", "--label=x y"]))
    );
    assert_eq!(parse_docker_opts(""), Ok(vec![]));
    assert_eq!(
        parse_docker_opts("--name 'open"),
        Err(Error::InvalidOptions("--name 'open".to_owned()))
    );
}

#[test]
fn the_environment_is_handed_on() {
    let mut docker = Command::new("docker");
    let mut host = env();
    host.username = Some("me".to_owned());
    host.qemu_strace = Some("1".to_owned());
    host.docker_opts = Some("--old".to_owned());
    host.container_opts = Some("--new 'a b'".to_owned());
    docker_envvars(&mut docker, &words(&["A", "B=2"]), Some("qemu-user"), &host).unwrap();
    assert_eq!(
        docker.args,
        words(&[
            "-e",
            "A",
            "-e",
            "B=2",
            "-e",
            "PKG_CONFIG_ALLOW_CROSS=1",
            "-e",
            "XARGO_HOME=/xargo",
            "-e",
            "CARGO_HOME=/cargo",
            "-e",
            "CARGO_TARGET_DIR=/target",
            "-e",
            "CROSS_RUNNER=qemu-user",
            "-e",
            "USER=me",
            "-e",
            "QEMU_STRACE=1",
            "--new",
            "a b",
        ])
    );

    let mut docker = Command::new("docker");
    let mut host = env();
    host.cross_debug = Some("1".to_owned());
    host.docker_opts = Some("--old".to_owned());
    docker_envvars(&mut docker, &vec![], None, &host).unwrap();
    assert_eq!(
        docker.args[8..],
        words(&["-e", "CROSS_RUNNER=", "-e", "CROSS_DEBUG=1", "--old"])[..]
    );

    let mut docker = Command::new("docker");
    assert_eq!(
        docker_envvars(&mut docker, &words(&["A", "CROSS_RUNNER=x"]), None, &env()),
        Err(Error::ReservedVariable)
    );
    assert_eq!(docker.args, Vec::<String>::new());
    let mut host = env();
    host.container_opts = Some("\"".to_owned());
    assert_eq!(
        docker_envvars(&mut docker, &vec![], None, &host),
        Err(Error::InvalidOptions("\"".to_owned()))
    );
}

#[test]
fn the_user_is_named_for_docker_alone() {
    let mut docker = Command::new("docker");
    docker_user_id(&mut docker, EngineType::Docker, "1000", "100");
    assert_eq!(docker.args, words(&["--user", "1000:100"]));
    let mut podman = Command::new("podman");
    docker_user_id(&mut podman, EngineType::Podman, "1000", "100");
    assert_eq!(podman.args, Vec::<String>::new());
}

#[test]
fn the_system_call_filter_is_set_where_needed() {
    let mut docker = Command::new("docker");
    docker_seccomp(&mut docker, EngineType::Docker, false, false, "/p.json");
    assert_eq!(docker.args, Vec::<String>::new());
    docker_seccomp(&mut docker, EngineType::Docker, true, false, "/p.json");
    assert_eq!(docker.args, words(&["--security-opt", "seccomp=/p.json"]));
    let mut docker = Command::new("docker");
    docker_seccomp(&mut docker, EngineType::Docker, true, true, "/p.json");
    assert_eq!(docker.args, words(&["--security-opt", "seccomp=unconfined"]));
    let mut podman = Command::new("podman");
    docker_seccomp(&mut podman, EngineType::Podman, true, true, "/p.json");
    assert_eq!(podman.args, words(&["--security-opt", "seccomp=/p.json"]));
    assert_eq!(
        seccomp_path("/ws", "aarch64-linux-android"),
        "/ws/target/aarch64-linux-android/seccomp.json"
    );
}

#[test]
fn the_working_directory_mirrors_the_current_one() {
    let mut docker = Command::new("docker");
    docker_cwd(&mut docker, "/ws", "/ws/crates/a", "/ws/crates/a", false).unwrap();
    assert_eq!(docker.args, words(&["-w", "/project/crates/a"]));
    let mut docker = Command::new("docker");
    docker_cwd(&mut docker, "/ws", "/ws/", "/ws", false).unwrap();
    assert_eq!(docker.args, words(&["-w", "/project"]));
    let mut docker = Command::new("docker");
    docker_cwd(&mut docker, "/ws", "/host/ws/crates/a", "/ws/crates/a", true).unwrap();
    assert_eq!(docker.args, words(&["-w", "/host/ws/crates/a"]));
    let mut docker = Command::new("docker");
    assert_eq!(
        docker_cwd(&mut docker, "/ws", "/elsewhere", "/elsewhere", false),
        Err(Error::OutsideWorkspace)
    );
    assert_eq!(docker.args, Vec::<String>::new());
}

#[test]
fn extra_directories_are_mounted_or_noted() {
    let volumes = vec![EnvVolume {
        var: "DATA".to_owned(),
        value: "../data".to_owned(),
        host_path: "/srv/data".to_owned(),
    }];
    let deps = vec![PathDependency {
        path: "/ws/../dep".to_owned(),
        host_path: "/dep".to_owned(),
    }];
    let mut docker = Command::new("docker");
    let mut store = vec![];
    assert!(docker_mount(&mut docker, "/ws", "/ws/a", &volumes, &deps, true, &mut store));
    assert_eq!(
        docker.args,
        words(&["-v", "/srv/data:/srv/data", "-e", "DATA=/srv/data", "-v", "/dep:/dep"])
    );
    assert_eq!(
        store,
        vec![
            Staged { src: "../data".to_owned(), dst: "/srv/data".to_owned() },
            Staged { src: "/ws/../dep".to_owned(), dst: "/dep".to_owned() },
        ]
    );
    let mut docker = Command::new("docker");
    let mut store = vec![];
    assert!(docker_mount(&mut docker, "/ws", "/ws/a", &volumes, &deps, false, &mut store));
    assert_eq!(docker.args, words(&["-e", "DATA=/srv/data"]));
    assert_eq!(store.len(), 2);
    let mut docker = Command::new("docker");
    assert!(!docker_mount(&mut docker, "/ws", "/ws/a", &vec![], &vec![], true, &mut store));
    assert!(docker_mount(&mut docker, "/ws", "/other", &vec![], &vec![], true, &mut store));
    assert_eq!(docker.args, Vec::<String>::new());
    let mut docker = Command::new("docker");
    assert_eq!(mount(&mut docker, "/srv/data", "/cross"), "/srv/data");
    assert_eq!(docker.args, words(&["-v", "/srv/data:/cross/srv/data"]));
    assert_eq!(canonicalize_mount_path("/a/b"), "/a/b");
    assert_eq!(remote_mount_path("/a/b"), "/a/b");
}

#[test]
fn a_configured_image_is_used_whatever_the_target() {
    assert_eq!(
        image(Some("my/image:1"), "not-a-known-target", "0.2.1", ""),
        Ok("my/image:1".to_owned())
    );
    assert_eq!(
        image(Some("my/image:1"), "aarch64-unknown-linux-gnu", "0.2.1", "abc"),
        Ok("my/image:1".to_owned())
    );
}

#[test]
fn published_images_are_named_by_target_and_version() {
    assert_eq!(
        image(None, "aarch64-unknown-linux-gnu", "0.2.1", ""),
        Ok("ghcr.io/cross-rs/aarch64-unknown-linux-gnu:0.2.1".to_owned())
    );
    assert_eq!(
        image(None, "aarch64-unknown-linux-gnu", "0.2.1", "5bb63ae 2022-05-01"),
        Ok("ghcr.io/cross-rs/aarch64-unknown-linux-gnu:main".to_owned())
    );
    assert_eq!(
        image(None, "not-a-known-target", "0.2.1", ""),
        Err(Error::ImageNotAvailable("not-a-known-target".to_owned()))
    );
    assert!(provides_image("x86_64-unknown-netbsd"));
    assert!(provides_image("thumbv6m-none-eabi"));
    assert!(!provides_image("x86_64-unknown-netbsd "));
    assert!(!provides_image(""));
}

#[test]
fn interpreters_are_registered_in_a_privileged_container() {
    let cmd = register(&engine(EngineType::Docker, false), false);
    assert_eq!(cmd.args[..7], words(&["run", "--userns", "host", "--privileged", "--rm", "ubuntu:16.04", "sh"])[..]);
    assert_eq!(cmd.args[7], "-c");
    assert_eq!(
        cmd.args[8],
        "apt-get update && apt-get install --no-install-recommends --assume-yes binfmt-support qemu-user-static"
    );
    let cmd = register(&engine(EngineType::Podman, true), true);
    assert_eq!(cmd.args[0], "--remote");
    assert_eq!(
        cmd.args[9],
        "mount binfmt_misc -t binfmt_misc /proc/sys/fs/binfmt_misc && echo ':wine:M::MZ::/usr/bin/run-detectors:' > /proc/sys/fs/binfmt_misc/register"
    );
}

#[test]
fn variables_switch_things_on() {
    for on in ["1", "true", "yes", "-1", "+5", "0x", "00100", "99999999999999999999", " ", "-", "+"] {
        assert!(bool_from_envvar(on), "{on:?}");
    }
    for off in ["", "false", "0", "000", "+0", "-0", "-000"] {
        assert!(!bool_from_envvar(off), "{off:?}");
    }
}

#[test]
fn lock_names_are_checked() {
    assert!(is_valid_namespace("cross-lock"));
    assert!(is_valid_namespace(""));
    assert!(is_valid_namespace(&"a".repeat(260)));
    assert!(!is_valid_namespace(&"a".repeat(261)));
    assert!(!is_valid_namespace("a/b"));
    assert!(is_valid_namespace("a\\b"));
    // the length is counted in bytes
    assert!(is_valid_namespace(&"é".repeat(130)));
    assert!(!is_valid_namespace(&"é".repeat(131)));
}

#[test]
fn the_build_tool_is_chosen() {
    assert_eq!(cargo_cmd(true).program, "xargo");
    assert_eq!(cargo_cmd(false).program, "cargo");
    assert_eq!(cargo_cmd(false).args, Vec::<String>::new());
}
