use cross::commands::containers::{
    create_crate_volume, create_persistent_volume, cross_containers_command,
    cross_volumes_command, get_cross_containers, get_cross_volumes, list_containers, list_volumes,
    prune_volumes, remove_all_containers, remove_all_volumes, remove_containers,
    remove_crate_volume, remove_persistent_volume, remove_volumes, setup_advance, Containers,
    ListContainers, ListVolumes, PruneVolumes, RemoveAllContainers, SetupAction, SetupFailure,
    SetupPhase, SetupState, VolumeSetup, Volumes,
};
use cross::commands::images::{
    get_cross_images, get_image_target, images_command, is_cross_image, is_local_image,
    list_images, parse_image, remove_all_images, remove_images, remove_target_images,
    rustembedded_target, Image,
};
use cross::docker::engine::{Engine, EngineType};
use cross::docker::lifecycle::Outcome;
use cross::docker::plan::Facts;
use cross::docker::remote::Step;
use cross::docker::shared::Directories;
use cross::errors::Error;

fn words(list: &[&str]) -> Vec<String> {
    list.iter().map(|s| s.to_string()).collect()
}

fn image(repository: &str, tag: &str, id: &str) -> Image {
    Image {
        repository: repository.to_owned(),
        tag: tag.to_owned(),
        id: id.to_owned(),
    }
}

fn engine() -> Engine {
    Engine {
        kind: EngineType::Docker,
        path: "docker".to_owned(),
        is_remote: false,
    }
}

#[test]
fn parse_rustembedded_target() {
    let targets = [
        "x86_64-unknown-linux-gnu",
        "x86_64-apple-darwin",
        "thumbv8m.main-none-eabi",
    ];
    for target in targets {
        let versioned = format!("{target}-0.2.1");
        assert_eq!(rustembedded_target(target), target.to_string());
        assert_eq!(rustembedded_target(&versioned), target.to_string());
    }
}

#[test]
fn target_names_end_at_the_first_foreign_part() {
    assert_eq!(rustembedded_target(""), "");
    assert_eq!(rustembedded_target("a"), "a");
    assert_eq!(rustembedded_target("a-b.c--x"), "a-b.c--x");
    assert_eq!(rustembedded_target("a-b-c.d-x"), "a-b-c.d-x");
    assert_eq!(rustembedded_target("a-b-c-x.d-y"), "a-b-c");
    assert_eq!(rustembedded_target("a-b-c-d_e-f.g-h"), "a-b-c-d_e");
    assert_eq!(rustembedded_target("a-b-c--d"), "a-b-c");
}

#[test]
fn images_are_read_from_lines() {
    assert_eq!(
        parse_image("ghcr.io/cross-rs/aarch64-unknown-linux-gnu:main 0123456789ab"),
        Some(image("ghcr.io/cross-rs/aarch64-unknown-linux-gnu", "main", "0123456789ab"))
    );
    assert_eq!(
        parse_image("localhost:5000/x:tag id with blanks"),
        Some(image("localhost", "5000/x:tag", "id with blanks"))
    );
    assert_eq!(parse_image("no-colon id"), None);
    assert_eq!(parse_image("repo:tag-without-id"), None);
    assert_eq!(image("r", "t", "i").name(), "r:t");
}

#[test]
fn images_of_the_project_are_recognised() {
    assert!(is_cross_image("ghcr.io/cross-rs/aarch64-unknown-linux-gnu"));
    assert!(is_cross_image("rustembedded/cross:x"));
    assert!(is_cross_image("docker.io/rustembedded/cross:x"));
    assert!(!is_cross_image("rustembedded/cross"));
    assert!(!is_cross_image("ubuntu"));
    assert!(is_local_image("local"));
    assert!(is_local_image("local-0.2.1"));
    assert!(!is_local_image("main"));
    assert!(!is_local_image("loca"));
}

#[test]
fn listed_images_are_sorted() {
    let stdout = "ghcr.io/cross-rs/b:main 3\nubuntu:16.04 9\nghcr.io/cross-rs/a:main 2\nghcr.io/cross-rs/a:local 1\nghcr.io/cross-rs/a:0.2.1 4\nghcr.io/cross-rs/a:0.2.1 0\n";
    assert_eq!(
        get_cross_images(stdout, true),
        Ok(vec![
            image("ghcr.io/cross-rs/a", "0.2.1", "0"),
            image("ghcr.io/cross-rs/a", "0.2.1", "4"),
            image("ghcr.io/cross-rs/a", "local", "1"),
            image("ghcr.io/cross-rs/a", "main", "2"),
            image("ghcr.io/cross-rs/b", "main", "3"),
        ])
    );
    assert_eq!(get_cross_images(stdout, false).unwrap().len(), 4);
    assert_eq!(get_cross_images("", true), Ok(vec![]));
    assert_eq!(
        get_cross_images("ghcr.io/cross-rs/a:main 2\nbroken\n", true),
        Err(Error::Malformed("broken".to_owned()))
    );
    assert_eq!(
        images_command("podman").args,
        words(&["images", "--format", "{{.Repository}}:{{.Tag}} {{.ID}}"])
    );
    assert_eq!(
        list_images(&get_cross_images(stdout, false).unwrap()),
        words(&[
            "ghcr.io/cross-rs/a:0.2.1",
            "ghcr.io/cross-rs/a:0.2.1",
            "ghcr.io/cross-rs/a:main",
            "ghcr.io/cross-rs/b:main"
        ])
    );
}

#[test]
fn the_target_of_an_image() {
    assert_eq!(
        get_image_target(&image("ghcr.io/cross-rs/aarch64-unknown-linux-gnu", "main", "1")),
        Ok("/aarch64-unknown-linux-gnu".to_owned())
    );
    assert_eq!(
        get_image_target(&image("x", "rustembedded/cross:arm-unknown-linux-gnueabi-0.2.1", "1")),
        Ok("arm-unknown-linux-gnueabi".to_owned())
    );
    assert_eq!(
        get_image_target(&image("x", "docker.io/rustembedded/cross:a-b-c", "1")),
        Ok("a-b-c".to_owned())
    );
    assert_eq!(
        get_image_target(&image("ubuntu", "16.04", "1")),
        Err(Error::NoImageTarget("ubuntu:16.04".to_owned()))
    );
}

#[test]
fn images_are_removed_by_id() {
    let images = vec![
        image("ghcr.io/cross-rs/a", "main", "1"),
        image("ghcr.io/cross-rs/b", "main", "2"),
        image("ghcr.io/cross-rs/a", "0.2.1", "3"),
    ];
    assert_eq!(
        remove_images("docker", &words(&["1", "2"]), false).args,
        words(&["rmi", "1", "2"])
    );
    assert_eq!(
        remove_all_images(&images, "docker", true).args,
        words(&["rmi", "--force", "1", "2", "3"])
    );
    assert_eq!(
        remove_target_images(&images, &words(&["/a"]), "docker", false).unwrap().args,
        words(&["rmi", "1", "3"])
    );
    assert_eq!(
        remove_target_images(&images, &words(&["a"]), "docker", false).unwrap().args,
        words(&["rmi"])
    );
    let mut mixed = images.clone();
    mixed.push(image("ubuntu", "16.04", "4"));
    assert_eq!(
        remove_target_images(&mixed, &words(&["/a"]), "docker", false),
        Err(Error::NoImageTarget("ubuntu:16.04".to_owned()))
    );
}

#[test]
fn volumes_are_listed_and_removed() {
    let e = engine();
    assert_eq!(
        cross_volumes_command(&e).args,
        words(&["volume", "list", "--format", "{{.Name}}", "--filter", "name=^cross-"])
    );
    let volumes = get_cross_volumes("cross-b\ncross-a-keep\ncross-a\n");
    assert_eq!(volumes, words(&["cross-a", "cross-a-keep", "cross-b"]));
    assert_eq!(list_volumes("cross-b\r\ncross-a"), words(&["cross-a", "cross-b"]));
    assert_eq!(
        remove_volumes(&e, &volumes, true).args,
        words(&["volume", "rm", "--force", "cross-a", "cross-a-keep", "cross-b"])
    );
    assert_eq!(remove_volumes(&e, &vec![], false).args, words(&["volume", "rm"]));
    assert_eq!(remove_all_volumes(&e, &vec![], true), None);
    assert_eq!(
        remove_all_volumes(&e, &volumes, false).unwrap().args,
        words(&["volume", "rm", "cross-a", "cross-a-keep", "cross-b"])
    );
    assert_eq!(prune_volumes(&e).args, words(&["volume", "prune", "--force"]));
}

#[test]
fn a_kept_volume_is_removed_only_where_it_exists() {
    let e = engine();
    assert_eq!(
        remove_crate_volume(&e, "cross-a", true).unwrap().args,
        words(&["volume", "rm", "cross-a-keep"])
    );
    assert_eq!(
        remove_crate_volume(&e, "cross-a", false),
        Err(Error::PreconditionViolated("cross-a-keep".to_owned()))
    );
    assert_eq!(
        remove_persistent_volume(&e, "cross-a", false),
        Err(Error::PreconditionViolated("cross-a-keep".to_owned()))
    );
}

#[test]
fn containers_are_stopped_and_removed() {
    let e = engine();
    assert_eq!(
        cross_containers_command(&e).args,
        words(&["ps", "-a", "--format", "{{.Names}}: {{.State}}", "--filter", "name=^cross-"])
    );
    let containers = get_cross_containers("cross-c: exited\ncross-a: running\ncross-b: paused\n");
    assert_eq!(
        containers,
        words(&["cross-a: running", "cross-b: paused", "cross-c: exited"])
    );
    assert_eq!(list_containers("b: x\na: y\n"), words(&["a: y", "b: x"]));
    let commands = remove_containers(&e, &containers, true).unwrap();
    assert_eq!(commands.len(), 2);
    assert_eq!(commands[0].args, words(&["stop", "cross-a", "cross-b"]));
    assert_eq!(
        commands[1].args,
        words(&["rm", "--force", "cross-a", "cross-b", "cross-c"])
    );
    let commands = remove_all_containers(&e, &words(&["cross-c: exited"]), false).unwrap();
    assert_eq!(commands.len(), 1);
    assert_eq!(commands[0].args, words(&["rm", "cross-c"]));
    assert_eq!(remove_containers(&e, &vec![], false), Ok(vec![]));
    assert_eq!(
        remove_containers(&e, &words(&["cross-a running"]), false),
        Err(Error::Malformed("cross-a running".to_owned()))
    );
    assert_eq!(
        remove_containers(&e, &words(&["cross-a: up"]), false),
        Err(Error::UnknownContainerState("up".to_owned()))
    );
}

#[test]
fn requests_name_their_engine() {
    let list = Volumes::List(ListVolumes { verbose: true, engine: Some("podman".to_owned()) });
    assert_eq!(list.engine(), Some("podman"));
    assert!(list.verbose());
    let prune = Volumes::Prune(PruneVolumes { verbose: false, execute: true, engine: None });
    assert_eq!(prune.engine(), None);
    assert!(!prune.verbose());
    let containers = Containers::List(ListContainers { verbose: false, engine: None });
    assert_eq!(containers.engine(), None);
    let all = Containers::RemoveAll(RemoveAllContainers {
        verbose: true,
        force: false,
        execute: false,
        engine: Some("docker".to_owned()),
    });
    assert_eq!(all.engine(), Some("docker"));
    assert!(all.verbose());
}

fn dirs() -> Directories {
    Directories {
        cargo: "/home/me/.cargo".to_owned(),
        xargo: "/home/me/.xargo".to_owned(),
        target: "/ws/target".to_owned(),
        nix_store: None,
        host_root: "/ws".to_owned(),
        mount_root: "/ws".to_owned(),
        mount_cwd: "/ws".to_owned(),
        sysroot: "/sysroot".to_owned(),
    }
}

fn facts() -> Facts {
    Facts {
        xargo_exists: false,
        cargo_entries: vec![],
        copy_registry: true,
        copy_cache: false,
        toolchain_exists: false,
        libdir: "/sysroot/lib/rustlib/host/lib".to_owned(),
        canonical_target: "/ws/target".to_owned(),
    }
}

fn outcome(executed: bool, code: i32, stdout: &str) -> Outcome {
    Outcome { executed, code, stdout: stdout.to_owned() }
}

fn drive(
    mut setup: VolumeSetup,
    mut answer: impl FnMut(&SetupPhase) -> Outcome,
) -> (Vec<(SetupPhase, Step)>, Result<(), Error>) {
    let mut issued = vec![];
    for _ in 0..1000 {
        match setup.action() {
            SetupAction::Do(step) => {
                let phase = setup.state.phase;
                let result = answer(&phase);
                issued.push((phase, step));
                setup.step(&result);
            }
            SetupAction::Finish(result) => {
                assert!(setup.is_done());
                return (issued, result);
            }
        }
    }
    panic!("the making of the volume does not end");
}

#[test]
fn a_kept_volume_is_made_and_filled() {
    let setup =
        create_crate_volume(engine(), "cross-a".to_owned(), "t", &dirs(), &facts(), true).unwrap();
    assert_eq!(setup.volume, "cross-a-keep");
    let (issued, result) = drive(setup, |phase| match phase {
        SetupPhase::ProbeVolume => outcome(true, 1, ""),
        SetupPhase::ProbeContainer => outcome(true, 0, "exited\n"),
        _ => outcome(true, 0, ""),
    });
    assert_eq!(result, Ok(()));
    let seen: Vec<SetupPhase> = issued.iter().map(|(p, _)| *p).collect();
    assert_eq!(
        seen[..5],
        [
            SetupPhase::ProbeVolume,
            SetupPhase::CreateVolume,
            SetupPhase::ProbeContainer,
            SetupPhase::RemoveStale,
            SetupPhase::Start,
        ]
    );
    assert_eq!(seen[seen.len() - 2..], [SetupPhase::Stop, SetupPhase::Remove]);
    match &issued[4].1 {
        Step::Run(cmd) => assert_eq!(
            cmd.args,
            words(&[
                "run",
                "--name",
                "cross-a",
                "-v",
                "cross-a-keep:/cross",
                "-d",
                "-t",
                "ubuntu:16.04",
                "sh",
                "-c",
                "sleep infinity"
            ])
        ),
        other => panic!("unexpected step {other:?}"),
    }
    match &issued[1].1 {
        Step::Run(cmd) => assert_eq!(cmd.args, words(&["volume", "create", "cross-a-keep"])),
        other => panic!("unexpected step {other:?}"),
    }
}

#[test]
fn a_kept_volume_that_exists_is_not_made_again() {
    let setup =
        create_persistent_volume(engine(), "cross-a".to_owned(), "t", &dirs(), &facts(), false)
            .unwrap();
    let (issued, result) = drive(setup, |_| outcome(true, 0, ""));
    assert_eq!(result, Err(Error::PreconditionViolated("cross-a-keep".to_owned())));
    assert_eq!(issued.len(), 1);
    let mut f = facts();
    f.libdir = "/".to_owned();
    assert_eq!(
        create_crate_volume(engine(), "c".to_owned(), "t", &dirs(), &f, false).err(),
        Some(Error::NoParent("/".to_owned()))
    );
}

#[test]
fn a_failed_copy_still_removes_the_container() {
    let setup =
        create_crate_volume(engine(), "cross-a".to_owned(), "t", &dirs(), &facts(), false).unwrap();
    let (issued, result) = drive(setup, |phase| match phase {
        SetupPhase::ProbeVolume => outcome(true, 1, ""),
        SetupPhase::ProbeContainer => outcome(true, 0, "running"),
        SetupPhase::Copy(1) => outcome(true, 2, ""),
        _ => outcome(true, 0, ""),
    });
    assert_eq!(result, Err(Error::ExecutionFailed));
    let seen: Vec<SetupPhase> = issued.iter().map(|(p, _)| *p).collect();
    assert_eq!(
        seen,
        vec![
            SetupPhase::ProbeVolume,
            SetupPhase::CreateVolume,
            SetupPhase::ProbeContainer,
            SetupPhase::StopStale,
            SetupPhase::RemoveStale,
            SetupPhase::Start,
            SetupPhase::Copy(0),
            SetupPhase::Copy(1),
            SetupPhase::Stop,
            SetupPhase::Remove,
        ]
    );
    let start = SetupState {
        phase: SetupPhase::ProbeContainer,
        container_live: false,
        failure: None,
        steps: 0,
    };
    assert_eq!(
        setup_advance(start, &outcome(true, 0, "weird")),
        SetupState {
            phase: SetupPhase::Done,
            failure: Some(SetupFailure::UnknownContainerState),
            ..start
        }
    );
}
