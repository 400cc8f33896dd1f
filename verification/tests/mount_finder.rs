use std::path::PathBuf;

use cross::docker::inspect::{
    dockerinfo_parse_mounts, dockerinfo_parse_root_mount_path, dockerinfo_parse_user_mounts,
};
use cross::docker::shared::{MountDetail, MountFinder};
use cross::errors::Error;

fn mount(source: &str, destination: &str) -> MountDetail {
    MountDetail {
        source: source.to_owned(),
        destination: destination.to_owned(),
    }
}

fn default_finder_returns_original() {
    let finder = MountFinder::default();
    assert_eq!(
        PathBuf::from("/test/path"),
        PathBuf::from(finder.find_mount_path("/test/path")),
    );
    assert_eq!("/test/path", finder.find_mount_path("/test/path"));
}

fn longest_destination_path_wins() {
    let finder = MountFinder::new(vec![
        mount("/project/path", "/project"),
        mount("/target/path", "/project/target"),
    ]);
    assert_eq!(
        PathBuf::from("/target/path/test"),
        PathBuf::from(finder.find_mount_path("/project/target/test"))
    );
    assert_eq!("/target/path/test", finder.find_mount_path("/project/target/test"));
}

fn adjust_multiple_paths() {
    let finder = MountFinder::new(vec![
        mount("/var/lib/docker/overlay2/container-id/merged", "/"),
        mount("/home/project/path", "/project"),
    ]);
    assert_eq!(
        PathBuf::from("/var/lib/docker/overlay2/container-id/merged/container/path"),
        PathBuf::from(finder.find_mount_path("/container/path"))
    );
    assert_eq!(
        PathBuf::from("/home/project/path"),
        PathBuf::from(finder.find_mount_path("/project"))
    );
    assert_eq!(
        PathBuf::from("/home/project/path/target"),
        PathBuf::from(finder.find_mount_path("/project/target"))
    );
}

#[test]
fn docker_test_default_finder_returns_original() {
    default_finder_returns_original();
}

#[test]
fn docker_test_longest_destination_path_wins() {
    longest_destination_path_wins();
}

#[test]
fn docker_test_adjust_multiple_paths() {
    adjust_multiple_paths();
}

#[test]
fn mod_test_default_finder_returns_original() {
    default_finder_returns_original();
}

#[test]
fn mod_test_longest_destination_path_wins() {
    longest_destination_path_wins();
}

#[test]
fn mod_test_adjust_multiple_paths() {
    adjust_multiple_paths();
}

#[test]
fn longest_destination_wins_in_any_order() {
    let a = MountFinder::new(vec![
        mount("/project/path", "/project"),
        mount("/target/path", "/project/target"),
        mount("/merged", "/"),
    ]);
    let b = MountFinder::new(vec![
        mount("/merged", "/"),
        mount("/target/path", "/project/target"),
        mount("/project/path", "/project"),
    ]);
    for path in ["/project/target/test", "/project/src", "/etc/hosts", "/project", "relative/x"] {
        assert_eq!(a.find_mount_path(path), b.find_mount_path(path));
    }
    assert_eq!(a.find_mount_path("/project/target/test"), "/target/path/test");
    assert_eq!(a.find_mount_path("/project/src"), "/project/path/src");
    assert_eq!(a.find_mount_path("/etc/hosts"), "/merged/etc/hosts");
    assert_eq!(a.find_mount_path("relative/x"), "relative/x");
}

#[test]
fn prefix_is_taken_by_components() {
    let finder = MountFinder::new(vec![mount("/host", "/project")]);
    assert_eq!(finder.find_mount_path("/projects/x"), "/projects/x");
    assert_eq!(finder.find_mount_path("/project//x/./y/"), "/host/x/y");
}

#[test]
fn mounts_of_equal_length_keep_their_order() {
    let finder = MountFinder::new(vec![mount("/first", "/a/b/"), mount("/second", "/a//b")]);
    assert_eq!(finder.find_mount_path("/a/b/c"), "/first/c");
    let finder = MountFinder::new(vec![mount("/second", "/a//b"), mount("/first", "/a/b/")]);
    assert_eq!(finder.find_mount_path("/a/b/c"), "/second/c");
}

const CONTAINER_ROOT: &str = r#"[{
    "GraphDriver": {
        "Data": {
            "LowerDir": "/var/lib/docker/overlay2/f107af83b37bc0a182d3d2661f3d84684f0fffa1a243566b338a388d5e54bef4-init/diff:/var/lib/docker/overlay2/dfe81d459bbefada7aa897a9d05107a77145b0d4f918855f171ee85789ab04a0/diff:/var/lib/docker/overlay2/1f704696915c75cd081a33797ecc66513f9a7a3ffab42d01a3f17c12c8e2dc4c/diff:/var/lib/docker/overlay2/0a4f6cb88f4ace1471442f9053487a6392c90d2c6e206283d20976ba79b38a46/diff:/var/lib/docker/overlay2/1ee3464056f9cdc968fac8427b04e37ec96b108c5050812997fa83498f2499d1/diff:/var/lib/docker/overlay2/0ec5a47f1854c0f5cfe0e3f395b355b5a8bb10f6e622710ce95b96752625f874/diff:/var/lib/docker/overlay2/f24c8ad76303838b49043d17bf2423fe640836fd9562d387143e68004f8afba0/diff:/var/lib/docker/overlay2/462f89d5a0906805a6f2eec48880ed1e48256193ed506da95414448d435db2b7/diff",
            "MergedDir": "/var/lib/docker/overlay2/f107af83b37bc0a182d3d2661f3d84684f0fffa1a243566b338a388d5e54bef4/merged",
            "UpperDir": "/var/lib/docker/overlay2/f107af83b37bc0a182d3d2661f3d84684f0fffa1a243566b338a388d5e54bef4/diff",
            "WorkDir": "/var/lib/docker/overlay2/f107af83b37bc0a182d3d2661f3d84684f0fffa1a243566b338a388d5e54bef4/work"
        },
        "Name": "overlay2"
    }
}]"#;

fn json(text: &str) -> serde_json::Value {
    serde_json::from_str(text).unwrap()
}

fn parse_container_root() {
    let actual = dockerinfo_parse_root_mount_path(&json(CONTAINER_ROOT)).unwrap();
    let want = mount(
        "/var/lib/docker/overlay2/f107af83b37bc0a182d3d2661f3d84684f0fffa1a243566b338a388d5e54bef4/merged",
        "/",
    );
    assert_eq!(want, actual);
}

fn parse_empty_user_mounts() {
    let actual = dockerinfo_parse_user_mounts(&json(r#"[{"Mounts": []}]"#)).unwrap();
    assert_eq!(Vec::<MountDetail>::new(), actual);
}

fn parse_missing_user_mounts() {
    let actual = dockerinfo_parse_user_mounts(&json(r#"[{"Id": "test"}]"#)).unwrap();
    assert_eq!(Vec::<MountDetail>::new(), actual);
}

#[test]
fn docker_test_parse_container_root() {
    parse_container_root();
}

#[test]
fn docker_test_parse_empty_user_mounts() {
    parse_empty_user_mounts();
}

#[test]
fn docker_test_parse_missing_user_moutns() {
    parse_missing_user_mounts();
}

#[test]
fn mod_test_parse_container_root() {
    parse_container_root();
}

#[test]
fn mod_test_parse_empty_user_mounts() {
    parse_empty_user_mounts();
}

#[test]
fn mod_test_parse_missing_user_moutns() {
    parse_missing_user_mounts();
}

#[test]
fn user_mounts_are_read_in_order() {
    let info = json(
        r#"[{"Mounts": [
            {"Source": "/home/a", "Destination": "/a"},
            {"Source": "/home/b", "Destination": "/b/c"}
        ], "GraphDriver": {"Name": "overlay2", "Data": {"MergedDir": "/merged"}}}]"#,
    );
    assert_eq!(
        dockerinfo_parse_user_mounts(&info).unwrap(),
        vec![mount("/home/a", "/a"), mount("/home/b", "/b/c")]
    );
    assert_eq!(
        dockerinfo_parse_mounts(&info).unwrap(),
        vec![mount("/home/a", "/a"), mount("/home/b", "/b/c"), mount("/merged", "/")]
    );
}

#[test]
fn eleven_user_mounts_are_read() {
    let mut text = String::from(r#"[{"Mounts": ["#);
    for i in 0..11 {
        if i > 0 {
            text.push(',');
        }
        text.push_str(&format!(r#"{{"Source": "/s{i}", "Destination": "/d{i}"}}"#));
    }
    text.push_str("]}]");
    let mounts = dockerinfo_parse_user_mounts(&json(&text)).unwrap();
    assert_eq!(mounts.len(), 11);
    assert_eq!(mounts[10], mount("/s10", "/d10"));
}

#[test]
fn malformed_inspect_output_is_refused() {
    let info = json(r#"[{"Mounts": [{"Source": 1, "Destination": "/a"}]}]"#);
    assert_eq!(dockerinfo_parse_user_mounts(&info), Err(Error::MountTranslationFailure));
    assert_eq!(
        dockerinfo_parse_root_mount_path(&json(r#"[{"Id": "x"}]"#)),
        Err(Error::MountTranslationFailure)
    );
    assert_eq!(
        dockerinfo_parse_root_mount_path(&json(r#"[{"GraphDriver": {"Name": "overlay2"}}]"#)),
        Err(Error::MountTranslationFailure)
    );
}

#[test]
fn other_storage_drivers_are_refused() {
    let info = json(r#"[{"GraphDriver": {"Name": "btrfs", "Data": {"MergedDir": "/m"}}}]"#);
    assert_eq!(
        dockerinfo_parse_root_mount_path(&info),
        Err(Error::UnsupportedStorageDriver("btrfs".to_owned()))
    );
}
