use cross::cargo::{
    cargo_command, cargo_metadata_with_args, contains_string, CargoMetadata, InstalledSubcommands,
    MetadataQuery, Package, Subcommand,
};
use cross::cli::{
    parse, Args, absolute_path, fmt_subcommands, group_subcommands, identity, is_subcommand_list, is_value_arg,
    is_verbose, parse_equal_arg, parse_manifest_path, parse_next_arg, parse_target_dir,
    store_manifest_path, store_target_dir, str_to_owned, ArgKind,
};
use cross::errors::Error;
use cross::target::{Target, TargetList};

fn words(list: &[&str]) -> Vec<String> {
    list.iter().map(|s| s.to_string()).collect()
}

#[test]
fn is_verbose_test() {
    assert!(is_verbose("b") == 0);
    assert!(is_verbose("x") == 0);
    assert!(is_verbose("-") == 0);
    assert!(is_verbose("-V") == 0);
    assert!(is_verbose("-v") == 1);
    assert!(is_verbose("--verbose") == 1);
    assert!(is_verbose("-vvvv") == 4);
    assert!(is_verbose("-version") == 0);
}

#[test]
fn verbosity_is_capped() {
    assert_eq!(is_verbose(""), 0);
    assert_eq!(is_verbose("--verbos"), 0);
    assert_eq!(is_verbose("-vv"), 2);
    assert_eq!(is_verbose(&format!("-{}", "v".repeat(255))), 255);
    assert_eq!(is_verbose(&format!("-{}", "v".repeat(256))), 255);
    assert_eq!(is_verbose(&format!("-{}", "v".repeat(1000))), 255);
    assert_eq!(is_verbose("-vvé"), 0);
}

#[test]
fn value_arguments_are_recognised() {
    assert_eq!(is_value_arg("--target", "--target"), Some(ArgKind::Next));
    assert_eq!(is_value_arg("--target=x", "--target"), Some(ArgKind::Equal));
    assert_eq!(is_value_arg("--target=", "--target"), Some(ArgKind::Equal));
    assert_eq!(is_value_arg("--target-dir", "--target"), None);
    assert_eq!(is_value_arg("--targe", "--target"), None);
    assert_eq!(is_value_arg("", "--target"), None);
}

#[test]
fn values_are_taken_from_the_next_argument() {
    let mut out = words(&["build"]);
    let value = parse_next_arg(
        "--features".to_owned(),
        &mut out,
        Some("a,b".to_owned()),
        None,
        true,
    );
    assert_eq!(value, Some("a,b".to_owned()));
    assert_eq!(out, words(&["build", "--features", "a,b"]));
    let mut out = vec![];
    let value = parse_next_arg(
        "--target-dir".to_owned(),
        &mut out,
        Some("out".to_owned()),
        Some("/target".to_owned()),
        true,
    );
    assert_eq!(value, Some("out".to_owned()));
    assert_eq!(out, words(&["--target-dir", "/target"]));
    let mut out = vec![];
    assert_eq!(parse_next_arg("--target".to_owned(), &mut out, None, None, false), None);
    assert_eq!(out, Vec::<String>::new());
    let mut out = vec![];
    assert_eq!(
        parse_next_arg("--target".to_owned(), &mut out, Some("t".to_owned()), None, false),
        Some("t".to_owned())
    );
    assert_eq!(out, words(&["t"]));
}

#[test]
fn values_are_taken_from_behind_the_equal_sign() {
    let mut out = vec![];
    assert_eq!(
        parse_equal_arg("--color=always", &mut out, None),
        Some("always".to_owned())
    );
    assert_eq!(out, words(&["--color=always"]));
    assert_eq!(
        parse_equal_arg("--target-dir=out=x", &mut out, Some("/target")),
        Some("out=x".to_owned())
    );
    assert_eq!(out, words(&["--color=always", "--target-dir=/target"]));
    assert_eq!(parse_equal_arg("--color", &mut out, None), None);
    assert_eq!(out.len(), 2);
}

#[test]
fn paths_of_the_command_line() {
    assert_eq!(absolute_path("/a/b", "/cwd"), "/a/b");
    assert_eq!(absolute_path("a/b", "/cwd"), "/cwd/a/b");
    assert_eq!(absolute_path("a", "/"), "/a");
    assert_eq!(parse_manifest_path("Cargo.toml", "/ws"), Some("/ws/Cargo.toml".to_owned()));
    assert_eq!(parse_target_dir("out", "/ws"), "/ws/out");
    assert_eq!(identity("x".to_owned()), "x");
    assert_eq!(str_to_owned("x"), "x");
    assert_eq!(store_target_dir("anything".to_owned()), "/target");
    assert_eq!(store_manifest_path("a/Cargo.toml".to_owned()), Ok("a/Cargo.toml".to_owned()));
    assert_eq!(
        store_manifest_path("/a/Cargo.toml".to_owned()),
        Err(Error::NotRelative("/a/Cargo.toml".to_owned()))
    );
}

const LIST: &str = "Installed Commands:\n    build                Compile the current package\n    b                    alias: build\n\n    clippy               Checks a package\n    expand\n    fmt                  Formats all files\n    --list\n";

#[test]
fn subcommands_are_grouped() {
    assert!(is_subcommand_list(LIST));
    assert!(!is_subcommand_list("installed Commands:"));
    assert!(!is_subcommand_list(""));
    let (cross, host) = group_subcommands(LIST);
    assert_eq!(
        cross,
        words(&[
            "    build                Compile the current package",
            "    b                    alias: build",
            "    clippy               Checks a package",
            "    --list",
        ])
    );
    assert_eq!(
        host,
        words(&["    expand", "    fmt                  Formats all files"])
    );
    assert_eq!(group_subcommands(""), (vec![], vec![]));
    assert_eq!(group_subcommands("build\n"), (vec![], vec![]));
}

#[test]
fn subcommands_are_shown_under_headings() {
    let shown = fmt_subcommands(LIST);
    assert_eq!(shown[0], "Cross Commands:");
    assert_eq!(shown[1], "    build                Compile the current package");
    assert_eq!(shown[5], "Host Commands:");
    assert_eq!(shown.len(), 10);
    assert_eq!(fmt_subcommands("Installed Commands:\n"), Vec::<String>::new());
    assert_eq!(
        fmt_subcommands("Installed Commands:\n  run x\n"),
        words(&["Cross Commands:", "  run x"])
    );
    assert_eq!(fmt_subcommands("Installed Commands:\n  fmt\n"), words(&["Host Commands:"]));
}

#[test]
fn subcommands_are_named() {
    assert_eq!(Subcommand::from("b"), Subcommand::Build);
    assert_eq!(Subcommand::from("build"), Subcommand::Build);
    assert_eq!(Subcommand::from("c"), Subcommand::Check);
    assert_eq!(Subcommand::from("check"), Subcommand::Check);
    assert_eq!(Subcommand::from("clean"), Subcommand::Clean);
    assert_eq!(Subcommand::from("doc"), Subcommand::Doc);
    assert_eq!(Subcommand::from("r"), Subcommand::Run);
    assert_eq!(Subcommand::from("run"), Subcommand::Run);
    assert_eq!(Subcommand::from("rustc"), Subcommand::Rustc);
    assert_eq!(Subcommand::from("t"), Subcommand::Test);
    assert_eq!(Subcommand::from("test"), Subcommand::Test);
    assert_eq!(Subcommand::from("bench"), Subcommand::Bench);
    assert_eq!(Subcommand::from("clippy"), Subcommand::Clippy);
    assert_eq!(Subcommand::from("metadata"), Subcommand::Metadata);
    assert_eq!(Subcommand::from("--list"), Subcommand::List);
    assert_eq!(Subcommand::from("fmt"), Subcommand::Other("fmt".to_owned()));
    assert_eq!(Subcommand::from(""), Subcommand::Other("".to_owned()));
}

#[test]
fn subcommands_know_what_they_need() {
    assert!(Subcommand::Build.needs_docker(false));
    assert!(Subcommand::Custom("expand".to_owned()).needs_docker(false));
    assert!(!Subcommand::Other("fmt".to_owned()).needs_docker(true));
    assert!(!Subcommand::List.needs_docker(true));
    assert!(!Subcommand::Clean.needs_docker(false));
    assert!(Subcommand::Clean.needs_docker(true));
    assert!(Subcommand::Clean.needs_host(true));
    assert!(!Subcommand::Clean.needs_host(false));
    assert!(!Subcommand::Build.needs_host(true));
    assert!(Subcommand::Run.needs_interpreter());
    assert!(Subcommand::Test.needs_interpreter());
    assert!(Subcommand::Bench.needs_interpreter());
    assert!(!Subcommand::Build.needs_interpreter());
    assert!(!Subcommand::Metadata.needs_target_in_command());
    assert!(Subcommand::Build.needs_target_in_command());
    assert!(Subcommand::is_known("expand"));
    assert!(Subcommand::is_known("llvm-cov"));
    assert!(!Subcommand::is_known("fmt"));
    assert!(!Subcommand::is_known("build"));
    assert_eq!(Subcommand::json_path("/home/me/.cargo"), "/home/me/.cargo/subcommands.json");
}

#[test]
fn installed_subcommands_are_found_by_target() {
    let installed = InstalledSubcommands {
        targets: vec![
            ("aarch64-unknown-linux-gnu".to_owned(), words(&["expand", "tree"])),
            ("x86_64-unknown-linux-musl".to_owned(), words(&["deny"])),
        ],
    };
    assert!(Subcommand::is_installed(&installed, "aarch64-unknown-linux-gnu", "tree"));
    assert!(Subcommand::is_installed(&installed, "x86_64-unknown-linux-musl", "deny"));
    assert!(!Subcommand::is_installed(&installed, "x86_64-unknown-linux-musl", "tree"));
    assert!(!Subcommand::is_installed(&installed, "other", "tree"));
    assert!(contains_string(&words(&["a", "b"]), "b"));
    assert!(!contains_string(&words(&["a", "b"]), "c"));
}

fn package(name: &str, manifest: &str, source: Option<&str>) -> Package {
    Package {
        id: format!("{name} 0.1.0"),
        name: name.to_owned(),
        manifest_path: manifest.to_owned(),
        source: source.map(|s| s.to_owned()),
        version: "0.1.0".to_owned(),
        license: None,
    }
}

#[test]
fn path_dependencies_lie_outside_the_workspace() {
    let metadata = CargoMetadata {
        workspace_root: "/ws".to_owned(),
        target_directory: "/ws/target".to_owned(),
        packages: vec![
            package("member", "/ws/member/Cargo.toml", None),
            package("serde", "/home/me/.cargo/registry/serde/Cargo.toml", Some("registry")),
            package("local", "/dep/local/Cargo.toml", None),
            package("odd", "/", None),
        ],
        workspace_members: words(&["member 0.1.0"]),
    };
    let outside: Vec<&str> = metadata
        .non_workspace_members()
        .iter()
        .map(|p| p.name.as_str())
        .collect();
    assert_eq!(outside, vec!["serde", "local", "odd"]);
    assert_eq!(metadata.path_dependencies(), words(&["/dep/local"]));
    assert_eq!(metadata.get_package("local").map(|p| p.id.as_str()), Some("local 0.1.0"));
    assert_eq!(metadata.get_package("nothing"), None);
    assert_eq!(metadata.packages[0].crate_path(), Some("/ws/member".to_owned()));
    assert_eq!(metadata.packages[1].crate_path(), None);
    assert_eq!(metadata.packages[3].crate_path(), None);
}

#[test]
fn metadata_is_asked_for() {
    assert_eq!(cargo_command().program, "cargo");
    let query = MetadataQuery {
        channel: None,
        manifest_path: None,
        has_args: false,
        triple: None,
        features: vec![],
    };
    assert_eq!(
        cargo_metadata_with_args(&query).args,
        words(&["metadata", "--format-version", "1", "--no-deps"])
    );
    let query = MetadataQuery {
        channel: Some("nightly".to_owned()),
        manifest_path: Some("/ws/Cargo.toml".to_owned()),
        has_args: true,
        triple: Some("aarch64-unknown-linux-gnu".to_owned()),
        features: words(&["a", "b"]),
    };
    assert_eq!(
        cargo_metadata_with_args(&query).args,
        words(&[
            "+nightly",
            "metadata",
            "--format-version",
            "1",
            "--manifest-path",
            "/ws/Cargo.toml",
            "--filter-platform",
            "aarch64-unknown-linux-gnu",
            "--features",
            "a,b",
        ])
    );
    assert_eq!(cross::cargo::run(&words(&["build"])).args, words(&["build"]));
    assert_eq!(cross::cargo::run_and_get_output(&words(&["x"])).program, "cargo");
}

#[test]
fn targets_are_built_in_or_custom() {
    let list = TargetList { triples: words(&["x86_64-unknown-linux-gnu"]) };
    assert_eq!(
        Target::from("x86_64-unknown-linux-gnu", &list),
        Target::BuiltIn { triple: "x86_64-unknown-linux-gnu".to_owned() }
    );
    assert_eq!(
        Target::from("my-target", &list),
        Target::Custom { triple: "my-target".to_owned() }
    );
    assert_eq!(Target::from("my-target", &list).triple(), "my-target");
    assert!(Target::from("a", &list).same(&Target::Custom { triple: "a".to_owned() }));
    assert!(!Target::from("a", &list).same(&Target::BuiltIn { triple: "a".to_owned() }));
    assert!(list.contains("x86_64-unknown-linux-gnu"));
}

fn no_targets() -> TargetList {
    TargetList { triples: words(&["x86_64-unknown-linux-gnu", "aarch64-unknown-linux-gnu"]) }
}

fn empty() -> Args {
    Args {
        all: vec![],
        subcommand: None,
        channel: None,
        targets: vec![],
        features: vec![],
        target_dir: None,
        manifest_path: None,
        version: false,
        verbose: 0,
        quiet: false,
        color: None,
    }
}

#[test]
fn the_command_line_is_read() {
    let args = words(&[
        "+nightly",
        "build",
        "",
        "-vv",
        "--target",
        "aarch64-unknown-linux-gnu",
        "--target=my-target",
        "--features",
        "a,b",
        "--features=c",
        "--manifest-path",
        "crates/a/Cargo.toml",
        "--target-dir",
        "out",
        "--color=always",
        "--quiet",
        "-V",
        "--verbose",
        "test",
        "--release",
        "--",
        "--target",
        "-v",
        "",
    ]);
    let parsed = parse(&args, "/ws", &no_targets()).unwrap();
    assert_eq!(
        parsed,
        Args {
            all: words(&[
                "build",
                "-vv",
                "aarch64-unknown-linux-gnu",
                "--target=my-target",
                "--features",
                "a,b",
                "--features=c",
                "--manifest-path",
                "crates/a/Cargo.toml",
                "--target-dir",
                "/target",
                "--color=always",
                "--quiet",
                "--verbose",
                "test",
                "--release",
                "--",
                "--target",
                "-v",
                "",
            ]),
            subcommand: Some(Subcommand::Build),
            channel: Some("nightly".to_owned()),
            targets: vec![
                Some(Target::BuiltIn { triple: "aarch64-unknown-linux-gnu".to_owned() }),
                Some(Target::Custom { triple: "my-target".to_owned() }),
            ],
            features: words(&["a,b", "c"]),
            target_dir: Some("/ws/out".to_owned()),
            manifest_path: Some("/ws/crates/a/Cargo.toml".to_owned()),
            version: true,
            verbose: 3,
            quiet: true,
            color: Some("always".to_owned()),
        }
    );
}

#[test]
fn arguments_without_their_value() {
    assert_eq!(parse(&vec![], "/ws", &no_targets()), Ok(empty()));
    assert_eq!(
        parse(&words(&["--color"]), "/ws", &no_targets()),
        Err(Error::MissingValue("--color".to_owned()))
    );
    assert_eq!(
        parse(&words(&["--color", "never"]), "/ws", &no_targets()),
        Ok(Args {
            all: words(&["--color", "never"]),
            color: Some("never".to_owned()),
            ..empty()
        })
    );
    assert_eq!(
        parse(&words(&["--target-dir=a", "--target-dir"]), "/ws", &no_targets()),
        Ok(Args { all: words(&["--target-dir=/target", "--target-dir"]), ..empty() })
    );
    assert_eq!(
        parse(&words(&["--manifest-path=x", "--manifest-path"]), "/", &no_targets()),
        Ok(Args { all: words(&["--manifest-path=x", "--manifest-path"]), ..empty() })
    );
    assert_eq!(
        parse(&words(&["--target"]), "/ws", &no_targets()),
        Ok(Args { targets: vec![None], ..empty() })
    );
    assert_eq!(
        parse(&words(&["--features"]), "/ws", &no_targets()),
        Ok(Args { all: words(&["--features"]), ..empty() })
    );
    assert_eq!(
        parse(&words(&["--manifest-path", "/abs/Cargo.toml"]), "/ws", &no_targets()),
        Err(Error::NotRelative("/abs/Cargo.toml".to_owned()))
    );
    assert_eq!(
        parse(&words(&["--manifest-path=/abs/Cargo.toml"]), "/ws", &no_targets()),
        Err(Error::NotRelative("/abs/Cargo.toml".to_owned()))
    );
}

#[test]
fn the_first_word_that_is_no_flag_names_the_subcommand() {
    let parsed = parse(&words(&["--locked", "fmt", "build"]), "/ws", &no_targets()).unwrap();
    assert_eq!(parsed.subcommand, Some(Subcommand::Other("fmt".to_owned())));
    assert_eq!(parsed.all, words(&["--locked", "fmt", "build"]));
    let parsed = parse(&words(&["--list", "build"]), "/ws", &no_targets()).unwrap();
    assert_eq!(parsed.subcommand, Some(Subcommand::List));
    let parsed = parse(&words(&["-q", "-vvv", "-v", "--unknown"]), "/ws", &no_targets()).unwrap();
    assert_eq!(parsed.subcommand, None);
    assert_eq!(parsed.verbose, 4);
    assert!(parsed.quiet);
    let loud: Vec<String> = (0..3).map(|_| format!("-{}", "v".repeat(100))).collect();
    assert_eq!(parse(&loud, "/ws", &no_targets()).unwrap().verbose, 255);
    let parsed = parse(&words(&["+", "é", "+x"]), "/ws", &no_targets()).unwrap();
    assert_eq!(parsed.channel, Some("x".to_owned()));
    assert_eq!(parsed.subcommand, Some(Subcommand::Other("é".to_owned())));
    assert_eq!(Subcommand::known().len(), 17);
    assert!(Subcommand::known().contains(&"tarpaulin".to_owned()));
}
