use cross::errors::Error;
use cross::path::{
    join_components, parent_of, path_eq, path_starts_with, push_path, split_components,
    strip_components,
};
use cross::rustup::{
    available_targets, available_targets_command, component_is_installed,
    component_list_command, install, install_component, install_toolchain, installed_toolchains,
    installed_toolchains_command, multirust_channel_manifest_path, remove_all, rustc_channel,
    rustc_version, rustc_version_string, AvailableTargets, Channel,
};
use cross::semver::SemVer;
use cross::target::Target;
use cross::text::{
    decimal_string, first_word_of, join_strings, lines_of, parse_number, sort_strings,
    split_at_first, split_on, str_lt, strip_prefix, trimmed,
};

fn words(list: &[&str]) -> Vec<String> {
    list.iter().map(|s| s.to_string()).collect()
}

fn builtin(triple: &str) -> Target {
    Target::BuiltIn { triple: triple.to_string() }
}

#[test]
fn toolchains_are_listed() {
    assert_eq!(
        installed_toolchains(
            "stable-x86_64-unknown-linux-gnu (default)\nnightly-x86_64-unknown-linux-gnu (override)\n 1.58.1-x86_64-unknown-linux-gnu \n"
        ),
        words(&[
            "stable-x86_64-unknown-linux-gnu",
            "nightly-x86_64-unknown-linux-gnu",
            "1.58.1-x86_64-unknown-linux-gnu"
        ])
    );
    assert_eq!(installed_toolchains(""), Vec::<String>::new());
    assert_eq!(installed_toolchains_command().args, words(&["toolchain", "list"]));
    assert_eq!(remove_all("a (default) b (default)", " (default)"), "a b");
    assert_eq!(remove_all("aaa", "aa"), "a");
    assert_eq!(remove_all("abc", ""), "abc");
    assert_eq!(remove_all("abab", "ab"), "");
    assert_eq!(remove_all("xaby", "ab"), "xy");
    assert_eq!(remove_all("aabb", "ab"), "ab");
}

#[test]
fn targets_are_listed() {
    let out = "aarch64-unknown-linux-gnu (installed)\nx86_64-unknown-linux-gnu (default)\nwasm32-wasi\narm-linux-androideabi (installed)\n";
    let targets = available_targets(out).unwrap();
    assert_eq!(
        targets,
        AvailableTargets {
            default: "x86_64-unknown-linux-gnu".to_owned(),
            installed: words(&["aarch64-unknown-linux-gnu", "arm-linux-androideabi"]),
            not_installed: words(&["wasm32-wasi"]),
        }
    );
    assert!(targets.is_installed(&builtin("x86_64-unknown-linux-gnu")));
    assert!(targets.is_installed(&builtin("arm-linux-androideabi")));
    assert!(!targets.is_installed(&builtin("wasm32-wasi")));
    assert!(targets.contains(&builtin("wasm32-wasi")));
    assert!(!targets.contains(&builtin("mips-unknown-linux-gnu")));
    assert_eq!(
        available_targets("a (default)\nb (default)\n"),
        Err(Error::Malformed("b (default)".to_owned()))
    );
    assert_eq!(
        available_targets_command("nightly").args,
        words(&["target", "list", "--toolchain", "nightly"])
    );
}

#[test]
fn installations_are_asked_for() {
    assert_eq!(
        install_toolchain("nightly").args,
        words(&["toolchain", "add", "nightly", "--profile", "minimal"])
    );
    assert_eq!(
        install(&builtin("wasm32-wasi"), "nightly").args,
        words(&["target", "add", "wasm32-wasi", "--toolchain", "nightly"])
    );
    assert_eq!(
        install_component("rust-src", "nightly").args,
        words(&["component", "add", "rust-src", "--toolchain", "nightly"])
    );
    assert_eq!(
        component_list_command("nightly").args,
        words(&["component", "list", "--toolchain", "nightly"])
    );
    let out = "cargo-x86_64-unknown-linux-gnu (installed)\nrust-src\nrust-std-wasm32 (installed)\n";
    assert!(component_is_installed(out, "cargo"));
    assert!(component_is_installed(out, "rust-std"));
    assert!(!component_is_installed(out, "rust-src"));
    assert!(!component_is_installed(out, "clippy"));
    assert!(!component_is_installed("", "cargo"));
}

#[test]
fn the_compiler_of_a_toolchain() {
    let version = |pre: &str| SemVer {
        major: 1,
        minor: 61,
        patch: 0,
        pre: pre.to_owned(),
        build: String::new(),
    };
    assert_eq!(rustc_channel(&version("")), Ok(Channel::Stable));
    assert_eq!(rustc_channel(&version("dev")), Ok(Channel::Dev));
    assert_eq!(rustc_channel(&version("beta.3")), Ok(Channel::Beta));
    assert_eq!(rustc_channel(&version("nightly")), Ok(Channel::Nightly));
    assert_eq!(
        rustc_channel(&version("alpha.1")),
        Err(Error::UnknownChannel("alpha".to_owned()))
    );
    assert_eq!(
        multirust_channel_manifest_path("/toolchain"),
        "/toolchain/lib/rustlib/multirust-channel-manifest.toml"
    );
    assert_eq!(
        rustc_version(Some("1.61.0 (fe5b13d68 2022-05-18)")),
        Ok(Some((version(""), Channel::Stable, "(fe5b13d68 2022-05-18)".to_owned())))
    );
    assert_eq!(
        rustc_version(Some("1.63.0-nightly (abc 2022-06-01)")),
        Ok(Some((version_nightly(), Channel::Nightly, "(abc 2022-06-01)".to_owned())))
    );
    assert_eq!(rustc_version(Some("1.61.0")), Ok(None));
    assert_eq!(rustc_version(None), Ok(None));
    assert_eq!(
        rustc_version(Some("1.61 (abc)")),
        Err(Error::InvalidVersion("1.61".to_owned()))
    );
    assert_eq!(
        rustc_version(Some("1.61.0-rc1 (abc)")),
        Err(Error::UnknownChannel("rc1".to_owned()))
    );
}

fn version_nightly() -> SemVer {
    SemVer {
        major: 1,
        minor: 63,
        patch: 0,
        pre: "nightly".to_owned(),
        build: String::new(),
    }
}

#[test]
fn the_version_text_is_read_from_the_manifest() {
    let manifest: toml::Value = toml::from_str(
        "manifest-version = \"2\"\n[pkg.rust]\nversion = \"1.61.0 (fe5b13d68 2022-05-18)\"\n[pkg.cargo]\nversion = \"0.62.0\"\n",
    )
    .unwrap();
    assert_eq!(
        rustc_version_string(&manifest),
        Some("1.61.0 (fe5b13d68 2022-05-18)".to_owned())
    );
    let manifest: toml::Value = toml::from_str("[pkg.rust]\nversion = 1\n").unwrap();
    assert_eq!(rustc_version_string(&manifest), None);
    let manifest: toml::Value = toml::from_str("[pkg]\nrust = \"x\"\n").unwrap();
    assert_eq!(rustc_version_string(&manifest), None);
}

#[test]
fn paths_are_taken_apart_by_components() {
    assert_eq!(split_components("/a//b/./c/"), words(&["/", "a", "b", "c"]));
    assert_eq!(split_components("a/../b"), words(&["a", "..", "b"]));
    assert_eq!(split_components("./a"), words(&["a"]));
    assert_eq!(split_components(""), Vec::<String>::new());
    assert_eq!(split_components("/"), words(&["/"]));
    assert_eq!(
        strip_components(&words(&["/", "a", "b"]), &words(&["/", "a"])),
        Some(words(&["b"]))
    );
    assert_eq!(strip_components(&words(&["/", "a"]), &words(&["/", "a"])), Some(vec![]));
    assert_eq!(strip_components(&words(&["/", "a"]), &words(&["a"])), None);
    assert_eq!(strip_components(&words(&["a"]), &words(&["a", "b"])), None);
    assert_eq!(join_components("/x", &words(&["a", "b"])), "/x/a/b");
    assert_eq!(join_components("/x/", &words(&["a"])), "/x/a");
    assert_eq!(join_components("", &words(&["a", "b"])), "a/b");
    assert_eq!(join_components("/x", &words(&["/", "a"])), "/a");
    assert_eq!(join_components("/x", &vec![]), "/x");
    assert_eq!(push_path("/", "a"), "/a");
    assert_eq!(push_path("a", "b/c"), "a/b/c");
    assert_eq!(parent_of("/a/b/"), Some("/a".to_owned()));
    assert_eq!(parent_of("/a"), Some("/".to_owned()));
    assert_eq!(parent_of("a"), Some("".to_owned()));
    assert_eq!(parent_of("/"), None);
    assert_eq!(parent_of(""), None);
    assert!(path_eq("/a//b/", "/a/b"));
    assert!(!path_eq("/a/b", "a/b"));
    assert!(path_starts_with("/a/b", "/a"));
    assert!(path_starts_with("/a/b", ""));
    assert!(!path_starts_with("/ab", "/a"));
}

#[test]
fn text_is_taken_apart() {
    assert_eq!(lines_of("a\nb\r\n\nc"), words(&["a", "b", "", "c"]));
    assert_eq!(lines_of("a\n"), words(&["a"]));
    assert_eq!(lines_of("\n"), words(&[""]));
    assert_eq!(lines_of(""), Vec::<String>::new());
    assert_eq!(lines_of("a\r"), words(&["a\r"]));
    assert_eq!(lines_of("a\r\r\n"), words(&["a\r"]));
    assert_eq!(split_on("a-b--c", '-'), words(&["a", "b", "", "c"]));
    assert_eq!(split_on("", '-'), words(&[""]));
    assert_eq!(split_on("-", '-'), words(&["", ""]));
    assert_eq!(join_strings(&words(&["a", "", "c"]), ", "), "a, , c");
    assert_eq!(join_strings(&vec![], ", "), "");
    assert_eq!(split_at_first("a=b=c", '='), ("a".to_owned(), Some("b=c".to_owned())));
    assert_eq!(split_at_first("abc", '='), ("abc".to_owned(), None));
    assert_eq!(strip_prefix("abc", "ab"), Some("c".to_owned()));
    assert_eq!(strip_prefix("abc", "b"), None);
    assert_eq!(trimmed("\t a b \r\n"), "a b");
    assert_eq!(trimmed(" \n "), "");
    assert_eq!(first_word_of("  two words"), Some("two".to_owned()));
    assert_eq!(first_word_of("one"), Some("one".to_owned()));
    assert_eq!(first_word_of(" \t"), None);
    assert!(str_lt("a", "b"));
    assert!(str_lt("a", "ab"));
    assert!(str_lt("", "a"));
    assert!(!str_lt("a", "a"));
    assert!(!str_lt("b", "a"));
    assert!(str_lt("Z", "a"));
    assert!(str_lt("z", "é"));
    assert_eq!(sort_strings(&words(&["b", "a", "ab", "", "a"])), words(&["", "a", "a", "ab", "b"]));
    assert_eq!(decimal_string(0), "0");
    assert_eq!(decimal_string(10), "10");
    assert_eq!(decimal_string(u64::MAX), "18446744073709551615");
    assert_eq!(parse_number("0", 10), Some(0));
    assert_eq!(parse_number("007", 10), Some(7));
    assert_eq!(parse_number("10", 10), Some(10));
    assert_eq!(parse_number("11", 10), None);
    assert_eq!(parse_number("", 10), None);
    assert_eq!(parse_number("+1", 10), None);
    assert_eq!(parse_number("18446744073709551615", u64::MAX), Some(u64::MAX));
    assert_eq!(parse_number("18446744073709551616", u64::MAX), None);
}
