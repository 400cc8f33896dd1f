use cross::changeset::commands::is_toolchain;
use cross::changeset::config::{config_path, default_config};
use cross::changeset::log::Version;
use cross::changeset::util::SortOrder;
use cross::errors::Error;
use cross::semver::SemVer;

fn semver(s: &str) -> Version {
    Version::SemVer(SemVer::parse(s).unwrap())
}

#[test]
fn test_version_parse() -> Result<(), Error> {
    let config = default_config();
    let config = &config;
    let (ver, rest) = Version::parse("0.1.0 trailing", config)?;
    assert_eq!(ver, semver("0.1.0"));
    assert_eq!(rest, " trailing");

    let (ver, rest) = Version::parse("Unreleased trailing", config)?;
    assert_eq!(ver, Version::Unreleased);
    assert_eq!(rest, " trailing");

    let (ver, rest) = Version::parse("0.1.0-dev trailing", config)?;
    assert_eq!(ver, semver("0.1.0-dev"));
    assert_eq!(rest, " trailing");

    let (ver, rest) = Version::parse("0.1.0+libgit2 trailing", config)?;
    assert_eq!(ver, semver("0.1.0+libgit2"));
    assert_eq!(rest, " trailing");

    let (ver, rest) = Version::parse("0.1.0-dev+libgit2 trailing", config)?;
    assert_eq!(ver, semver("0.1.0-dev+libgit2"));
    assert_eq!(rest, " trailing");

    let (ver, rest) = Version::parse("0.1.0-dev_x trailing", config)?;
    assert_eq!(ver, semver("0.1.0-dev"));
    assert_eq!(rest, "_x trailing");

    let (ver, rest) = Version::parse("0.1.0- trailing", config)?;
    assert_eq!(ver, semver("0.1.0"));
    assert_eq!(rest, "- trailing");

    let (ver, rest) = Version::parse("0.1.0+ trailing", config)?;
    assert_eq!(ver, semver("0.1.0"));
    assert_eq!(rest, "+ trailing");

    Ok(())
}

#[test]
fn test_version_to_string() -> Result<(), Error> {
    let config = default_config();
    assert_eq!(semver("0.1.0-dev").to_string(&config), "0.1.0-dev".to_owned());
    assert_eq!(
        Version::Unreleased.to_string(&config),
        config.unreleased().to_owned()
    );

    Ok(())
}

#[test]
fn versions_that_are_none_are_refused() {
    let config = default_config();
    assert_eq!(
        Version::parse("next release", &config),
        Err(Error::InvalidVersion("next release".to_owned()))
    );
    // the pattern takes one digit for each number, which is no version by itself
    assert_eq!(
        Version::parse("1 is not enough", &config),
        Err(Error::InvalidVersion("1".to_owned()))
    );
    assert_eq!(
        Version::parse("", &config),
        Err(Error::InvalidVersion("".to_owned()))
    );
}

#[test]
fn versions_are_held_as_plain_values() {
    let v = SemVer::parse("1.20.300-rc.1+build.5").unwrap();
    assert_eq!(
        v,
        SemVer {
            major: 1,
            minor: 20,
            patch: 300,
            pre: "rc.1".to_owned(),
            build: "build.5".to_owned(),
        }
    );
    assert_eq!(v.to_string(), "1.20.300-rc.1+build.5");
    assert_eq!(SemVer::parse("0.0.0").unwrap().to_string(), "0.0.0");
    assert_eq!(
        SemVer::parse("18446744073709551615.0.1+x").unwrap().to_string(),
        "18446744073709551615.0.1+x"
    );
    assert_eq!(SemVer::parse("1.2"), None);
    assert_eq!(SemVer::parse("01.2.3"), None);
}

#[test]
fn the_usual_settings_are_valid() {
    let config = default_config();
    assert!(config.validate());
    assert_eq!(config.filename(), "CHANGELOG.md");
    assert_eq!(config.entry_prefix(), "-");
    assert_eq!(config.breaking(), "Breaking:");
    assert_eq!(config.sort_identifiers(), Some(SortOrder::Ascending));
    assert_eq!(config.sort_entries(), Some(SortOrder::Descending));
    assert_eq!(config.sort_change_types(), Some(SortOrder::Ascending));
    assert!(config.verbatim());
    assert!(config.trim_whitespace());
    assert!(config.multiline());
    assert_eq!(config.unreleased(), "Unreleased");
    assert_eq!(config.commit_length(), 9);
    assert_eq!(config.default_changelog_separator(), ",");
    assert_eq!(config.default_file_name_separator(), "-");
    assert_eq!(
        config.change_types(),
        &["Added", "Changed", "Removed", "Fixed", "Internal", "Deprecated", "Security"]
    );
    assert_eq!(config.date_pattern().to_string(), "{year}-{month}-{day}");
    assert_eq!(
        *config.date_pattern(),
        cross::changeset::date::Pattern::parse("{year}-{month}-{day}").unwrap()
    );
}

#[test]
fn settings_that_cannot_be_used_are_found() {
    let mut config = default_config();
    config.inner.identifier.commit_length = 41;
    assert!(!config.validate());
    let mut config = default_config();
    config.inner.identifier.commit_length = 40;
    assert!(config.validate());
    config.inner.entry.prefix = String::new();
    assert!(!config.validate());
    let mut config = default_config();
    config.inner.filename = String::new();
    assert!(!config.validate());
    let mut config = default_config();
    config.inner.section.change_types.push(String::new());
    assert!(!config.validate());
    let mut config = default_config();
    config.inner.section.change_types.clear();
    assert!(config.validate());
}

#[test]
fn the_settings_are_found() {
    assert_eq!(config_path(Some("/etc/changes.toml"), "/ws"), "/etc/changes.toml");
    assert_eq!(config_path(None, "/ws"), "/ws/changesets.toml");
    assert_eq!(is_toolchain("+nightly"), Some("nightly".to_owned()));
    assert_eq!(is_toolchain("nightly"), None);
}
