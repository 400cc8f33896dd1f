//! Which container engine is installed, and which dialect it speaks.

use crate::command::{bare, Command, CommandView};
use crate::errors::Error;
use crate::text::{chars_of, contains, contains_seq};
use vstd::prelude::*;

verus! {

/// The dialect of a container engine.
#[derive(Copy, Clone, Debug, PartialEq, Eq, Structural)]
pub enum EngineType {
    Docker,
    Podman,
    PodmanRemote,
    Other,
}

/// An installed container engine.
#[derive(Clone, Debug, PartialEq, Eq)]
pub struct Engine {
    pub kind: EngineType,
    pub path: String,
    pub is_remote: bool,
}

/// What `str::to_lowercase` of the standard library makes of a text.
pub uninterp spec fn lowercase(s: Seq<char>) -> Seq<char>;

/// Trusted: calls `str::to_lowercase`; the result is named `lowercase` of
/// the argument, and nothing more is claimed of it.
#[verifier::external_body]
fn to_lowercase(s: &str) -> (out: String)
    ensures
        out@ == lowercase(s@),
{
    s.to_lowercase()
}

/// The dialect that a lower-cased help text gives away.
pub open spec fn engine_type_of(help: Seq<char>) -> EngineType {
    if contains_seq(help, "podman-remote"@) {
        EngineType::PodmanRemote
    } else if contains_seq(help, "podman"@) {
        EngineType::Podman
    } else if contains_seq(help, "docker"@) && !contains_seq(help, "emulate"@) {
        EngineType::Docker
    } else {
        EngineType::Other
    }
}

/// The dialect of the engine whose `--help` printed `help`. The program's
/// name is not consulted: it may be an alias or a shim.
pub fn get_engine_type(help: &str) -> (kind: EngineType)
    ensures
        kind == engine_type_of(lowercase(help@)),
{
    let lowered = to_lowercase(help);
    let text = chars_of(lowered.as_str());
    if contains(&text, &chars_of("podman-remote")) {
        EngineType::PodmanRemote
    } else if contains(&text, &chars_of("podman")) {
        EngineType::Podman
    } else if contains(&text, &chars_of("docker")) && !contains(&text, &chars_of("emulate")) {
        EngineType::Docker
    } else {
        EngineType::Other
    }
}

/// The programs to look for, in order: the override alone where one is
/// given, else docker, then podman.
pub open spec fn candidates(engine: Option<Seq<char>>) -> Seq<Seq<char>> {
    match engine {
        Some(name) => seq![name],
        None => seq!["docker"@, "podman"@],
    }
}

/// The programs to look for, in order.
pub fn get_container_engine(engine: Option<&str>) -> (names: Vec<String>)
    ensures
        crate::text::strs(names@) == candidates(
            match engine {
                Some(name) => Some(name@),
                None => None,
            },
        ),
{
    let mut names: Vec<String> = Vec::new();
    match engine {
        Some(name) => {
            names.push(name.to_owned());
        },
        None => {
            names.push("docker".to_owned());
            names.push("podman".to_owned());
        },
    }
    assert(crate::text::strs(names@) =~= candidates(
        match engine {
            Some(name) => Some(name@),
            None => None,
        },
    ));
    names
}

impl Engine {
    /// The engine at `found`, the first candidate that was found, judged by
    /// the text that its `--help` printed. Without a candidate that was
    /// found there is no engine.
    pub fn new(found: Option<String>, is_remote: bool, help: &str) -> (made: Result<Engine, Error>)
        ensures
            found is None <==> made is Err,
            made is Ok ==> made->Ok_0.path@ == found->0@ && made->Ok_0.is_remote == is_remote
                && made->Ok_0.kind == engine_type_of(lowercase(help@)),
            made is Err ==> made->Err_0 == Error::EngineNotFound,
    {
        match found {
            Some(path) => Ok(Engine::from_path(path, is_remote, help)),
            None => Err(Error::EngineNotFound),
        }
    }

    /// The engine at `path`, judged by the text that its `--help` printed.
    pub fn from_path(path: String, is_remote: bool, help: &str) -> (engine: Engine)
        ensures
            engine.path@ == path@,
            engine.is_remote == is_remote,
            engine.kind == engine_type_of(lowercase(help@)),
    {
        let kind = get_engine_type(help);
        Engine { path, kind, is_remote }
    }

    /// Whether commands need `--remote`: podman that is told to work on
    /// another host.
    pub open spec fn spec_needs_remote(&self) -> bool {
        self.is_remote && self.kind == EngineType::Podman
    }

    #[verifier::when_used_as_spec(spec_needs_remote)]
    pub fn needs_remote(&self) -> (yes: bool)
        ensures
            yes == self.spec_needs_remote(),
    {
        self.is_remote && matches!(self.kind, EngineType::Podman)
    }
}

/// The engine's command line before any subcommand.
pub open spec fn engine_command(engine: &Engine) -> CommandView {
    if engine.spec_needs_remote() {
        bare(engine.path@).arg("--remote"@)
    } else {
        bare(engine.path@)
    }
}

/// The engine's command line before any subcommand: the program, and
/// `--remote` where the engine needs it.
pub fn docker_command(engine: &Engine) -> (cmd: Command)
    ensures
        cmd@ == engine_command(engine),
{
    let mut cmd = Command::new(engine.path.as_str());
    if engine.needs_remote() {
        cmd.arg("--remote");
    }
    cmd
}

/// The engine's command line up to and with `subcommand`.
pub fn docker_subcommand(engine: &Engine, subcommand: &str) -> (cmd: Command)
    ensures
        cmd@ == engine_command(engine).arg(subcommand@),
{
    let mut cmd = docker_command(engine);
    cmd.arg(subcommand);
    cmd
}

} // verus!
