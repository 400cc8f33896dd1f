//! The configuration of a project: what is set for every build, and what
//! for single targets.

use crate::target::{Target, TargetList};
use crate::text::{clone_strings, first_match, lemma_first_match_is, opt_str, strs};
use vstd::prelude::*;

verus! {

/// The environment of a build.
#[derive(Debug, Clone, PartialEq, Eq, Default)]
pub struct CrossEnvConfig {
    /// The variables that name directories to have inside the container.
    pub volumes: Vec<String>,
    /// The variables that are handed into the container.
    pub passthrough: Vec<String>,
}

/// What is set for every build.
#[derive(Debug, Clone, PartialEq, Eq, Default)]
pub struct CrossBuildConfig {
    pub env: CrossEnvConfig,
    pub xargo: Option<bool>,
    pub build_std: Option<bool>,
    pub default_target: Option<String>,
}

/// What is set for one target.
#[derive(Debug, Clone, PartialEq, Eq)]
pub struct CrossTargetConfig {
    pub xargo: Option<bool>,
    pub build_std: Option<bool>,
    pub image: Option<String>,
    pub runner: Option<String>,
    pub env: CrossEnvConfig,
}

/// The configuration of a project. No target is configured twice.
#[derive(Debug, Clone, PartialEq, Eq)]
pub struct CrossToml {
    pub targets: Vec<(Target, CrossTargetConfig)>,
    pub build: CrossBuildConfig,
}

/// The plain values of a `CrossEnvConfig`.
pub ghost struct EnvView {
    pub volumes: Seq<Seq<char>>,
    pub passthrough: Seq<Seq<char>>,
}

/// The plain values of a `CrossBuildConfig`.
pub ghost struct BuildView {
    pub env: EnvView,
    pub xargo: Option<bool>,
    pub build_std: Option<bool>,
    pub default_target: Option<Seq<char>>,
}

/// The plain values of a `CrossTargetConfig`.
pub ghost struct TargetView {
    pub xargo: Option<bool>,
    pub build_std: Option<bool>,
    pub image: Option<Seq<char>>,
    pub runner: Option<Seq<char>>,
    pub env: EnvView,
}

/// The plain values of a `Target`: whether it is built in, and its triple.
pub ghost struct KeyView {
    pub builtin: bool,
    pub triple: Seq<char>,
}

/// The plain values of a `CrossToml`.
pub ghost struct TomlView {
    pub targets: Seq<(KeyView, TargetView)>,
    pub build: BuildView,
}

impl View for CrossEnvConfig {
    type V = EnvView;

    open spec fn view(&self) -> EnvView {
        EnvView { volumes: strs(self.volumes@), passthrough: strs(self.passthrough@) }
    }
}

impl View for CrossBuildConfig {
    type V = BuildView;

    open spec fn view(&self) -> BuildView {
        BuildView {
            env: self.env@,
            xargo: self.xargo,
            build_std: self.build_std,
            default_target: opt_str(self.default_target),
        }
    }
}

impl View for CrossTargetConfig {
    type V = TargetView;

    open spec fn view(&self) -> TargetView {
        TargetView {
            xargo: self.xargo,
            build_std: self.build_std,
            image: opt_str(self.image),
            runner: opt_str(self.runner),
            env: self.env@,
        }
    }
}

/// The plain values of a target.
pub open spec fn key_of(target: &Target) -> KeyView {
    KeyView { builtin: target is BuiltIn, triple: target.spec_triple() }
}

/// The views of the entries of a configuration.
pub open spec fn entry_views(v: Seq<(Target, CrossTargetConfig)>) -> Seq<(KeyView, TargetView)> {
    Seq::new(v.len(), |i: int| (key_of(&v[i].0), v[i].1@))
}

impl View for CrossToml {
    type V = TomlView;

    open spec fn view(&self) -> TomlView {
        TomlView { targets: entry_views(self.targets@), build: self.build@ }
    }
}

/// The predicate "is the entry of the target `key`".
pub open spec fn is_entry_of(key: KeyView) -> spec_fn((KeyView, TargetView)) -> bool {
    |entry: (KeyView, TargetView)| entry.0 == key
}

/// What is set for the target `key`, where anything is.
pub open spec fn lookup(targets: Seq<(KeyView, TargetView)>, key: KeyView) -> Option<TargetView> {
    let i = first_match(targets, is_entry_of(key));
    if 0 <= i < targets.len() {
        Some(targets[i].1)
    } else {
        None
    }
}

/// No target is configured twice.
pub open spec fn has_unique_targets(targets: Seq<(KeyView, TargetView)>) -> bool {
    forall|i: int, j: int|
        0 <= i < j < targets.len() ==> (#[trigger] targets[i]).0 != (#[trigger] targets[j]).0
}

/// One of the texts that may be set for a target.
#[derive(Debug, Clone, Copy, PartialEq, Eq, Structural)]
pub enum TextSetting {
    Image,
    Runner,
}

/// One of the switches that may be set for every build and for a target.
#[derive(Debug, Clone, Copy, PartialEq, Eq, Structural)]
pub enum Switch {
    Xargo,
    BuildStd,
}

/// One of the lists that may be set for every build and for a target.
#[derive(Debug, Clone, Copy, PartialEq, Eq, Structural)]
pub enum ListSetting {
    Passthrough,
    Volumes,
}

/// A text of a target's configuration.
pub open spec fn text_of(config: TargetView, setting: TextSetting) -> Option<Seq<char>> {
    match setting {
        TextSetting::Image => config.image,
        TextSetting::Runner => config.runner,
    }
}

/// A switch of a target's configuration.
pub open spec fn switch_of(config: TargetView, switch: Switch) -> Option<bool> {
    match switch {
        Switch::Xargo => config.xargo,
        Switch::BuildStd => config.build_std,
    }
}

/// A list of an environment.
pub open spec fn list_of(env: EnvView, setting: ListSetting) -> Seq<Seq<char>> {
    match setting {
        ListSetting::Passthrough => env.passthrough,
        ListSetting::Volumes => env.volumes,
    }
}

/// A copy of an optional string.
fn clone_text(text: &Option<String>) -> (out: Option<String>)
    ensures
        opt_str(out) == opt_str(*text),
{
    match text {
        Some(t) => Some(t.clone()),
        None => None,
    }
}

impl CrossToml {
    /// The configuration is well formed: no target is configured twice.
    pub open spec fn wf(&self) -> bool {
        has_unique_targets(self@.targets)
    }

    /// What is set for the target, where anything is.
    pub fn get_target(&self, target: &Target) -> (found: Option<&CrossTargetConfig>)
        ensures
            found is Some <==> lookup(self@.targets, key_of(target)) is Some,
            found is Some ==> found->0@ == lookup(self@.targets, key_of(target))->0,
    {
        let ghost table = self@.targets;
        let ghost key = key_of(target);
        let mut i: usize = 0;
        while i < self.targets.len()
            invariant
                i <= self.targets.len(),
                table == self@.targets,
                key == key_of(target),
                forall|j: int| 0 <= j < i ==> !is_entry_of(key)(#[trigger] table[j]),
            decreases self.targets.len() - i,
        {
            assert(table[i as int] == (key_of(&self.targets@[i as int].0), self.targets@[i as int].1@));
            if self.targets[i].0.same(target) {
                proof {
                    lemma_first_match_is(table, is_entry_of(key), i as int);
                }
                return Some(&self.targets[i].1);
            }
            i += 1;
        }
        proof {
            lemma_first_match_is(table, is_entry_of(key), table.len() as int);
        }
        None
    }

    /// A text that is set for the target.
    pub fn get_string(&self, target: &Target, setting: TextSetting) -> (text: Option<String>)
        ensures
            opt_str(text) == (match lookup(self@.targets, key_of(target)) {
                Some(config) => text_of(config, setting),
                None => None,
            }),
    {
        match self.get_target(target) {
            Some(config) => match setting {
                TextSetting::Image => clone_text(&config.image),
                TextSetting::Runner => clone_text(&config.runner),
            },
            None => None,
        }
    }

    /// A switch as it is set for every build and as it is set for the
    /// target.
    pub fn get_bool(&self, target: &Target, switch: Switch) -> (set: (Option<bool>, Option<bool>))
        ensures
            set.0 == (match switch {
                Switch::Xargo => self.build.xargo,
                Switch::BuildStd => self.build.build_std,
            }),
            set.1 == (match lookup(self@.targets, key_of(target)) {
                Some(config) => switch_of(config, switch),
                None => None,
            }),
    {
        let build = match switch {
            Switch::Xargo => self.build.xargo,
            Switch::BuildStd => self.build.build_std,
        };
        let target = match self.get_target(target) {
            Some(config) => match switch {
                Switch::Xargo => config.xargo,
                Switch::BuildStd => config.build_std,
            },
            None => None,
        };
        (build, target)
    }

    /// A list that is set for the target: empty where nothing is set for
    /// the target.
    pub fn get_vec(&self, target: &Target, setting: ListSetting) -> (list: Vec<String>)
        ensures
            strs(list@) == (match lookup(self@.targets, key_of(target)) {
                Some(config) => list_of(config.env, setting),
                None => Seq::empty(),
            }),
    {
        match self.get_target(target) {
            Some(config) => match setting {
                ListSetting::Passthrough => clone_strings(&config.env.passthrough),
                ListSetting::Volumes => clone_strings(&config.env.volumes),
            },
            None => {
                let list: Vec<String> = Vec::new();
                assert(strs(list@) =~= Seq::empty());
                list
            },
        }
    }

    /// The image that is set for the target.
    pub fn image(&self, target: &Target) -> (text: Option<String>)
        ensures
            opt_str(text) == (match lookup(self@.targets, key_of(target)) {
                Some(config) => config.image,
                None => None,
            }),
    {
        self.get_string(target, TextSetting::Image)
    }

    /// The runner that is set for the target.
    pub fn runner(&self, target: &Target) -> (text: Option<String>)
        ensures
            opt_str(text) == (match lookup(self@.targets, key_of(target)) {
                Some(config) => config.runner,
                None => None,
            }),
    {
        self.get_string(target, TextSetting::Runner)
    }

    /// Whether xargo is used, as set for every build and as set for the
    /// target.
    pub fn xargo(&self, target: &Target) -> (set: (Option<bool>, Option<bool>))
        ensures
            set.0 == self.build.xargo,
            set.1 == (match lookup(self@.targets, key_of(target)) {
                Some(config) => config.xargo,
                None => None,
            }),
    {
        self.get_bool(target, Switch::Xargo)
    }

    /// Whether the standard library is built, as set for every build and
    /// as set for the target.
    pub fn build_std(&self, target: &Target) -> (set: (Option<bool>, Option<bool>))
        ensures
            set.0 == self.build.build_std,
            set.1 == (match lookup(self@.targets, key_of(target)) {
                Some(config) => config.build_std,
                None => None,
            }),
    {
        self.get_bool(target, Switch::BuildStd)
    }

    /// The variables that every build hands into the container.
    pub fn env_passthrough_build(&self) -> (list: &Vec<String>)
        ensures
            list == &self.build.env.passthrough,
    {
        &self.build.env.passthrough
    }

    /// The variables that builds for the target hand into the container.
    pub fn env_passthrough_target(&self, target: &Target) -> (list: Vec<String>)
        ensures
            strs(list@) == (match lookup(self@.targets, key_of(target)) {
                Some(config) => config.env.passthrough,
                None => Seq::empty(),
            }),
    {
        self.get_vec(target, ListSetting::Passthrough)
    }

    /// The variables that name directories for every build.
    pub fn env_volumes_build(&self) -> (list: &Vec<String>)
        ensures
            list == &self.build.env.volumes,
    {
        &self.build.env.volumes
    }

    /// The variables that name directories for builds for the target.
    pub fn env_volumes_target(&self, target: &Target) -> (list: Vec<String>)
        ensures
            strs(list@) == (match lookup(self@.targets, key_of(target)) {
                Some(config) => config.env.volumes,
                None => Seq::empty(),
            }),
    {
        self.get_vec(target, ListSetting::Volumes)
    }

    /// The target that is built where none is named.
    pub fn default_target(&self, target_list: &TargetList) -> (target: Option<Target>)
        ensures
            target is Some <==> self.build.default_target is Some,
            target is Some ==> target->0.spec_triple() == self.build.default_target->0@ && (
            target->0 is BuiltIn <==> strs(target_list.triples@).contains(
                self.build.default_target->0@,
            )),
    {
        match &self.build.default_target {
            Some(t) => Some(Target::from(t.as_str(), target_list)),
            None => None,
        }
    }
}

/// Of two settings the second, where it is set, else the first.
pub open spec fn later<T>(first: Option<T>, second: Option<T>) -> Option<T> {
    if second is Some {
        second
    } else {
        first
    }
}

/// What is set for every build when `other` is laid over `base`: each
/// single setting of `other` wins where it is set; the lists of `other`
/// replace those of `base`.
pub open spec fn merged_build(base: BuildView, other: BuildView) -> BuildView {
    BuildView {
        env: other.env,
        xargo: later(base.xargo, other.xargo),
        build_std: later(base.build_std, other.build_std),
        default_target: later(base.default_target, other.default_target),
    }
}

/// What is set for a target when `other` is laid over `base`.
pub open spec fn merged_target(base: TargetView, other: TargetView) -> TargetView {
    TargetView {
        xargo: later(base.xargo, other.xargo),
        build_std: later(base.build_std, other.build_std),
        image: later(base.image, other.image),
        runner: later(base.runner, other.runner),
        env: other.env,
    }
}

/// An entry of `base` when `other` is laid over it.
pub open spec fn merged_entry(entry: (KeyView, TargetView), other: Seq<(KeyView, TargetView)>) -> (
    KeyView,
    TargetView,
) {
    match lookup(other, entry.0) {
        Some(config) => (entry.0, merged_target(entry.1, config)),
        None => entry,
    }
}

/// The entries of `base` when `other` is laid over them.
pub open spec fn merged_entries(
    base: Seq<(KeyView, TargetView)>,
    other: Seq<(KeyView, TargetView)>,
) -> Seq<(KeyView, TargetView)> {
    Seq::new(base.len(), |i: int| merged_entry(base[i], other))
}

/// The entries of `other` for targets that `base` does not configure, in
/// order.
pub open spec fn new_entries(
    base: Seq<(KeyView, TargetView)>,
    other: Seq<(KeyView, TargetView)>,
) -> Seq<(KeyView, TargetView)>
    decreases other.len(),
{
    if other.len() == 0 {
        Seq::empty()
    } else {
        let before = new_entries(base, other.drop_last());
        if lookup(base, other.last().0) is Some {
            before
        } else {
            before.push(other.last())
        }
    }
}

/// The configuration that results when `other` is laid over `base`: the
/// targets of `base`, each with what `other` sets for it laid over, then
/// the targets that only `other` configures.
pub open spec fn merged(base: TomlView, other: TomlView) -> TomlView {
    TomlView {
        targets: merged_entries(base.targets, other.targets) + new_entries(
            base.targets,
            other.targets,
        ),
        build: merged_build(base.build, other.build),
    }
}

/// A copy of an environment.
fn clone_env(env: &CrossEnvConfig) -> (out: CrossEnvConfig)
    ensures
        out@ == env@,
{
    CrossEnvConfig {
        volumes: clone_strings(&env.volumes),
        passthrough: clone_strings(&env.passthrough),
    }
}

/// A copy of a target.
fn clone_target(target: &Target) -> (out: Target)
    ensures
        key_of(&out) == key_of(target),
{
    match target {
        Target::BuiltIn { triple } => Target::BuiltIn { triple: triple.clone() },
        Target::Custom { triple } => Target::Custom { triple: triple.clone() },
    }
}

/// A copy of what is set for a target.
fn clone_config(config: &CrossTargetConfig) -> (out: CrossTargetConfig)
    ensures
        out@ == config@,
{
    CrossTargetConfig {
        xargo: config.xargo,
        build_std: config.build_std,
        image: clone_text(&config.image),
        runner: clone_text(&config.runner),
        env: clone_env(&config.env),
    }
}

/// What is set for a target when `other` is laid over `base`.
fn merge_config(base: &CrossTargetConfig, other: &CrossTargetConfig) -> (out: CrossTargetConfig)
    ensures
        out@ == merged_target(base@, other@),
{
    CrossTargetConfig {
        xargo: if other.xargo.is_some() {
            other.xargo
        } else {
            base.xargo
        },
        build_std: if other.build_std.is_some() {
            other.build_std
        } else {
            base.build_std
        },
        image: if other.image.is_some() {
            clone_text(&other.image)
        } else {
            clone_text(&base.image)
        },
        runner: if other.runner.is_some() {
            clone_text(&other.runner)
        } else {
            clone_text(&base.runner)
        },
        env: clone_env(&other.env),
    }
}

impl CrossToml {
    /// Lays `other` over this configuration. For every build, each single
    /// setting of `other` wins where it is set, and the lists of `other`
    /// replace those of this configuration. For a target that both
    /// configure, the same holds of what is set for the target; a target that
    /// only one configures is taken as it is.
    pub fn merge(self, other: CrossToml) -> (out: CrossToml)
        ensures
            out@ == merged(self@, other@),
    {
        let build = CrossBuildConfig {
            env: clone_env(&other.build.env),
            xargo: if other.build.xargo.is_some() {
                other.build.xargo
            } else {
                self.build.xargo
            },
            build_std: if other.build.build_std.is_some() {
                other.build.build_std
            } else {
                self.build.build_std
            },
            default_target: if other.build.default_target.is_some() {
                clone_text(&other.build.default_target)
            } else {
                clone_text(&self.build.default_target)
            },
        };
        let mut targets: Vec<(Target, CrossTargetConfig)> = Vec::new();
        let ghost base = self@.targets;
        let ghost over = other@.targets;
        let mut i: usize = 0;
        assert(entry_views(targets@) =~= merged_entries(base, over).take(0));
        while i < self.targets.len()
            invariant
                i <= self.targets.len(),
                base == self@.targets,
                over == other@.targets,
                entry_views(targets@) == merged_entries(base, over).take(i as int),
            decreases self.targets.len() - i,
        {
            let entry = &self.targets[i];
            assert(base[i as int] == (key_of(&entry.0), entry.1@));
            let config = match other.get_target(&entry.0) {
                Some(config) => merge_config(&entry.1, config),
                None => clone_config(&entry.1),
            };
            let key = clone_target(&entry.0);
            let ghost before = entry_views(targets@);
            targets.push((key, config));
            i += 1;
            assert(entry_views(targets@) =~= before.push(merged_entry(base[i - 1], over)));
            assert(merged_entries(base, over).take(i as int) =~= merged_entries(base, over).take(
                i - 1,
            ).push(merged_entry(base[i - 1], over)));
        }
        assert(merged_entries(base, over).take(self.targets.len() as int) =~= merged_entries(
            base,
            over,
        ));
        let ghost head = entry_views(targets@);
        let mut k: usize = 0;
        assert(over.take(0) =~= Seq::empty());
        assert(head + new_entries(base, over.take(0)) =~= head);
        while k < other.targets.len()
            invariant
                k <= other.targets.len(),
                base == self@.targets,
                over == other@.targets,
                entry_views(targets@) == head + new_entries(base, over.take(k as int)),
            decreases other.targets.len() - k,
        {
            let entry = &other.targets[k];
            assert(over[k as int] == (key_of(&entry.0), entry.1@));
            proof {
                let now = over.take(k + 1);
                assert(now.drop_last() =~= over.take(k as int));
                assert(now.last() == over[k as int]);
            }
            let ghost before = entry_views(targets@);
            if self.get_target(&entry.0).is_none() {
                targets.push((clone_target(&entry.0), clone_config(&entry.1)));
                assert(entry_views(targets@) =~= before.push(over[k as int]));
            }
            k += 1;
        }
        assert(over.take(other.targets.len() as int) =~= over);
        CrossToml { targets, build }
    }
}

} // verus!
