//! What a remote build sends to the engine, worked out before the first
//! command runs.

use crate::command::{bare, Command, CommandView};
use crate::docker::engine::{docker_subcommand, engine_command, Engine};
use crate::docker::local::{build_line, build_script, Build};
use crate::docker::options::{
    all_allowed, container_cwd, dependency_args, dependency_places, docker_cwd, docker_envvars,
    docker_mount, docker_seccomp, docker_user_id, env_args, env_failure, extra_opts,
    mounts_volumes,
    seccomp_args, staged_views, user_args, volume_args, volume_places, Staged, StagedView,
};
use crate::docker::lifecycle::{
    advance, initial, inv, next, Failure, Outcome, Phase, State, Verdict,
};
use crate::docker::remote::{
    container_rm, container_rm_cmd, container_state, container_state_cmd, container_stop,
    container_stop_cmd, keep_name, volume_create, volume_create_cmd, volume_exists,
    volume_exists_cmd, volume_name, volume_rm, volume_rm_cmd,
};
use crate::docker::remote::{
    append_steps, cargo_steps, copy_step, copy_tree, copy_volume_cargo, copy_volume_files_cmd,
    copy_volume_rust, copy_volume_xargo, create_volume_dir, create_volume_dir_cmd, push_step,
    rust_steps, steps_view, xargo_steps, Step, StepView,
};
use crate::docker::shared::Directories;
use crate::errors::{Error, ErrorView};
use crate::path::{
    components, join, join_components, parent, parent_of, push_component, push_path, root,
    split_components, strip_components, strip_prefix,
};
use crate::text::{
    clone_strings, concat, concat3, first_match, join_strings, join_with, lemma_first_match_is,
    opt_str, push_str, strs, trim, trimmed,
};
use vstd::prelude::*;

verus! {

/// Where the volume is mounted inside the container.
pub const MOUNT_PREFIX: &'static str = "/cross";

/// What was found on this machine before the build.
#[derive(Debug, Clone, PartialEq, Eq)]
pub struct Facts {
    /// Whether xargo has libraries for the target.
    pub xargo_exists: bool,
    /// The names found in cargo's home.
    pub cargo_entries: Vec<String>,
    /// Whether cargo's registry is copied too.
    pub copy_registry: bool,
    /// Whether directories marked as caches are copied too.
    pub copy_cache: bool,
    /// Whether the toolchain has libraries for the target.
    pub toolchain_exists: bool,
    /// What the toolchain's compiler names as the directory of the host's
    /// libraries.
    pub libdir: String,
    /// The canonical form of the output directory.
    pub canonical_target: String,
}

/// The steps that fill a new volume with the toolchain: xargo's libraries,
/// cargo's home, then the toolchain itself.
pub open spec fn toolchain_steps(
    engine: &Engine,
    container: Seq<char>,
    triple: Seq<char>,
    dirs: &Directories,
    facts: &Facts,
) -> Seq<StepView> {
    xargo_steps(engine, container, dirs.xargo@, triple, MOUNT_PREFIX@, facts.xargo_exists)
        + cargo_steps(
        engine,
        container,
        dirs.cargo@,
        MOUNT_PREFIX@,
        facts.copy_registry,
        strs(facts.cargo_entries@),
    ) + rust_steps(
        engine,
        container,
        dirs.sysroot@,
        triple,
        MOUNT_PREFIX@,
        facts.toolchain_exists,
        parent(trim(facts.libdir@))->0,
    )
}

/// The steps that fill a new volume with the toolchain. A compiler whose
/// library directory has no directory above it is an error.
pub fn stage_toolchain(
    engine: &Engine,
    container: &str,
    triple: &str,
    dirs: &Directories,
    facts: &Facts,
) -> (made: Result<Vec<Step>, Error>)
    ensures
        parent(trim(facts.libdir@)) is Some <==> made is Ok,
        made is Ok ==> steps_view(made->Ok_0@) == toolchain_steps(
            engine,
            container@,
            triple@,
            dirs,
            facts,
        ),
        made is Err ==> made->Err_0@ == ErrorView::NoParent(trim(facts.libdir@)),
{
    let rust = match copy_volume_rust(
        engine,
        container,
        dirs.sysroot.as_str(),
        triple,
        MOUNT_PREFIX,
        facts.toolchain_exists,
        facts.libdir.as_str(),
    ) {
        Ok(steps) => steps,
        Err(e) => {
            return Err(e);
        },
    };
    let mut steps = copy_volume_xargo(
        engine,
        container,
        dirs.xargo.as_str(),
        triple,
        MOUNT_PREFIX,
        facts.xargo_exists,
    );
    let cargo = copy_volume_cargo(
        engine,
        container,
        dirs.cargo.as_str(),
        MOUNT_PREFIX,
        facts.copy_registry,
        &facts.cargo_entries,
    );
    append_steps(&mut steps, cargo);
    append_steps(&mut steps, rust);
    Ok(steps)
}

/// The place in the volume that stands for the absolute path whose
/// components behind the root are `rel`.
pub open spec fn in_volume(rel: Seq<Seq<char>>) -> Seq<char> {
    join(MOUNT_PREFIX@, rel)
}

/// The components of an absolute path behind its root.
pub open spec fn below_root(path: Seq<char>) -> Option<Seq<Seq<char>>> {
    strip_prefix(path, root())
}

/// The steps that bring the tree `src` to the place in the volume that
/// stands for the absolute path `dst`: the directory above that place is
/// made, unless the place is the volume itself, and the tree is copied.
pub open spec fn mirror_steps(
    engine: &Engine,
    container: Seq<char>,
    src: Seq<char>,
    rel: Seq<Seq<char>>,
    copy_cache: bool,
) -> Seq<StepView> {
    let copy = copy_step(engine, container, src, in_volume(rel), copy_cache);
    if rel.len() > 0 {
        seq![
            StepView::Run(create_volume_dir_cmd(engine, container, in_volume(rel.drop_last()))),
            copy,
        ]
    } else {
        seq![copy]
    }
}

/// The components of the absolute path `path` behind its root; a path
/// that is not absolute is an error that keeps it.
pub fn components_below_root(path: &str) -> (made: Result<Vec<String>, Error>)
    ensures
        below_root(path@) is Some <==> made is Ok,
        made is Ok ==> strs(made->Ok_0@) == below_root(path@)->0,
        made is Err ==> (made->Err_0 matches Error::NotAbsolute(p) && p@ == path@),
{
    let parts = split_components(path);
    let base = split_components("/");
    proof {
        reveal_strlit("/");
        assert("/"@ =~= root());
    }
    match strip_components(&parts, &base) {
        Some(rel) => Ok(rel),
        None => Err(Error::NotAbsolute(path.to_owned())),
    }
}

/// The steps that bring the tree `src` to the place in the volume that
/// stands for the absolute path with the components `rel` behind its root.
pub fn mirror(engine: &Engine, container: &str, src: &str, rel: &Vec<String>, copy_cache: bool) -> (made:
    (Vec<Step>, String))
    ensures
        steps_view(made.0@) == mirror_steps(engine, container@, src@, strs(rel@), copy_cache),
        made.1@ == in_volume(strs(rel@)),
{
    let place = join_components(MOUNT_PREFIX, rel);
    let mut steps: Vec<Step> = Vec::new();
    assert(steps_view(steps@) =~= Seq::empty());
    if rel.len() > 0 {
        let mut above = crate::text::clone_strings(rel);
        let ghost all = strs(above@);
        above.pop();
        assert(strs(above@) =~= all.drop_last());
        let dir = join_components(MOUNT_PREFIX, &above);
        push_step(&mut steps, Step::Run(create_volume_dir(engine, container, dir.as_str())));
    }
    push_step(&mut steps, copy_tree(engine, container, src, place.as_str(), copy_cache));
    assert(steps_view(steps@) =~= mirror_steps(
        engine,
        container@,
        src@,
        strs(rel@),
        copy_cache,
    ));
    (steps, place)
}

/// The predicate "stands for a directory that `src` lies in".
pub open spec fn holds(src: Seq<char>) -> spec_fn(StagedView) -> bool {
    |entry: StagedView| strip_prefix(src, entry.src) is Some
}

/// The link that stands for `dir`, which lies in a directory that is in
/// the volume already: the first of `copied` that it lies in.
pub open spec fn link_into(copied: Seq<StagedView>, dir: StagedView) -> Option<StagedView> {
    let i = first_match(copied, holds(dir.src));
    if 0 <= i < copied.len() {
        Some(
            StagedView {
                src: join(copied[i].dst, strip_prefix(dir.src, copied[i].src)->0),
                dst: dir.dst,
            },
        )
    } else {
        None
    }
}

/// The link that stands for `dir`, where it lies in a directory that is
/// in the volume already.
pub fn find_copied(copied: &Vec<Staged>, dir: &Staged) -> (link: Option<Staged>)
    ensures
        link is Some <==> link_into(staged_views(copied@), dir@) is Some,
        link is Some ==> link->0@ == link_into(staged_views(copied@), dir@)->0,
{
    let parts = split_components(dir.src.as_str());
    let ghost table = staged_views(copied@);
    let mut i: usize = 0;
    while i < copied.len()
        invariant
            i <= copied.len(),
            table == staged_views(copied@),
            strs(parts@) == components(dir.src@),
            forall|j: int| 0 <= j < i ==> !holds(dir.src@)(#[trigger] table[j]),
        decreases copied.len() - i,
    {
        let base = split_components(copied[i].src.as_str());
        assert(table[i as int] == copied@[i as int]@);
        match strip_components(&parts, &base) {
            Some(rest) => {
                proof {
                    assert(holds(dir.src@)(table[i as int]));
                    lemma_first_match_is(table, holds(dir.src@), i as int);
                }
                return Some(
                    Staged {
                        src: join_components(copied[i].dst.as_str(), &rest),
                        dst: dir.dst.clone(),
                    },
                );
            },
            None => {
                assert(!holds(dir.src@)(table[i as int]));
            },
        }
        i += 1;
    }
    proof {
        lemma_first_match_is(table, holds(dir.src@), table.len() as int);
    }
    None
}

/// The text that links staged data to the places where the build expects
/// it: everything found in the volume is linked to the path that it stands
/// for, directory by directory, and a file that is already there ends the
/// script with a failure.
pub open spec fn link_everything() -> Seq<char> {
    "prefix=\"/cross\"\n\nsymlink_recurse() {\n    for f in \"${1}\"/*; do\n        dst=${f#\"$prefix\"}\n        if [ -f \"${dst}\" ]; then\n            echo \"invalid: got unexpected file at ${dst}\" 1>&2\n            exit 1\n        elif [ -d \"${dst}\" ]; then\n            symlink_recurse \"${f}\"\n        else\n            ln -s \"${f}\" \"${dst}\"\n        fi\n    done\n}\n\nsymlink_recurse \"${prefix}\"\n"@
}

/// The line that links `dst` to the staged `src`.
pub open spec fn link_line(link: StagedView) -> Seq<char> {
    "ln -s \""@ + link.src + "\" \""@ + link.dst + "\""@
}

/// One line for each link.
pub open spec fn link_lines(links: Seq<StagedView>) -> Seq<Seq<char>> {
    Seq::new(links.len(), |i: int| link_line(links[i]))
}

/// The lines of the script that makes the staged data appear where the
/// build expects it: the shell stops at the first failure, the data is
/// handed to the user, everything in the volume is linked, and each further
/// link follows.
pub open spec fn symlink_lines(
    verbose: bool,
    uid: Seq<char>,
    gid: Seq<char>,
    links: Seq<StagedView>,
) -> Seq<Seq<char>> {
    seq!["set -e pipefail"@] + (if verbose {
        seq!["set -x"@]
    } else {
        Seq::empty()
    }) + seq!["chown -R "@ + uid + ":"@ + gid + " /cross/*"@, link_everything()] + link_lines(
        links,
    )
}

/// The script that makes the staged data appear where the build expects
/// it.
pub fn symlink_script(verbose: bool, uid: &str, gid: &str, links: &Vec<Staged>) -> (script: String)
    ensures
        script@ == join_with(symlink_lines(verbose, uid@, gid@, staged_views(links@)), "\n"@),
{
    let mut lines: Vec<String> = Vec::new();
    push_str(&mut lines, "set -e pipefail");
    if verbose {
        push_str(&mut lines, "set -x");
    }
    let mut chown = concat3("chown -R ", uid, ":");
    chown.append(gid);
    chown.append(" /cross/*");
    push_str(&mut lines, chown.as_str());
    push_str(
        &mut lines,
        "prefix=\"/cross\"\n\nsymlink_recurse() {\n    for f in \"${1}\"/*; do\n        dst=${f#\"$prefix\"}\n        if [ -f \"${dst}\" ]; then\n            echo \"invalid: got unexpected file at ${dst}\" 1>&2\n            exit 1\n        elif [ -d \"${dst}\" ]; then\n            symlink_recurse \"${f}\"\n        else\n            ln -s \"${f}\" \"${dst}\"\n        fi\n    done\n}\n\nsymlink_recurse \"${prefix}\"\n",
    );
    let ghost head = strs(lines@);
    assert(head =~= seq!["set -e pipefail"@] + (if verbose {
        seq!["set -x"@]
    } else {
        Seq::empty()
    }) + seq!["chown -R "@ + uid@ + ":"@ + gid@ + " /cross/*"@, link_everything()]);
    let ghost all = staged_views(links@);
    let mut i: usize = 0;
    assert(head + link_lines(all.take(0)) =~= head);
    while i < links.len()
        invariant
            i <= links.len(),
            all == staged_views(links@),
            strs(lines@) == head + link_lines(all.take(i as int)),
        decreases links.len() - i,
    {
        let mut line = concat3("ln -s \"", links[i].src.as_str(), "\" \"");
        line.append(links[i].dst.as_str());
        line.append("\"");
        assert(line@ =~= link_line(all[i as int]));
        push_str(&mut lines, line.as_str());
        i += 1;
        assert(head + link_lines(all.take(i as int)) =~= (head + link_lines(all.take(i - 1))).push(
            link_line(all[i - 1]),
        ));
    }
    assert(all.take(links.len() as int) =~= all);
    join_strings(&lines, "\n")
}

/// What staging the project comes to.
#[derive(Debug, Clone, PartialEq, Eq)]
pub struct Staging {
    /// The steps that copy the project and what belongs to it.
    pub steps: Vec<Step>,
    /// The links that are made besides those of everything in the volume.
    pub links: Vec<Staged>,
    /// The place of the output directory in the volume.
    pub target_dir: String,
}

/// Where the project is staged: at the place that stands for its own path
/// where the project is mounted under its own path, else at `project`.
pub open spec fn project_place(dirs: &Directories, mount_volumes: bool) -> Option<Seq<char>> {
    if mount_volumes {
        match below_root(dirs.mount_root@) {
            Some(rel) => Some(in_volume(rel)),
            None => None,
        }
    } else {
        Some(push_component(MOUNT_PREFIX@, "project"@))
    }
}

/// The steps that stage the project itself.
pub open spec fn project_copy(
    engine: &Engine,
    container: Seq<char>,
    dirs: &Directories,
    mount_volumes: bool,
    copy_cache: bool,
) -> Seq<StepView> {
    if mount_volumes {
        mirror_steps(
            engine,
            container,
            dirs.host_root@,
            below_root(dirs.mount_root@)->0,
            copy_cache,
        )
    } else {
        seq![
            copy_step(
                engine,
                container,
                dirs.host_root@,
                push_component(MOUNT_PREFIX@, "project"@),
                copy_cache,
            ),
        ]
    }
}

/// The components of the output directory below the project, where it
/// lies in the project.
pub open spec fn target_inside(dirs: &Directories, facts: &Facts) -> Option<Seq<Seq<char>>> {
    strip_prefix(facts.canonical_target@, dirs.host_root@)
}

/// The place of the output directory in the volume: inside the staged
/// project where it lies in the project, else a directory of its own.
pub open spec fn target_place(place: Seq<char>, dirs: &Directories, facts: &Facts) -> Seq<char> {
    match target_inside(dirs, facts) {
        Some(rel) => join(place, rel),
        None => push_component(MOUNT_PREFIX@, "target"@),
    }
}

/// The step that stages an output directory outside the project: it is
/// copied where caches are wanted, else only made.
pub open spec fn target_steps(
    engine: &Engine,
    container: Seq<char>,
    dirs: &Directories,
    facts: &Facts,
) -> Seq<StepView> {
    let dir = push_component(MOUNT_PREFIX@, "target"@);
    match target_inside(dirs, facts) {
        Some(_) => Seq::empty(),
        None => if facts.copy_cache {
            seq![StepView::Run(copy_volume_files_cmd(engine, container, dirs.target@, dir))]
        } else {
            seq![StepView::Run(create_volume_dir_cmd(engine, container, dir))]
        },
    }
}

/// The link for an output directory inside the project.
pub open spec fn target_links(place: Seq<char>, dirs: &Directories, facts: &Facts) -> Seq<
    StagedView,
> {
    match target_inside(dirs, facts) {
        Some(rel) => seq![StagedView { src: join(place, rel), dst: "/target"@ }],
        None => Seq::empty(),
    }
}

/// The directories of this machine that are in the volume once the
/// project is staged, each with its place there.
pub open spec fn copied_places(place: Seq<char>, dirs: &Directories, facts: &Facts) -> Seq<
    StagedView,
> {
    seq![
        StagedView { src: dirs.xargo@, dst: push_component(MOUNT_PREFIX@, "xargo"@) },
        StagedView { src: dirs.cargo@, dst: push_component(MOUNT_PREFIX@, "cargo"@) },
        StagedView { src: dirs.sysroot@, dst: push_component(MOUNT_PREFIX@, "rust"@) },
        StagedView { src: dirs.host_root@, dst: place },
    ] + (match target_inside(dirs, facts) {
        Some(_) => Seq::empty(),
        None => seq![
            StagedView { src: dirs.target@, dst: push_component(MOUNT_PREFIX@, "target"@) },
        ],
    })
}

/// Whether a further directory can be staged: it lies in one that is
/// copied, or its place in the container is an absolute path.
pub open spec fn is_placeable(copied: Seq<StagedView>, dir: StagedView) -> bool {
    link_into(copied, dir) is Some || below_root(dir.dst) is Some
}

/// Whether all further directories can be staged.
pub open spec fn all_placeable(copied: Seq<StagedView>, extra: Seq<StagedView>) -> bool {
    forall|i: int| 0 <= i < extra.len() ==> is_placeable(copied, #[trigger] extra[i])
}

/// The steps that stage the further directories: one that lies in a
/// copied directory needs none, any other is mirrored.
pub open spec fn extra_steps(
    engine: &Engine,
    container: Seq<char>,
    copied: Seq<StagedView>,
    extra: Seq<StagedView>,
    copy_cache: bool,
) -> Seq<StepView>
    decreases extra.len(),
{
    if extra.len() == 0 {
        Seq::empty()
    } else {
        let dir = extra.last();
        extra_steps(engine, container, copied, extra.drop_last(), copy_cache) + (if link_into(
            copied,
            dir,
        ) is Some {
            Seq::empty()
        } else {
            mirror_steps(engine, container, dir.src, below_root(dir.dst)->0, copy_cache)
        })
    }
}

/// The links for the further directories: one for each that lies in a
/// copied directory.
pub open spec fn extra_links(copied: Seq<StagedView>, extra: Seq<StagedView>) -> Seq<StagedView>
    decreases extra.len(),
{
    if extra.len() == 0 {
        Seq::empty()
    } else {
        let dir = extra.last();
        extra_links(copied, extra.drop_last()) + (match link_into(copied, dir) {
            Some(link) => seq![link],
            None => Seq::empty(),
        })
    }
}

/// The predicate "cannot be staged".
pub open spec fn is_unplaceable(copied: Seq<StagedView>) -> spec_fn(StagedView) -> bool {
    |dir: StagedView| !is_placeable(copied, dir)
}

/// Why the project cannot be staged: the path under which it is mounted
/// is not absolute, or else the place of the first further directory that
/// cannot be staged is not.
pub open spec fn staging_failure(
    dirs: &Directories,
    facts: &Facts,
    mount_volumes: bool,
    extra: Seq<StagedView>,
) -> ErrorView {
    if project_place(dirs, mount_volumes) is None {
        ErrorView::NotAbsolute(dirs.mount_root@)
    } else {
        let copied = copied_places(project_place(dirs, mount_volumes)->0, dirs, facts);
        ErrorView::NotAbsolute(extra[first_match(extra, is_unplaceable(copied))].dst)
    }
}

/// Stages the project: the project itself, the output directory, and the
/// further directories `extra`, each given with its place in the container.
pub fn stage_project(
    engine: &Engine,
    container: &str,
    dirs: &Directories,
    facts: &Facts,
    mount_volumes: bool,
    extra: &Vec<Staged>,
) -> (made: Result<Staging, Error>)
    ensures
        project_place(dirs, mount_volumes) is Some && all_placeable(
            copied_places(project_place(dirs, mount_volumes)->0, dirs, facts),
            staged_views(extra@),
        ) <==> made is Ok,
        made is Ok ==> ({
            let place = project_place(dirs, mount_volumes)->0;
            let copied = copied_places(place, dirs, facts);
            &&& steps_view(made->Ok_0.steps@) == project_copy(
                engine,
                container@,
                dirs,
                mount_volumes,
                facts.copy_cache,
            ) + target_steps(engine, container@, dirs, facts) + extra_steps(
                engine,
                container@,
                copied,
                staged_views(extra@),
                facts.copy_cache,
            )
            &&& staged_views(made->Ok_0.links@) == target_links(place, dirs, facts) + extra_links(
                copied,
                staged_views(extra@),
            )
            &&& made->Ok_0.target_dir@ == target_place(place, dirs, facts)
        }),
        made is Err ==> made->Err_0@ == staging_failure(
            dirs,
            facts,
            mount_volumes,
            staged_views(extra@),
        ),
{
    let mut steps: Vec<Step> = Vec::new();
    assert(steps_view(steps@) =~= Seq::empty());
    let place = if mount_volumes {
        let rel = match components_below_root(dirs.mount_root.as_str()) {
            Ok(rel) => rel,
            Err(e) => {
                return Err(e);
            },
        };
        let (made, place) = mirror(engine, container, dirs.host_root.as_str(), &rel, facts.copy_cache);
        append_steps(&mut steps, made);
        place
    } else {
        let place = push_path(MOUNT_PREFIX, "project");
        push_step(
            &mut steps,
            copy_tree(engine, container, dirs.host_root.as_str(), place.as_str(), facts.copy_cache),
        );
        place
    };
    assert(steps_view(steps@) =~= project_copy(
        engine,
        container@,
        dirs,
        mount_volumes,
        facts.copy_cache,
    ));
    let mut copied: Vec<Staged> = Vec::new();
    copied.push(Staged { src: dirs.xargo.clone(), dst: push_path(MOUNT_PREFIX, "xargo") });
    copied.push(Staged { src: dirs.cargo.clone(), dst: push_path(MOUNT_PREFIX, "cargo") });
    copied.push(Staged { src: dirs.sysroot.clone(), dst: push_path(MOUNT_PREFIX, "rust") });
    copied.push(Staged { src: dirs.host_root.clone(), dst: place.clone() });
    let mut links: Vec<Staged> = Vec::new();
    let target_parts = split_components(facts.canonical_target.as_str());
    let root_parts = split_components(dirs.host_root.as_str());
    let ghost first = steps_view(steps@);
    let target_dir = match strip_components(&target_parts, &root_parts) {
        Some(rel) => {
            let dir = join_components(place.as_str(), &rel);
            links.push(Staged { src: dir.clone(), dst: "/target".to_owned() });
            dir
        },
        None => {
            let dir = push_path(MOUNT_PREFIX, "target");
            if facts.copy_cache {
                push_step(
                    &mut steps,
                    Step::Run(
                        crate::docker::remote::copy_volume_files(
                            engine,
                            container,
                            dirs.target.as_str(),
                            dir.as_str(),
                        ),
                    ),
                );
            } else {
                push_step(&mut steps, Step::Run(create_volume_dir(engine, container, dir.as_str())));
            }
            copied.push(Staged { src: dirs.target.clone(), dst: dir.clone() });
            dir
        },
    };
    let ghost table = copied_places(place@, dirs, facts);
    assert(staged_views(copied@) =~= table);
    assert(project_place(dirs, mount_volumes) == Some(place@));
    assert(steps_view(steps@) =~= first + target_steps(engine, container@, dirs, facts));
    assert(staged_views(links@) =~= target_links(place@, dirs, facts));
    let ghost head = steps_view(steps@);
    let ghost linked = staged_views(links@);
    let ghost all = staged_views(extra@);
    let mut i: usize = 0;
    assert(all.take(0) =~= Seq::empty());
    assert(head + Seq::<StepView>::empty() =~= head);
    assert(linked + Seq::<StagedView>::empty() =~= linked);
    while i < extra.len()
        invariant
            i <= extra.len(),
            all == staged_views(extra@),
            table == staged_views(copied@),
            project_place(dirs, mount_volumes) == Some(place@),
            table == copied_places(place@, dirs, facts),
            all_placeable(table, all.take(i as int)),
            steps_view(steps@) == head + extra_steps(
                engine,
                container@,
                table,
                all.take(i as int),
                facts.copy_cache,
            ),
            staged_views(links@) == linked + extra_links(table, all.take(i as int)),
        decreases extra.len() - i,
    {
        let dir = &extra[i];
        assert(all[i as int] == dir@);
        let ghost steps_before = steps_view(steps@);
        let ghost links_before = staged_views(links@);
        match find_copied(&copied, dir) {
            Some(link) => {
                links.push(link);
                assert(staged_views(links@) =~= links_before + seq![link@]);
            },
            None => {
                let rel = match components_below_root(dir.dst.as_str()) {
                    Ok(rel) => rel,
                    Err(e) => {
                        proof {
                            assert(!is_placeable(table, all[i as int]));
                            assert forall|j: int| 0 <= j < i implies !is_unplaceable(table)(
                                #[trigger] all[j],
                            ) by {
                                assert(all.take(i as int)[j] == all[j]);
                            }
                            lemma_first_match_is(all, is_unplaceable(table), i as int);
                        }
                        return Err(e);
                    },
                };
                let (made, _) = mirror(engine, container, dir.src.as_str(), &rel, facts.copy_cache);
                append_steps(&mut steps, made);
                assert(links_before + Seq::<StagedView>::empty() =~= links_before);
            },
        }
        i += 1;
        proof {
            assert(all.take(i as int).drop_last() =~= all.take(i - 1));
            assert(all.take(i as int).last() == dir@);
            assert(steps_view(steps@) =~= head + extra_steps(
                engine,
                container@,
                table,
                all.take(i as int),
                facts.copy_cache,
            ));
            assert(staged_views(links@) =~= linked + extra_links(table, all.take(i as int)));
        }
    }
    assert(all.take(extra.len() as int) =~= all);
    assert(steps_view(steps@) =~= project_copy(
        engine,
        container@,
        dirs,
        mount_volumes,
        facts.copy_cache,
    ) + target_steps(engine, container@, dirs, facts) + extra_steps(
        engine,
        container@,
        table,
        all,
        facts.copy_cache,
    ));
    Ok(Staging { steps, links, target_dir })
}

/// The option that gives the container a terminal, where this process has
/// one throughout.
pub open spec fn terminal_args(build: &Build) -> Seq<Seq<char>> {
    if build.stdin_tty && build.stdout_tty && build.stderr_tty {
        seq!["-t"@]
    } else {
        Seq::empty()
    }
}

/// The options of the container that holds the volume, behind the option
/// that names the volume: the environment, the places of the extra
/// directories, the system call filter, the user, an empty directory over
/// cargo's programs, detachment, a terminal where this process has one
/// throughout, the image, and a program that never ends.
pub open spec fn start_options(engine: &Engine, build: &Build) -> Seq<Seq<char>> {
    bare(""@).args(env_args(strs(build.passthrough@), opt_str(build.runner), &build.env)).args(
        volume_args(build.volumes@, false) + dependency_args(build.deps@, false),
    ).args(
        seccomp_args(
            engine.kind,
            build.needs_seccomp,
            build.seccomp_unreadable,
            build.seccomp_profile@,
        ),
    ).args(user_args(engine.kind, build.env.uid@, build.env.gid@)).arg("-v"@).arg("/cross/cargo/bin"@).arg("-d"@).args(terminal_args(build)).arg(
        build.image@,
    ).arg("sh"@).arg("-c"@).arg("sleep infinity"@).args
}

/// The command that starts the container that holds `volume`.
pub open spec fn start_cmd(
    engine: &Engine,
    container: Seq<char>,
    volume: Seq<char>,
    options: Seq<Seq<char>>,
) -> CommandView {
    engine_command(engine).arg("run"@).arg("--userns"@).arg("host"@).arg("--name"@).arg(
        container,
    ).arg("-v"@).arg(volume + ":"@ + MOUNT_PREFIX@).args(options)
}

/// The options of the container that holds the volume, whether the
/// project is mounted under its own path, and the extra directories with
/// their places.
pub fn start_settings(engine: &Engine, build: &Build) -> (made: Result<
    (Vec<String>, bool, Vec<Staged>),
    Error,
>)
    ensures
        all_allowed(strs(build.passthrough@)) && extra_opts(&build.env) is Some <==> made is Ok,
        made is Err ==> made->Err_0@ == env_failure(strs(build.passthrough@), &build.env),
        made is Ok ==> strs(made->Ok_0.0@) == start_options(engine, build) && made->Ok_0.1
            == mounts_volumes(
            build.workspace_root@,
            build.cwd@,
            build.volumes@.len(),
            build.deps@.len(),
        ) && staged_views(made->Ok_0.2@) == volume_places(build.volumes@) + dependency_places(
            build.deps@,
        ),
{
    let mut docker = Command::new("");
    let runner = match &build.runner {
        Some(r) => Some(r.as_str()),
        None => None,
    };
    match docker_envvars(&mut docker, &build.passthrough, runner, &build.env) {
        Ok(()) => {},
        Err(e) => {
            return Err(e);
        },
    }
    let mut store: Vec<Staged> = Vec::new();
    assert(staged_views(store@) =~= Seq::empty());
    let mount_volumes = docker_mount(
        &mut docker,
        build.workspace_root.as_str(),
        build.cwd.as_str(),
        &build.volumes,
        &build.deps,
        false,
        &mut store,
    );
    assert(staged_views(store@) =~= volume_places(build.volumes@) + dependency_places(
        build.deps@,
    ));
    docker_seccomp(
        &mut docker,
        engine.kind,
        build.needs_seccomp,
        build.seccomp_unreadable,
        build.seccomp_profile.as_str(),
    );
    docker_user_id(&mut docker, engine.kind, build.env.uid.as_str(), build.env.gid.as_str());
    docker.arg2("-v", "/cross/cargo/bin");
    docker.arg("-d");
    let ghost before = docker@;
    if build.stdin_tty && build.stdout_tty && build.stderr_tty {
        docker.arg("-t");
    }
    assert(docker@.args =~= before.args(terminal_args(build)).args);
    docker.arg(build.image.as_str());
    docker.arg2("sh", "-c");
    docker.arg("sleep infinity");
    Ok((docker.args, mount_volumes, store))
}

/// The command that makes the staged data appear where the build expects
/// it.
pub open spec fn symlink_cmd(engine: &Engine, container: Seq<char>, script: Seq<char>) -> CommandView {
    engine_command(engine).arg("exec"@).arg(container).arg("sh"@).arg("-c"@).arg(script)
}

/// The command that runs the build inside the container, in the
/// directory that stands for the current one.
pub open spec fn exec_cmd(
    engine: &Engine,
    container: Seq<char>,
    build: &Build,
    working_dir: Seq<char>,
) -> CommandView {
    engine_command(engine).arg("exec"@).arg("-w"@).arg(working_dir).arg(container).arg("sh"@).arg(
        "-c"@,
    ).arg(build_script(build.uses_xargo, strs(build.args@)))
}

/// The command that copies the output directory from the volume back to
/// where it belongs on this machine.
pub open spec fn copy_back_cmd(
    engine: &Engine,
    container: Seq<char>,
    target_dir: Seq<char>,
    above_target: Seq<char>,
) -> CommandView {
    engine_command(engine).arg("cp"@).arg("-a"@).arg(container + ":"@ + target_dir).arg(
        above_target,
    )
}

/// What a remote build sends to the engine.
#[derive(Debug, Clone, PartialEq, Eq)]
pub struct Plan {
    /// The options of the container's start, behind the volume.
    pub options: Vec<String>,
    /// The steps that copy the toolchain into a new volume.
    pub toolchain: Vec<Step>,
    /// The steps that copy the project.
    pub project: Vec<Step>,
    /// The command that links the copied data.
    pub symlink: Command,
    /// The command that runs the build.
    pub build: Command,
    /// The command that copies the results back.
    pub copy_back: Command,
}

/// Whether a remote build can be planned.
pub open spec fn is_plannable(build: &Build, dirs: &Directories, facts: &Facts) -> bool {
    let mount_volumes = mounts_volumes(
        build.workspace_root@,
        build.cwd@,
        build.volumes@.len(),
        build.deps@.len(),
    );
    &&& all_allowed(strs(build.passthrough@))
    &&& extra_opts(&build.env) is Some
    &&& parent(trim(facts.libdir@)) is Some
    &&& project_place(dirs, mount_volumes) is Some
    &&& all_placeable(
        copied_places(project_place(dirs, mount_volumes)->0, dirs, facts),
        extra_places(build, dirs),
    )
    &&& container_cwd(build.workspace_root@, dirs.mount_cwd@, build.cwd@, mount_volumes) is Some
    &&& parent(dirs.target@) is Some
}

/// The further directories of a build, each with its place in the
/// container: those that variables ask for, the dependencies outside the
/// workspace, and the Nix store.
pub open spec fn extra_places(build: &Build, dirs: &Directories) -> Seq<StagedView> {
    volume_places(build.volumes@) + dependency_places(build.deps@) + (match dirs.nix_store {
        Some(store) => seq![StagedView { src: store@, dst: store@ }],
        None => Seq::empty(),
    })
}

/// Why a remote build cannot be planned: the first of what stands in its
/// way.
pub open spec fn plan_failure(build: &Build, dirs: &Directories, facts: &Facts) -> ErrorView {
    let mount_volumes = mounts_volumes(
        build.workspace_root@,
        build.cwd@,
        build.volumes@.len(),
        build.deps@.len(),
    );
    if !(all_allowed(strs(build.passthrough@)) && extra_opts(&build.env) is Some) {
        env_failure(strs(build.passthrough@), &build.env)
    } else if parent(trim(facts.libdir@)) is None {
        ErrorView::NoParent(trim(facts.libdir@))
    } else if !(project_place(dirs, mount_volumes) is Some && all_placeable(
        copied_places(project_place(dirs, mount_volumes)->0, dirs, facts),
        extra_places(build, dirs),
    )) {
        staging_failure(dirs, facts, mount_volumes, extra_places(build, dirs))
    } else if container_cwd(build.workspace_root@, dirs.mount_cwd@, build.cwd@, mount_volumes)
        is None {
        ErrorView::OutsideWorkspace
    } else {
        ErrorView::NoParent(dirs.target@)
    }
}

/// Whether `plan` is the plan of the build.
pub open spec fn is_plan_of(
    plan: &Plan,
    engine: &Engine,
    container: Seq<char>,
    build: &Build,
    dirs: &Directories,
    facts: &Facts,
) -> bool {
    let mount_volumes = mounts_volumes(
        build.workspace_root@,
        build.cwd@,
        build.volumes@.len(),
        build.deps@.len(),
    );
    let place = project_place(dirs, mount_volumes)->0;
    let copied = copied_places(place, dirs, facts);
    let extra = extra_places(build, dirs);
    &&& strs(plan.options@) == start_options(engine, build)
    &&& steps_view(plan.toolchain@) == toolchain_steps(
        engine,
        container,
        build.triple@,
        dirs,
        facts,
    )
    &&& steps_view(plan.project@) == project_copy(
        engine,
        container,
        dirs,
        mount_volumes,
        facts.copy_cache,
    ) + target_steps(engine, container, dirs, facts) + extra_steps(
        engine,
        container,
        copied,
        extra,
        facts.copy_cache,
    )
    &&& plan.symlink@ == symlink_cmd(
        engine,
        container,
        join_with(
            symlink_lines(
                build.verbose,
                build.env.uid@,
                build.env.gid@,
                target_links(place, dirs, facts) + extra_links(copied, extra),
            ),
            "\n"@,
        ),
    )
    &&& plan.build@ == exec_cmd(
        engine,
        container,
        build,
        container_cwd(build.workspace_root@, dirs.mount_cwd@, build.cwd@, mount_volumes)->0,
    )
    &&& plan.copy_back@ == copy_back_cmd(
        engine,
        container,
        target_place(place, dirs, facts),
        parent(dirs.target@)->0,
    )
}

/// Plans a remote build.
pub fn plan_remote(
    engine: &Engine,
    container: &str,
    build: &Build,
    dirs: &Directories,
    facts: &Facts,
) -> (made: Result<Plan, Error>)
    ensures
        is_plannable(build, dirs, facts) <==> made is Ok,
        made is Ok ==> is_plan_of(&made->Ok_0, engine, container@, build, dirs, facts),
        made is Err ==> made->Err_0@ == plan_failure(build, dirs, facts),
{
    let (options, mount_volumes, mut extra) = match start_settings(engine, build) {
        Ok(made) => made,
        Err(e) => {
            return Err(e);
        },
    };
    let toolchain = match stage_toolchain(engine, container, build.triple.as_str(), dirs, facts) {
        Ok(steps) => steps,
        Err(e) => {
            return Err(e);
        },
    };
    match &dirs.nix_store {
        Some(store) => {
            let ghost before = staged_views(extra@);
            extra.push(Staged { src: store.clone(), dst: store.clone() });
            assert(staged_views(extra@) =~= before + seq![StagedView { src: store@, dst: store@ }]);
        },
        None => {
            assert(staged_views(extra@) + Seq::<StagedView>::empty() =~= staged_views(extra@));
        },
    }
    assert(staged_views(extra@) == extra_places(build, dirs));
    let staging = match stage_project(engine, container, dirs, facts, mount_volumes, &extra) {
        Ok(staging) => staging,
        Err(e) => {
            return Err(e);
        },
    };
    let script = symlink_script(
        build.verbose,
        build.env.uid.as_str(),
        build.env.gid.as_str(),
        &staging.links,
    );
    let mut symlink = docker_subcommand(engine, "exec");
    symlink.arg(container);
    symlink.arg2("sh", "-c");
    symlink.arg(script.as_str());
    let mut run = docker_subcommand(engine, "exec");
    match docker_cwd(
        &mut run,
        build.workspace_root.as_str(),
        dirs.mount_cwd.as_str(),
        build.cwd.as_str(),
        mount_volumes,
    ) {
        Ok(()) => {},
        Err(e) => {
            return Err(e);
        },
    }
    run.arg(container);
    run.arg2("sh", "-c");
    run.arg(build_line(build.uses_xargo, &build.args).as_str());
    let above = match parent_of(dirs.target.as_str()) {
        Some(dir) => dir,
        None => {
            return Err(Error::NoParent(dirs.target.clone()));
        },
    };
    let mut copy_back = docker_subcommand(engine, "cp");
    copy_back.arg("-a");
    copy_back.arg(concat3(container, ":", staging.target_dir.as_str()).as_str());
    copy_back.arg(above.as_str());
    Ok(
        Plan {
            options,
            toolchain,
            project: staging.steps,
            symlink,
            build: run,
            copy_back,
        },
    )
}

/// What the caller is to do next.
#[derive(Debug, PartialEq, Eq)]
pub enum Action {
    /// Perform the step and hand back its outcome.
    Do(Step),
    /// Nothing is left to do: this is how the run ended. An exit status is
    /// that of the build; an error says why the build did not run to its
    /// end.
    Finish(Result<i32, Error>),
}

/// A copy of the command.
pub fn clone_command(cmd: &Command) -> (out: Command)
    ensures
        out@ == cmd@,
{
    Command { program: cmd.program.clone(), args: clone_strings(&cmd.args) }
}

/// A copy of the step.
pub fn clone_step(step: &Step) -> (out: Step)
    ensures
        out@ == step@,
{
    match step {
        Step::Run(cmd) => Step::Run(clone_command(cmd)),
        Step::CopyClean { src, dst } => Step::CopyClean { src: src.clone(), dst: dst.clone() },
        Step::CopyLibs { lib, rustlib, dst } => Step::CopyLibs {
            lib: lib.clone(),
            rustlib: rustlib.clone(),
            dst: dst.clone(),
        },
    }
}

/// Whether `r` tells how the run ended: the build's exit status, or the
/// error that stands for the failure. `stale` is the state name that was
/// not understood, where that was the failure.
pub open spec fn tells(r: Result<i32, Error>, verdict: Verdict, stale: Seq<char>) -> bool {
    match verdict {
        Verdict::Exit(code) => r == Ok::<i32, Error>(code),
        Verdict::Failed(Failure::ExecutionFailed) => r == Err::<i32, Error>(Error::ExecutionFailed),
        Verdict::Failed(Failure::SymlinkCollision) => r == Err::<i32, Error>(
            Error::SymlinkCollision,
        ),
        Verdict::Failed(Failure::UnknownContainerState) => (r matches Err(
            Error::UnknownContainerState(name),
        ) && name@ == stale),
    }
}

/// One remote build: what it sends to the engine, and where it stands.
#[derive(Debug, Clone, PartialEq, Eq)]
pub struct RemoteRun {
    pub engine: Engine,
    /// The name of the container, and of the volume where it is discarded.
    pub container: String,
    pub plan: Plan,
    pub state: State,
    /// The state name that was not understood, where one was not.
    pub stale: String,
}

impl RemoteRun {
    /// The run is in a state that a run can reach, and counts the steps of
    /// its plan.
    pub open spec fn wf(&self) -> bool {
        &&& inv(self.state)
        &&& self.state.toolchain_steps == self.plan.toolchain@.len()
        &&& self.state.project_steps == self.plan.project@.len()
    }

    /// The step that is pending, in every phase but the last.
    pub open spec fn pending(&self) -> StepView {
        let engine = &self.engine;
        let container = self.container@;
        match self.state.phase {
            Phase::ProbeKeep => StepView::Run(volume_exists_cmd(engine, keep_name(container))),
            Phase::ProbeContainer => StepView::Run(container_state_cmd(engine, container)),
            Phase::StopStale => StepView::Run(container_stop_cmd(engine, container)),
            Phase::RemoveStale => StepView::Run(container_rm_cmd(engine, container)),
            Phase::ProbeVolume => StepView::Run(volume_exists_cmd(engine, container)),
            Phase::RemoveStaleVolume => StepView::Run(volume_rm_cmd(engine, container)),
            Phase::CreateVolume => StepView::Run(volume_create_cmd(engine, container)),
            Phase::StartContainer => StepView::Run(
                start_cmd(
                    engine,
                    container,
                    volume_name(container, self.state.discard),
                    strs(self.plan.options@),
                ),
            ),
            Phase::Toolchain(i) => self.plan.toolchain@[i as int]@,
            Phase::Project(i) => self.plan.project@[i as int]@,
            Phase::Symlink => StepView::Run(self.plan.symlink@),
            Phase::Build => StepView::Run(self.plan.build@),
            Phase::CopyBack => StepView::Run(self.plan.copy_back@),
            Phase::ReleaseStop => StepView::Run(container_stop_cmd(engine, container)),
            Phase::ReleaseRemove => StepView::Run(container_rm_cmd(engine, container)),
            Phase::ReleaseVolume => StepView::Run(volume_rm_cmd(engine, container)),
            Phase::Done => StepView::Run(bare(Seq::empty())),
        }
    }

    /// A run of `plan` that has not begun.
    pub fn new(engine: Engine, container: String, plan: Plan) -> (run: RemoteRun)
        ensures
            run.wf(),
            run.engine == engine,
            run.container == container,
            run.plan == plan,
            run.state == initial(plan.toolchain.len(), plan.project.len()),
    {
        let state = State {
            phase: Phase::ProbeKeep,
            discard: false,
            container_live: false,
            volume_live: false,
            result: None,
            toolchain_steps: plan.toolchain.len(),
            project_steps: plan.project.len(),
        };
        RemoteRun { engine, container, plan, state, stale: String::new() }
    }

    /// Whether nothing is left to do.
    pub fn is_done(&self) -> (done: bool)
        ensures
            done == (self.state.phase == Phase::Done),
    {
        matches!(self.state.phase, Phase::Done)
    }

    /// Whether the run is in a state that a run can reach, and counts the
    /// steps of its plan.
    pub fn is_consistent(&self) -> (ok: bool)
        ensures
            ok == self.wf(),
    {
        crate::docker::lifecycle::check(self.state) && self.state.toolchain_steps
            == self.plan.toolchain.len() && self.state.project_steps == self.plan.project.len()
    }

    /// What the caller is to do next: the pending step, or nothing more
    /// once the run is done.
    pub fn action(&self) -> (out: Action)
        requires
            self.wf(),
        ensures
            self.state.phase != Phase::Done ==> (out matches Action::Do(step) && step@
                == self.pending()),
            self.state.phase == Phase::Done ==> (out matches Action::Finish(r) && tells(
                r,
                self.state.result->0,
                self.stale@,
            )),
    {
        let engine = &self.engine;
        let container = self.container.as_str();
        match self.state.phase {
            Phase::ProbeKeep => Action::Do(
                Step::Run(volume_exists(engine, concat(container, "-keep").as_str())),
            ),
            Phase::ProbeContainer => Action::Do(Step::Run(container_state(engine, container))),
            Phase::StopStale => Action::Do(Step::Run(container_stop(engine, container))),
            Phase::RemoveStale => Action::Do(Step::Run(container_rm(engine, container))),
            Phase::ProbeVolume => Action::Do(Step::Run(volume_exists(engine, container))),
            Phase::RemoveStaleVolume => Action::Do(Step::Run(volume_rm(engine, container))),
            Phase::CreateVolume => Action::Do(Step::Run(volume_create(engine, container))),
            Phase::StartContainer => {
                let volume = if self.state.discard {
                    container.to_owned()
                } else {
                    concat(container, "-keep")
                };
                let mut cmd = docker_subcommand(engine, "run");
                cmd.arg2("--userns", "host");
                cmd.arg2("--name", container);
                cmd.arg2("-v", concat3(volume.as_str(), ":", MOUNT_PREFIX).as_str());
                cmd.args(&self.plan.options);
                Action::Do(Step::Run(cmd))
            },
            Phase::Toolchain(i) => Action::Do(clone_step(&self.plan.toolchain[i])),
            Phase::Project(i) => Action::Do(clone_step(&self.plan.project[i])),
            Phase::Symlink => Action::Do(Step::Run(clone_command(&self.plan.symlink))),
            Phase::Build => Action::Do(Step::Run(clone_command(&self.plan.build))),
            Phase::CopyBack => Action::Do(Step::Run(clone_command(&self.plan.copy_back))),
            Phase::ReleaseStop => Action::Do(Step::Run(container_stop(engine, container))),
            Phase::ReleaseRemove => Action::Do(Step::Run(container_rm(engine, container))),
            Phase::ReleaseVolume => Action::Do(Step::Run(volume_rm(engine, container))),
            Phase::Done => {
                let result = match self.state.result {
                    Some(Verdict::Exit(code)) => Ok(code),
                    Some(Verdict::Failed(Failure::UnknownContainerState)) => Err(
                        Error::UnknownContainerState(self.stale.clone()),
                    ),
                    Some(Verdict::Failed(Failure::SymlinkCollision)) => Err(
                        Error::SymlinkCollision,
                    ),
                    _ => Err(Error::ExecutionFailed),
                };
                Action::Finish(result)
            },
        }
    }

    /// Takes in the outcome of the pending step and moves on.
    pub fn step(&mut self, outcome: &Outcome)
        requires
            old(self).wf(),
        ensures
            final(self).wf(),
            final(self).state == next(old(self).state, outcome@),
            final(self).engine == old(self).engine,
            final(self).container == old(self).container,
            final(self).plan == old(self).plan,
            final(self).stale@ == (if old(self).state.phase == Phase::ProbeContainer {
                trim(outcome.stdout@)
            } else {
                old(self).stale@
            }),
    {
        if matches!(self.state.phase, Phase::ProbeContainer) {
            self.stale = trimmed(outcome.stdout.as_str());
        }
        proof {
            crate::docker::lifecycle::lemma_next_keeps_inv(self.state, outcome@);
        }
        self.state = advance(self.state, outcome);
    }
}

/// A remote build that has not begun: the data is copied into a volume,
/// the build runs in a container that holds the volume, and the results
/// are copied back. The caller performs one action after another until the
/// run is done.
pub fn remote_run(
    engine: Engine,
    container: String,
    build: &Build,
    dirs: &Directories,
    facts: &Facts,
) -> (made: Result<RemoteRun, Error>)
    ensures
        is_plannable(build, dirs, facts) <==> made is Ok,
        made is Err ==> made->Err_0@ == plan_failure(build, dirs, facts),
        made is Ok ==> ({
            let run = made->Ok_0;
            &&& run.wf()
            &&& run.engine == engine
            &&& run.container == container
            &&& is_plan_of(&run.plan, &engine, container@, build, dirs, facts)
            &&& run.state == initial(run.plan.toolchain.len(), run.plan.project.len())
        }),
{
    let plan = match plan_remote(&engine, container.as_str(), build, dirs, facts) {
        Ok(plan) => plan,
        Err(e) => {
            return Err(e);
        },
    };
    Ok(RemoteRun::new(engine, container, plan))
}

} // verus!
