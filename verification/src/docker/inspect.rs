//! What the engine says about the container that this process runs in, read
//! for the mounts that translate this process's paths.

use crate::command::{bare, Command};
use crate::docker::shared::{MountDetail, MountView, mount_views};
use crate::errors::{Error, ErrorView};
use crate::text::{concat, concat3, decimal, decimal_string, str_eq};
use vstd::prelude::*;

verus! {

/// Trusted: a JSON value of `serde_json`, an opaque value.
#[verifier::external_type_specification]
#[verifier::external_body]
pub struct ExValue(serde_json::Value);

/// The strings in a JSON value: each JSON pointer that addresses a string
/// in it, with that string.
pub uninterp spec fn json_strings(doc: serde_json::Value) -> Map<Seq<char>, Seq<char>>;

/// The arrays in a JSON value: each JSON pointer that addresses an array in
/// it, with the number of the array's elements.
pub uninterp spec fn json_arrays(doc: serde_json::Value) -> Map<Seq<char>, nat>;

/// Trusted: calls `serde_json::Value::pointer` and, on what it finds,
/// `Value::as_str`. The string is handed out exactly where the pointer
/// addresses a string of the value.
#[verifier::external_body]
fn string_at(doc: &serde_json::Value, pointer: &str) -> (found: Option<String>)
    ensures
        found is Some <==> json_strings(*doc).contains_key(pointer@),
        found is Some ==> found->0@ == json_strings(*doc)[pointer@],
{
    Some(doc.pointer(pointer)?.as_str()?.to_owned())
}

/// Trusted: calls `serde_json::Value::pointer` and, on what it finds,
/// `Value::as_array`. The length is handed out exactly where the pointer
/// addresses an array of the value.
#[verifier::external_body]
fn array_len_at(doc: &serde_json::Value, pointer: &str) -> (found: Option<usize>)
    ensures
        found is Some <==> json_arrays(*doc).contains_key(pointer@),
        found is Some ==> found->0 == json_arrays(*doc)[pointer@],
{
    Some(doc.pointer(pointer)?.as_array()?.len())
}

/// The command that asks the engine about the container named `hostname`.
pub fn inspect_command(docker: &str, hostname: &str) -> (cmd: Command)
    ensures
        cmd@ == bare(docker@).arg("inspect"@).arg(hostname@),
{
    let mut cmd = Command::new(docker);
    cmd.arg("inspect");
    cmd.arg(hostname);
    cmd
}

/// The mount of the container's root, as far as `info` names it: the
/// merged directory of the storage driver overlay2. Nothing where a name is
/// missing.
pub open spec fn root_mount(info: serde_json::Value) -> Option<MountView> {
    let strings = json_strings(info);
    if strings.contains_key("/0/GraphDriver/Name"@) && strings["/0/GraphDriver/Name"@]
        == "overlay2"@ && strings.contains_key("/0/GraphDriver/Data/MergedDir"@) {
        Some(
            MountView { source: strings["/0/GraphDriver/Data/MergedDir"@], destination: "/"@ },
        )
    } else {
        None
    }
}

/// Why `info` names no mount of the root: its storage driver is another
/// than overlay2, or a name is missing.
pub open spec fn root_failure(info: serde_json::Value) -> ErrorView {
    let strings = json_strings(info);
    if strings.contains_key("/0/GraphDriver/Name"@) && strings["/0/GraphDriver/Name"@]
        != "overlay2"@ {
        ErrorView::UnsupportedStorageDriver(strings["/0/GraphDriver/Name"@])
    } else {
        ErrorView::MountTranslationFailure
    }
}

/// The mount of the container's root. A storage driver other than
/// overlay2 is not supported; a missing name makes the output malformed.
pub fn dockerinfo_parse_root_mount_path(info: &serde_json::Value) -> (made: Result<
    MountDetail,
    Error,
>)
    ensures
        root_mount(*info) is Some <==> made is Ok,
        made is Ok ==> made->Ok_0@ == root_mount(*info)->0,
        made is Err ==> made->Err_0@ == root_failure(*info),
{
    let driver = match string_at(info, "/0/GraphDriver/Name") {
        Some(name) => name,
        None => {
            return Err(Error::MountTranslationFailure);
        },
    };
    if str_eq(driver.as_str(), "overlay2") {
        match string_at(info, "/0/GraphDriver/Data/MergedDir") {
            Some(path) => Ok(MountDetail { source: path, destination: "/".to_owned() }),
            None => Err(Error::MountTranslationFailure),
        }
    } else {
        Err(Error::UnsupportedStorageDriver(driver))
    }
}

/// The pointer to a member of the mount with the index `i`.
pub open spec fn mount_pointer(i: nat, member: Seq<char>) -> Seq<char> {
    "/0/Mounts/"@ + decimal(i) + "/"@ + member
}

/// Whether `info` names source and destination of the mount with the
/// index `i`.
pub open spec fn names_mount(info: serde_json::Value, i: nat) -> bool {
    json_strings(info).contains_key(mount_pointer(i, "Source"@)) && json_strings(
        info,
    ).contains_key(mount_pointer(i, "Destination"@))
}

/// Whether `info` names source and destination of its first `n` mounts.
pub open spec fn names_mounts(info: serde_json::Value, n: nat) -> bool {
    forall|i: nat| i < n ==> #[trigger] names_mount(info, i)
}

/// The first `n` mounts that `info` lists.
pub open spec fn user_mounts(info: serde_json::Value, n: nat) -> Seq<MountView> {
    Seq::new(n, |i: int| user_mount(info, i as nat))
}

/// The mount with the index `i`.
pub open spec fn user_mount(info: serde_json::Value, i: nat) -> MountView {
    MountView {
        source: json_strings(info)[mount_pointer(i, "Source"@)],
        destination: json_strings(info)[mount_pointer(i, "Destination"@)],
    }
}

/// The number of mounts that `info` lists: none where it has no list.
pub open spec fn mount_count(info: serde_json::Value) -> nat {
    if json_arrays(info).contains_key("/0/Mounts"@) {
        json_arrays(info)["/0/Mounts"@]
    } else {
        0
    }
}

/// The mounts that `info` lists, in order: none where it has no list. A
/// mount without source or destination makes the output malformed.
pub fn dockerinfo_parse_user_mounts(info: &serde_json::Value) -> (made: Result<
    Vec<MountDetail>,
    Error,
>)
    ensures
        names_mounts(*info, mount_count(*info)) <==> made is Ok,
        made is Ok ==> mount_views(made->Ok_0@) == user_mounts(*info, mount_count(*info)),
        made is Err ==> made->Err_0 == Error::MountTranslationFailure,
{
    let mut mounts: Vec<MountDetail> = Vec::new();
    let count = match array_len_at(info, "/0/Mounts") {
        Some(n) => n,
        None => 0,
    };
    let mut i: usize = 0;
    while i < count
        invariant
            i <= count,
            count == mount_count(*info),
            names_mounts(*info, i as nat),
            mount_views(mounts@) == user_mounts(*info, i as nat),
        decreases count - i,
    {
        let index = decimal_string(i as u64);
        let at = concat3("/0/Mounts/", index.as_str(), "/");
        let source_at = concat(at.as_str(), "Source");
        let destination_at = concat(at.as_str(), "Destination");
        assert(source_at@ == mount_pointer(i as nat, "Source"@));
        assert(destination_at@ == mount_pointer(i as nat, "Destination"@));
        let source = string_at(info, source_at.as_str());
        let destination = string_at(info, destination_at.as_str());
        match (source, destination) {
            (Some(source), Some(destination)) => {
                let ghost before = mount_views(mounts@);
                let mount = MountDetail { source, destination };
                assert(mount@ == user_mount(*info, i as nat));
                assert(names_mount(*info, i as nat));
                mounts.push(mount);
                i += 1;
                assert(mount_views(mounts@) =~= before.push(user_mount(*info, (i - 1) as nat)));
                assert(mount_views(mounts@) =~= user_mounts(*info, i as nat));
            },
            _ => {
                assert(!names_mount(*info, i as nat));
                return Err(Error::MountTranslationFailure);
            },
        }
    }
    Ok(mounts)
}

/// The mount table of the container that this process runs in: the
/// mounts that `info` lists, then the mount of the root.
pub fn dockerinfo_parse_mounts(info: &serde_json::Value) -> (made: Result<Vec<MountDetail>, Error>)
    ensures
        names_mounts(*info, mount_count(*info)) && root_mount(*info) is Some <==> made is Ok,
        made is Ok ==> mount_views(made->Ok_0@) == user_mounts(*info, mount_count(*info)).push(
            root_mount(*info)->0,
        ),
        made is Err ==> made->Err_0@ == (if names_mounts(*info, mount_count(*info)) {
            root_failure(*info)
        } else {
            ErrorView::MountTranslationFailure
        }),
{
    let mut mounts = match dockerinfo_parse_user_mounts(info) {
        Ok(mounts) => mounts,
        Err(e) => {
            return Err(e);
        },
    };
    let root = match dockerinfo_parse_root_mount_path(info) {
        Ok(root) => root,
        Err(e) => {
            return Err(e);
        },
    };
    let ghost before = mount_views(mounts@);
    mounts.push(root);
    assert(mount_views(mounts@) =~= before.push(root_mount(*info)->0));
    Ok(mounts)
}

} // verus!
