//! The command line of the build tool, as far as it is read here.

use crate::cargo::{is_builtin, named_subcommand, Subcommand, SubcommandView};
use crate::errors::{Error, ErrorView};
use crate::path::{is_absolute, push_component, push_path};
use crate::target::{target_of, Target, TargetList, TargetView};
use crate::text::{
    first_match, opt_ref, after_first, before_first, chars_of, concat3, first_word, first_word_of, is_char, lemma_strs_push,
    lines, lines_of, opt_str, push_all, push_str, split_at_first, starts_with, str_eq,
    str_starts_with, strs,
};
use vstd::prelude::*;

verus! {

/// What was read from the command line.
#[derive(Debug, Clone, PartialEq, Eq)]
pub struct Args {
    /// The arguments that are handed on to the build tool.
    pub all: Vec<String>,
    pub subcommand: Option<Subcommand>,
    pub channel: Option<String>,
    /// The targets; nothing for a `--target` that no value follows.
    pub targets: Vec<Option<Target>>,
    pub features: Vec<String>,
    pub target_dir: Option<String>,
    pub manifest_path: Option<String>,
    pub version: bool,
    pub verbose: u8,
    pub quiet: bool,
    pub color: Option<String>,
}

/// Whether the text is cargo's list of installed commands.
pub fn is_subcommand_list(stdout: &str) -> (yes: bool)
    ensures
        yes == "Installed Commands:"@.is_prefix_of(stdout@),
{
    str_starts_with(stdout, "Installed Commands:")
}

/// Whether a line names a command that runs in a container: its first
/// word is one of cargo's own subcommands.
pub open spec fn is_cross_line(line: Seq<char>) -> bool {
    first_word(line) is Some && is_builtin(first_word(line)->0)
}

/// Whether a line names a command that runs on this machine: it has a
/// first word, which is none of cargo's own subcommands.
pub open spec fn is_host_line(line: Seq<char>) -> bool {
    first_word(line) is Some && !is_builtin(first_word(line)->0)
}

/// Those of the lines that name a command that runs in a container.
pub open spec fn cross_lines(all: Seq<Seq<char>>) -> Seq<Seq<char>>
    decreases all.len(),
{
    if all.len() == 0 {
        Seq::empty()
    } else if is_cross_line(all.last()) {
        cross_lines(all.drop_last()).push(all.last())
    } else {
        cross_lines(all.drop_last())
    }
}

/// Those of the lines that name a command that runs on this machine.
pub open spec fn host_lines(all: Seq<Seq<char>>) -> Seq<Seq<char>>
    decreases all.len(),
{
    if all.len() == 0 {
        Seq::empty()
    } else if is_host_line(all.last()) {
        host_lines(all.drop_last()).push(all.last())
    } else {
        host_lines(all.drop_last())
    }
}

/// The lines of cargo's list behind its heading.
pub open spec fn listed(stdout: Seq<char>) -> Seq<Seq<char>> {
    if lines(stdout).len() > 0 {
        lines(stdout).skip(1)
    } else {
        Seq::empty()
    }
}

/// The lines of cargo's list of commands, in two groups: first those that
/// run in a container, then those that run on this machine. The heading
/// and empty lines are in neither.
pub fn group_subcommands(stdout: &str) -> (groups: (Vec<String>, Vec<String>))
    ensures
        strs(groups.0@) == cross_lines(listed(stdout@)),
        strs(groups.1@) == host_lines(listed(stdout@)),
{
    let all = lines_of(stdout);
    let mut cross: Vec<String> = Vec::new();
    let mut host: Vec<String> = Vec::new();
    assert(strs(cross@) =~= Seq::empty());
    assert(strs(host@) =~= Seq::empty());
    if all.len() == 0 {
        return (cross, host);
    }
    let ghost rest = strs(all@).skip(1);
    let mut i: usize = 1;
    assert(rest.take(0) =~= Seq::empty());
    while i < all.len()
        invariant
            1 <= i <= all.len(),
            rest == strs(all@).skip(1),
            strs(cross@) == cross_lines(rest.take(i - 1)),
            strs(host@) == host_lines(rest.take(i - 1)),
        decreases all.len() - i,
    {
        let line = all[i].as_str();
        proof {
            let now = rest.take(i as int);
            assert(now.drop_last() =~= rest.take(i - 1));
            assert(now.last() == line@);
        }
        match first_word_of(line) {
            Some(command) => {
                match Subcommand::from(command.as_str()) {
                    Subcommand::Other(_) => {
                        push_str(&mut host, line);
                    },
                    _ => {
                        push_str(&mut cross, line);
                    },
                }
            },
            None => {},
        }
        i += 1;
    }
    assert(rest.take(all.len() - 1) =~= rest);
    (cross, host)
}

/// A heading before the lines, where there are lines.
pub open spec fn headed(heading: Seq<char>, body: Seq<Seq<char>>) -> Seq<Seq<char>> {
    if body.len() > 0 {
        seq![heading] + body
    } else {
        Seq::empty()
    }
}

/// What is shown of cargo's list of commands: the commands that run in a
/// container under a heading of their own; and, where there are commands
/// that run on this machine, a second heading, under which the commands of
/// the first group are listed once more.
pub fn fmt_subcommands(stdout: &str) -> (shown: Vec<String>)
    ensures
        strs(shown@) == headed("Cross Commands:"@, cross_lines(listed(stdout@))) + (if host_lines(
            listed(stdout@),
        ).len() > 0 {
            seq!["Host Commands:"@] + cross_lines(listed(stdout@))
        } else {
            Seq::empty()
        }),
{
    let (cross, host) = group_subcommands(stdout);
    let mut shown: Vec<String> = Vec::new();
    assert(strs(shown@) =~= Seq::empty());
    if cross.len() > 0 {
        push_str(&mut shown, "Cross Commands:");
        push_all(&mut shown, &cross);
    }
    if host.len() > 0 {
        push_str(&mut shown, "Host Commands:");
        push_all(&mut shown, &cross);
    }
    assert(strs(shown@) =~= headed("Cross Commands:"@, strs(cross@)) + (if strs(host@).len() > 0 {
        seq!["Host Commands:"@] + strs(cross@)
    } else {
        Seq::empty()
    }));
    shown
}

/// Whether an argument is the short form of the verbose flag: a `-` and
/// then one `v` or more.
pub open spec fn is_short_verbose(arg: Seq<char>) -> bool {
    arg.len() >= 2 && arg[0] == '-' && forall|i: int| 1 <= i < arg.len() ==> arg[i] == 'v'
}

/// How verbose an argument asks the build to be: once for the long form,
/// once for each `v` of the short form, but never more than a byte holds;
/// not at all for any other argument.
pub open spec fn verbosity(arg: Seq<char>) -> int {
    if arg == "--verbose"@ {
        1
    } else if is_short_verbose(arg) {
        if arg.len() - 1 > u8::MAX {
            u8::MAX as int
        } else {
            arg.len() - 1
        }
    } else {
        0
    }
}

/// How verbose an argument asks the build to be.
pub fn is_verbose(arg: &str) -> (level: u8)
    ensures
        level == verbosity(arg@),
{
    if str_eq(arg, "--verbose") {
        return 1;
    }
    let chars = chars_of(arg);
    if chars.len() < 2 || chars[0] != '-' {
        return 0;
    }
    let mut i: usize = 1;
    while i < chars.len()
        invariant
            1 <= i <= chars.len(),
            chars@ == arg@,
            arg@ != "--verbose"@,
            forall|j: int| 1 <= j < i ==> chars@[j] == 'v',
        decreases chars.len() - i,
    {
        if chars[i] != 'v' {
            assert(arg@[i as int] != 'v');
            return 0;
        }
        i += 1;
    }
    if chars.len() - 1 > 255 {
        255
    } else {
        (chars.len() - 1) as u8
    }
}

/// How an argument with a value gives the value.
#[derive(Debug, Clone, Copy, PartialEq, Eq, Structural)]
pub enum ArgKind {
    /// The value is the next argument.
    Next,
    /// The value follows a `=` in the same argument.
    Equal,
}

/// How `arg` gives the value of `field`, where it is `field`.
pub open spec fn value_arg(arg: Seq<char>, field: Seq<char>) -> Option<ArgKind> {
    if arg == field {
        Some(ArgKind::Next)
    } else if field.is_prefix_of(arg) && arg.len() > field.len() && arg[field.len() as int] == '=' {
        Some(ArgKind::Equal)
    } else {
        None
    }
}

/// How `arg` gives the value of `field`, where it is `field`.
pub fn is_value_arg(arg: &str, field: &str) -> (kind: Option<ArgKind>)
    ensures
        kind == value_arg(arg@, field@),
{
    if str_eq(arg, field) {
        return Some(ArgKind::Next);
    }
    let a = chars_of(arg);
    let f = chars_of(field);
    if starts_with(&a, &f) && a.len() > f.len() && a[f.len()] == '=' {
        Some(ArgKind::Equal)
    } else {
        None
    }
}

/// What is handed on when an argument takes its value from the argument
/// that follows it: the argument, with `store`, and the value, as `stored`
/// gives it or as it is, where a value follows.
pub open spec fn next_arg_out(
    out: Seq<Seq<char>>,
    arg: Seq<char>,
    next: Option<Seq<char>>,
    stored: Option<Seq<char>>,
    store: bool,
) -> Seq<Seq<char>> {
    let with_arg = if store {
        out.push(arg)
    } else {
        out
    };
    match next {
        Some(n) => with_arg.push(
            match stored {
                Some(s) => s,
                None => n,
            },
        ),
        None => with_arg,
    }
}

/// An argument with a value behind `=`, with another value in its place.
pub open spec fn with_value(arg: Seq<char>, value: Seq<char>) -> Seq<char> {
    before_first(arg, '=') + "="@ + value
}

/// What is handed on when an argument has its value behind `=`: the
/// argument, with the value as `stored` gives it or as it is.
pub open spec fn equal_arg_out(out: Seq<Seq<char>>, arg: Seq<char>, stored: Option<Seq<char>>) -> Seq<
    Seq<char>,
> {
    match after_first(arg, '=') {
        Some(v) => out.push(
            with_value(
                arg,
                match stored {
                    Some(s) => s,
                    None => v,
                },
            ),
        ),
        None => out,
    }
}

/// Takes the value of an argument from the argument that follows it. With
/// `store`, the argument is handed on; the value is handed on as `stored`
/// gives it. Nothing is taken where nothing follows.
pub fn parse_next_arg(
    arg: String,
    out: &mut Vec<String>,
    next: Option<String>,
    stored: Option<String>,
    store: bool,
) -> (value: Option<String>)
    ensures
        value == next,
        strs(final(out)@) == next_arg_out(
            strs(old(out)@),
            arg@,
            opt_str(next),
            opt_str(stored),
            store,
        ),
{
    if store {
        push_str(out, arg.as_str());
    }
    match &next {
        Some(n) => {
            match &stored {
                Some(s) => {
                    push_str(out, s.as_str());
                },
                None => {
                    push_str(out, n.as_str());
                },
            }
        },
        None => {},
    }
    next
}

/// Takes the value of an argument from behind its `=`. The argument is
/// handed on with the value as `stored` gives it, or as it is.
pub fn parse_equal_arg(arg: &str, out: &mut Vec<String>, stored: Option<&str>) -> (value: Option<
    String,
>)
    ensures
        opt_str(value) == after_first(arg@, '='),
        strs(final(out)@) == equal_arg_out(strs(old(out)@), arg@, opt_ref(stored)),
{
    let (first, second) = split_at_first(arg, '=');
    match &second {
        Some(v) => {
            let kept = match stored {
                Some(s) => concat3(first.as_str(), "=", s),
                None => concat3(first.as_str(), "=", v.as_str()),
            };
            push_str(out, kept.as_str());
        },
        None => {},
    }
    second
}

/// A path made absolute: as it is where it begins at the root, else below
/// the current directory.
pub open spec fn absolute(path: Seq<char>, cwd: Seq<char>) -> Seq<char> {
    if is_absolute(path) {
        path
    } else {
        push_component(cwd, path)
    }
}

/// A path made absolute.
pub fn absolute_path(path: &str, cwd: &str) -> (out: String)
    ensures
        out@ == absolute(path@, cwd@),
{
    let c = chars_of(path);
    if c.len() > 0 && c[0] == '/' {
        path.to_owned()
    } else {
        proof {
            reveal_strlit("/");
        }
        push_path(cwd, path)
    }
}

/// The manifest path of the command line, made absolute.
pub fn parse_manifest_path(path: &str, cwd: &str) -> (out: Option<String>)
    ensures
        opt_str(out) == Some(absolute(path@, cwd@)),
{
    Some(absolute_path(path, cwd))
}

/// The output directory of the command line, made absolute.
pub fn parse_target_dir(path: &str, cwd: &str) -> (out: String)
    ensures
        out@ == absolute(path@, cwd@),
{
    absolute_path(path, cwd)
}

/// The argument as it is.
pub fn identity(arg: String) -> (out: String)
    ensures
        out == arg,
{
    arg
}

/// A copy of the argument.
pub fn str_to_owned(arg: &str) -> (out: String)
    ensures
        out@ == arg@,
{
    arg.to_owned()
}

/// The manifest path as the container is given it: a path that does not
/// begin at the root, since the project is mounted elsewhere there.
pub fn store_manifest_path(path: String) -> (out: Result<String, Error>)
    ensures
        !is_absolute(path@) <==> out is Ok,
        out is Ok ==> out->Ok_0 == path,
        out is Err ==> (out->Err_0 matches Error::NotRelative(p) && p == path),
{
    let c = chars_of(path.as_str());
    if c.len() > 0 && c[0] == '/' {
        Err(Error::NotRelative(path))
    } else {
        Ok(path)
    }
}

/// The output directory as the container is given it: always the same
/// place.
pub fn store_target_dir(_path: String) -> (out: String)
    ensures
        out@ == "/target"@,
{
    "/target".to_owned()
}

/// The plain values of `Args`.
pub ghost struct ArgsView {
    pub all: Seq<Seq<char>>,
    pub subcommand: Option<SubcommandView>,
    pub channel: Option<Seq<char>>,
    pub targets: Seq<Option<TargetView>>,
    pub features: Seq<Seq<char>>,
    pub target_dir: Option<Seq<char>>,
    pub manifest_path: Option<Seq<char>>,
    pub version: bool,
    pub verbose: u8,
    pub quiet: bool,
    pub color: Option<Seq<char>>,
}

/// The views of a sequence of optional targets.
pub open spec fn target_views(v: Seq<Option<Target>>) -> Seq<Option<TargetView>> {
    Seq::new(
        v.len(),
        |i: int|
            match v[i] {
                Some(t) => Some(t@),
                None => None,
            },
    )
}

impl View for Args {
    type V = ArgsView;

    open spec fn view(&self) -> ArgsView {
        ArgsView {
            all: strs(self.all@),
            subcommand: match self.subcommand {
                Some(sub) => Some(sub@),
                None => None,
            },
            channel: opt_str(self.channel),
            targets: target_views(self.targets@),
            features: strs(self.features@),
            target_dir: opt_str(self.target_dir),
            manifest_path: opt_str(self.manifest_path),
            version: self.version,
            verbose: self.verbose,
            quiet: self.quiet,
            color: opt_str(self.color),
        }
    }
}

/// What is known before the first argument is read.
pub open spec fn no_args() -> ArgsView {
    ArgsView {
        all: Seq::empty(),
        subcommand: None,
        channel: None,
        targets: Seq::empty(),
        features: Seq::empty(),
        target_dir: None,
        manifest_path: None,
        version: false,
        verbose: 0,
        quiet: false,
        color: None,
    }
}

/// The sum of two levels of verbosity, as far as a byte holds it.
pub open spec fn louder(a: u8, b: int) -> u8 {
    if a + b > u8::MAX {
        u8::MAX
    } else {
        (a + b) as u8
    }
}

/// What reading the argument at the index `i` comes to: what is known
/// then, and the index of the argument that is read next.
///
/// An empty argument is passed over. Behind `--` everything is handed on.
/// The flags for verbosity and quiet are counted and handed on; the flag
/// for the version is taken. An argument with a value gives its value
/// behind `=` or in the argument that follows; the colour and the features
/// are handed on as they are, the manifest and the output directory as the
/// container is to see them. A target is handed on without its flag where
/// the flag stands alone. `+toolchain` names the channel. The first of all
/// other arguments that is no flag names the subcommand.
pub open spec fn read_arg(
    args: Seq<Seq<char>>,
    i: int,
    st: ArgsView,
    cwd: Seq<char>,
    builtin: Seq<Seq<char>>,
) -> Result<(ArgsView, int), ErrorView> {
    let arg = args[i];
    let next = if i + 1 < args.len() {
        Some(args[i + 1])
    } else {
        None
    };
    let after = if next is Some {
        i + 2
    } else {
        i + 1
    };
    if arg.len() == 0 {
        Ok((st, i + 1))
    } else if arg == "--"@ {
        Ok((ArgsView { all: st.all + args.skip(i), ..st }, args.len() as int))
    } else if verbosity(arg) >= 1 {
        Ok(
            (
                ArgsView {
                    verbose: louder(st.verbose, verbosity(arg)),
                    all: st.all.push(arg),
                    ..st
                },
                i + 1,
            ),
        )
    } else if arg == "--version"@ || arg == "-V"@ {
        Ok((ArgsView { version: true, ..st }, i + 1))
    } else if arg == "--quiet"@ || arg == "-q"@ {
        Ok((ArgsView { quiet: true, all: st.all.push(arg), ..st }, i + 1))
    } else if value_arg(arg, "--color"@) is Some {
        match value_arg(arg, "--color"@)->0 {
            ArgKind::Next => match next {
                Some(n) => Ok(
                    (
                        ArgsView {
                            color: next,
                            all: next_arg_out(st.all, arg, next, None, true),
                            ..st
                        },
                        after,
                    ),
                ),
                None => Err(ErrorView::MissingValue(arg)),
            },
            ArgKind::Equal => Ok(
                (
                    ArgsView {
                        color: after_first(arg, '='),
                        all: equal_arg_out(st.all, arg, None),
                        ..st
                    },
                    i + 1,
                ),
            ),
        }
    } else if value_arg(arg, "--manifest-path"@) is Some {
        match value_arg(arg, "--manifest-path"@)->0 {
            ArgKind::Next => match next {
                Some(n) => if is_absolute(n) {
                    Err(ErrorView::NotRelative(n))
                } else {
                    Ok(
                        (
                            ArgsView {
                                manifest_path: Some(absolute(n, cwd)),
                                all: next_arg_out(st.all, arg, next, next, true),
                                ..st
                            },
                            after,
                        ),
                    )
                },
                None => Ok(
                    (
                        ArgsView {
                            manifest_path: None,
                            all: next_arg_out(st.all, arg, None, None, true),
                            ..st
                        },
                        after,
                    ),
                ),
            },
            ArgKind::Equal => {
                let value = after_first(arg, '=')->0;
                if is_absolute(value) {
                    Err(ErrorView::NotRelative(value))
                } else {
                    Ok(
                        (
                            ArgsView {
                                manifest_path: Some(absolute(value, cwd)),
                                all: equal_arg_out(st.all, arg, Some(value)),
                                ..st
                            },
                            i + 1,
                        ),
                    )
                }
            },
        }
    } else if arg[0] == '+' {
        Ok((ArgsView { channel: Some(arg.skip(1)), ..st }, i + 1))
    } else if value_arg(arg, "--target"@) is Some {
        match value_arg(arg, "--target"@)->0 {
            ArgKind::Next => Ok(
                (
                    ArgsView {
                        targets: st.targets.push(
                            match next {
                                Some(n) => Some(target_of(n, builtin)),
                                None => None,
                            },
                        ),
                        all: next_arg_out(st.all, arg, next, None, false),
                        ..st
                    },
                    after,
                ),
            ),
            ArgKind::Equal => Ok(
                (
                    ArgsView {
                        targets: st.targets.push(
                            Some(target_of(after_first(arg, '=')->0, builtin)),
                        ),
                        all: equal_arg_out(st.all, arg, None),
                        ..st
                    },
                    i + 1,
                ),
            ),
        }
    } else if value_arg(arg, "--features"@) is Some {
        match value_arg(arg, "--features"@)->0 {
            ArgKind::Next => Ok(
                (
                    ArgsView {
                        features: match next {
                            Some(n) => st.features.push(n),
                            None => st.features,
                        },
                        all: next_arg_out(st.all, arg, next, None, true),
                        ..st
                    },
                    after,
                ),
            ),
            ArgKind::Equal => Ok(
                (
                    ArgsView {
                        features: st.features.push(after_first(arg, '=')->0),
                        all: equal_arg_out(st.all, arg, None),
                        ..st
                    },
                    i + 1,
                ),
            ),
        }
    } else if value_arg(arg, "--target-dir"@) is Some {
        match value_arg(arg, "--target-dir"@)->0 {
            ArgKind::Next => Ok(
                (
                    ArgsView {
                        target_dir: match next {
                            Some(n) => Some(absolute(n, cwd)),
                            None => None,
                        },
                        all: next_arg_out(
                            st.all,
                            arg,
                            next,
                            match next {
                                Some(_) => Some("/target"@),
                                None => None,
                            },
                            true,
                        ),
                        ..st
                    },
                    after,
                ),
            ),
            ArgKind::Equal => Ok(
                (
                    ArgsView {
                        target_dir: Some(absolute(after_first(arg, '=')->0, cwd)),
                        all: equal_arg_out(st.all, arg, Some("/target"@)),
                        ..st
                    },
                    i + 1,
                ),
            ),
        }
    } else if (arg[0] != '-' || arg == "--list"@) && st.subcommand is None {
        Ok(
            (
                ArgsView { subcommand: Some(named_subcommand(arg)), all: st.all.push(arg), ..st },
                i + 1,
            ),
        )
    } else {
        Ok((ArgsView { all: st.all.push(arg), ..st }, i + 1))
    }
}

/// An argument that gives a value behind `=` has a value.
pub proof fn lemma_equal_has_value(arg: Seq<char>, field: Seq<char>)
    requires
        value_arg(arg, field) == Some(ArgKind::Equal),
    ensures
        after_first(arg, '=') is Some,
{
    crate::text::lemma_first_match(arg, is_char('='));
    if first_match(arg, is_char('=')) > field.len() {
        assert(is_char('=')(arg[field.len() as int]));
    }
}

/// What reading the arguments from the index `i` on comes to.
pub open spec fn read_args(
    args: Seq<Seq<char>>,
    i: int,
    st: ArgsView,
    cwd: Seq<char>,
    builtin: Seq<Seq<char>>,
) -> Result<ArgsView, ErrorView>
    decreases args.len() - i,
{
    if i < 0 || i >= args.len() {
        Ok(st)
    } else {
        match read_arg(args, i, st, cwd, builtin) {
            Ok(step) => if step.1 > i {
                read_args(args, step.1, step.0, cwd, builtin)
            } else {
                Ok(step.0)
            },
            Err(e) => Err(e),
        }
    }
}

/// The argument that follows the one at the index `i`, where one does.
fn following(args: &Vec<String>, i: usize) -> (next: Option<String>)
    requires
        i < args@.len(),
    ensures
        opt_str(next) == (if i + 1 < args@.len() {
            Some(strs(args@)[i + 1])
        } else {
            None
        }),
{
    let n = args.len();
    if i + 1 < n {
        Some(args[i + 1].clone())
    } else {
        None
    }
}

/// Reads the argument at the index `i` into `st`, and hands back the
/// index of the argument that is read next.
fn read_one(args: &Vec<String>, i: usize, st: &mut Args, cwd: &str, target_list: &TargetList) -> (made:
    Result<usize, Error>)
    requires
        i < args@.len(),
    ensures
        match made {
            Ok(next) => read_arg(
                strs(args@),
                i as int,
                old(st)@,
                cwd@,
                strs(target_list.triples@),
            ) == Ok::<(ArgsView, int), ErrorView>((final(st)@, next as int)) && i < next
                <= args@.len(),
            Err(e) => read_arg(strs(args@), i as int, old(st)@, cwd@, strs(target_list.triples@))
                == Err::<(ArgsView, int), ErrorView>(e@),
        },
{
    let arg = args[i].as_str();
    let chars = chars_of(arg);
    assert(strs(args@)[i as int] == arg@);
    let n = args.len();
    let after: usize = if i + 1 < n {
        i + 2
    } else {
        i + 1
    };
    if chars.len() == 0 {
        return Ok(i + 1);
    }
    if str_eq(arg, "--") {
        let mut k: usize = i;
        while k < args.len()
            invariant
                i <= k <= args@.len(),
                strs(st.all@) == strs(old(st).all@) + strs(args@).subrange(i as int, k as int),
                st.subcommand == old(st).subcommand,
                st.channel == old(st).channel,
                st.targets == old(st).targets,
                st.features == old(st).features,
                st.target_dir == old(st).target_dir,
                st.manifest_path == old(st).manifest_path,
                st.version == old(st).version,
                st.verbose == old(st).verbose,
                st.quiet == old(st).quiet,
                st.color == old(st).color,
            decreases args@.len() - k,
        {
            push_str(&mut st.all, args[k].as_str());
            k += 1;
            assert(strs(old(st).all@) + strs(args@).subrange(i as int, k as int) =~= (strs(
                old(st).all@,
            ) + strs(args@).subrange(i as int, k - 1)).push(strs(args@)[k - 1]));
        }
        assert(strs(args@).subrange(i as int, args@.len() as int) =~= strs(args@).skip(i as int));
        return Ok(args.len());
    }
    let level = is_verbose(arg);
    if level >= 1 {
        st.verbose = if st.verbose > 255 - level {
            255
        } else {
            st.verbose + level
        };
        push_str(&mut st.all, arg);
        return Ok(i + 1);
    }
    if str_eq(arg, "--version") || str_eq(arg, "-V") {
        st.version = true;
        return Ok(i + 1);
    }
    if str_eq(arg, "--quiet") || str_eq(arg, "-q") {
        st.quiet = true;
        push_str(&mut st.all, arg);
        return Ok(i + 1);
    }
    if let Some(kind) = is_value_arg(arg, "--color") {
        match kind {
            ArgKind::Next => {
                match parse_next_arg(arg.to_owned(), &mut st.all, following(args, i), None, true) {
                    Some(c) => {
                        st.color = Some(c);
                        return Ok(after);
                    },
                    None => {
                        return Err(Error::MissingValue(arg.to_owned()));
                    },
                }
            },
            ArgKind::Equal => {
                st.color = parse_equal_arg(arg, &mut st.all, None);
                return Ok(i + 1);
            },
        }
    }
    if let Some(kind) = is_value_arg(arg, "--manifest-path") {
        match kind {
            ArgKind::Next => {
                let next = following(args, i);
                let stored = match &next {
                    Some(n) => match store_manifest_path(n.clone()) {
                        Ok(s) => Some(s),
                        Err(e) => {
                            return Err(e);
                        },
                    },
                    None => None,
                };
                match parse_next_arg(arg.to_owned(), &mut st.all, next, stored, true) {
                    Some(n) => {
                        st.manifest_path = parse_manifest_path(n.as_str(), cwd);
                    },
                    None => {
                        st.manifest_path = None;
                    },
                }
                return Ok(after);
            },
            ArgKind::Equal => {
                proof {
                    lemma_equal_has_value(arg@, "--manifest-path"@);
                }
                let (_, value) = split_at_first(arg, '=');
                let value = match value {
                    Some(v) => v,
                    None => {
                        return Err(Error::MissingValue(arg.to_owned()));
                    },
                };
                let stored = match store_manifest_path(value.clone()) {
                    Ok(s) => s,
                    Err(e) => {
                        return Err(e);
                    },
                };
                parse_equal_arg(arg, &mut st.all, Some(stored.as_str()));
                st.manifest_path = parse_manifest_path(value.as_str(), cwd);
                return Ok(i + 1);
            },
        }
    }
    if chars[0] == '+' {
        st.channel = Some(crate::text::string_of_range(&chars, 1, chars.len()));
        assert(chars@.subrange(1, chars@.len() as int) =~= arg@.skip(1));
        return Ok(i + 1);
    }
    if let Some(kind) = is_value_arg(arg, "--target") {
        let ghost before = target_views(st.targets@);
        match kind {
            ArgKind::Next => {
                let next = following(args, i);
                match parse_next_arg(arg.to_owned(), &mut st.all, next, None, false) {
                    Some(n) => {
                        let target = Target::from(n.as_str(), target_list);
                        st.targets.push(Some(target));
                        assert(target_views(st.targets@) =~= before.push(Some(target@)));
                    },
                    None => {
                        st.targets.push(None);
                        assert(target_views(st.targets@) =~= before.push(None));
                    },
                }
                return Ok(after);
            },
            ArgKind::Equal => {
                proof {
                    lemma_equal_has_value(arg@, "--target"@);
                }
                match parse_equal_arg(arg, &mut st.all, None) {
                    Some(value) => {
                        let target = Target::from(value.as_str(), target_list);
                        st.targets.push(Some(target));
                        assert(target_views(st.targets@) =~= before.push(Some(target@)));
                    },
                    None => {
                        return Err(Error::MissingValue(arg.to_owned()));
                    },
                }
                return Ok(i + 1);
            },
        }
    }
    if let Some(kind) = is_value_arg(arg, "--features") {
        match kind {
            ArgKind::Next => {
                match parse_next_arg(arg.to_owned(), &mut st.all, following(args, i), None, true) {
                    Some(n) => {
                        proof {
                            lemma_strs_push(st.features@, n);
                        }
                        st.features.push(n);
                    },
                    None => {},
                }
                return Ok(after);
            },
            ArgKind::Equal => {
                proof {
                    lemma_equal_has_value(arg@, "--features"@);
                }
                match parse_equal_arg(arg, &mut st.all, None) {
                    Some(value) => {
                        proof {
                            lemma_strs_push(st.features@, value);
                        }
                        st.features.push(value);
                    },
                    None => {
                        return Err(Error::MissingValue(arg.to_owned()));
                    },
                }
                return Ok(i + 1);
            },
        }
    }
    if let Some(kind) = is_value_arg(arg, "--target-dir") {
        match kind {
            ArgKind::Next => {
                let next = following(args, i);
                let stored = match &next {
                    Some(n) => Some(store_target_dir(n.clone())),
                    None => None,
                };
                match parse_next_arg(arg.to_owned(), &mut st.all, next, stored, true) {
                    Some(n) => {
                        st.target_dir = Some(parse_target_dir(n.as_str(), cwd));
                    },
                    None => {
                        st.target_dir = None;
                    },
                }
                return Ok(after);
            },
            ArgKind::Equal => {
                proof {
                    lemma_equal_has_value(arg@, "--target-dir"@);
                }
                match parse_equal_arg(arg, &mut st.all, Some("/target")) {
                    Some(value) => {
                        st.target_dir = Some(parse_target_dir(value.as_str(), cwd));
                    },
                    None => {
                        return Err(Error::MissingValue(arg.to_owned()));
                    },
                }
                return Ok(i + 1);
            },
        }
    }
    if (chars[0] != '-' || str_eq(arg, "--list")) && st.subcommand.is_none() {
        st.subcommand = Some(Subcommand::from(arg));
    }
    push_str(&mut st.all, arg);
    Ok(i + 1)
}

/// Reads the arguments of the command line, the program's name left out.
/// `cwd` is the current directory, against which paths are made absolute.
/// A flag for the colour that no value follows, and a manifest path that
/// begins at the root, are errors.
pub fn parse(args: &Vec<String>, cwd: &str, target_list: &TargetList) -> (made: Result<Args, Error>)
    ensures
        match made {
            Ok(found) => read_args(strs(args@), 0, no_args(), cwd@, strs(target_list.triples@))
                == Ok::<ArgsView, ErrorView>(found@),
            Err(e) => read_args(strs(args@), 0, no_args(), cwd@, strs(target_list.triples@))
                == Err::<ArgsView, ErrorView>(e@),
        },
{
    let mut st = Args {
        all: Vec::new(),
        subcommand: None,
        channel: None,
        targets: Vec::new(),
        features: Vec::new(),
        target_dir: None,
        manifest_path: None,
        version: false,
        verbose: 0,
        quiet: false,
        color: None,
    };
    assert(st@.all =~= Seq::empty() && st@.targets =~= Seq::empty() && st@.features
        =~= Seq::empty());
    let mut i: usize = 0;
    while i < args.len()
        invariant
            i <= args@.len(),
            read_args(strs(args@), 0, no_args(), cwd@, strs(target_list.triples@)) == read_args(
                strs(args@),
                i as int,
                st@,
                cwd@,
                strs(target_list.triples@),
            ),
        decreases args@.len() - i,
    {
        match read_one(args, i, &mut st, cwd, target_list) {
            Ok(next) => {
                i = next;
            },
            Err(e) => {
                return Err(e);
            },
        }
    }
    Ok(st)
}

} // verus!
