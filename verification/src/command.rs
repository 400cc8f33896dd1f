//! A command line as plain data: the program and its arguments.
//!
//! The library only builds command lines. Running them is left to the
//! caller, who reports back what happened.

use crate::text::{lemma_strs_push, strs};
use vstd::prelude::*;

verus! {

/// A program with the arguments it is to be run with.
#[derive(Debug, Clone, PartialEq, Eq)]
pub struct Command {
    pub program: String,
    pub args: Vec<String>,
}

/// What a `Command` stands for: the characters of its program and of each
/// argument, in order.
pub ghost struct CommandView {
    pub program: Seq<char>,
    pub args: Seq<Seq<char>>,
}

impl View for Command {
    type V = CommandView;

    open spec fn view(&self) -> CommandView {
        CommandView { program: self.program@, args: strs(self.args@) }
    }
}

impl CommandView {
    /// The command line with `a` appended.
    pub open spec fn arg(self, a: Seq<char>) -> CommandView {
        CommandView { program: self.program, args: self.args.push(a) }
    }

    /// The command line with all of `more` appended.
    pub open spec fn args(self, more: Seq<Seq<char>>) -> CommandView {
        CommandView { program: self.program, args: self.args + more }
    }
}

/// The command line of `program` without arguments.
pub open spec fn bare(program: Seq<char>) -> CommandView {
    CommandView { program, args: Seq::empty() }
}

impl Command {
    /// The command line of `program` without arguments.
    pub fn new(program: &str) -> (cmd: Command)
        ensures
            cmd@ == bare(program@),
    {
        let cmd = Command { program: program.to_owned(), args: Vec::new() };
        assert(cmd@.args =~= Seq::empty());
        cmd
    }

    /// Appends one argument.
    pub fn arg(&mut self, a: &str)
        ensures
            final(self)@ == old(self)@.arg(a@),
    {
        let item = a.to_owned();
        proof {
            lemma_strs_push(self.args@, item);
        }
        self.args.push(item);
    }

    /// Appends two arguments, such as a flag and its value.
    pub fn arg2(&mut self, a: &str, b: &str)
        ensures
            final(self)@ == old(self)@.arg(a@).arg(b@),
    {
        self.arg(a);
        self.arg(b);
    }

    /// Appends every string of `more`, in order.
    pub fn args(&mut self, more: &Vec<String>)
        ensures
            final(self)@ == old(self)@.args(strs(more@)),
    {
        let mut i: usize = 0;
        while i < more.len()
            invariant
                i <= more.len(),
                self@ == old(self)@.args(strs(more@.take(i as int))),
            decreases more.len() - i,
        {
            self.arg(more[i].as_str());
            i += 1;
            assert(old(self)@.args(strs(more@.take(i as int))).args =~= old(self)@.args(
                strs(more@.take(i - 1)),
            ).args.push(more@[i - 1]@));
        }
        assert(more@.take(more.len() as int) =~= more@);
    }
}

} // verus!
