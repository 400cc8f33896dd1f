//! The platform that is built for.

use crate::cargo::contains_string;
use crate::text::strs;
use vstd::prelude::*;

verus! {

/// The triples that the compiler knows by itself.
#[derive(Debug, Clone, PartialEq, Eq)]
pub struct TargetList {
    pub triples: Vec<String>,
}

/// A target: one that the compiler knows by itself, or one that the user
/// describes.
#[derive(Debug, Clone, PartialEq, Eq, Hash)]
pub enum Target {
    BuiltIn { triple: String },
    Custom { triple: String },
}

/// The plain values of a `Target`: whether it is built in, and its
/// triple.
pub ghost struct TargetView {
    pub builtin: bool,
    pub triple: Seq<char>,
}

impl View for Target {
    type V = TargetView;

    open spec fn view(&self) -> TargetView {
        TargetView { builtin: self is BuiltIn, triple: self.spec_triple() }
    }
}

/// The target with a triple: built in where the compiler knows the
/// triple, else custom.
pub open spec fn target_of(triple: Seq<char>, builtin: Seq<Seq<char>>) -> TargetView {
    TargetView { builtin: builtin.contains(triple), triple }
}

impl TargetList {
    /// Whether the compiler knows the triple by itself.
    pub fn contains(&self, triple: &str) -> (yes: bool)
        ensures
            yes == strs(self.triples@).contains(triple@),
    {
        contains_string(&self.triples, triple)
    }
}

impl Target {
    /// The triple as text.
    pub open spec fn spec_triple(&self) -> Seq<char> {
        match self {
            Target::BuiltIn { triple } => triple@,
            Target::Custom { triple } => triple@,
        }
    }

    /// The triple of the target.
    pub fn triple(&self) -> (t: &str)
        ensures
            t@ == self.spec_triple(),
    {
        match self {
            Target::BuiltIn { triple } => triple.as_str(),
            Target::Custom { triple } => triple.as_str(),
        }
    }

    /// The target with the triple: built in where the compiler knows the
    /// triple, else custom.
    pub fn from(triple: &str, target_list: &TargetList) -> (target: Target)
        ensures
            target.spec_triple() == triple@,
            target is BuiltIn <==> strs(target_list.triples@).contains(triple@),
            target@ == target_of(triple@, strs(target_list.triples@)),
    {
        if target_list.contains(triple) {
            Target::BuiltIn { triple: triple.to_owned() }
        } else {
            Target::Custom { triple: triple.to_owned() }
        }
    }

    /// Whether two targets are the same: of the same kind, with the same
    /// triple.
    pub fn same(&self, other: &Target) -> (yes: bool)
        ensures
            yes == ((self is BuiltIn <==> other is BuiltIn) && self.spec_triple()
                == other.spec_triple()),
    {
        match (self, other) {
            (Target::BuiltIn { triple: a }, Target::BuiltIn { triple: b }) => crate::text::str_eq(
                a.as_str(),
                b.as_str(),
            ),
            (Target::Custom { triple: a }, Target::Custom { triple: b }) => crate::text::str_eq(
                a.as_str(),
                b.as_str(),
            ),
            _ => false,
        }
    }
}

} // verus!
