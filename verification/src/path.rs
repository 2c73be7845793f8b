//! The chain of command names from the root to the command being written.
//!
//! The chain is a [`Stack`] of string slices: each level of the walk pushes
//! its own name onto the chain of the level above without copying it.

use crate::text::views;
use stackstack::Stack;
use vstd::prelude::*;

verus! {

#[verifier::external_type_specification]
#[verifier::external_body]
#[verifier::reject_recursive_types(T)]
pub struct ExStack<'a, T>(Stack<'a, T>);

/// The names that a chain holds, root first.
pub uninterp spec fn path_components(path: Stack<&str>) -> Seq<Seq<char>>;

/// `Stack::new`: a chain that holds nothing.
#[verifier::external_body]
pub(crate) fn empty<'a>() -> (path: Stack<'a, &'a str>)
    ensures
        path_components(path) == Seq::<Seq<char>>::empty(),
{
    Stack::new()
}

/// `Stack::pushed`: a new chain that holds what `path` holds and then `name`;
/// `path` itself is left as it was.
#[verifier::external_body]
pub(crate) fn pushed<'a>(path: &'a Stack<'a, &'a str>, name: &'a str) -> (longer: Stack<'a, &'a str>)
    ensures
        path_components(longer) == path_components(*path).push(name@),
{
    path.pushed(name)
}

/// `Stack::len`: how many names the chain holds.
#[verifier::external_body]
pub(crate) fn len(path: &Stack<&str>) -> (n: usize)
    ensures
        n == path_components(*path).len(),
{
    path.len()
}

/// `Stack::is_empty`: whether the chain holds no name.
#[verifier::external_body]
pub(crate) fn is_empty(path: &Stack<&str>) -> (none: bool)
    ensures
        none == (path_components(*path).len() == 0),
{
    path.is_empty()
}

/// `Stack::get`: the name at place `ix`, counted from the root at 0, or
/// `None` where the chain is not that long. `Stack::get` adds one to `ix`,
/// which therefore stays below `usize::MAX`.
#[verifier::external_body]
pub(crate) fn get<'a>(path: &Stack<'a, &'a str>, ix: usize) -> (name: Option<&'a str>)
    requires
        ix < usize::MAX,
    ensures
        match name {
            Some(name) => ix < path_components(*path).len() && name@ == path_components(*path)[ix as int],
            None => ix >= path_components(*path).len(),
        },
{
    path.get(ix).copied()
}

/// The names of the chain, root first.
pub fn components<'a>(path: &Stack<'a, &'a str>) -> (names: Vec<&'a str>)
    ensures
        views(names@) == path_components(*path),
{
    let n: usize = len(path);
    let mut names: Vec<&'a str> = Vec::new();
    let mut i: usize = 0;
    while i < n
        invariant
            n == path_components(*path).len(),
            i <= n,
            views(names@) == path_components(*path).take(i as int),
        decreases n - i,
    {
        let ghost before = names@;
        match get(path, i) {
            Some(name) => {
                names.push(name);
            },
            None => {},
        }
        i += 1;
        assert(views(names@) =~= views(before).push(path_components(*path)[i - 1]));
        assert(path_components(*path).take(i as int) =~= path_components(*path).take(i - 1).push(
            path_components(*path)[i - 1],
        ));
    }
    proof {
        assert(path_components(*path).take(n as int) == path_components(*path));
    }
    names
}

} // verus!
