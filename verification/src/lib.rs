//! A small demonstration library: a command-line option parser for a
//! help/version/run interface, and a collection of independent demo
//! routines (comparison, string building, numeric parsing, bounded
//! random draws), each with a verified contract.

pub mod cli;
pub mod demos;
pub mod numparse;

use vstd::prelude::*;

verus! {

/// Returns true.
pub fn foo() -> (r: bool)
    ensures
        r,
{
    true
}

/// Returns its argument unchanged.
pub fn echo(s: &str) -> (r: &str)
    ensures
        r@ == s@,
{
    s
}

} // verus!
