//! The greeting command: formats a fixed salutation around a caller-supplied
//! name. It is the only command with no failure mode.

use vstd::prelude::*;
use vstd::string::StringExecFns;

verus! {

/// The text of the greeting returned for a given name: a fixed prefix,
/// the name itself, and a fixed closing phrase.
pub open spec fn greeting_of(name: Seq<char>) -> Seq<char> {
    "Hello, "@ + name + "! You've been greeted from Rust!"@
}

/// Builds the greeting shown to the user for `name`.
pub fn greet(name: &str) -> (r: String)
    ensures
        r@ == greeting_of(name@),
{
    let mut r: String = "Hello, ".to_owned();
    r.append(name);
    r.append("! You've been greeted from Rust!");
    proof {
        assert(r@ =~= greeting_of(name@));
    }
    r
}

} // verus!
