use vstd::prelude::*;
use vstd::string::*;

pub mod codec;
pub mod session;
pub mod stream;

verus! {

/// The greeting text for `name`.
pub open spec fn greeting(name: Seq<char>) -> Seq<char> {
    "Hello, "@ + name + "! You've been greeted from Rust!"@
}

/// Builds the greeting shown by the shell's demo command.
pub fn greet(name: &str) -> (r: String)
    ensures
        r@ == greeting(name@),
{
    let mut s = String::from_str("Hello, ");
    s.append(name);
    s.append("! You've been greeted from Rust!");
    proof {
        reveal_strlit("Hello, ");
        reveal_strlit("! You've been greeted from Rust!");
    }
    assert(s@ =~= greeting(name@));
    s
}

} // verus!
