//! Following a new source.

use vstd::prelude::*;
use vstd::string::StringExecFns;

verus! {

/// The text that following a source adds to the end of the configuration:
/// a new line that sets the name to the address.
pub open spec fn follow_text(nick: Seq<char>, url: Seq<char>) -> Seq<char> {
    seq!['\n'] + nick + seq![' ', '=', ' '] + url
}

/// What to append to the configuration to follow `url` under `nick`.
pub fn follow(nick: &str, url: &str) -> (text: String)
    ensures
        text@ == follow_text(nick@, url@),
{
    proof {
        reveal_strlit("\n");
        reveal_strlit(" = ");
    }
    let mut text = String::from_str("\n");
    text.append(nick);
    text.append(" = ");
    text.append(url);
    assert(text@ =~= follow_text(nick@, url@));
    text
}

} // verus!
