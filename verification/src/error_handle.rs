//! Rendering a failure with its chain of causes for the user.
//!
//! A chain lists the outermost context first and the root cause last. It
//! is rendered root cause first, one line per link: the first line says
//! what went wrong, each following line says what was being done.

use vstd::prelude::*;
use vstd::string::StringExecFns;

verus! {

/// What introduces the line at position `i`.
pub open spec fn line_prefix(i: int) -> Seq<char> {
    if i == 0 {
        "Got an error: "@
    } else {
        "While "@
    }
}

/// The line at position `i`: the link of the chain that stands `i` places
/// before its end.
pub open spec fn line(chain: Seq<String>, i: int) -> Seq<char> {
    line_prefix(i) + chain[chain.len() - 1 - i]@
}

/// The first `n` lines, separated by line breaks.
pub open spec fn rendered(chain: Seq<String>, n: int) -> Seq<char>
    decreases n,
{
    if n <= 0 {
        Seq::empty()
    } else if n == 1 {
        line(chain, 0)
    } else {
        rendered(chain, n - 1) + "\n"@ + line(chain, n - 1)
    }
}

/// Renders a chain of causes, given outermost context first.
pub fn render_chain(chain: &Vec<String>) -> (text: String)
    ensures
        text@ == rendered(chain@, chain@.len() as int),
{
    let mut text = String::new();
    let length = chain.len();
    let mut i: usize = 0;
    while i < length
        invariant
            i <= length,
            length == chain@.len(),
            text@ == rendered(chain@, i as int),
        decreases length - i,
    {
        if i == 0 {
            text.append("Got an error: ");
        } else {
            text.append("\n");
            text.append("While ");
        }
        text.append(chain[length - 1 - i].as_str());
        assert(text@ =~= rendered(chain@, i + 1));
        i = i + 1;
    }
    text
}

} // verus!
