//! Text of values as the standard formatting machinery writes it.

use vstd::prelude::*;

verus! {

/// What `{:?}` writes for a string: the string quoted, with the characters
/// that need it escaped.
pub uninterp spec fn debug_str(s: Seq<char>) -> Seq<char>;

/// `format!("{:?}", s)`: the `Debug` text of a string slice. Its contract
/// only names the result; which characters are escaped, and how, is the
/// standard library's and is not restated here.
#[verifier::external_body]
pub(crate) fn debug_quoted(s: &str) -> (r: String)
    ensures
        r@ == debug_str(s@),
{
    format!("{:?}", s)
}

} // verus!
