//! What this library takes from Rust's standard library beyond what vstd
//! specifies. Trusted: the contracts are not proved.

use vstd::prelude::*;
use vstd::utf8::is_ascii_chars;
use crate::http_ext::ascii_lower_seq;

verus! {

/// What `str::to_lowercase` gives: the Unicode lowercase mapping of each
/// character (a character may map to several), as Unicode's tables define it.
pub uninterp spec fn unicode_lowercase(s: Seq<char>) -> Seq<char>;

/// `str::to_lowercase`: the text named by [`unicode_lowercase`]; for ASCII
/// text that is the ASCII lowercase (capital letters to small ones, everything
/// else unchanged), as the Unicode lowercase mapping of ASCII is.
#[verifier::external_body]
pub(crate) fn to_lowercase(s: &str) -> (r: String)
    ensures
        r@ == unicode_lowercase(s@),
        is_ascii_chars(s@) ==> r@ == ascii_lower_seq(s@),
{
    s.to_lowercase()
}

} // verus!
