//! What this library takes from the `base64` crate: the standard alphabet
//! without padding (`general_purpose::STANDARD_NO_PAD`). Trusted: the
//! contracts are not proved.

use vstd::prelude::*;
use base64::Engine;

verus! {

#[verifier::external_type_specification]
#[verifier::external_body]
pub struct ExDecodeError(base64::DecodeError);

/// What `STANDARD_NO_PAD.encode` gives for some bytes.
pub uninterp spec fn base64_encode(bytes: Seq<u8>) -> Seq<char>;

/// What `STANDARD_NO_PAD.decode` gives for the bytes of a text: the decoded
/// bytes, or `None` when the text is refused.
pub uninterp spec fn base64_decode(text: Seq<char>) -> Option<Seq<u8>>;

/// The length of the unpadded encoding of `n` bytes (`encoded_len` without padding).
pub open spec fn encoded_len_no_pad(n: nat) -> nat {
    (n / 3) * 4 + if n % 3 == 0 {
        0nat
    } else if n % 3 == 1 {
        2nat
    } else {
        3nat
    }
}

/// Byte counts whose encoding `encode` can allocate: `encoded_len` does not
/// overflow and the buffer does not exceed `isize::MAX`.
pub open spec fn encodable(n: nat) -> bool {
    encoded_len_no_pad(n) <= isize::MAX
}

/// `STANDARD_NO_PAD.encode`: the text named by [`base64_encode`]. It panics
/// when the encoded length cannot be allocated, so such inputs are left out.
#[verifier::external_body]
pub(crate) fn encode_no_pad(bytes: &[u8]) -> (s: String)
    requires
        encodable(bytes@.len()),
    ensures
        s@ == base64_encode(bytes@),
{
    base64::engine::general_purpose::STANDARD_NO_PAD.encode(bytes)
}

/// `STANDARD_NO_PAD.decode` of a text's bytes: the bytes named by
/// [`base64_decode`], or an error exactly when that is `None`. The decoder
/// accepts only canonical unpadded text (alphabet symbols, no padding, no
/// length of 1 modulo 4, zero trailing bits), so encoding the decoded bytes
/// gives the text back; and every text the encoder writes is of that kind, so
/// it is accepted and decodes to the bytes that were encoded.
#[verifier::external_body]
pub(crate) fn decode_no_pad(text: String) -> (r: Result<Vec<u8>, base64::DecodeError>)
    ensures
        match (r, base64_decode(text@)) {
            (Ok(b), Some(d)) => b@ == d,
            (Err(_), None) => true,
            _ => false,
        },
        r matches Ok(b) ==> base64_encode(b@) == text@,
        forall|b: Seq<u8>| #[trigger] base64_encode(b) == text@ ==> (r is Ok && r->Ok_0@ == b),
{
    base64::engine::general_purpose::STANDARD_NO_PAD.decode(bytes::Bytes::from(text))
}

} // verus!
