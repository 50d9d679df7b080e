use vstd::prelude::*;
use vstd::utf8::valid_utf8;

verus! {

/// Relies on std::str::from_utf8: it succeeds exactly when the bytes are
/// well-formed UTF-8 (no overlong forms, no surrogates, nothing past U+10FFFF).
#[verifier::external_body]
pub(crate) fn is_text(b: &[u8]) -> (r: bool)
    ensures
        r == valid_utf8(b@),
{
    std::str::from_utf8(b).is_ok()
}

} // verus!
