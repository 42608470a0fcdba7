//! Percent-encoding of path segment bytes.
//!
//! A `file://` URI may only carry unreserved bytes verbatim; every other byte
//! of a path segment is escaped as `%XX` with upper-case hexadecimal digits.

use vstd::prelude::*;

verus! {

/// Percent-encoding keeps exactly the unreserved URI bytes:
/// ASCII letters, digits, `-`, `.`, `_` and `~`.
pub open spec fn is_unreserved(b: u8) -> bool {
    ('A' as u8) <= b <= ('Z' as u8) || ('a' as u8) <= b <= ('z' as u8) || ('0' as u8) <= b <= (
    '9' as u8) || b == ('-' as u8) || b == ('.' as u8) || b == ('_' as u8) || b == ('~' as u8)
}

/// The upper-case hexadecimal digit for a value below sixteen.
pub open spec fn hex_digit(d: u8) -> char
    recommends
        d < 16,
{
    if d < 10 {
        (('0' as u8) + d) as char
    } else {
        (('A' as u8) + (d - 10)) as char
    }
}

/// How a single byte appears in a percent-encoded string: unreserved bytes
/// stand for themselves, every other byte becomes `%` and two hex digits.
pub open spec fn encoded_byte(b: u8) -> Seq<char> {
    if is_unreserved(b) {
        seq![b as char]
    } else {
        seq!['%', hex_digit(b / 16), hex_digit(b % 16)]
    }
}

/// The percent-encoding of a whole byte string, byte by byte.
pub open spec fn percent_encoded(s: Seq<u8>) -> Seq<char>
    decreases s.len(),
{
    if s.len() == 0 {
        Seq::<char>::empty()
    } else {
        percent_encoded(s.drop_last()) + encoded_byte(s.last())
    }
}

/// Relies on `urlencoding::encode_binary`: it percent-encodes every byte
/// except ASCII alphanumerics and `-`, `.`, `_`, `~`, writing `%` and two
/// upper-case hexadecimal digits for each escaped byte.
#[verifier::external_body]
pub(crate) fn encode_component(b: &[u8]) -> (r: String)
    ensures
        r@ == percent_encoded(b@),
{
    urlencoding::encode_binary(b).into_owned()
}

/// No byte's encoding ever contains a nul character: unreserved bytes are
/// printable ASCII, and escapes consist of `%` and hex digits.
proof fn lemma_encoded_byte_has_no_nul(b: u8)
    ensures
        forall|i: int| 0 <= i < encoded_byte(b).len() ==> encoded_byte(b)[i] != '\0',
{
}

/// A percent-encoded string never contains a nul character.
pub proof fn lemma_percent_encoded_has_no_nul(s: Seq<u8>)
    ensures
        forall|i: int| 0 <= i < percent_encoded(s).len() ==> percent_encoded(s)[i] != '\0',
    decreases s.len(),
{
    if s.len() > 0 {
        lemma_percent_encoded_has_no_nul(s.drop_last());
        lemma_encoded_byte_has_no_nul(s.last());
        assert forall|i: int| 0 <= i < percent_encoded(s).len() implies percent_encoded(s)[i]
            != '\0' by {
            let head = percent_encoded(s.drop_last());
            if i < head.len() {
                assert(percent_encoded(s)[i] == head[i]);
            } else {
                assert(percent_encoded(s)[i] == encoded_byte(s.last())[i - head.len()]);
            }
        }
    }
}

} // verus!
