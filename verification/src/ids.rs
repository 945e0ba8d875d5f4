use vstd::prelude::*;

verus! {

/// `c` is a lower-case hexadecimal digit.
pub open spec fn is_lower_hex(c: char) -> bool {
    ('0' <= c && c <= '9') || ('a' <= c && c <= 'f')
}

/// `s` is a UUID in its hyphenated lower-case form: 36 characters, hyphens
/// at 8, 13, 18 and 23, hexadecimal digits everywhere else.
pub open spec fn is_uuid_text(s: Seq<char>) -> bool {
    &&& s.len() == 36
    &&& forall|i: int|
        0 <= i < 36 ==> if i == 8 || i == 13 || i == 18 || i == 23 {
            s[i] == '-'
        } else {
            is_lower_hex(#[trigger] s[i])
        }
}

/// A fresh identifier: `uuid::Uuid::now_v7()` in its `to_string` form.
///
/// Claimed of uuid: `Display` writes the hyphenated lower-case form
/// (`fmt::LowerHex` through `format_hyphenated`). The value itself rests on
/// the clock and on random bits, so nothing is said of it beyond its form.
#[verifier::external_body]
pub fn new_id() -> (r: String)
    ensures
        is_uuid_text(r@),
{
    uuid::Uuid::now_v7().to_string()
}

} // verus!
