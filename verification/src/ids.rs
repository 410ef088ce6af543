//! Fresh random identifiers.
use vstd::prelude::*;

verus! {

/// A lower-case hexadecimal digit.
pub open spec fn is_lower_hex(c: char) -> bool {
    ('0' <= c <= '9') || ('a' <= c <= 'f')
}

/// The hyphenated lower-case text of a version-4 UUID: 36 characters,
/// hyphens at 8, 13, 18 and 23, lower-case hex digits elsewhere, the
/// version digit `4` at 14 and a variant digit of `8`, `9`, `a` or `b` at 19.
pub open spec fn is_uuid_v4_text(s: Seq<char>) -> bool {
    &&& s.len() == 36
    &&& forall|i: int|
        0 <= i < 36 ==> if i == 8 || i == 13 || i == 18 || i == 23 {
            #[trigger] s[i] == '-'
        } else {
            is_lower_hex(s[i])
        }
    &&& s[14] == '4'
    &&& (s[19] == '8' || s[19] == '9' || s[19] == 'a' || s[19] == 'b')
}

/// `uuid::Uuid::new_v4` followed by `to_string`: a random version-4 UUID in
/// its hyphenated lower-case form (`Display` writes `LowerHex`, which writes
/// the hyphenated form; `new_v4` sets the version and variant bits). Nothing
/// is stated of which UUID comes out, and two calls may give the same text
/// as far as the contract goes.
#[verifier::external_body]
pub(crate) fn random_id() -> (id: String)
    ensures
        is_uuid_v4_text(id@),
{
    uuid::Uuid::new_v4().to_string()
}

} // verus!
