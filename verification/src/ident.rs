//! Task identifiers: random version-4 UUIDs in their usual text form.

use uuid::Uuid;
use vstd::prelude::*;

verus! {

/// A digit of lower-case hexadecimal notation.
pub open spec fn is_lower_hex(c: char) -> bool {
    ('0' <= c && c <= '9') || ('a' <= c && c <= 'f')
}

/// The four places of an identifier at which a hyphen stands.
pub open spec fn is_hyphen_place(i: int) -> bool {
    i == 8 || i == 13 || i == 18 || i == 23
}

/// The shape of every identifier: 36 characters in groups of 8, 4, 4, 4 and
/// 12 lower-case hexadecimal digits with a hyphen between groups, the third
/// group starting with the version digit `4` and the fourth with a variant
/// digit, one of `8`, `9`, `a` and `b`.
pub open spec fn is_id_text(text: Seq<char>) -> bool {
    &&& text.len() == 36
    &&& forall|i: int|
        0 <= i < 36 ==> if is_hyphen_place(i) {
            #[trigger] text[i] == '-'
        } else {
            is_lower_hex(text[i])
        }
    &&& text[14] == '4'
    &&& (text[19] == '8' || text[19] == '9' || text[19] == 'a' || text[19] == 'b')
}

/// `Uuid::new_v4`, rendered by the `Display` impl of `Uuid`: 122 bits from the
/// operating system's random source, with the version and variant bits set,
/// written in the hyphenated lower-case form. Which identifier comes out is
/// left open; only its shape is stated. The call panics where the operating
/// system hands out no random bytes.
#[verifier::external_body]
pub(crate) fn random_id() -> (id: String)
    ensures
        is_id_text(id@),
{
    Uuid::new_v4().to_string()
}

} // verus!
