//! Instance identifiers: 128-bit numbers drawn and rendered by `uuid`.

use vstd::prelude::*;

verus! {

/// The hyphenated lower-case text that `uuid` renders for the identifier
/// with the given 128-bit value: `Uuid::from_u128(id).to_string()`.
pub uninterp spec fn uuid_hyphenated(id: u128) -> Seq<char>;

/// The version and variant bits of a random (version 4) identifier.
pub open spec fn is_random_uuid(id: u128) -> bool {
    id & 0x0000_0000_0000_F000_C000_0000_0000_0000u128
        == 0x0000_0000_0000_4000_8000_0000_0000_0000u128
}

/// Trusted: `uuid::Uuid::new_v4`, read back through `Uuid::as_u128`. The
/// value is random; the crate's source fixes only the version nibble to 4 and
/// the variant bits to `10`, which is all this contract claims. `new_v4`
/// gives up where the operating system has no randomness to offer; no
/// precondition can rule that out.
#[verifier::external_body]
pub(crate) fn fresh_id() -> (id: u128)
    ensures
        is_random_uuid(id),
{
    uuid::Uuid::new_v4().as_u128()
}

/// Trusted: `Display` of `uuid::Uuid` on `Uuid::from_u128(id)`. The text is a
/// function of the number alone, named by `uuid_hyphenated`.
#[verifier::external_body]
pub(crate) fn id_text(id: u128) -> (text: String)
    ensures
        text@ == uuid_hyphenated(id),
{
    uuid::Uuid::from_u128(id).to_string()
}

} // verus!
