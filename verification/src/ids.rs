//! Identifiers of stored records: UUIDs held as 128-bit numbers.
use uuid::Uuid;
use vstd::prelude::*;
use crate::text::digit_char;

verus! {

/// The identifier of a stored record.
pub type ConfigId = u128;

/// The last `width` hexadecimal digits of `n`, zeros included.
pub open spec fn hex_padded(n: nat, width: nat) -> Seq<char>
    decreases width,
{
    if width == 0 {
        Seq::empty()
    } else {
        hex_padded(n / 16, (width - 1) as nat).push(digit_char((n % 16) as int))
    }
}

/// The hyphenated text of a UUID: 32 lower-case hexadecimal digits in groups
/// of 8, 4, 4, 4 and 12.
pub open spec fn uuid_text(id: u128) -> Seq<char> {
    let n = id as nat;
    hex_padded(n / 0x1_0000_0000_0000_0000_0000_0000, 8) + "-"@ + hex_padded(
        n / 0x1_0000_0000_0000_0000_0000,
        4,
    ) + "-"@ + hex_padded(n / 0x1_0000_0000_0000_0000, 4) + "-"@ + hex_padded(
        n / 0x1_0000_0000_0000,
        4,
    ) + "-"@ + hex_padded(n, 12)
}

/// `uuid::Uuid::is_nil`: whether all 128 bits are zero.
#[verifier::external_body]
pub(crate) fn is_nil_id(id: u128) -> (r: bool)
    ensures
        r == (id == 0),
{
    Uuid::from_u128(id).is_nil()
}

/// The `Display` form of `uuid::Uuid`: the hyphenated text in lower case.
#[verifier::external_body]
pub(crate) fn id_text(id: u128) -> (r: String)
    ensures
        r@ == uuid_text(id),
{
    Uuid::from_u128(id).to_string()
}

} // verus!
