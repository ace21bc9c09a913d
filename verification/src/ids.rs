//! Identifiers: 128-bit numbers with a written form.

use vstd::arithmetic::power::pow;
use vstd::prelude::*;

use crate::chars::hex_char;
use crate::json::{Json, JsonView};

verus! {

/// The hexadecimal digits of an identifier, the most significant first.
pub open spec fn id_digits(id: u128) -> Seq<char> {
    Seq::new(32, |i: int| hex_char((id as int / pow(16, (31 - i) as nat)) % 16))
}

/// The written form: lower-case digits in groups of 8, 4, 4, 4 and 12, with
/// hyphens between them.
pub open spec fn id_text(id: u128) -> Seq<char> {
    let d = id_digits(id);
    d.subrange(0, 8) + seq!['-'] + d.subrange(8, 12) + seq!['-'] + d.subrange(12, 16) + seq!['-']
        + d.subrange(16, 20) + seq!['-'] + d.subrange(20, 32)
}

/// `Uuid::from_u128`, then the `Display` form of the `uuid` crate: the 16 bytes
/// in big-endian order as lower-case hexadecimal digits, hyphenated.
#[verifier::external_body]
pub(crate) fn write_id(id: u128) -> (r: String)
    ensures
        r@ == id_text(id),
{
    uuid::Uuid::from_u128(id).to_string()
}

/// An identifier as JSON writes it.
pub fn id_json(id: u128) -> (r: Json)
    ensures
        r.deep_view() == JsonView::Text(id_text(id)),
{
    Json::Text(write_id(id))
}

} // verus!
