//! Lower-case hexadecimal rendering of a digest, through `data_encoding`.

use vstd::prelude::*;

verus! {

/// The lower-case hexadecimal digit of a nibble.
pub open spec fn hex_digit(nibble: u8) -> char
    recommends
        nibble < 16,
{
    seq!['0', '1', '2', '3', '4', '5', '6', '7', '8', '9', 'a', 'b', 'c', 'd', 'e', 'f'][nibble as int]
}

/// Two lower-case hexadecimal digits per byte, high nibble first.
pub open spec fn lower_hex(bytes: Seq<u8>) -> Seq<char>
    decreases bytes.len(),
{
    if bytes.len() == 0 {
        Seq::empty()
    } else {
        let b = bytes.last();
        lower_hex(bytes.drop_last()) + seq![hex_digit(b / 16), hex_digit(b % 16)]
    }
}

/// Relies on `data_encoding::HEXLOWER.encode`: each byte as two lower-case
/// hexadecimal digits, most significant nibble first. `encode` panics on
/// inputs longer than `usize::MAX / 512`.
#[verifier::external_body]
fn hexlower_encode(bytes: &[u8]) -> (r: String)
    requires
        bytes@.len() <= usize::MAX / 512,
    ensures
        r@ == lower_hex(bytes@),
{
    data_encoding::HEXLOWER.encode(bytes)
}

/// A digest written as lower-case hexadecimal.
pub fn hex_digest(digest: &[u8]) -> (r: String)
    requires
        digest@.len() <= usize::MAX / 512,
    ensures
        r@ == lower_hex(digest@),
        r@.len() == 2 * digest@.len(),
{
    let r = hexlower_encode(digest);
    proof {
        lemma_lower_hex_len(digest@);
    }
    r
}

/// Hexadecimal text has two digits per byte.
pub proof fn lemma_lower_hex_len(bytes: Seq<u8>)
    ensures
        lower_hex(bytes).len() == 2 * bytes.len(),
    decreases bytes.len(),
{
    if bytes.len() > 0 {
        lemma_lower_hex_len(bytes.drop_last());
    }
}

} // verus!
