//! Upper-case hexadecimal text for bytes that may be shown.

use vstd::prelude::*;

verus! {

/// The upper-case hexadecimal digit of a value below 16.
pub open spec fn hex_digit(nibble: u8) -> char {
    seq!['0', '1', '2', '3', '4', '5', '6', '7', '8', '9', 'A', 'B', 'C', 'D', 'E', 'F'][nibble as int]
}

/// Two digits for each byte, the high half first.
pub open spec fn hex_upper(bytes: Seq<u8>) -> Seq<char> {
    Seq::new(
        2 * bytes.len(),
        |i: int|
            if i % 2 == 0 {
                hex_digit(bytes[i / 2] / 16)
            } else {
                hex_digit(bytes[i / 2] % 16)
            },
    )
}

/// The longest input that the encoder takes without a panic.
pub open spec fn encodable(bytes: Seq<u8>) -> bool {
    bytes.len() <= usize::MAX / 512
}

/// `data_encoding::HEXUPPER.encode`: base 16 with the symbols
/// `0123456789ABCDEF`, most significant half first, without padding or line
/// breaks. The outside function panics on an input longer than a 512th of
/// the largest `usize`.
#[verifier::external_body]
pub(crate) fn hex_upper_encode(bytes: &[u8]) -> (text: String)
    requires
        encodable(bytes@),
    ensures
        text@ == hex_upper(bytes@),
{
    data_encoding::HEXUPPER.encode(bytes)
}

} // verus!
