//! Percent-encoding through the `percent-encoding` crate.

use vstd::prelude::*;

verus! {

/// Uppercase hexadecimal digit of a value below 16.
pub open spec fn hex_upper(d: nat) -> char {
    if d < 10 {
        ((d + 48) as u8) as char
    } else {
        ((d + 55) as u8) as char
    }
}

/// ASCII letter or digit byte.
pub open spec fn is_alphanumeric_byte(b: u8) -> bool {
    (48 <= b <= 57) || (65 <= b <= 90) || (97 <= b <= 122)
}

/// How one byte is written by percent-encoding with the
/// `NON_ALPHANUMERIC` set: letters and digits stay, every other byte
/// becomes `%` and two uppercase hexadecimal digits.
pub open spec fn percent_encode_byte_spec(b: u8) -> Seq<char> {
    if is_alphanumeric_byte(b) {
        seq![b as char]
    } else {
        seq!['%', hex_upper((b / 16) as nat), hex_upper((b % 16) as nat)]
    }
}

/// Percent-encoding of a byte sequence with the `NON_ALPHANUMERIC` set.
pub open spec fn percent_encode_non_alphanumeric_spec(bytes: Seq<u8>) -> Seq<char>
    decreases bytes.len(),
{
    if bytes.len() == 0 {
        Seq::empty()
    } else {
        percent_encode_byte_spec(bytes[0]) + percent_encode_non_alphanumeric_spec(
            bytes.drop_first(),
        )
    }
}

/// `percent_encoding::utf8_percent_encode` with `NON_ALPHANUMERIC`: the
/// UTF-8 bytes of the text, each ASCII letter and digit kept and every
/// other byte written as `%XX` in uppercase hexadecimal. The contract
/// states that rule over the UTF-8 encoding of `s`.
#[verifier::external_body]
pub(crate) fn percent_encode_non_alphanumeric(s: &str) -> (r: String)
    ensures
        r@ == percent_encode_non_alphanumeric_spec(vstd::utf8::encode_utf8(s@)),
{
    percent_encoding::utf8_percent_encode(s, percent_encoding::NON_ALPHANUMERIC).to_string()
}

} // verus!
