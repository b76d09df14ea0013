//! Validator addresses of appchains: 32 bytes written in hex, with or without a `0x` prefix.
use crate::error::RelayError;
use vstd::prelude::*;
use vstd::string::*;

verus! {

/// The error that `hex::decode` reports.
#[verifier::external_type_specification]
#[verifier::external_body]
pub struct ExFromHexError(hex::FromHexError);

/// `c` is a hex digit, in either case.
pub open spec fn is_hex_digit(c: char) -> bool {
    ('0' <= c && c <= '9') || ('a' <= c && c <= 'f') || ('A' <= c && c <= 'F')
}

/// Value of a hex digit.
pub open spec fn hex_value(c: char) -> int {
    if '0' <= c && c <= '9' {
        c as int - '0' as int
    } else if 'a' <= c && c <= 'f' {
        c as int - 'a' as int + 10
    } else {
        c as int - 'A' as int + 10
    }
}

/// `s` is an even number of hex digits.
pub open spec fn is_hex(s: Seq<char>) -> bool {
    s.len() % 2 == 0 && forall|i: int| 0 <= i < s.len() ==> is_hex_digit(#[trigger] s[i])
}

/// The bytes written by an even number of hex digits, two digits per byte.
pub open spec fn hex_bytes(s: Seq<char>) -> Seq<u8> {
    Seq::new(s.len() / 2, |i: int| (hex_value(s[2 * i]) * 16 + hex_value(s[2 * i + 1])) as u8)
}

/// Decodes hex text with `hex::decode`.
///
/// `hex::decode` reads the UTF-8 bytes of the text: it fails on an odd number of bytes
/// and on any byte that is not an ASCII hex digit, and otherwise turns each pair of
/// digits into one byte. A non-ASCII character gives bytes that are no hex digits, so
/// the contract is stated over the characters.
#[verifier::external_body]
fn hex_decode(s: &str) -> (r: Result<Vec<u8>, hex::FromHexError>)
    ensures
        r is Ok <==> is_hex(s@),
        r matches Ok(v) ==> v@ == hex_bytes(s@),
{
    hex::decode(s)
}

/// The first two bytes of the UTF-8 text of `a` are whole characters: the text can be cut
/// after its second byte.
pub open spec fn cut_after_two_bytes(a: Seq<char>) -> bool {
    ||| a.len() >= 2 && (a[0] as u32) < 0x80 && (a[1] as u32) < 0x80
    ||| a.len() >= 1 && 0x80 <= (a[0] as u32) && (a[0] as u32) < 0x800
}

/// Whether the text can be cut after its second byte.
pub(crate) fn can_cut_after_two_bytes(a: &String) -> (r: bool)
    ensures
        r == cut_after_two_bytes(a@),
{
    let s = a.as_str();
    let n = s.unicode_len();
    if n >= 2 && (s.get_char(0) as u32) < 0x80 && (s.get_char(1) as u32) < 0x80 {
        true
    } else {
        n >= 1 && 0x80 <= (s.get_char(0) as u32) && (s.get_char(0) as u32) < 0x800
    }
}

/// The hex digits of an address: what follows a leading `0x`, or the whole text.
pub open spec fn hex_digits_of(a: Seq<char>) -> Seq<char> {
    if a.len() >= 2 && a[0] == '0' && a[1] == 'x' {
        a.skip(2)
    } else {
        a
    }
}

/// The outcome of validating an address: `0x` followed by its 64 hex digits.
pub open spec fn validated_address(a: Seq<char>) -> Result<Seq<char>, RelayError> {
    let h = hex_digits_of(a);
    if !is_hex(h) {
        Err(RelayError::InvalidHexAddress)
    } else if h.len() != 64 {
        Err(RelayError::AddressNotThirtyTwoBytes)
    } else {
        Ok(seq!['0', 'x'] + h)
    }
}

/// Validates a hex address of 32 bytes and writes it with a `0x` prefix.
pub fn validate_hex_address(address: &String) -> (r: Result<String, RelayError>)
    requires
        cut_after_two_bytes(address@),
    ensures
        match (r, validated_address(address@)) {
            (Ok(s), Ok(t)) => s@ == t,
            (Err(e), Err(f)) => e == f,
            _ => false,
        },
{
    let a = address.as_str();
    let n = a.unicode_len();
    let hex_str: &str = if n >= 2 && a.get_char(0) == '0' && a.get_char(1) == 'x' {
        a.substring_char(2, n)
    } else {
        a
    };
    assert(hex_str@ == hex_digits_of(address@));
    match hex_decode(hex_str) {
        Ok(data) => {
            if data.len() != 32 {
                return Err(RelayError::AddressNotThirtyTwoBytes);
            }
            proof {
                reveal_strlit("0x");
                assert("0x"@ =~= seq!['0', 'x']);
            }
            let hex_address = String::from_str("0x").concat(hex_str);
            Ok(hex_address)
        },
        Err(_) => Err(RelayError::InvalidHexAddress),
    }
}

/// A validated address validates to itself, and can be cut after its first two bytes.
pub proof fn law_validate_idempotent(a: Seq<char>)
    requires
        validated_address(a) is Ok,
    ensures
        cut_after_two_bytes(validated_address(a)->Ok_0),
        validated_address(validated_address(a)->Ok_0) == validated_address(a),
{
    let v = validated_address(a)->Ok_0;
    let h = hex_digits_of(a);
    assert(v.skip(2) =~= h);
    assert(hex_digits_of(v) == h);
}

} // verus!
