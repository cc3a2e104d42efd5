//! Fixed-width chain values: addresses, 32-byte hashes and 256-bit numbers,
//! with the hexadecimal text form in which callers supply them.

use vstd::prelude::*;

use crate::error::AppError;

verus! {

/// The value of one hexadecimal digit, in either case.
pub open spec fn hex_digit(c: char) -> Option<u8> {
    let code = c as u32;
    if 48 <= code <= 57 {
        Some((code - 48) as u8)
    } else if 97 <= code <= 102 {
        Some((code - 87) as u8)
    } else if 65 <= code <= 70 {
        Some((code - 55) as u8)
    } else {
        None
    }
}

/// The digits of a hexadecimal text: the text without a leading `0x` or `0X`.
pub open spec fn hex_payload(text: Seq<char>) -> Seq<char> {
    if text.len() >= 2 && text[0] == '0' && (text[1] == 'x' || text[1] == 'X') {
        text.skip(2)
    } else {
        text
    }
}

/// The `width` bytes that a hexadecimal text spells, or `None` when the text
/// does not hold exactly `2 * width` digits after an optional prefix.
pub open spec fn decode_hex(text: Seq<char>, width: nat) -> Option<Seq<u8>> {
    let digits = hex_payload(text);
    if digits.len() == 2 * width && (forall|i: int|
        0 <= i < digits.len() ==> hex_digit(#[trigger] digits[i]) is Some) {
        Some(
            Seq::new(
                width,
                |i: int|
                    (16 * hex_digit(digits[2 * i]).unwrap() + hex_digit(
                        digits[2 * i + 1],
                    ).unwrap()) as u8,
            ),
        )
    } else {
        None
    }
}

/// Parses twenty bytes with `<alloy_primitives::Address as FromStr>::from_str`.
///
/// Trusted: the call accepts exactly the texts of forty hexadecimal digits,
/// upper or lower case, with or without a `0x`/`0X` prefix, and returns the
/// bytes they spell, first digit pair first. Nothing else is accepted; a
/// checksum is not looked at.
#[verifier::external_body]
fn address_from_hex(text: &str) -> (bytes: Option<[u8; 20]>)
    ensures
        bytes is Some <==> decode_hex(text@, 20) is Some,
        bytes matches Some(b) ==> b@ == decode_hex(text@, 20).unwrap(),
{
    match text.parse::<alloy_primitives::Address>() {
        Ok(address) => Some(address.into()),
        Err(_) => None,
    }
}

/// Parses thirty-two bytes with
/// `<alloy_primitives::FixedBytes<32> as FromStr>::from_str`.
///
/// Trusted: the call accepts exactly the texts of sixty-four hexadecimal
/// digits, upper or lower case, with or without a `0x`/`0X` prefix, and
/// returns the bytes they spell, first digit pair first.
#[verifier::external_body]
fn word_from_hex(text: &str) -> (bytes: Option<[u8; 32]>)
    ensures
        bytes is Some <==> decode_hex(text@, 32) is Some,
        bytes matches Some(b) ==> b@ == decode_hex(text@, 32).unwrap(),
{
    match text.parse::<alloy_primitives::FixedBytes<32>>() {
        Ok(word) => Some(word.0),
        Err(_) => None,
    }
}

/// A twenty-byte account address.
#[derive(Clone, Copy, Debug, PartialEq, Eq, Hash)]
pub struct Address(pub [u8; 20]);

impl View for Address {
    type V = Seq<u8>;

    open spec fn view(&self) -> Seq<u8> {
        self.0@
    }
}

impl Address {
    /// The address whose bytes are all zero.
    pub fn zero() -> (address: Address)
        ensures
            address@ == Seq::new(20, |i: int| 0u8),
    {
        let address = Address([0u8; 20]);
        assert(address@ =~= Seq::new(20, |i: int| 0u8));
        address
    }

    /// Whether every byte is zero.
    pub fn is_zero(&self) -> (zero: bool)
        ensures
            zero == (self@ == Seq::new(20, |i: int| 0u8)),
    {
        let mut i: usize = 0;
        while i < 20
            invariant
                i <= 20,
                forall|j: int| 0 <= j < i ==> self.0@[j] == 0,
            decreases 20 - i,
        {
            if self.0[i] != 0 {
                assert(self@[i as int] != Seq::new(20, |i: int| 0u8)[i as int]);
                return false;
            }
            i += 1;
        }
        assert(self@ =~= Seq::new(20, |i: int| 0u8));
        true
    }

    /// Reads an address from hexadecimal text. Malformed text is rejected with
    /// the text itself as the error's argument.
    pub fn parse(text: &str) -> (parsed: Result<Address, AppError>)
        ensures
            match decode_hex(text@, 20) {
                Some(bytes) => parsed matches Ok(address) && address@ == bytes,
                None => parsed matches Err(AppError::InvalidArg(input)) && input@ == text@,
            },
    {
        match address_from_hex(text) {
            Some(bytes) => Ok(Address(bytes)),
            None => Err(AppError::InvalidArg(text.to_owned())),
        }
    }
}

/// A thirty-two-byte hash.
#[derive(Clone, Copy, Debug, PartialEq, Eq, Hash)]
pub struct B256(pub [u8; 32]);

impl View for B256 {
    type V = Seq<u8>;

    open spec fn view(&self) -> Seq<u8> {
        self.0@
    }
}

impl B256 {
    /// Reads a hash from hexadecimal text. Malformed text is rejected with the
    /// text itself as the error's argument.
    pub fn parse(text: &str) -> (parsed: Result<B256, AppError>)
        ensures
            match decode_hex(text@, 32) {
                Some(bytes) => parsed matches Ok(hash) && hash@ == bytes,
                None => parsed matches Err(AppError::InvalidArg(input)) && input@ == text@,
            },
    {
        match word_from_hex(text) {
            Some(bytes) => Ok(B256(bytes)),
            None => Err(AppError::InvalidArg(text.to_owned())),
        }
    }
}

/// An unsigned 256-bit number, held as two 128-bit halves.
#[derive(Clone, Copy, Debug, PartialEq, Eq, Hash, Structural)]
pub struct U256 {
    pub hi: u128,
    pub lo: u128,
}

impl View for U256 {
    type V = nat;

    open spec fn view(&self) -> nat {
        (self.hi as nat) * 0x1_0000_0000_0000_0000_0000_0000_0000_0000 + (self.lo as nat)
    }
}

impl U256 {
    /// The number `value`.
    pub fn from_u128(value: u128) -> (number: U256)
        ensures
            number@ == value,
            number == (U256 { hi: 0, lo: value }),
    {
        U256 { hi: 0, lo: value }
    }

    /// The number `value`.
    pub fn from_u64(value: u64) -> (number: U256)
        ensures
            number@ == value,
            number == (U256 { hi: 0, lo: value as u128 }),
    {
        U256 { hi: 0, lo: value as u128 }
    }

    /// Whether the number is zero.
    pub fn is_zero(&self) -> (zero: bool)
        ensures
            zero == (self@ == 0),
    {
        assert(self.hi != 0 ==> self@ >= 0x1_0000_0000_0000_0000_0000_0000_0000_0000)
            by (nonlinear_arith)
            requires
                self@ == (self.hi as nat) * 0x1_0000_0000_0000_0000_0000_0000_0000_0000 + (
                self.lo as nat),
        ;
        self.hi == 0 && self.lo == 0
    }
}

} // verus!
