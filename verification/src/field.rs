//! Unsigned 256-bit integers as four 64-bit limbs, and their decimal notation.

use ethers_core::types::U256;
use ethers_core::abi::ethereum_types::FromDecStrErr;
use vstd::prelude::*;

verus! {

/// An unsigned 256-bit integer, least significant limb first.
#[derive(Clone, Copy, Debug, PartialEq, Eq)]
pub struct Field {
    pub limbs: [u64; 4],
}

/// Why a text is not the decimal notation of a `Field`.
#[derive(Clone, Copy, Debug, PartialEq, Eq, Structural)]
pub enum DecimalError {
    /// A character outside `0..=9` was met.
    InvalidCharacter,
    /// The digits read so far denote a number of more than 256 bits.
    InvalidLength,
}

/// The first number that no `Field` holds: two to the power 256.
pub open spec fn field_limit() -> nat {
    0x1_0000_0000_0000_0000_0000_0000_0000_0000_0000_0000_0000_0000_0000_0000_0000_0000nat
}

/// The number that four limbs denote.
pub open spec fn limbs_value(limbs: [u64; 4]) -> nat {
    (limbs[0] as nat) + (limbs[1] as nat) * 0x1_0000_0000_0000_0000nat + (limbs[2] as nat)
        * 0x1_0000_0000_0000_0000_0000_0000_0000_0000nat + (limbs[3] as nat)
        * 0x1_0000_0000_0000_0000_0000_0000_0000_0000_0000_0000_0000_0000nat
}

impl View for Field {
    type V = nat;

    open spec fn view(&self) -> nat {
        limbs_value(self.limbs)
    }
}

/// `a` comes before `b` when both are read from the most significant limb
/// down.
pub open spec fn limbs_below(a: [u64; 4], b: [u64; 4]) -> bool {
    a[3] < b[3] || (a[3] == b[3] && (a[2] < b[2] || (a[2] == b[2] && (a[1] < b[1] || (a[1] == b[1]
        && a[0] < b[0])))))
}

pub open spec fn is_digit(c: char) -> bool {
    '0' <= c && c <= '9'
}

pub open spec fn all_digits(s: Seq<char>) -> bool {
    forall|i: int| 0 <= i < s.len() ==> is_digit(#[trigger] s[i])
}

pub open spec fn digit_value(c: char) -> nat {
    if is_digit(c) {
        (c as nat - '0' as nat) as nat
    } else {
        0
    }
}

/// The number that a sequence of digits denotes in base ten; the empty
/// sequence denotes zero.
pub open spec fn decimal_value(s: Seq<char>) -> nat
    decreases s.len(),
{
    if s.len() == 0 {
        0
    } else {
        decimal_value(s.drop_last()) * 10 + digit_value(s.last())
    }
}

/// Some prefix of `s` is made of digits and already denotes a number of more
/// than 256 bits.
pub open spec fn digits_overflow(s: Seq<char>) -> bool {
    exists|n: int|
        0 <= n <= s.len() && all_digits(#[trigger] s.take(n)) && decimal_value(s.take(n))
            >= field_limit()
}

/// What reading `s` as a decimal `Field` gives. Reading goes from the left
/// and stops at the first character that is no digit or at the first digit
/// with which the number no longer fits, whichever comes first.
pub open spec fn parse_decimal(s: Seq<char>) -> Result<nat, DecimalError> {
    if digits_overflow(s) {
        Err(DecimalError::InvalidLength)
    } else if !all_digits(s) {
        Err(DecimalError::InvalidCharacter)
    } else {
        Ok(decimal_value(s))
    }
}

pub open spec fn field_result_view(r: Result<Field, DecimalError>) -> Result<nat, DecimalError> {
    match r {
        Ok(f) => Ok(f@),
        Err(e) => Err(e),
    }
}

/// Calls `U256::from_dec_str` of the `uint` crate, as `ethers_core` exports it.
/// Trusted: the call reads the text byte by byte from the left, fails with
/// `InvalidCharacter` at a byte outside `b'0'..=b'9'` (every byte of a
/// character beyond ASCII is one), fails with `InvalidLength` when ten times
/// the number so far plus the digit needs more than 256 bits, and otherwise
/// returns the number, whose limbs are little-endian.
#[verifier::external_body]
fn u256_from_dec_str(text: &str) -> (r: Result<Field, DecimalError>)
    ensures
        field_result_view(r) == parse_decimal(text@),
{
    match U256::from_dec_str(text) {
        Ok(v) => Ok(Field { limbs: v.0 }),
        Err(FromDecStrErr::InvalidCharacter) => Err(DecimalError::InvalidCharacter),
        Err(FromDecStrErr::InvalidLength) => Err(DecimalError::InvalidLength),
    }
}

impl Field {
    pub fn zero() -> (r: Field)
        ensures
            r@ == 0,
    {
        Field { limbs: [0, 0, 0, 0] }
    }

    pub fn from_u64(value: u64) -> (r: Field)
        ensures
            r@ == value,
    {
        Field { limbs: [value, 0, 0, 0] }
    }

    /// Reads a decimal notation: digits only, no sign, no blanks.
    pub fn from_dec_str(text: &str) -> (r: Result<Field, DecimalError>)
        ensures
            field_result_view(r) == parse_decimal(text@),
    {
        u256_from_dec_str(text)
    }

    /// `self >= other` as numbers.
    pub fn ge(&self, other: &Field) -> (r: bool)
        ensures
            r == (self@ >= other@),
    {
        proof {
            lemma_field_order(*self, *other);
        }
        if self.limbs[3] != other.limbs[3] {
            self.limbs[3] > other.limbs[3]
        } else if self.limbs[2] != other.limbs[2] {
            self.limbs[2] > other.limbs[2]
        } else if self.limbs[1] != other.limbs[1] {
            self.limbs[1] > other.limbs[1]
        } else {
            self.limbs[0] >= other.limbs[0]
        }
    }

    /// Equality as numbers.
    pub fn same(&self, other: &Field) -> (r: bool)
        ensures
            r == (self@ == other@),
    {
        proof {
            lemma_field_order(*self, *other);
            if self@ == other@ {
                assert(self.limbs@[0] == other.limbs@[0] && self.limbs@[1] == other.limbs@[1]
                    && self.limbs@[2] == other.limbs@[2] && self.limbs@[3] == other.limbs@[3]);
            }
        }
        self.limbs[0] == other.limbs[0] && self.limbs[1] == other.limbs[1] && self.limbs[2]
            == other.limbs[2] && self.limbs[3] == other.limbs[3]
    }
}

/// The numbers of two fields compare as their limbs do, read from the most
/// significant one down.
pub proof fn lemma_field_order(a: Field, b: Field)
    ensures
        a@ < b@ <==> limbs_below(a.limbs, b.limbs),
        a@ == b@ <==> a.limbs@ =~= b.limbs@,
{
    let w1 = 0x1_0000_0000_0000_0000int;
    let w2 = 0x1_0000_0000_0000_0000_0000_0000_0000_0000int;
    let w3 = 0x1_0000_0000_0000_0000_0000_0000_0000_0000_0000_0000_0000_0000int;
    let (a0, a1, a2, a3) = (
        a.limbs[0] as int,
        a.limbs[1] as int,
        a.limbs[2] as int,
        a.limbs[3] as int,
    );
    let (b0, b1, b2, b3) = (
        b.limbs[0] as int,
        b.limbs[1] as int,
        b.limbs[2] as int,
        b.limbs[3] as int,
    );
    let la1 = a0 + a1 * w1;
    let lb1 = b0 + b1 * w1;
    let la2 = la1 + a2 * w2;
    let lb2 = lb1 + b2 * w2;
    assert(0 <= la1 < w2 && 0 <= lb1 < w2);
    assert(0 <= la2 < w3 && 0 <= lb2 < w3);
    assert(a@ == la2 + a3 * w3 && b@ == lb2 + b3 * w3);
    if a3 < b3 {
        assert(a3 * w3 + w3 <= b3 * w3);
    } else if a3 > b3 {
        assert(b3 * w3 + w3 <= a3 * w3);
    } else if a2 < b2 {
        assert(a2 * w2 + w2 <= b2 * w2);
    } else if a2 > b2 {
        assert(b2 * w2 + w2 <= a2 * w2);
    } else if a1 < b1 {
        assert(a1 * w1 + w1 <= b1 * w1);
    } else if a1 > b1 {
        assert(b1 * w1 + w1 <= a1 * w1);
    } else {
    }
}

/// Two fields denote the same number only if their limbs agree.
pub proof fn lemma_field_view_injective(a: Field, b: Field)
    requires
        a@ == b@,
    ensures
        a.limbs@ =~= b.limbs@,
{
    lemma_field_order(a, b);
}

} // verus!
