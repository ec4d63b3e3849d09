use vstd::prelude::*;

use rustc_apfloat::Float;

verus! {

/// The characters a sequence of ASCII bytes decodes to.
pub open spec fn ascii_chars(s: Seq<u8>) -> Seq<char> {
    s.map_values(|b: u8| b as char)
}

/// Whether every byte of `s` is ASCII.
pub open spec fn ascii_bytes(s: Seq<u8>) -> bool {
    forall|i: int| 0 <= i < s.len() ==> s[i] < 128
}

/// The decimal rendering of the double-precision value with bit pattern
/// `b`: a function of the bit pattern alone.
pub uninterp spec fn text_of(b: u64) -> Seq<u8>;

/// Relies on the `core::fmt::Display` impl of `rustc_apfloat::ieee::Double`:
/// it renders a decimal form of the value (or `NaN`, `+Inf`, `-Inf`) from
/// the bit pattern alone, in ASCII.
#[verifier::external_body]
pub(crate) fn number_text_bytes(b: u64) -> (r: Vec<u8>)
    ensures
        r@ == text_of(b),
        ascii_bytes(r@),
{
    format!("{}", rustc_apfloat::ieee::Double::from_bits(b as u128)).into_bytes()
}

/// Relies on `String::from_utf8`: ASCII bytes are valid UTF-8 and decode to
/// exactly those characters, so with the precondition the conversion cannot
/// fail.
#[verifier::external_body]
pub(crate) fn ascii_to_string(bytes: Vec<u8>) -> (r: String)
    requires
        ascii_bytes(bytes@),
    ensures
        r@ == ascii_chars(bytes@),
{
    String::from_utf8(bytes).unwrap_or_default()
}

/// A runtime datum the machine can push, pop, or store as a constant.
///
/// The tag set is open-ended by design: every consumer matches exhaustively,
/// so adding a variant is a compile-time-flagged, localized change. The
/// `Number` variant carries the raw bit pattern of an IEEE-754
/// double-precision value; all numeric operations of the machine are defined
/// over these bit patterns.
#[derive(Clone, Copy, Debug, PartialEq, Eq, Structural)]
pub enum Value {
    Number(u64),
}

impl Value {
    /// The bit pattern of a numeric value.
    pub open spec fn bits(self) -> u64 {
        match self {
            Value::Number(b) => b,
        }
    }

    /// Extract the bit pattern of this value.
    pub fn number_bits(&self) -> (r: u64)
        ensures
            r == self.bits(),
    {
        match self {
            Value::Number(b) => *b,
        }
    }

    /// Render this value for display: the decimal text of its number. For
    /// diagnostic and print use only; not part of the language's own I/O
    /// semantics.
    pub fn text(&self) -> (r: String)
        ensures
            r@ == ascii_chars(text_of(self.bits())),
    {
        match self {
            Value::Number(b) => ascii_to_string(number_text_bytes(*b)),
        }
    }
}

/// The bit pattern of the arithmetic negation of the double-precision value
/// with bit pattern `b`: IEEE-754 negation flips exactly the sign bit and
/// leaves every other bit, NaN payloads included, unchanged.
pub open spec fn negate_bits(b: u64) -> u64 {
    b ^ 0x8000_0000_0000_0000u64
}

/// Negate a double-precision bit pattern by flipping its sign bit.
pub fn negate_number(b: u64) -> (r: u64)
    ensures
        r == negate_bits(b),
{
    b ^ 0x8000_0000_0000_0000u64
}

} // verus!
