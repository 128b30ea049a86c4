//! Runtime numbers are IEEE-754 double-precision values, carried everywhere
//! as their 64-bit patterns so that tokens, expression trees and runtime
//! values hold plain integers. The operations on the carried values are
//! delegated to the machine's double-precision arithmetic behind trusted
//! wrappers; each result is named by an uninterpreted spec function of the
//! operand patterns alone, which pins every operation down as deterministic.
use byteorder::{ByteOrder, LittleEndian};
use vstd::prelude::*;

verus! {

pub uninterp spec fn number_of_literal(s: Seq<char>) -> u64;

pub uninterp spec fn add_of(a: u64, b: u64) -> u64;

pub uninterp spec fn sub_of(a: u64, b: u64) -> u64;

pub uninterp spec fn mul_of(a: u64, b: u64) -> u64;

pub uninterp spec fn div_of(a: u64, b: u64) -> u64;

pub uninterp spec fn neg_of(a: u64) -> u64;

pub uninterp spec fn eq_of(a: u64, b: u64) -> bool;

pub uninterp spec fn lt_of(a: u64, b: u64) -> bool;

pub uninterp spec fn le_of(a: u64, b: u64) -> bool;

pub uninterp spec fn display_of(a: u64) -> Seq<char>;

pub uninterp spec fn debug_of(a: u64) -> Seq<char>;

/// Relies on str::parse reading a decimal literal as a double-precision
/// value, rounded to nearest; an unparsable text yields the zero pattern.
/// byteorder's write_f64/read_u64 turn the value into its bit pattern.
#[verifier::external_body]
pub(crate) fn number_bits(s: &str) -> (r: u64)
    ensures
        r == number_of_literal(s@),
{
    let mut buf = [0u8; 8];
    let v = match s.parse() {
        Ok(v) => v,
        Err(_) => LittleEndian::read_f64(&buf),
    };
    LittleEndian::write_f64(&mut buf, v);
    LittleEndian::read_u64(&buf)
}

/// Relies on the machine's double-precision addition; byteorder's
/// read_f64/write_f64 move the operands and result between bit patterns.
#[verifier::external_body]
pub(crate) fn add_bits(a: u64, b: u64) -> (r: u64)
    ensures
        r == add_of(a, b),
{
    let x = LittleEndian::read_f64(&a.to_le_bytes());
    let y = LittleEndian::read_f64(&b.to_le_bytes());
    let mut buf = [0u8; 8];
    LittleEndian::write_f64(&mut buf, x + y);
    LittleEndian::read_u64(&buf)
}

/// Relies on the machine's double-precision subtraction; byteorder's
/// read_f64/write_f64 move the operands and result between bit patterns.
#[verifier::external_body]
pub(crate) fn sub_bits(a: u64, b: u64) -> (r: u64)
    ensures
        r == sub_of(a, b),
{
    let x = LittleEndian::read_f64(&a.to_le_bytes());
    let y = LittleEndian::read_f64(&b.to_le_bytes());
    let mut buf = [0u8; 8];
    LittleEndian::write_f64(&mut buf, x - y);
    LittleEndian::read_u64(&buf)
}

/// Relies on the machine's double-precision multiplication; byteorder's
/// read_f64/write_f64 move the operands and result between bit patterns.
#[verifier::external_body]
pub(crate) fn mul_bits(a: u64, b: u64) -> (r: u64)
    ensures
        r == mul_of(a, b),
{
    let x = LittleEndian::read_f64(&a.to_le_bytes());
    let y = LittleEndian::read_f64(&b.to_le_bytes());
    let mut buf = [0u8; 8];
    LittleEndian::write_f64(&mut buf, x * y);
    LittleEndian::read_u64(&buf)
}

/// Relies on the machine's double-precision division (division by zero
/// yields an infinity, never a fault); byteorder's read_f64/write_f64 move
/// the operands and result between bit patterns.
#[verifier::external_body]
pub(crate) fn div_bits(a: u64, b: u64) -> (r: u64)
    ensures
        r == div_of(a, b),
{
    let x = LittleEndian::read_f64(&a.to_le_bytes());
    let y = LittleEndian::read_f64(&b.to_le_bytes());
    let mut buf = [0u8; 8];
    LittleEndian::write_f64(&mut buf, x / y);
    LittleEndian::read_u64(&buf)
}

/// Relies on the machine's double-precision negation; byteorder's
/// read_f64/write_f64 move the operand and result between bit patterns.
#[verifier::external_body]
pub(crate) fn neg_bits(a: u64) -> (r: u64)
    ensures
        r == neg_of(a),
{
    let x = LittleEndian::read_f64(&a.to_le_bytes());
    let mut buf = [0u8; 8];
    LittleEndian::write_f64(&mut buf, -x);
    LittleEndian::read_u64(&buf)
}

/// Relies on double-precision equality (distinct from bit equality: the two
/// zeros compare equal, a NaN compares unequal to itself); byteorder's
/// read_f64 reads the operands from their bit patterns.
#[verifier::external_body]
pub(crate) fn eq_bits(a: u64, b: u64) -> (r: bool)
    ensures
        r == eq_of(a, b),
{
    let x = LittleEndian::read_f64(&a.to_le_bytes());
    let y = LittleEndian::read_f64(&b.to_le_bytes());
    x == y
}

/// Relies on the double-precision ordered less-than comparison (false when
/// either operand is a NaN); byteorder's read_f64 reads the operands.
#[verifier::external_body]
pub(crate) fn lt_bits(a: u64, b: u64) -> (r: bool)
    ensures
        r == lt_of(a, b),
{
    let x = LittleEndian::read_f64(&a.to_le_bytes());
    let y = LittleEndian::read_f64(&b.to_le_bytes());
    x < y
}

/// Relies on the double-precision ordered at-most comparison (false when
/// either operand is a NaN); byteorder's read_f64 reads the operands.
#[verifier::external_body]
pub(crate) fn le_bits(a: u64, b: u64) -> (r: bool)
    ensures
        r == le_of(a, b),
{
    let x = LittleEndian::read_f64(&a.to_le_bytes());
    let y = LittleEndian::read_f64(&b.to_le_bytes());
    x <= y
}

/// Relies on the standard display formatting of a double-precision value
/// (shortest decimal digits, no trailing ".0" on integral values);
/// byteorder's read_f64 reads the value from its bit pattern.
#[verifier::external_body]
pub(crate) fn display_bits(a: u64) -> (r: String)
    ensures
        r@ == display_of(a),
{
    let x = LittleEndian::read_f64(&a.to_le_bytes());
    format!("{}", x)
}

/// Relies on the standard debug formatting of a double-precision value
/// (shortest decimal digits, at least one fractional digit); byteorder's
/// read_f64 reads the value from its bit pattern.
#[verifier::external_body]
pub(crate) fn debug_bits(a: u64) -> (r: String)
    ensures
        r@ == debug_of(a),
{
    let x = LittleEndian::read_f64(&a.to_le_bytes());
    format!("{:?}", x)
}

} // verus!
