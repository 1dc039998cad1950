//! The scalar of the chain: an element of the prime field of order
//! `P = 2^251 + 17 * 2^192 + 1`, held as four little-endian 64-bit limbs.
use crate::bytes::{be8, lemma_be8_round_trip, push_be8, read_be8, u64_of_be8};
use vstd::prelude::*;

verus! {

/// The top limb of the field's order.
pub const PRIME_TOP_LIMB: u64 = 0x0800_0000_0000_0011;

/// The order of the field.
pub open spec fn prime() -> nat {
    0x800000000000011000000000000000000000000000000000000000000000001nat
}

/// A field element, limbs least significant first. Every value built by this
/// library is below [`prime`]; a
/// value read from bytes is checked to be.
#[derive(Clone, Copy, Debug, PartialEq, Eq, Hash, Structural)]
pub struct Felt {
    pub d0: u64,
    pub d1: u64,
    pub d2: u64,
    pub d3: u64,
}

impl Felt {
    /// The integer that the limbs stand for.
    pub open spec fn value(self) -> nat {
        self.d0 as nat + self.d1 as nat * 0x1_0000_0000_0000_0000nat + self.d2 as nat
            * 0x1_0000_0000_0000_0000_0000_0000_0000_0000nat + self.d3 as nat
            * 0x1_0000_0000_0000_0000_0000_0000_0000_0000_0000_0000_0000_0000nat
    }

    /// The limbs, least significant first.
    pub open spec fn limbs(self) -> Seq<u64> {
        seq![self.d0, self.d1, self.d2, self.d3]
    }

    /// The value is a field element.
    pub open spec fn valid(self) -> bool {
        self.value() < prime()
    }

    /// The limb test that decides [`Felt::valid`].
    pub open spec fn limbs_below_prime(self) -> bool {
        self.d3 < PRIME_TOP_LIMB || (self.d3 == PRIME_TOP_LIMB && self.d2 == 0 && self.d1 == 0
            && self.d0 == 0)
    }

    /// The 32 big-endian bytes of the value.
    pub open spec fn be_bytes(self) -> Seq<u8> {
        be8(self.d3) + be8(self.d2) + be8(self.d1) + be8(self.d0)
    }

    /// The element that a machine integer stands for.
    pub open spec fn spec_from_u64(v: u64) -> Felt {
        Felt { d0: v, d1: 0, d2: 0, d3: 0 }
    }

    /// The element built from a machine integer.
    pub fn new(v: u64) -> (r: Felt)
        ensures
            r == Felt::spec_from_u64(v),
            r.value() == v,
            r.valid(),
            r.limbs() == seq![v, 0u64, 0u64, 0u64],
    {
        Felt { d0: v, d1: 0, d2: 0, d3: 0 }
    }

    /// Zero.
    pub fn zero() -> (r: Felt)
        ensures
            r.value() == 0,
            r.valid(),
            r == Felt::spec_zero(),
    {
        Felt { d0: 0, d1: 0, d2: 0, d3: 0 }
    }

    pub open spec fn spec_zero() -> Felt {
        Felt { d0: 0, d1: 0, d2: 0, d3: 0 }
    }

    /// The element with the given limbs, least significant first, if it is
    /// below the field's order.
    pub fn from_limbs(d0: u64, d1: u64, d2: u64, d3: u64) -> (r: Option<Felt>)
        ensures
            r matches Some(f) ==> f.limbs() == seq![d0, d1, d2, d3] && f.valid(),
            r is None <==> !(Felt { d0, d1, d2, d3 }).valid(),
    {
        let f = Felt { d0, d1, d2, d3 };
        proof {
            lemma_valid_limbs(f);
        }
        if d3 < PRIME_TOP_LIMB || (d3 == PRIME_TOP_LIMB && d2 == 0 && d1 == 0 && d0 == 0) {
            Some(f)
        } else {
            None
        }
    }

    /// The least significant limb.
    pub fn low_u64(&self) -> (r: u64)
        ensures
            r == self.limbs()[0],
            r == self.value() % 0x1_0000_0000_0000_0000nat,
    {
        proof {
            lemma_value_low(*self);
        }
        self.d0
    }

    /// The value, where it fits in 64 bits.
    pub fn to_u64(&self) -> (r: Option<u64>)
        ensures
            r matches Some(v) ==> v == self.value(),
            r is None <==> self.value() > u64::MAX,
    {
        proof {
            lemma_value_low(*self);
        }
        if self.d1 == 0 && self.d2 == 0 && self.d3 == 0 {
            Some(self.d0)
        } else {
            None
        }
    }

    /// Appends the 32 big-endian bytes of the value.
    pub fn write_be_bytes(&self, out: &mut Vec<u8>)
        ensures
            final(out)@ == old(out)@ + self.be_bytes(),
    {
        push_be8(out, self.d3);
        push_be8(out, self.d2);
        push_be8(out, self.d1);
        push_be8(out, self.d0);
        assert(out@ =~= old(out)@ + self.be_bytes());
    }

    /// The 32 big-endian bytes of the value.
    pub fn to_be_bytes(&self) -> (r: Vec<u8>)
        ensures
            r@ == self.be_bytes(),
    {
        let mut out: Vec<u8> = Vec::new();
        self.write_be_bytes(&mut out);
        assert(out@ =~= self.be_bytes());
        out
    }

    /// Reads 32 big-endian bytes at `pos`; `None` where they stand for a value
    /// not below the field's order.
    pub fn read_be_bytes(b: &Vec<u8>, pos: usize) -> (r: Option<Felt>)
        requires
            pos + 32 <= b.len(),
        ensures
            r == felt_of_be32(b@.subrange(pos as int, pos + 32)),
    {
        let d3 = read_be8(b, pos);
        let d2 = read_be8(b, pos + 8);
        let d1 = read_be8(b, pos + 16);
        let d0 = read_be8(b, pos + 24);
        let ghost s = b@.subrange(pos as int, pos + 32);
        assert(b@.subrange(pos as int, pos + 8) =~= s.subrange(0, 8));
        assert(b@.subrange(pos + 8, pos + 16) =~= s.subrange(8, 16));
        assert(b@.subrange(pos + 16, pos + 24) =~= s.subrange(16, 24));
        assert(b@.subrange(pos + 24, pos + 32) =~= s.subrange(24, 32));
        Felt::from_limbs(d0, d1, d2, d3)
    }
}

/// The element that 32 big-endian bytes stand for, if it is below the order.
pub open spec fn felt_of_be32(s: Seq<u8>) -> Option<Felt> {
    let f = Felt {
        d0: u64_of_be8(s.subrange(24, 32)),
        d1: u64_of_be8(s.subrange(16, 24)),
        d2: u64_of_be8(s.subrange(8, 16)),
        d3: u64_of_be8(s.subrange(0, 8)),
    };
    if f.valid() {
        Some(f)
    } else {
        None
    }
}

pub proof fn lemma_be_bytes_round_trip(f: Felt)
    requires
        f.valid(),
    ensures
        f.be_bytes().len() == 32,
        felt_of_be32(f.be_bytes()) == Some(f),
{
    lemma_be8_round_trip(f.d0);
    lemma_be8_round_trip(f.d1);
    lemma_be8_round_trip(f.d2);
    lemma_be8_round_trip(f.d3);
    let s = f.be_bytes();
    assert(s.subrange(0, 8) =~= be8(f.d3));
    assert(s.subrange(8, 16) =~= be8(f.d2));
    assert(s.subrange(16, 24) =~= be8(f.d1));
    assert(s.subrange(24, 32) =~= be8(f.d0));
}

pub proof fn lemma_value_low(f: Felt)
    ensures
        f.value() % 0x1_0000_0000_0000_0000nat == f.d0,
        f.value() <= u64::MAX <==> (f.d1 == 0 && f.d2 == 0 && f.d3 == 0),
{
    let b: int = 0x1_0000_0000_0000_0000;
    let hi: int = f.d1 as int + f.d2 as int * b + f.d3 as int * b * b;
    assert(f.value() == f.d0 as int + hi * b) by (nonlinear_arith)
        requires
            b == 0x1_0000_0000_0000_0000int,
            hi == f.d1 as int + f.d2 as int * b + f.d3 as int * b * b,
            f.value() == f.d0 as nat + f.d1 as nat * 0x1_0000_0000_0000_0000nat + f.d2 as nat
                * 0x1_0000_0000_0000_0000_0000_0000_0000_0000nat + f.d3 as nat
                * 0x1_0000_0000_0000_0000_0000_0000_0000_0000_0000_0000_0000_0000nat,
    ;
    assert(hi >= 0) by (nonlinear_arith)
        requires
            b > 0,
            hi == f.d1 as int + f.d2 as int * b + f.d3 as int * b * b,
    ;
    assert(hi == 0 <==> (f.d1 == 0 && f.d2 == 0 && f.d3 == 0)) by (nonlinear_arith)
        requires
            b > 0,
            hi == f.d1 as int + f.d2 as int * b + f.d3 as int * b * b,
    ;
    vstd::arithmetic::div_mod::lemma_fundamental_div_mod_converse(
        f.value() as int,
        b,
        hi,
        f.d0 as int,
    );
    if hi > 0 {
        assert(hi * b >= b) by (nonlinear_arith)
            requires
                hi > 0,
                b > 0,
        ;
    }
}

/// The limb test decides validity.
pub proof fn lemma_valid_limbs(f: Felt)
    ensures
        f.valid() <==> f.limbs_below_prime(),
{
    let b: int = 0x1_0000_0000_0000_0000;
    let top: int = b * b * b;
    let low: int = f.d0 as int + f.d1 as int * b + f.d2 as int * b * b;
    assert(f.value() == low + f.d3 as int * top) by (nonlinear_arith)
        requires
            b == 0x1_0000_0000_0000_0000int,
            top == b * b * b,
            low == f.d0 as int + f.d1 as int * b + f.d2 as int * b * b,
            f.value() == f.d0 as nat + f.d1 as nat * 0x1_0000_0000_0000_0000nat + f.d2 as nat
                * 0x1_0000_0000_0000_0000_0000_0000_0000_0000nat + f.d3 as nat
                * 0x1_0000_0000_0000_0000_0000_0000_0000_0000_0000_0000_0000_0000nat,
    ;
    assert(0 <= low < top) by (nonlinear_arith)
        requires
            b == 0x1_0000_0000_0000_0000int,
            top == b * b * b,
            low == f.d0 as int + f.d1 as int * b + f.d2 as int * b * b,
            0 <= f.d0 < b,
            0 <= f.d1 < b,
            0 <= f.d2 < b,
    ;
    assert(low == 0 <==> (f.d0 == 0 && f.d1 == 0 && f.d2 == 0)) by (nonlinear_arith)
        requires
            b == 0x1_0000_0000_0000_0000int,
            low == f.d0 as int + f.d1 as int * b + f.d2 as int * b * b,
            0 <= f.d0 < b,
            0 <= f.d1 < b,
            0 <= f.d2 < b,
    ;
    assert(prime() == PRIME_TOP_LIMB as int * top + 1);
    let t = PRIME_TOP_LIMB as int;
    let d3 = f.d3 as int;
    if d3 < t {
        assert(low + d3 * top < t * top + 1) by (nonlinear_arith)
            requires
                d3 < t,
                0 <= low < top,
        ;
    } else if d3 > t {
        assert(low + d3 * top >= t * top + 1) by (nonlinear_arith)
            requires
                d3 > t,
                0 <= low < top,
        ;
    }
}

/// The integer whose big-endian bytes are `s`.
pub open spec fn be_value(s: Seq<u8>) -> nat
    decreases s.len(),
{
    if s.len() == 0 {
        0
    } else {
        be_value(s.drop_last()) * 256 + s.last() as nat
    }
}

/// The lower-case hexadecimal digit for `d < 16`.
pub open spec fn hex_char(d: nat) -> char {
    if d == 0 { '0' } else if d == 1 { '1' } else if d == 2 { '2' } else if d == 3 { '3' }
    else if d == 4 { '4' } else if d == 5 { '5' } else if d == 6 { '6' } else if d == 7 { '7' }
    else if d == 8 { '8' } else if d == 9 { '9' } else if d == 10 { 'a' } else if d == 11 { 'b' }
    else if d == 12 { 'c' } else if d == 13 { 'd' } else if d == 14 { 'e' } else { 'f' }
}

/// The lower-case hexadecimal numeral of `n`, without leading zeros (`0` for
/// zero).
pub open spec fn hex_digits(n: nat) -> Seq<char>
    decreases n,
{
    if n < 16 {
        seq![hex_char(n)]
    } else {
        hex_digits(n / 16).push(hex_char(n % 16))
    }
}

/// A hexadecimal digit, in either case.
pub open spec fn is_hex_char(c: char) -> bool {
    ('0' <= c && c <= '9') || ('a' <= c && c <= 'f') || ('A' <= c && c <= 'F')
}

/// The value of a hexadecimal digit.
pub open spec fn hex_char_value(c: char) -> nat {
    if '0' <= c && c <= '9' {
        (c as u32 - '0' as u32) as nat
    } else if 'a' <= c && c <= 'f' {
        (c as u32 - 'a' as u32 + 10) as nat
    } else {
        (c as u32 - 'A' as u32 + 10) as nat
    }
}

/// A non-empty string of hexadecimal digits.
pub open spec fn is_hex_numeral(s: Seq<char>) -> bool {
    s.len() > 0 && forall|i: int| 0 <= i < s.len() ==> is_hex_char(#[trigger] s[i])
}

/// The integer that a hexadecimal numeral stands for.
pub open spec fn hex_value(s: Seq<char>) -> nat
    decreases s.len(),
{
    if s.len() == 0 {
        0
    } else {
        hex_value(s.drop_last()) * 16 + hex_char_value(s.last())
    }
}

/// Relies on `cairo_felt::Felt252`'s `Add`: the sum modulo the field's
/// order. The limbs go in through `from_bytes_le`, which reduces modulo the
/// order, and come out through `to_le_digits`.
#[verifier::external_body]
pub(crate) fn felt_add(a: Felt, b: Felt) -> (r: Felt)
    ensures
        r.value() == (a.value() + b.value()) % prime(),
{
    let x = cairo_felt::Felt252::from_bytes_le(&[a.d0.to_le_bytes(), a.d1.to_le_bytes(), a.d2.to_le_bytes(), a.d3.to_le_bytes()].concat());
    let y = cairo_felt::Felt252::from_bytes_le(&[b.d0.to_le_bytes(), b.d1.to_le_bytes(), b.d2.to_le_bytes(), b.d3.to_le_bytes()].concat());
    let d = (x + y).to_le_digits();
    Felt { d0: d[0], d1: d[1], d2: d[2], d3: d[3] }
}

/// Relies on `cairo_felt::Felt252`'s `Mul`: the product modulo the field's
/// order. The limbs go in through `from_bytes_le`, which reduces modulo the
/// order, and come out through `to_le_digits`.
#[verifier::external_body]
pub(crate) fn felt_mul(a: Felt, b: Felt) -> (r: Felt)
    ensures
        r.value() == (a.value() * b.value()) % prime(),
{
    let x = cairo_felt::Felt252::from_bytes_le(&[a.d0.to_le_bytes(), a.d1.to_le_bytes(), a.d2.to_le_bytes(), a.d3.to_le_bytes()].concat());
    let y = cairo_felt::Felt252::from_bytes_le(&[b.d0.to_le_bytes(), b.d1.to_le_bytes(), b.d2.to_le_bytes(), b.d3.to_le_bytes()].concat());
    let d = (x * y).to_le_digits();
    Felt { d0: d[0], d1: d[1], d2: d[2], d3: d[3] }
}

/// Relies on `cairo_felt::Felt252::from_bytes_be`: the big-endian integer of
/// the bytes, reduced modulo the field's order.
#[verifier::external_body]
pub(crate) fn felt_from_bytes_be(bytes: &[u8]) -> (r: Felt)
    ensures
        r.value() == be_value(bytes@) % prime(),
{
    let d = cairo_felt::Felt252::from_bytes_be(bytes).to_le_digits();
    Felt { d0: d[0], d1: d[1], d2: d[2], d3: d[3] }
}

/// Relies on `cairo_felt::Felt252::to_str_radix` with radix 16: lower-case
/// digits, no leading zeros, `0` for zero. The limbs go in through
/// `from_bytes_le`, which reduces modulo the order.
#[verifier::external_body]
pub(crate) fn felt_to_hex(f: Felt) -> (r: String)
    ensures
        r@ == hex_digits(f.value() % prime()),
        r.is_ascii(),
{
    cairo_felt::Felt252::from_bytes_le(&[f.d0.to_le_bytes(), f.d1.to_le_bytes(), f.d2.to_le_bytes(), f.d3.to_le_bytes()].concat()).to_str_radix(16)
}

/// Relies on `cairo_felt::Felt252::parse_bytes` with radix 16: a string of
/// hexadecimal digits gives its value modulo the field's order.
#[verifier::external_body]
pub(crate) fn felt_parse_hex(s: &str) -> (r: Option<Felt>)
    ensures
        is_hex_numeral(s@) ==> r.is_some() && r.unwrap().value() == hex_value(s@) % prime(),
{
    match cairo_felt::Felt252::parse_bytes(s.as_bytes(), 16) {
        Some(v) => {
            let d = v.to_le_digits();
            Some(Felt { d0: d[0], d1: d[1], d2: d[2], d3: d[3] })
        },
        None => None,
    }
}

} // verus!
