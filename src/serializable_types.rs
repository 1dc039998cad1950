//! How scalars are written as text: hexadecimal numerals, and the optional
//! forms in which an empty string (or a pending marker) stands for none.
use crate::felt::{
    be_value, felt_from_bytes_be, felt_parse_hex, felt_to_hex, hex_digits, hex_value,
    is_hex_numeral, prime, Felt,
};
use vstd::prelude::*;
use vstd::string::StrSliceExecFns;
use vstd::string::StringSliceAdditionalSpecFns;
use vstd::string::StringExecFns;

verus! {

/// A scalar written as `0x` and its lower-case hexadecimal numeral.
pub struct FeltHex;

/// An optional scalar: its hexadecimal numeral, or the empty string for none.
pub struct FeltHexOption;

/// The hash of a block that may be pending: none for the empty string,
/// `pending` or `None`.
pub struct FeltPendingBlockHash;

/// The digits of a numeral, without the `0x` in front where there is one.
pub open spec fn strip_hex_prefix(s: Seq<char>) -> Seq<char> {
    if s.len() >= 2 && s[0] == '0' && s[1] == 'x' {
        s.skip(2)
    } else {
        s
    }
}

/// Whether a string is exactly `lit`.
fn is_text(value: &str, lit: &str) -> (r: bool)
    ensures
        r == (value@ == lit@),
{
    let n = value.unicode_len();
    if n != lit.unicode_len() {
        return false;
    }
    let mut i: usize = 0;
    while i < n
        invariant
            n == value@.len(),
            n == lit@.len(),
            i <= n,
            forall|j: int| 0 <= j < i ==> value@[j] == lit@[j],
        decreases n - i,
    {
        if value.get_char(i) != lit.get_char(i) {
            return false;
        }
        i = i + 1;
    }
    assert(value@ =~= lit@);
    true
}

impl FeltHex {
    /// `0x` and the hexadecimal numeral of the value.
    pub fn serialize_as(value: &Felt) -> (r: String)
        ensures
            r@ == seq!['0', 'x'] + hex_digits(value.value() % prime()),
    {
        let digits = felt_to_hex(*value);
        let mut out = String::from_str("0x");
        out.append(digits.as_str());
        proof {
            reveal_strlit("0x");
            assert(out@ =~= seq!['0', 'x'] + hex_digits(value.value() % prime()));
        }
        out
    }

    /// The value of a hexadecimal numeral, with or without `0x` in front;
    /// `None` where no numeral can be read.
    pub fn deserialize_as(value: &str) -> (r: Option<Felt>)
        ensures
            is_hex_numeral(strip_hex_prefix(value@)) ==> r.is_some() && r.unwrap().value()
                == hex_value(strip_hex_prefix(value@)) % prime(),
    {
        let n = value.unicode_len();
        if n >= 2 && value.get_char(0) == '0' && value.get_char(1) == 'x' {
            let digits = value.substring_char(2, n);
            assert(digits@ =~= value@.skip(2));
            felt_parse_hex(digits)
        } else {
            felt_parse_hex(value)
        }
    }
}

impl FeltHexOption {
    /// The hexadecimal numeral of the value, or nothing.
    pub fn serialize_as(value: &Option<Felt>) -> (r: Option<String>)
        ensures
            match value {
                Some(f) => r matches Some(s) && s@ == hex_digits(f.value() % prime()),
                None => r is None,
            },
    {
        match value {
            Some(f) => Some(felt_to_hex(*f)),
            None => None,
        }
    }

    /// None for the empty string; otherwise the element whose big-endian
    /// bytes are the string's bytes.
    pub fn deserialize_as(value: &str) -> (r: Option<Felt>)
        ensures
            value@.len() == 0 ==> r is None,
            value@.len() > 0 ==> r.is_some() && r.unwrap().value() == be_value(value.spec_bytes())
                % prime(),
    {
        if value.is_empty() {
            None
        } else {
            Some(felt_from_bytes_be(value.as_bytes()))
        }
    }
}

impl FeltPendingBlockHash {
    /// The hexadecimal numeral of the hash, or nothing for a pending block.
    pub fn serialize_as(value: &Option<Felt>) -> (r: Option<String>)
        ensures
            match value {
                Some(f) => r matches Some(s) && s@ == hex_digits(f.value() % prime()),
                None => r is None,
            },
    {
        match value {
            Some(f) => Some(felt_to_hex(*f)),
            None => None,
        }
    }

    /// None for the empty string, `pending` and `None`; otherwise the element
    /// whose big-endian bytes are the string's bytes.
    pub fn deserialize_as(value: &str) -> (r: Option<Felt>)
        ensures
            (value@.len() == 0 || value@ == "pending"@ || value@ == "None"@) ==> r is None,
            !(value@.len() == 0 || value@ == "pending"@ || value@ == "None"@) ==> r.is_some()
                && r.unwrap().value() == be_value(value.spec_bytes()) % prime(),
    {
        if value.is_empty() || is_text(value, "pending") || is_text(value, "None") {
            None
        } else {
            Some(felt_from_bytes_be(value.as_bytes()))
        }
    }
}

} // verus!
