//! IPv4 addresses as plain numbers.

use crate::text::{
    all_digits, chars_of, digits_value, fields, parse_digits, split_text, string_views,
};
use vstd::prelude::*;

verus! {

/// An IPv4 address, held as the 32-bit number whose most significant byte is
/// the first octet.
#[derive(Clone, Copy, Debug, PartialEq, Eq, Structural)]
pub struct Ipv4 {
    pub bits: u32,
}

/// The number that the four octets of an address stand for.
pub open spec fn bits_of_octets(a: u8, b: u8, c: u8, d: u8) -> int {
    a * 0x100_0000 + b * 0x1_0000 + c * 0x100 + d
}

impl Ipv4 {
    /// The address `0.0.0.0`.
    pub open spec fn spec_unspecified() -> Ipv4 {
        Ipv4 { bits: 0 }
    }

    /// The address `0.0.0.0`.
    #[verifier::when_used_as_spec(spec_unspecified)]
    pub fn unspecified() -> (r: Ipv4)
        ensures
            r == Ipv4::spec_unspecified(),
    {
        Ipv4 { bits: 0 }
    }

    /// The address with the given octets.
    pub open spec fn spec_new(a: u8, b: u8, c: u8, d: u8) -> Ipv4 {
        Ipv4 { bits: bits_of_octets(a, b, c, d) as u32 }
    }

    /// The address with the given octets, `a.b.c.d`.
    #[verifier::when_used_as_spec(spec_new)]
    pub fn new(a: u8, b: u8, c: u8, d: u8) -> (r: Ipv4)
        ensures
            r == Ipv4::spec_new(a, b, c, d),
            r.bits == bits_of_octets(a, b, c, d),
    {
        let hi: u32 = (a as u32) * 0x100_0000 + (b as u32) * 0x1_0000;
        let lo: u32 = (c as u32) * 0x100 + (d as u32);
        Ipv4 { bits: hi + lo }
    }

    /// The four octets of the address, first octet first.
    pub fn octets(&self) -> (r: (u8, u8, u8, u8))
        ensures
            bits_of_octets(r.0, r.1, r.2, r.3) == self.bits,
    {
        let a = self.bits / 0x100_0000;
        let b = (self.bits / 0x1_0000) % 0x100;
        let c = (self.bits / 0x100) % 0x100;
        let d = self.bits % 0x100;
        (a as u8, b as u8, c as u8, d as u8)
    }
}

/// The octet that a text stands for: one to three decimal digits, without a
/// leading zero before another digit, and at most 255.
pub open spec fn octet_of_text(s: Seq<char>) -> Option<u8> {
    if 1 <= s.len() <= 3 && all_digits(s) && (s.len() == 1 || s[0] != '0') && digits_value(s)
        <= 255 {
        Some(digits_value(s) as u8)
    } else {
        None
    }
}

/// The address that a text stands for: four octets with dots between them.
pub open spec fn ipv4_of_text(s: Seq<char>) -> Option<Ipv4> {
    let parts = fields(s, '.');
    if parts.len() == 4 {
        match (
            octet_of_text(parts[0]),
            octet_of_text(parts[1]),
            octet_of_text(parts[2]),
            octet_of_text(parts[3]),
        ) {
            (Some(a), Some(b), Some(c), Some(d)) => Some(Ipv4::spec_new(a, b, c, d)),
            _ => None,
        }
    } else {
        None
    }
}

/// Reads an octet as `octet_of_text` does.
pub fn parse_octet(s: &str) -> (r: Option<u8>)
    ensures
        r == octet_of_text(s@),
{
    let chars = chars_of(s);
    if chars.len() < 1 || chars.len() > 3 {
        return None;
    }
    if chars.len() > 1 && chars[0] == '0' {
        return None;
    }
    proof {
        assert(chars@.skip(0) =~= chars@);
    }
    match parse_digits(&chars, 0, 255) {
        Some(v) => Some(v as u8),
        None => None,
    }
}

/// Reads an address in dotted decimal form, as `ipv4_of_text` does.
pub fn parse_ipv4(s: &str) -> (r: Option<Ipv4>)
    ensures
        r == ipv4_of_text(s@),
{
    let parts = split_text(s, '.');
    if parts.len() != 4 {
        return None;
    }
    proof {
        assert(string_views(parts@)[0] == parts@[0]@);
        assert(string_views(parts@)[1] == parts@[1]@);
        assert(string_views(parts@)[2] == parts@[2]@);
        assert(string_views(parts@)[3] == parts@[3]@);
    }
    let a = parse_octet(parts[0].as_str());
    let b = parse_octet(parts[1].as_str());
    let c = parse_octet(parts[2].as_str());
    let d = parse_octet(parts[3].as_str());
    match (a, b, c, d) {
        (Some(a), Some(b), Some(c), Some(d)) => Some(Ipv4::new(a, b, c, d)),
        _ => None,
    }
}

} // verus!
