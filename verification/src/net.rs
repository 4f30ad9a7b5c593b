//! IPv4 address literals and their classification.
//!
//! Reading follows `Ipv4Addr::from_str` of std: four decimal octets separated
//! by `.`, each of one to three digits, no leading zero, at most 255. The
//! classification follows the definitions std documents for `Ipv4Addr`
//! (`is_loopback`, `is_private`, `is_link_local`, `is_unspecified`,
//! `is_multicast`).
use vstd::prelude::*;

use crate::text::{all_digits, chars_of, digits_value, parse_unsigned, spec_parse_unsigned, spec_split, split_char};

verus! {

/// An IPv4 address, by its four octets.
#[derive(Debug, Clone, Copy, PartialEq, Eq, Structural)]
pub struct Ipv4 {
    pub a: u8,
    pub b: u8,
    pub c: u8,
    pub d: u8,
}

/// One octet of a dotted IPv4 address.
pub open spec fn valid_octet(p: Seq<char>) -> bool {
    &&& 1 <= p.len() <= 3
    &&& all_digits(p)
    &&& (p.len() == 1 || p[0] != '0')
    &&& digits_value(p) <= 255
}

/// `Ipv4Addr::from_str`.
pub open spec fn spec_parse_ipv4(s: Seq<char>) -> Option<Ipv4> {
    let parts = spec_split(s, '.');
    if parts.len() == 4 && valid_octet(parts[0]) && valid_octet(parts[1]) && valid_octet(parts[2])
        && valid_octet(parts[3]) {
        Some(
            Ipv4 {
                a: digits_value(parts[0]) as u8,
                b: digits_value(parts[1]) as u8,
                c: digits_value(parts[2]) as u8,
                d: digits_value(parts[3]) as u8,
            },
        )
    } else {
        None
    }
}

/// Reads one octet.
fn parse_octet(p: &str) -> (r: Option<u8>)
    ensures
        valid_octet(p@) ==> r == Some(digits_value(p@) as u8),
        !valid_octet(p@) ==> r is None,
{
    let cs = chars_of(p);
    if cs.len() == 0 || cs.len() > 3 {
        return None;
    }
    if cs.len() > 1 && cs[0] == '0' {
        return None;
    }
    if cs[0] == '+' {
        assert(!all_digits(cs@)) by {
            assert(!crate::text::is_digit(cs@[0]));
        }
        return None;
    }
    assert(cs@.len() > 0 && cs@[0] != '+');
    assert(spec_parse_unsigned(cs@, 255) == (if all_digits(cs@) && digits_value(cs@) <= 255 {
        Some(digits_value(cs@))
    } else {
        None
    }));
    proof {
        if all_digits(cs@) {
            crate::text::lemma_digits_value_nonneg(cs@);
        }
    }
    match parse_unsigned(cs.as_slice(), 255) {
        Some(v) => Some(v as u8),
        None => None,
    }
}

/// `Ipv4Addr::from_str`.
pub fn parse_ipv4(s: &str) -> (r: Option<Ipv4>)
    ensures
        r == spec_parse_ipv4(s@),
{
    let cs = chars_of(s);
    let parts = split_char(cs.as_slice(), '.');
    if parts.len() != 4 {
        return None;
    }
    let a = parse_octet(parts[0].as_str());
    let b = parse_octet(parts[1].as_str());
    let c = parse_octet(parts[2].as_str());
    let d = parse_octet(parts[3].as_str());
    match (a, b, c, d) {
        (Some(a), Some(b), Some(c), Some(d)) => Some(Ipv4 { a, b, c, d }),
        _ => None,
    }
}

/// `Ipv4Addr::is_loopback`: 127.0.0.0/8.
pub open spec fn spec_is_loopback(ip: Ipv4) -> bool {
    ip.a == 127
}

/// An address that is not loopback but private (10/8, 172.16/12,
/// 192.168/16), link-local (169.254/16), unspecified (0.0.0.0) or multicast
/// (224/4).
pub open spec fn spec_is_blocked(ip: Ipv4) -> bool {
    &&& !spec_is_loopback(ip)
    &&& {
        ||| ip.a == 10
        ||| (ip.a == 172 && 16 <= ip.b <= 31)
        ||| (ip.a == 192 && ip.b == 168)
        ||| (ip.a == 169 && ip.b == 254)
        ||| (ip.a == 0 && ip.b == 0 && ip.c == 0 && ip.d == 0)
        ||| (224 <= ip.a <= 239)
    }
}

pub fn is_loopback(ip: &Ipv4) -> (r: bool)
    ensures
        r == spec_is_loopback(*ip),
{
    ip.a == 127
}

pub fn is_blocked(ip: &Ipv4) -> (r: bool)
    ensures
        r == spec_is_blocked(*ip),
{
    let private = ip.a == 10 || (ip.a == 172 && 16 <= ip.b && ip.b <= 31) || (ip.a == 192 && ip.b
        == 168);
    let link_local = ip.a == 169 && ip.b == 254;
    let unspecified = ip.a == 0 && ip.b == 0 && ip.c == 0 && ip.d == 0;
    let multicast = 224 <= ip.a && ip.a <= 239;
    ip.a != 127 && (private || link_local || unspecified || multicast)
}

} // verus!
