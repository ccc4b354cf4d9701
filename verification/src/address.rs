//! The addresses a user can write down, and how they are read.
//!
//! An address is one of
//!
//! * a path, recognised by a `/` or `\` anywhere in it: a Unix Domain socket;
//! * a port number: that port on localhost, and the Unix Domain socket that
//!   MonetDB conventionally uses for that port;
//! * `host:port`, where the host is an IPv4 address in dotted decimal
//!   notation, an IPv6 address in square brackets, or a host name. A host of
//!   four runs of digits with periods between them is an IPv4 address, or
//!   the text is no address.

use crate::error::{IoError, IoErrorKind, IoErrorView};
use crate::network::{Addr, AddrView, IpAddress, TcpAddr};
use crate::text::{decimal_digits, push_bytes, push_decimal, push_str};
use vstd::string::StringSliceAdditionalSpecFns;
use vstd::prelude::*;
use vstd::slice::{slice_subrange, slice_to_vec};

verus! {

/// An address as the user configured it. It may stand for several concrete
/// addresses.
#[derive(Debug, Clone, PartialEq, Eq, Hash)]
pub enum MonetAddr {
    Dns { host: Vec<u8>, port: u16 },
    Ip { ip: IpAddress, port: u16 },
    Unix(Vec<u8>),
    PortOnly(u16),
}

/// What a [`MonetAddr`] stands for.
pub enum MonetAddrView {
    Dns { host: Seq<u8>, port: u16 },
    Ip { ip: IpAddress, port: u16 },
    Unix(Seq<u8>),
    PortOnly(u16),
}

impl View for MonetAddr {
    type V = MonetAddrView;

    open spec fn view(&self) -> MonetAddrView {
        match *self {
            MonetAddr::Dns { host, port } => MonetAddrView::Dns { host: host@, port },
            MonetAddr::Ip { ip, port } => MonetAddrView::Ip { ip, port },
            MonetAddr::Unix(path) => MonetAddrView::Unix(path@),
            MonetAddr::PortOnly(port) => MonetAddrView::PortOnly(port),
        }
    }
}

pub open spec fn is_digit(b: u8) -> bool {
    48 <= b <= 57
}

pub open spec fn is_hex_digit(b: u8) -> bool {
    is_digit(b) || 97 <= b <= 102 || 65 <= b <= 70
}

pub open spec fn is_letter(b: u8) -> bool {
    97 <= b <= 122 || 65 <= b <= 90
}

/// The value of one hex digit.
pub open spec fn hex_digit_value(b: u8) -> nat {
    if is_digit(b) {
        (b - 48) as nat
    } else if 97 <= b <= 102 {
        (b - 87) as nat
    } else {
        (b - 55) as nat
    }
}

/// The number that the digits `s` denote, in hex or else in decimal.
pub open spec fn number_value(s: Seq<u8>, hex: bool) -> nat
    decreases s.len(),
{
    if s.len() == 0 {
        0
    } else if hex {
        number_value(s.drop_last(), hex) * 16 + hex_digit_value(s.last())
    } else {
        number_value(s.drop_last(), hex) * 10 + hex_digit_value(s.last())
    }
}

/// Whether `s` consists of digits only, hex or else decimal.
pub open spec fn all_digits(s: Seq<u8>, hex: bool) -> bool {
    forall|i: int| 0 <= i < s.len() ==> if hex {
        is_hex_digit(#[trigger] s[i])
    } else {
        is_digit(s[i])
    }
}

/// Whether `s` is a decimal number of any length that does not exceed `max`.
pub open spec fn is_decimal_upto(s: Seq<u8>, max: nat) -> bool {
    s.len() >= 1 && all_digits(s, false) && number_value(s, false) <= max
}

/// Whether `s` is a port number on its own: decimal digits, at most 65535,
/// with an optional `+` in front.
pub open spec fn is_bare_port(s: Seq<u8>) -> bool {
    if s.len() >= 1 && s[0] == 43 {
        is_decimal_upto(s.skip(1), 65535)
    } else {
        is_decimal_upto(s, 65535)
    }
}

/// The port that a bare port number denotes.
pub open spec fn bare_port_value(s: Seq<u8>) -> nat {
    if s.len() >= 1 && s[0] == 43 {
        number_value(s.skip(1), false)
    } else {
        number_value(s, false)
    }
}

/// The pieces of `s` between the occurrences of `sep`. There is always at
/// least one piece; it is empty if `s` is.
pub open spec fn split(s: Seq<u8>, sep: u8) -> Seq<Seq<u8>>
    decreases s.len(),
{
    if s.len() == 0 {
        seq![Seq::empty()]
    } else {
        let init = split(s.drop_last(), sep);
        if s.last() == sep {
            init.push(Seq::empty())
        } else {
            init.drop_last().push(init.last().push(s.last()))
        }
    }
}

/// Whether `part` is one number of an IPv4 address: one to three digits, at
/// most 255, without a leading zero unless it is the single digit `0`.
pub open spec fn is_octet(part: Seq<u8>) -> bool {
    &&& 1 <= part.len() <= 3
    &&& all_digits(part, false)
    &&& part.len() == 1 || part[0] != 48
    &&& number_value(part, false) <= 255
}

/// Whether `part` is one group of an IPv6 address: one to four hex digits.
pub open spec fn is_group(part: Seq<u8>) -> bool {
    1 <= part.len() <= 4 && all_digits(part, true)
}

/// Whether `s` is an IPv4 address in dotted decimal notation.
pub open spec fn is_ipv4(s: Seq<u8>) -> bool {
    let parts = split(s, 46);
    parts.len() == 4 && forall|i: int| 0 <= i < 4 ==> is_octet(#[trigger] parts[i])
}

/// Whether `s` has the shape of an IPv4 address: four runs of digits with
/// periods between them. A host of that shape is an IPv4 address or nothing.
pub open spec fn is_quad_shape(s: Seq<u8>) -> bool {
    let parts = split(s, 46);
    parts.len() == 4 && forall|i: int|
        0 <= i < 4 ==> (#[trigger] parts[i]).len() >= 1 && all_digits(parts[i], false)
}

/// The address that dotted decimal notation denotes.
pub open spec fn ipv4_value(s: Seq<u8>) -> nat {
    let parts = split(s, 46);
    number_value(parts[0], false) * 0x100_0000 + number_value(parts[1], false) * 0x1_0000
        + number_value(parts[2], false) * 0x100 + number_value(parts[3], false)
}

/// Position of the first `::` in `s`, or the length of `s` if there is none.
pub open spec fn double_colon(s: Seq<u8>) -> int
    decreases s.len(),
{
    if s.len() < 2 {
        s.len() as int
    } else if s[0] == 58 && s[1] == 58 {
        0
    } else {
        1 + double_colon(s.skip(1))
    }
}

/// The groups written in `s`, separated by single colons. No text, no groups.
pub open spec fn written_groups(s: Seq<u8>) -> Seq<Seq<u8>> {
    if s.len() == 0 {
        Seq::empty()
    } else {
        split(s, 58)
    }
}

/// The groups of the IPv6 address written as `s`: those written before the
/// `::`, the zeros that the `::` stands for, and those written after it.
pub open spec fn ipv6_written(s: Seq<u8>) -> Seq<Seq<u8>> {
    let at = double_colon(s);
    if at >= s.len() {
        split(s, 58)
    } else {
        let head = written_groups(s.take(at));
        let tail = written_groups(s.skip(at + 2));
        head + Seq::new((8 - head.len() - tail.len()) as nat, |i: int| seq![48u8]) + tail
    }
}

/// Whether `s` is an IPv6 address: eight groups separated by colons, where
/// one `::` may stand for one or more groups that are zero.
pub open spec fn is_ipv6(s: Seq<u8>) -> bool {
    let at = double_colon(s);
    let groups = ipv6_written(s);
    &&& at < s.len() ==> written_groups(s.take(at)).len() + written_groups(s.skip(at + 2)).len()
        <= 7
    &&& groups.len() == 8
    &&& forall|i: int| 0 <= i < 8 ==> is_group(#[trigger] groups[i])
}

/// The address that the IPv6 notation `s` denotes.
pub open spec fn ipv6_value(s: Seq<u8>) -> nat {
    let g = ipv6_written(s);
    number_value(g[0], true) * 0x1_0000_0000_0000_0000_0000_0000_0000 + number_value(g[1], true)
        * 0x1_0000_0000_0000_0000_0000_0000 + number_value(g[2], true)
        * 0x1_0000_0000_0000_0000_0000 + number_value(g[3], true) * 0x1_0000_0000_0000_0000
        + number_value(g[4], true) * 0x1_0000_0000_0000 + number_value(g[5], true) * 0x1_0000_0000
        + number_value(g[6], true) * 0x1_0000 + number_value(g[7], true)
}

/// Whether `s` can be a host name: letters, digits, hyphens and periods,
/// the first of them a letter or a digit.
pub open spec fn is_host_name(s: Seq<u8>) -> bool {
    &&& s.len() >= 1
    &&& is_letter(s[0]) || is_digit(s[0])
    &&& forall|i: int|
        0 <= i < s.len() ==> is_letter(#[trigger] s[i]) || is_digit(s[i]) || s[i] == 45 || s[i]
            == 46
}

/// Whether `s` is an IPv6 address in square brackets.
pub open spec fn is_bracketed_ipv6(s: Seq<u8>) -> bool {
    s.len() >= 2 && s[0] == 91 && s.last() == 93 && is_ipv6(s.subrange(1, s.len() - 1))
}

/// Position of the last colon in `s`, or -1 if there is none.
pub open spec fn last_colon(s: Seq<u8>) -> int
    decreases s.len(),
{
    if s.len() == 0 {
        -1
    } else if s.last() == 58 {
        s.len() - 1
    } else {
        last_colon(s.drop_last())
    }
}

/// Whether `s` contains a path separator.
pub open spec fn is_path(s: Seq<u8>) -> bool {
    s.contains(47) || s.contains(92)
}

/// How the text `s` is read as an address, if it can be read as one.
pub open spec fn parse_address(s: Seq<u8>) -> Option<MonetAddrView> {
    let colon = last_colon(s);
    let host = s.take(colon);
    let port = s.skip(colon + 1);
    if is_path(s) {
        Some(MonetAddrView::Unix(s))
    } else if is_bare_port(s) {
        Some(MonetAddrView::PortOnly(bare_port_value(s) as u16))
    } else if colon < 1 || !is_decimal_upto(port, 65535) {
        None
    } else if is_ipv4(host) {
        Some(
            MonetAddrView::Ip {
                ip: IpAddress::V4(ipv4_value(host) as u32),
                port: number_value(port, false) as u16,
            },
        )
    } else if is_quad_shape(host) {
        None
    } else if is_bracketed_ipv6(host) {
        Some(
            MonetAddrView::Ip {
                ip: IpAddress::V6(ipv6_value(host.subrange(1, host.len() - 1)) as u128),
                port: number_value(port, false) as u16,
            },
        )
    } else if is_host_name(host) {
        Some(MonetAddrView::Dns { host, port: number_value(port, false) as u16 })
    } else {
        None
    }
}

/// A number never gets smaller when digits are appended to it.
pub proof fn lemma_number_value_grows(s: Seq<u8>, k: int, hex: bool)
    requires
        0 <= k <= s.len(),
    ensures
        number_value(s.take(k), hex) <= number_value(s, hex),
    decreases s.len() - k,
{
    if k < s.len() {
        lemma_number_value_grows(s.drop_last(), k, hex);
        assert(s.drop_last().take(k) =~= s.take(k));
    } else {
        assert(s.take(k) =~= s);
    }
}

/// The pieces that `ranges` cut out of `s`.
pub open spec fn pieces(s: Seq<u8>, ranges: Seq<(usize, usize)>) -> Seq<Seq<u8>> {
    ranges.map_values(|r: (usize, usize)| s.subrange(r.0 as int, r.1 as int))
}

/// Whether `s` contains the byte `b`.
pub fn contains_byte(s: &[u8], b: u8) -> (found: bool)
    ensures
        found == s@.contains(b),
{
    let mut i: usize = 0;
    while i < s.len()
        invariant
            i <= s@.len(),
            forall|k: int| 0 <= k < i ==> s@[k] != b,
        decreases s@.len() - i,
    {
        if s[i] == b {
            return true;
        }
        i = i + 1;
    }
    false
}

/// Read `s` as a number of any length that does not exceed `max`, in hex or
/// else in decimal.
pub fn parse_number(s: &[u8], hex: bool, max: u32) -> (r: Option<u32>)
    requires
        max <= 0xffff,
    ensures
        r is Some <==> s@.len() >= 1 && all_digits(s@, hex) && number_value(s@, hex) <= max,
        r matches Some(v) ==> v == number_value(s@, hex),
{
    if s.len() == 0 {
        return None;
    }
    let mut acc: u32 = 0;
    let mut i: usize = 0;
    while i < s.len()
        invariant
            i <= s@.len(),
            max <= 0xffff,
            acc == number_value(s@.take(i as int), hex),
            acc <= max,
            all_digits(s@.take(i as int), hex),
        decreases s@.len() - i,
    {
        let b = s[i];
        let d: u32 = if 48 <= b && b <= 57 {
            (b - 48) as u32
        } else if hex && 97 <= b && b <= 102 {
            (b - 87) as u32
        } else if hex && 65 <= b && b <= 70 {
            (b - 55) as u32
        } else {
            return None;
        };
        let next: u32 = if hex {
            acc * 16 + d
        } else {
            acc * 10 + d
        };
        proof {
            assert(s@.take(i + 1).drop_last() =~= s@.take(i as int));
            assert(s@.take(i + 1).last() == b);
            assert(next == number_value(s@.take(i + 1), hex));
            lemma_number_value_grows(s@, i + 1, hex);
        }
        if next > max {
            return None;
        }
        acc = next;
        i = i + 1;
    }
    proof {
        assert(s@.take(i as int) =~= s@);
    }
    Some(acc)
}

/// Cut `s` at every occurrence of `sep` and return where the pieces are.
pub fn split_ranges(s: &[u8], sep: u8) -> (ranges: Vec<(usize, usize)>)
    ensures
        pieces(s@, ranges@) == split(s@, sep),
        forall|k: int| 0 <= k < ranges@.len() ==> (#[trigger] ranges@[k]).0 <= ranges@[k].1 <= s@.len(),
{
    let mut ranges: Vec<(usize, usize)> = Vec::new();
    let mut cur: usize = 0;
    let mut i: usize = 0;
    proof {
        assert(s@.take(0) =~= Seq::<u8>::empty());
        assert(pieces(s@, ranges@).push(s@.subrange(0, 0)) =~= seq![Seq::<u8>::empty()]);
    }
    while i < s.len()
        invariant
            cur <= i <= s@.len(),
            split(s@.take(i as int), sep) == pieces(s@, ranges@).push(s@.subrange(cur as int, i as int)),
            forall|k: int| 0 <= k < ranges@.len() ==> (#[trigger] ranges@[k]).0 <= ranges@[k].1 <= s@.len(),
        decreases s@.len() - i,
    {
        proof {
            let upto = s@.take(i + 1);
            assert(upto.drop_last() =~= s@.take(i as int));
            assert(upto.last() == s@[i as int]);
        }
        if s[i] == sep {
            proof {
                assert(pieces(s@, ranges@.push((cur, i))) =~= pieces(s@, ranges@).push(
                    s@.subrange(cur as int, i as int),
                ));
                assert(s@.subrange(i + 1, i + 1) =~= Seq::<u8>::empty());
            }
            ranges.push((cur, i));
            cur = i + 1;
        } else {
            proof {
                let init = pieces(s@, ranges@).push(s@.subrange(cur as int, i as int));
                assert(init.drop_last() =~= pieces(s@, ranges@));
                assert(init.last().push(s@[i as int]) =~= s@.subrange(cur as int, i + 1));
            }
        }
        i = i + 1;
    }
    proof {
        assert(s@.take(i as int) =~= s@);
        assert(pieces(s@, ranges@.push((cur, i))) =~= pieces(s@, ranges@).push(
            s@.subrange(cur as int, i as int),
        ));
    }
    ranges.push((cur, i));
    ranges
}

/// Read `s` as an IPv4 address in dotted decimal notation.
pub fn parse_ipv4(s: &[u8]) -> (r: Option<u32>)
    ensures
        r is Some <==> is_ipv4(s@),
        r matches Some(v) ==> v == ipv4_value(s@),
{
    let ranges = split_ranges(s, 46);
    if ranges.len() != 4 {
        return None;
    }
    let ghost parts = split(s@, 46);
    let mut value: u32 = 0;
    let mut k: usize = 0;
    while k < 4
        invariant
            k <= 4,
            ranges@.len() == 4,
            parts == split(s@, 46),
            parts == pieces(s@, ranges@),
            forall|j: int| 0 <= j < 4 ==> (#[trigger] ranges@[j]).0 <= ranges@[j].1 <= s@.len(),
            forall|j: int| 0 <= j < k ==> is_octet(#[trigger] parts[j]),
            k == 0 ==> value == 0,
            k == 1 ==> value == number_value(parts[0], false),
            k == 2 ==> value == number_value(parts[0], false) * 0x100 + number_value(
                parts[1],
                false,
            ),
            k == 3 ==> value == number_value(parts[0], false) * 0x1_0000 + number_value(
                parts[1],
                false,
            ) * 0x100 + number_value(parts[2], false),
            k == 4 ==> value == ipv4_value(s@),
        decreases 4 - k,
    {
        let (a, b) = ranges[k];
        let part = slice_subrange(s, a, b);
        assert(part@ == parts[k as int]);
        if part.len() > 3 || (part.len() > 1 && part[0] == 48) {
            return None;
        }
        match parse_number(part, false, 255) {
            None => {
                return None;
            },
            Some(v) => {
                value = value * 256 + v;
            },
        }
        k = k + 1;
    }
    Some(value)
}

/// Whether `s` has the shape of an IPv4 address.
pub fn check_quad_shape(s: &[u8]) -> (r: bool)
    ensures
        r == is_quad_shape(s@),
{
    let ranges = split_ranges(s, 46);
    if ranges.len() != 4 {
        return false;
    }
    let ghost parts = split(s@, 46);
    let mut k: usize = 0;
    while k < 4
        invariant
            k <= 4,
            ranges@.len() == 4,
            parts == split(s@, 46),
            parts == pieces(s@, ranges@),
            forall|j: int| 0 <= j < 4 ==> (#[trigger] ranges@[j]).0 <= ranges@[j].1 <= s@.len(),
            forall|j: int|
                0 <= j < k ==> (#[trigger] parts[j]).len() >= 1 && all_digits(parts[j], false),
        decreases 4 - k,
    {
        let (a, b) = ranges[k];
        let part = slice_subrange(s, a, b);
        assert(part@ == parts[k as int]);
        let mut i: usize = 0;
        while i < part.len()
            invariant
                i <= part@.len(),
                part@ == parts[k as int],
                k < 4,
                parts == split(s@, 46),
                forall|j: int| 0 <= j < i ==> is_digit(#[trigger] part@[j]),
            decreases part@.len() - i,
        {
            let c = part[i];
            if !(48 <= c && c <= 57) {
                assert(!is_digit(parts[k as int][i as int]));
                return false;
            }
            i = i + 1;
        }
        if part.len() == 0 {
            return false;
        }
        k = k + 1;
    }
    true
}

/// Find the first `::` in `s`.
pub fn find_double_colon(s: &[u8]) -> (at: usize)
    ensures
        at == double_colon(s@),
        at <= s@.len(),
        at < s@.len() ==> at + 2 <= s@.len(),
{
    let mut i: usize = 0;
    proof {
        assert(s@.skip(0) =~= s@);
    }
    while s.len() - i >= 2
        invariant
            i <= s@.len(),
            double_colon(s@) == i + double_colon(s@.skip(i as int)),
        decreases s@.len() - i,
    {
        if s[i] == 58 && s[i + 1] == 58 {
            return i;
        }
        proof {
            assert(s@.skip(i as int).skip(1) =~= s@.skip(i + 1));
        }
        i = i + 1;
    }
    s.len()
}

/// A group of up to four hex digits is at most `0xffff`.
pub proof fn lemma_group_fits(part: Seq<u8>)
    requires
        part.len() <= 4,
        all_digits(part, true),
    ensures
        number_value(part, true) <= 0xffff,
{
    reveal_with_fuel(number_value, 5);
    if part.len() >= 1 {
        let a = part.drop_last();
        assert(is_hex_digit(part[part.len() - 1]));
        if a.len() >= 1 {
            let b = a.drop_last();
            assert(is_hex_digit(part[part.len() - 2]));
            if b.len() >= 1 {
                let c = b.drop_last();
                assert(is_hex_digit(part[part.len() - 3]));
                if c.len() >= 1 {
                    assert(is_hex_digit(part[part.len() - 4]));
                    assert(c.drop_last().len() == 0);
                }
            }
        }
    }
}

/// Read the pieces of `s` that `ranges` cut out as groups of an IPv6
/// address, and append their values to `vals`. Returns whether all of them
/// are groups.
fn parse_groups(s: &[u8], ranges: &Vec<(usize, usize)>, vals: &mut Vec<u32>) -> (ok: bool)
    requires
        forall|k: int| 0 <= k < ranges@.len() ==> (#[trigger] ranges@[k]).0 <= ranges@[k].1 <= s@.len(),
    ensures
        ok <==> forall|k: int| 0 <= k < ranges@.len() ==> is_group(#[trigger] pieces(s@, ranges@)[k]),
        ok ==> final(vals)@.len() == old(vals)@.len() + ranges@.len(),
        ok ==> forall|k: int| 0 <= k < old(vals)@.len() ==> final(vals)@[k] == old(vals)@[k],
        ok ==> forall|k: int|
            0 <= k < ranges@.len() ==> #[trigger] final(vals)@[old(vals)@.len() + k] == number_value(
                pieces(s@, ranges@)[k],
                true,
            ),
{
    let ghost parts = pieces(s@, ranges@);
    let mut k: usize = 0;
    while k < ranges.len()
        invariant
            k <= ranges@.len(),
            parts == pieces(s@, ranges@),
            forall|j: int| 0 <= j < ranges@.len() ==> (#[trigger] ranges@[j]).0 <= ranges@[j].1 <= s@.len(),
            forall|j: int| 0 <= j < k ==> is_group(#[trigger] parts[j]),
            vals@.len() == old(vals)@.len() + k,
            forall|j: int| 0 <= j < old(vals)@.len() ==> vals@[j] == old(vals)@[j],
            forall|j: int|
                0 <= j < k ==> #[trigger] vals@[old(vals)@.len() + j] == number_value(parts[j], true),
        decreases ranges@.len() - k,
    {
        let (a, b) = ranges[k];
        let part = slice_subrange(s, a, b);
        assert(part@ == parts[k as int]);
        if part.len() > 4 {
            return false;
        }
        match parse_number(part, true, 0xffff) {
            None => {
                proof {
                    if all_digits(part@, true) {
                        lemma_group_fits(part@);
                    }
                }
                return false;
            },
            Some(v) => {
                vals.push(v);
            },
        }
        k = k + 1;
    }
    true
}

/// The numbers of the groups of the IPv6 address written as `s`.
pub open spec fn are_group_values(s: Seq<u8>, vals: Seq<u32>) -> bool {
    &&& vals.len() == 8
    &&& forall|i: int| 0 <= i < 8 ==> #[trigger] vals[i] == number_value(ipv6_written(s)[i], true)
}

/// Read an IPv6 address in which no `::` occurs.
fn groups_in_full(s: &[u8]) -> (r: Option<Vec<u32>>)
    requires
        double_colon(s@) >= s@.len(),
    ensures
        r is Some <==> is_ipv6(s@),
        r matches Some(vals) ==> are_group_values(s@, vals@),
{
    let mut vals: Vec<u32> = Vec::new();
    let ranges = split_ranges(s, 58);
    if ranges.len() != 8 {
        return None;
    }
    if !parse_groups(s, &ranges, &mut vals) {
        return None;
    }
    proof {
        assert forall|i: int| 0 <= i < 8 implies #[trigger] vals@[i] == number_value(
            ipv6_written(s@)[i],
            true,
        ) by {
            assert(vals@[0 + i] == number_value(pieces(s@, ranges@)[i], true));
        }
    }
    Some(vals)
}

/// Read an IPv6 address in which the first `::` is at `at`.
fn groups_around(s: &[u8], at: usize) -> (r: Option<Vec<u32>>)
    requires
        at == double_colon(s@),
        at + 2 <= s@.len(),
    ensures
        r is Some <==> is_ipv6(s@),
        r matches Some(vals) ==> are_group_values(s@, vals@),
{
    let mut vals: Vec<u32> = Vec::new();
    let n = s.len();
    let head = slice_subrange(s, 0, at);
    let tail = slice_subrange(s, at + 2, n);
    assert(head@ =~= s@.take(at as int));
    assert(tail@ =~= s@.skip(at + 2));
    let head_ranges = if at == 0 {
        Vec::new()
    } else {
        split_ranges(head, 58)
    };
    let tail_ranges = if tail.len() == 0 {
        Vec::new()
    } else {
        split_ranges(tail, 58)
    };
    let ghost hg = written_groups(head@);
    let ghost tg = written_groups(tail@);
    assert(pieces(head@, head_ranges@) =~= hg);
    assert(pieces(tail@, tail_ranges@) =~= tg);
    if head_ranges.len() > 7 || tail_ranges.len() > 7 - head_ranges.len() {
        return None;
    }
    let zeros: usize = 8 - head_ranges.len() - tail_ranges.len();
    let ghost zg = Seq::new(zeros as nat, |i: int| seq![48u8]);
    let ghost written = ipv6_written(s@);
    assert(written =~= hg + zg + tg);
    if !parse_groups(head, &head_ranges, &mut vals) {
        proof {
            let k = choose|k: int| 0 <= k < hg.len() && !is_group(#[trigger] hg[k]);
            assert(written[k] == hg[k]);
        }
        return None;
    }
    let ghost after_head = vals@;
    let mut z: usize = 0;
    while z < zeros
        invariant
            z <= zeros,
            vals@.len() == after_head.len() + z,
            forall|j: int| 0 <= j < after_head.len() ==> vals@[j] == after_head[j],
            forall|j: int| after_head.len() <= j < vals@.len() ==> vals@[j] == 0,
        decreases zeros - z,
    {
        vals.push(0);
        z = z + 1;
    }
    let ghost after_zeros = vals@;
    if !parse_groups(tail, &tail_ranges, &mut vals) {
        proof {
            let k = choose|k: int| 0 <= k < tg.len() && !is_group(#[trigger] tg[k]);
            assert(written[hg.len() + zg.len() + k] == tg[k]);
        }
        return None;
    }
    proof {
        reveal_with_fuel(number_value, 2);
        assert(number_value(seq![48u8], true) == 0) by {
            assert(seq![48u8].drop_last() =~= Seq::<u8>::empty());
        }
        assert forall|i: int| 0 <= i < 8 implies is_group(#[trigger] written[i]) && vals@[i]
            == number_value(written[i], true) by {
            if i < hg.len() {
                assert(written[i] == hg[i]);
                assert(after_head[0 + i] == number_value(hg[i], true));
                assert(vals@[i] == after_zeros[i]);
            } else if i < hg.len() + zg.len() {
                assert(written[i] == zg[i - hg.len()]);
                assert(vals@[i] == after_zeros[i]);
            } else {
                let k = i - hg.len() - zg.len();
                assert(written[i] == tg[k]);
                assert(vals@[after_zeros.len() + k] == number_value(tg[k], true));
            }
        }
    }
    Some(vals)
}

/// Read `s` as an IPv6 address.
pub fn parse_ipv6(s: &[u8]) -> (r: Option<u128>)
    ensures
        r is Some <==> is_ipv6(s@),
        r matches Some(v) ==> v == ipv6_value(s@),
{
    let at = find_double_colon(s);
    let groups = if at >= s.len() {
        groups_in_full(s)
    } else {
        groups_around(s, at)
    };
    match groups {
        None => None,
        Some(vals) => {
            proof {
                let written = ipv6_written(s@);
                assert forall|i: int| 0 <= i < 8 implies (#[trigger] vals@[i]) <= 0xffff by {
                    assert(is_group(written[i]));
                    lemma_group_fits(written[i]);
                }
            }
            let value: u128 = (vals[0] as u128) * 0x1_0000_0000_0000_0000_0000_0000_0000 + (
            vals[1] as u128) * 0x1_0000_0000_0000_0000_0000_0000 + (vals[2] as u128)
                * 0x1_0000_0000_0000_0000_0000 + (vals[3] as u128) * 0x1_0000_0000_0000_0000 + (
            vals[4] as u128) * 0x1_0000_0000_0000 + (vals[5] as u128) * 0x1_0000_0000 + (
            vals[6] as u128) * 0x1_0000 + (vals[7] as u128);
            Some(value)
        },
    }
}

/// Whether `s` can be a host name.
pub fn check_host_name(s: &[u8]) -> (ok: bool)
    ensures
        ok == is_host_name(s@),
{
    if s.len() == 0 {
        return false;
    }
    let first = s[0];
    if !(is_letter_byte(first) || (48 <= first && first <= 57)) {
        return false;
    }
    let mut i: usize = 0;
    while i < s.len()
        invariant
            i <= s@.len(),
            forall|k: int|
                0 <= k < i ==> is_letter(#[trigger] s@[k]) || is_digit(s@[k]) || s@[k] == 45
                    || s@[k] == 46,
        decreases s@.len() - i,
    {
        let b = s[i];
        if !(is_letter_byte(b) || (48 <= b && b <= 57) || b == 45 || b == 46) {
            return false;
        }
        i = i + 1;
    }
    true
}

/// Whether `b` is an ASCII letter.
pub fn is_letter_byte(b: u8) -> (r: bool)
    ensures
        r == is_letter(b),
{
    (97 <= b && b <= 122) || (65 <= b && b <= 90)
}

/// Find the last colon in `s`.
pub fn find_last_colon(s: &[u8]) -> (at: Option<usize>)
    ensures
        at is None <==> last_colon(s@) == -1,
        at matches Some(i) ==> i == last_colon(s@) && i < s@.len(),
{
    let mut i: usize = s.len();
    proof {
        assert(s@.take(i as int) =~= s@);
    }
    while i > 0
        invariant
            i <= s@.len(),
            last_colon(s@) == last_colon(s@.take(i as int)),
        decreases i,
    {
        i = i - 1;
        proof {
            assert(s@.take(i + 1).drop_last() =~= s@.take(i as int));
        }
        if s[i] == 58 {
            return Some(i);
        }
    }
    None
}

impl MonetAddr {
    /// Read `text` as an address. See the top of this file for what is
    /// accepted.
    pub fn parse(text: &[u8]) -> (r: Option<MonetAddr>)
        ensures
            r is Some <==> parse_address(text@) is Some,
            r matches Some(addr) ==> Some(addr@) == parse_address(text@),
    {
        if contains_byte(text, 47) || contains_byte(text, 92) {
            return Some(MonetAddr::Unix(slice_to_vec(text)));
        }
        let bare = if text.len() >= 1 && text[0] == 43 {
            let digits = slice_subrange(text, 1, text.len());
            assert(digits@ =~= text@.skip(1));
            parse_number(digits, false, 0xffff)
        } else {
            parse_number(text, false, 0xffff)
        };
        if let Some(port) = bare {
            return Some(MonetAddr::PortOnly(port as u16));
        }
        let colon = match find_last_colon(text) {
            None => {
                return None;
            },
            Some(c) => c,
        };
        if colon < 1 {
            return None;
        }
        let host = slice_subrange(text, 0, colon);
        let port_text = slice_subrange(text, colon + 1, text.len());
        assert(host@ =~= text@.take(colon as int));
        assert(port_text@ =~= text@.skip(colon + 1));
        let port: u16 = match parse_number(port_text, false, 0xffff) {
            None => {
                return None;
            },
            Some(p) => p as u16,
        };
        if let Some(ip) = parse_ipv4(host) {
            return Some(MonetAddr::Ip { ip: IpAddress::V4(ip), port });
        }
        if check_quad_shape(host) {
            return None;
        }
        if host.len() >= 2 && host[0] == 91 && host[host.len() - 1] == 93 {
            let inner = slice_subrange(host, 1, host.len() - 1);
            if let Some(ip) = parse_ipv6(inner) {
                return Some(MonetAddr::Ip { ip: IpAddress::V6(ip), port });
            }
        }
        if check_host_name(host) {
            return Some(MonetAddr::Dns { host: slice_to_vec(host), port });
        }
        None
    }
}

/// The TCP side of an address: nothing, an address that is known, or a
/// host name that is yet to be looked up.
#[derive(Debug, Clone, PartialEq, Eq)]
pub enum TcpLookup {
    Nothing,
    Address(TcpAddr),
    Name { host: Vec<u8>, port: u16 },
}

/// What a [`TcpLookup`] stands for.
pub enum TcpLookupView {
    Nothing,
    Address(TcpAddr),
    Name { host: Seq<u8>, port: u16 },
}

impl View for TcpLookup {
    type V = TcpLookupView;

    open spec fn view(&self) -> TcpLookupView {
        match *self {
            TcpLookup::Nothing => TcpLookupView::Nothing,
            TcpLookup::Address(a) => TcpLookupView::Address(a),
            TcpLookup::Name { host, port } => TcpLookupView::Name { host: host@, port },
        }
    }
}

/// The addresses of `addrs`.
pub open spec fn addr_views(addrs: Seq<Addr>) -> Seq<AddrView> {
    addrs.map_values(|a: Addr| a@)
}

impl MonetAddrView {
    /// The address as the user would write it.
    pub open spec fn text(self) -> Seq<u8> {
        match self {
            MonetAddrView::Dns { host, port } => host.push(58) + decimal_digits(port as nat),
            MonetAddrView::Ip { ip, port } => (TcpAddr { ip, port }).spec_text(),
            MonetAddrView::Unix(path) => path,
            MonetAddrView::PortOnly(port) => decimal_digits(port as nat),
        }
    }

    /// The Unix Domain sockets that the address stands for: the path itself,
    /// or for a port number the socket that MonetDB conventionally uses for
    /// that port.
    pub open spec fn unix_addrs(self) -> Seq<AddrView> {
        match self {
            MonetAddrView::Unix(path) => seq![AddrView::Unix(path)],
            MonetAddrView::PortOnly(port) => seq![
                AddrView::Unix("/tmp/.s.monetdb.".spec_bytes() + decimal_digits(port as nat)),
            ],
            _ => Seq::empty(),
        }
    }

    /// The TCP side of the address. A port number stands for that port on
    /// localhost.
    pub open spec fn tcp_lookup(self) -> TcpLookupView {
        match self {
            MonetAddrView::Unix(_) => TcpLookupView::Nothing,
            MonetAddrView::Dns { host, port } => TcpLookupView::Name { host, port },
            MonetAddrView::Ip { ip, port } => TcpLookupView::Address(TcpAddr { ip, port }),
            MonetAddrView::PortOnly(port) => TcpLookupView::Name {
                host: "localhost".spec_bytes(),
                port,
            },
        }
    }
}

impl MonetAddr {
    /// Append the address as the user would write it to `out`.
    pub fn push_text(&self, out: &mut Vec<u8>)
        ensures
            final(out)@ == old(out)@ + self@.text(),
    {
        match self {
            MonetAddr::Dns { host, port } => {
                push_bytes(out, host.as_slice());
                out.push(58);
                push_decimal(out, *port as usize);
                assert(out@ =~= old(out)@ + (host@.push(58) + decimal_digits(*port as nat)));
            },
            MonetAddr::Ip { ip, port } => {
                let addr = TcpAddr { ip: *ip, port: *port };
                addr.push_text(out);
            },
            MonetAddr::Unix(path) => push_bytes(out, path.as_slice()),
            MonetAddr::PortOnly(port) => push_decimal(out, *port as usize),
        }
    }

    /// The address as the user would write it.
    pub fn text(&self) -> (out: Vec<u8>)
        ensures
            out@ == self@.text(),
    {
        let mut out: Vec<u8> = Vec::new();
        self.push_text(&mut out);
        assert(Seq::<u8>::empty() + self@.text() =~= self@.text());
        out
    }

    /// Read `text` as an address, or say that it cannot be read as one.
    pub fn try_from_bytes(text: &[u8]) -> (r: Result<MonetAddr, IoError>)
        ensures
            r is Ok <==> parse_address(text@) is Some,
            r matches Ok(addr) ==> Some(addr@) == parse_address(text@),
            r matches Err(e) ==> e@ == (IoErrorView {
                kind: IoErrorKind::InvalidInput,
                message: "invalid address: ".spec_bytes() + text@,
            }),
    {
        match Self::parse(text) {
            Some(addr) => Ok(addr),
            None => {
                let mut message: Vec<u8> = Vec::new();
                push_str(&mut message, "invalid address: ");
                push_bytes(&mut message, text);
                Err(IoError { kind: IoErrorKind::InvalidInput, message })
            },
        }
    }

    /// The concrete addresses that the address stands for, those of Unix
    /// Domain sockets first. `tcp_addrs` are the TCP addresses that
    /// [`MonetAddr::resolve_tcp`] has led to.
    pub fn resolve(&self, tcp_addrs: Vec<Addr>) -> (addrs: Vec<Addr>)
        ensures
            addr_views(addrs@) == self@.unix_addrs() + addr_views(tcp_addrs@),
    {
        let mut addrs = self.resolve_unix();
        let mut tcp_addrs = tcp_addrs;
        let ghost unix = addrs@;
        let ghost tcp = tcp_addrs@;
        addrs.append(&mut tcp_addrs);
        proof {
            assert(addr_views(unix + tcp) =~= addr_views(unix) + addr_views(tcp));
        }
        addrs
    }

    /// The TCP side of the address: an address that is known, or a host
    /// name that is yet to be looked up.
    pub fn resolve_tcp(&self) -> (lookup: TcpLookup)
        ensures
            lookup@ == self@.tcp_lookup(),
    {
        match self {
            MonetAddr::Unix(_) => TcpLookup::Nothing,
            MonetAddr::Dns { host, port } => TcpLookup::Name { host: host.clone(), port: *port },
            MonetAddr::Ip { ip, port } => TcpLookup::Address(TcpAddr { ip: *ip, port: *port }),
            MonetAddr::PortOnly(port) => {
                let mut host: Vec<u8> = Vec::new();
                push_str(&mut host, "localhost");
                assert(host@ =~= "localhost".spec_bytes());
                TcpLookup::Name { host, port: *port }
            },
        }
    }

    /// The Unix Domain sockets that the address stands for.
    pub fn resolve_unix(&self) -> (addrs: Vec<Addr>)
        ensures
            addr_views(addrs@) == self@.unix_addrs(),
    {
        let mut addrs: Vec<Addr> = Vec::new();
        match self {
            MonetAddr::Dns { .. } | MonetAddr::Ip { .. } => {},
            MonetAddr::Unix(p) => {
                addrs.push(Addr::Unix(p.clone()));
            },
            MonetAddr::PortOnly(port) => {
                let mut path: Vec<u8> = Vec::new();
                push_str(&mut path, "/tmp/.s.monetdb.");
                push_decimal(&mut path, *port as usize);
                addrs.push(Addr::Unix(path));
            },
        }
        proof {
            assert(addr_views(addrs@) =~= self@.unix_addrs());
        }
        addrs
    }
}

} // verus!
