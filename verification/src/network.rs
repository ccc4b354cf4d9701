//! Addresses: what the proxy listens on, connects to and reports about.

use crate::text::{decimal_digits, push_decimal, push_hex};
use vstd::prelude::*;

verus! {

/// An IP address, held as the number that its bytes form in network order.
#[derive(Debug, Clone, Copy, PartialEq, Eq, Hash, Structural)]
pub enum IpAddress {
    V4(u32),
    V6(u128),
}

/// An IP address together with a TCP port.
#[derive(Debug, Clone, Copy, PartialEq, Eq, Hash, Structural)]
pub struct TcpAddr {
    pub ip: IpAddress,
    pub port: u16,
}

/// A concrete address that can be listened on or connected to: either a TCP
/// socket address or the path of a Unix Domain socket.
#[derive(Debug, Clone, PartialEq, Eq)]
pub enum Addr {
    Tcp(TcpAddr),
    Unix(Vec<u8>),
}

/// What an [`Addr`] stands for.
pub enum AddrView {
    Tcp(TcpAddr),
    Unix(Seq<u8>),
}

impl View for Addr {
    type V = AddrView;

    open spec fn view(&self) -> AddrView {
        match *self {
            Addr::Tcp(a) => AddrView::Tcp(a),
            Addr::Unix(path) => AddrView::Unix(path@),
        }
    }
}

/// The `count` lowest digits of `value` in base `2^bits`, most significant
/// first. With 8 bits these are the octets of an IPv4 address, with 16 bits
/// the groups of an IPv6 address.
pub open spec fn digits_of(value: nat, count: nat, bits16: bool) -> Seq<nat>
    decreases count,
{
    if count == 0 {
        Seq::empty()
    } else if bits16 {
        digits_of(value / 65536, (count - 1) as nat, bits16).push(value % 65536)
    } else {
        digits_of(value / 256, (count - 1) as nat, bits16).push(value % 256)
    }
}

/// The four octets of an IPv4 address.
pub open spec fn ipv4_octets(ip: u32) -> Seq<nat> {
    digits_of(ip as nat, 4, false)
}

/// The eight groups of an IPv6 address.
pub open spec fn ipv6_groups(ip: u128) -> Seq<nat> {
    digits_of(ip as nat, 8, true)
}

/// The numbers of `parts`, in hex or else in decimal, with `sep` between them.
pub open spec fn joined(parts: Seq<nat>, sep: u8, hex: bool) -> Seq<u8>
    decreases parts.len(),
{
    if parts.len() == 0 {
        Seq::empty()
    } else if parts.len() == 1 {
        crate::text::radix_digits(parts[0], hex)
    } else {
        joined(parts.drop_last(), sep, hex).push(sep) + crate::text::radix_digits(
            parts.last(),
            hex,
        )
    }
}

/// Dotted decimal notation.
pub open spec fn ipv4_text(ip: u32) -> Seq<u8> {
    joined(ipv4_octets(ip), 46, false)
}

/// Number of consecutive zero groups that start at position `i`.
pub open spec fn zero_run(groups: Seq<nat>, i: int) -> nat
    decreases groups.len() - i,
{
    if 0 <= i < groups.len() && groups[i] == 0 {
        1 + zero_run(groups, i + 1)
    } else {
        0
    }
}

/// Start and length of the longest run of zero groups among those that
/// start before `upto`; of several longest ones, the first.
pub open spec fn longest_zero_run(groups: Seq<nat>, upto: int) -> (int, nat)
    decreases upto,
{
    if upto <= 0 {
        (0, 0)
    } else {
        let before = longest_zero_run(groups, upto - 1);
        let here = zero_run(groups, upto - 1);
        if here > before.1 {
            (upto - 1, here)
        } else {
            before
        }
    }
}

/// Whether an IPv6 address carries an IPv4 address (`::ffff:a.b.c.d`).
pub open spec fn is_ipv4_mapped(ip: u128) -> bool {
    ip / 0x1_0000_0000 == 0xffff
}

/// The usual short notation of an IPv6 address: groups in lower case hex
/// without leading zeros; the longest run of two or more zero groups, or the
/// first of several longest ones, shortened to `::`; an address that carries
/// an IPv4 address shows it in dotted decimal notation.
pub open spec fn ipv6_text(ip: u128) -> Seq<u8> {
    let groups = ipv6_groups(ip);
    let run = longest_zero_run(groups, 8);
    if is_ipv4_mapped(ip) {
        seq![58u8, 58, 102, 102, 102, 102, 58] + ipv4_text((ip % 0x1_0000_0000) as u32)
    } else if run.1 >= 2 {
        joined(groups.take(run.0), 58, true) + seq![58u8, 58] + joined(
            groups.skip(run.0 + run.1),
            58,
            true,
        )
    } else {
        joined(groups, 58, true)
    }
}

impl IpAddress {
    /// The address in its usual notation.
    pub open spec fn spec_text(self) -> Seq<u8> {
        match self {
            IpAddress::V4(ip) => ipv4_text(ip),
            IpAddress::V6(ip) => ipv6_text(ip),
        }
    }

    /// Append the address in its usual notation to `out`.
    pub fn push_text(&self, out: &mut Vec<u8>)
        ensures
            final(out)@ == old(out)@ + self.spec_text(),
    {
        match self {
            IpAddress::V4(ip) => push_ipv4(out, *ip),
            IpAddress::V6(ip) => push_ipv6(out, *ip),
        }
    }
}

/// Split a number into its `count` lowest digits in base 256 or 65536.
fn split_digits(value: u128, count: usize, bits16: bool) -> (parts: Vec<u32>)
    ensures
        parts@.map_values(|p: u32| p as nat) == digits_of(value as nat, count as nat, bits16),
        parts@.len() == count,
{
    let mut rev: Vec<u32> = Vec::new();
    let mut rest: u128 = value;
    let mut i: usize = 0;
    while i < count
        invariant
            i <= count,
            rev@.len() == i,
            digits_of(value as nat, count as nat, bits16) == digits_of(
                rest as nat,
                (count - i) as nat,
                bits16,
            ) + rev@.map_values(|p: u32| p as nat).reverse(),
        decreases count - i,
    {
        let part: u32 = if bits16 {
            (rest % 65536) as u32
        } else {
            (rest % 256) as u32
        };
        let next: u128 = if bits16 {
            rest / 65536
        } else {
            rest / 256
        };
        proof {
            let before = rev@.map_values(|p: u32| p as nat);
            let after = rev@.push(part).map_values(|p: u32| p as nat);
            assert(after =~= before.push(part as nat));
            assert(after.reverse() =~= seq![part as nat] + before.reverse());
            assert(digits_of(next as nat, (count - i - 1) as nat, bits16).push(part as nat)
                + before.reverse() =~= digits_of(next as nat, (count - i - 1) as nat, bits16)
                + after.reverse());
        }
        rev.push(part);
        rest = next;
        i = i + 1;
    }
    let mut parts: Vec<u32> = Vec::new();
    let mut k: usize = count;
    while k > 0
        invariant
            k <= count,
            rev@.len() == count,
            parts@ == rev@.reverse().take(count - k),
        decreases k,
    {
        k = k - 1;
        parts.push(rev[k]);
        proof {
            let r = rev@.reverse();
            assert(r.take(count - k) =~= r.take(count - k - 1).push(rev@[k as int]));
        }
    }
    proof {
        let r = rev@.reverse();
        assert(r.take(count as int) =~= r);
        assert(rev@.map_values(|p: u32| p as nat).reverse() =~= r.map_values(|p: u32| p as nat));
        assert(digits_of(rest as nat, 0, bits16) + r.map_values(|p: u32| p as nat)
            =~= r.map_values(|p: u32| p as nat));
    }
    parts
}

/// Append the numbers `parts[from..to]` with `sep` between them.
fn push_joined(out: &mut Vec<u8>, parts: &Vec<u32>, from: usize, to: usize, sep: u8, hex: bool)
    requires
        from <= to <= parts@.len(),
    ensures
        final(out)@ == old(out)@ + joined(
            parts@.map_values(|p: u32| p as nat).subrange(from as int, to as int),
            sep,
            hex,
        ),
{
    let ghost all = parts@.map_values(|p: u32| p as nat);
    let mut i: usize = from;
    proof {
        assert(all.subrange(from as int, from as int) =~= Seq::<nat>::empty());
        assert(old(out)@ + Seq::<u8>::empty() =~= old(out)@);
    }
    while i < to
        invariant
            from <= i <= to <= parts@.len(),
            all == parts@.map_values(|p: u32| p as nat),
            out@ == old(out)@ + joined(all.subrange(from as int, i as int), sep, hex),
        decreases to - i,
    {
        let ghost before = out@;
        if i > from {
            out.push(sep);
        }
        if hex {
            push_hex(out, parts[i] as usize);
        } else {
            push_decimal(out, parts[i] as usize);
        }
        proof {
            let upto = all.subrange(from as int, i as int);
            let next = all.subrange(from as int, i as int + 1);
            assert(next.drop_last() =~= upto);
            assert(next.last() == parts@[i as int] as nat);
            let digits = crate::text::radix_digits(parts@[i as int] as nat, hex);
            if i > from {
                assert(out@ =~= old(out)@ + (joined(upto, sep, hex).push(sep) + digits));
            } else {
                assert(upto =~= Seq::<nat>::empty());
                assert(out@ =~= old(out)@ + digits);
            }
        }
        i = i + 1;
    }
}

/// Append an IPv4 address in dotted decimal notation.
fn push_ipv4(out: &mut Vec<u8>, ip: u32)
    ensures
        final(out)@ == old(out)@ + ipv4_text(ip),
{
    let octets = split_digits(ip as u128, 4, false);
    proof {
        let all = octets@.map_values(|p: u32| p as nat);
        assert(all.subrange(0, 4) =~= all);
    }
    push_joined(out, &octets, 0, 4, 46, false);
}

/// Length of the run of zeros that starts at `parts[i]`.
fn zero_run_at(parts: &Vec<u32>, i: usize) -> (n: usize)
    requires
        i <= parts@.len(),
    ensures
        n == zero_run(parts@.map_values(|p: u32| p as nat), i as int),
        i + n <= parts@.len(),
{
    let ghost all = parts@.map_values(|p: u32| p as nat);
    let mut k: usize = i;
    while k < parts.len() && parts[k] == 0
        invariant
            i <= k <= parts@.len(),
            all == parts@.map_values(|p: u32| p as nat),
            zero_run(all, i as int) == (k - i) + zero_run(all, k as int),
        decreases parts@.len() - k,
    {
        k = k + 1;
    }
    k - i
}

/// Append an IPv6 address in its usual short notation.
fn push_ipv6(out: &mut Vec<u8>, ip: u128)
    ensures
        final(out)@ == old(out)@ + ipv6_text(ip),
{
    if ip / 0x1_0000_0000 == 0xffff {
        out.push(58);
        out.push(58);
        out.push(102);
        out.push(102);
        out.push(102);
        out.push(102);
        out.push(58);
        let ghost mid = out@;
        assert(mid =~= old(out)@ + seq![58u8, 58, 102, 102, 102, 102, 58]);
        push_ipv4(out, (ip % 0x1_0000_0000) as u32);
        assert(out@ =~= old(out)@ + (seq![58u8, 58, 102, 102, 102, 102, 58] + ipv4_text(
            (ip % 0x1_0000_0000) as u32,
        )));
        return ;
    }
    let groups = split_digits(ip, 8, true);
    let ghost all = groups@.map_values(|p: u32| p as nat);
    let mut start: usize = 0;
    let mut len: usize = 0;
    let mut i: usize = 0;
    while i < 8
        invariant
            i <= 8,
            groups@.len() == 8,
            all == groups@.map_values(|p: u32| p as nat),
            longest_zero_run(all, i as int) == (start as int, len as nat),
            start + len <= 8,
        decreases 8 - i,
    {
        let here = zero_run_at(&groups, i);
        if here > len {
            start = i;
            len = here;
        }
        i = i + 1;
    }
    if len >= 2 {
        push_joined(out, &groups, 0, start, 58, true);
        out.push(58);
        out.push(58);
        let ghost mid = out@;
        push_joined(out, &groups, start + len, 8, 58, true);
        proof {
            assert(all.subrange(0, start as int) =~= all.take(start as int));
            assert(all.subrange(start + len, 8) =~= all.skip(start + len));
            assert(out@ =~= old(out)@ + (joined(all.take(start as int), 58, true) + seq![58u8, 58]
                + joined(all.skip(start + len), 58, true)));
        }
    } else {
        proof {
            assert(all.subrange(0, 8) =~= all);
        }
        push_joined(out, &groups, 0, 8, 58, true);
    }
}

impl TcpAddr {
    /// The address as text: `a.b.c.d:port` or `[ipv6]:port`.
    pub open spec fn spec_text(self) -> Seq<u8> {
        match self.ip {
            IpAddress::V4(ip) => ipv4_text(ip).push(58) + decimal_digits(self.port as nat),
            IpAddress::V6(ip) => (seq![91u8] + ipv6_text(ip) + seq![93u8, 58]) + decimal_digits(
                self.port as nat,
            ),
        }
    }

    /// Append the address as text to `out`.
    pub fn push_text(&self, out: &mut Vec<u8>)
        ensures
            final(out)@ == old(out)@ + self.spec_text(),
    {
        match self.ip {
            IpAddress::V4(ip) => {
                push_ipv4(out, ip);
                out.push(58);
                push_decimal(out, self.port as usize);
                assert(out@ =~= old(out)@ + (ipv4_text(ip).push(58) + decimal_digits(
                    self.port as nat,
                )));
            },
            IpAddress::V6(ip) => {
                out.push(91);
                push_ipv6(out, ip);
                out.push(93);
                out.push(58);
                push_decimal(out, self.port as usize);
                assert(out@ =~= old(out)@ + ((seq![91u8] + ipv6_text(ip) + seq![93u8, 58])
                    + decimal_digits(self.port as nat)));
            },
        }
    }
}

impl AddrView {
    /// The address as text: a TCP address as `host:port`, a Unix Domain
    /// socket as its path.
    pub open spec fn text(self) -> Seq<u8> {
        match self {
            AddrView::Tcp(a) => a.spec_text(),
            AddrView::Unix(path) => path,
        }
    }
}

impl Addr {
    /// The address as text: a TCP address as `host:port`, a Unix Domain
    /// socket as its path.
    pub open spec fn spec_text(self) -> Seq<u8> {
        self@.text()
    }

    pub fn is_tcp(&self) -> (b: bool)
        ensures
            b <==> *self is Tcp,
    {
        matches!(self, Addr::Tcp(_))
    }

    pub fn is_unix(&self) -> (b: bool)
        ensures
            b <==> *self is Unix,
    {
        !self.is_tcp()
    }

    /// Append the address as text to `out`.
    pub fn push_text(&self, out: &mut Vec<u8>)
        ensures
            final(out)@ == old(out)@ + self.spec_text(),
    {
        match self {
            Addr::Tcp(a) => a.push_text(out),
            Addr::Unix(path) => out.extend_from_slice(path.as_slice()),
        }
    }

    /// The address as text.
    pub fn text(&self) -> (out: Vec<u8>)
        ensures
            out@ == self.spec_text(),
    {
        let mut out: Vec<u8> = Vec::new();
        self.push_text(&mut out);
        assert(Seq::<u8>::empty() + self.spec_text() =~= self.spec_text());
        out
    }

    /// A copy of the address.
    pub fn duplicate(&self) -> (a: Addr)
        ensures
            a@ == self@,
    {
        match self {
            Addr::Tcp(t) => Addr::Tcp(*t),
            Addr::Unix(path) => Addr::Unix(path.clone()),
        }
    }
}

} // verus!
