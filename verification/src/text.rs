//! Building the text of messages, byte by byte.

use vstd::prelude::*;
use vstd::string::StringSliceAdditionalSpecFns;

verus! {

/// The ASCII digit, in lower case, for a value below sixteen.
pub open spec fn digit_char(d: nat) -> u8 {
    if d < 10 {
        (48 + d) as u8
    } else {
        (87 + d) as u8
    }
}

/// The digits of `n`, in hex or else in decimal, most significant first,
/// without leading zeros.
pub open spec fn radix_digits(n: nat, hex: bool) -> Seq<u8>
    decreases n,
{
    if hex {
        if n < 16 {
            seq![digit_char(n)]
        } else {
            radix_digits(n / 16, hex).push(digit_char(n % 16))
        }
    } else {
        if n < 10 {
            seq![digit_char(n)]
        } else {
            radix_digits(n / 10, hex).push(digit_char(n % 10))
        }
    }
}

/// The decimal digits of `n`, most significant first, without leading zeros.
pub open spec fn decimal_digits(n: nat) -> Seq<u8> {
    radix_digits(n, false)
}

/// The lower case hex digits of `n`, most significant first, without leading
/// zeros.
pub open spec fn hex_digits(n: nat) -> Seq<u8> {
    radix_digits(n, true)
}

/// The two lower case hex digits of a byte.
pub open spec fn hex_pair(byte: u8) -> Seq<u8> {
    seq![digit_char((byte / 16) as nat), digit_char((byte % 16) as nat)]
}

/// The digit for a value below the radix.
pub fn digit(d: u8) -> (c: u8)
    requires
        d < 16,
    ensures
        c == digit_char(d as nat),
{
    if d < 10 {
        48 + d
    } else {
        87 + d
    }
}

/// Append the digits of `n`, in hex or else in decimal, to `out`.
pub fn push_radix(out: &mut Vec<u8>, n: usize, hex: bool)
    ensures
        final(out)@ == old(out)@ + radix_digits(n as nat, hex),
{
    let mut digits: Vec<u8> = Vec::new();
    let mut rest: usize = n;
    // Collect the digits least significant first, then copy them in reverse.
    loop
        invariant_except_break
            radix_digits(n as nat, hex) == radix_digits(rest as nat, hex) + digits@.reverse(),
        ensures
            radix_digits(n as nat, hex) == digits@.reverse(),
        decreases rest,
    {
        let d: u8 = if hex {
            (rest % 16) as u8
        } else {
            (rest % 10) as u8
        };
        let next: usize = if hex {
            rest / 16
        } else {
            rest / 10
        };
        let c = digit(d);
        proof {
            let before = digits@;
            assert(before.push(c).reverse() =~= seq![c] + before.reverse());
            assert(radix_digits(next as nat, hex).push(c) + before.reverse() =~= radix_digits(
                next as nat,
                hex,
            ) + (seq![c] + before.reverse()));
        }
        digits.push(c);
        if next == 0 {
            proof {
                assert(radix_digits(rest as nat, hex) =~= seq![c]);
            }
            break ;
        }
        rest = next;
    }
    let mut i: usize = digits.len();
    while i > 0
        invariant
            i <= digits.len(),
            out@ == old(out)@ + digits@.reverse().take(digits.len() - i),
        decreases i,
    {
        i = i - 1;
        out.push(digits[i]);
        proof {
            let rev = digits@.reverse();
            let k = digits.len() - i;
            assert(rev.take(k) =~= rev.take(k - 1).push(digits@[i as int]));
            assert(old(out)@ + rev.take(k - 1).push(digits@[i as int]) =~= (old(out)@ + rev.take(
                k - 1,
            )).push(digits@[i as int]));
        }
    }
    proof {
        let rev = digits@.reverse();
        assert(rev.take(digits.len() as int) =~= rev);
    }
}

/// Append the decimal digits of `n` to `out`.
pub fn push_decimal(out: &mut Vec<u8>, n: usize)
    ensures
        final(out)@ == old(out)@ + decimal_digits(n as nat),
{
    push_radix(out, n, false);
}

/// Append the lower case hex digits of `n` to `out`.
pub fn push_hex(out: &mut Vec<u8>, n: usize)
    ensures
        final(out)@ == old(out)@ + hex_digits(n as nat),
{
    push_radix(out, n, true);
}

/// Append all of `bytes` to `out`.
pub fn push_bytes(out: &mut Vec<u8>, bytes: &[u8])
    ensures
        final(out)@ == old(out)@ + bytes@,
{
    out.extend_from_slice(bytes);
}

/// Append the UTF-8 encoding of `s` to `out`.
pub fn push_str(out: &mut Vec<u8>, s: &str)
    ensures
        final(out)@ == old(out)@ + s.spec_bytes(),
{
    out.extend_from_slice(s.as_bytes());
}

} // verus!
