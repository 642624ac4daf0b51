use vstd::prelude::*;
use vstd::string::*;

verus! {

/// The digit `d` (below 16), lower case.
pub open spec fn digit(d: nat) -> Seq<char> {
    "0123456789abcdef"@.subrange(d as int, d + 1int)
}

/// `n` written in base `base`, most significant digit first, no leading
/// zeros.
pub open spec fn radix_text(n: nat, base: nat) -> Seq<char>
    decreases n
    via radix_text_decreases
{
    if n < base || base < 2 {
        digit(n)
    } else {
        radix_text(n / base, base) + digit(n % base)
    }
}

#[via_fn]
proof fn radix_text_decreases(n: nat, base: nat) {
    if !(n < base || base < 2) {
        assert(n / base < n) by (nonlinear_arith)
            requires
                base >= 2,
                n >= base,
        ;
    }
}

pub open spec fn repeat(s: Seq<char>, n: nat) -> Seq<char>
    decreases n,
{
    if n == 0 {
        Seq::empty()
    } else {
        repeat(s, (n - 1) as nat) + s
    }
}

/// `s` right-aligned in `width` characters, filled with `fill` on the left.
pub open spec fn pad_left(s: Seq<char>, width: nat, fill: Seq<char>) -> Seq<char> {
    if s.len() >= width {
        s
    } else {
        repeat(fill, (width - s.len()) as nat) + s
    }
}

/// `s` left-aligned in `width` characters, filled with spaces on the right.
pub open spec fn pad_right(s: Seq<char>, width: nat) -> Seq<char> {
    if s.len() >= width {
        s
    } else {
        s + repeat(" "@, (width - s.len()) as nat)
    }
}

/// `n` in hexadecimal after `0x`, with at least `digits` digits.
pub open spec fn hex_prefixed(n: nat, digits: nat) -> Seq<char> {
    "0x"@ + pad_left(radix_text(n, 16), digits, "0"@)
}

pub open spec fn decimal(n: nat) -> Seq<char> {
    radix_text(n, 10)
}

fn digit_str(d: u64) -> (r: &'static str)
    requires
        d < 16,
    ensures
        r@ == digit(d as nat),
{
    let all = "0123456789abcdef";
    proof {
        reveal_strlit("0123456789abcdef");
    }
    all.substring_ascii(d as usize, d as usize + 1)
}

/// Appends `n` written in base `base`.
pub fn push_radix(out: &mut String, n: u64, base: u64)
    requires
        2 <= base <= 16,
    ensures
        final(out)@ == old(out)@ + radix_text(n as nat, base as nat),
    decreases n,
{
    if n >= base {
        assert(n / base < n) by (nonlinear_arith)
            requires
                base >= 2,
                n >= base,
        ;
        push_radix(out, n / base, base);
        out.append(digit_str(n % base));
        assert(final(out)@ =~= old(out)@ + radix_text(n as nat, base as nat));
    } else {
        out.append(digit_str(n));
    }
}

pub fn push_repeat(out: &mut String, s: &str, n: usize)
    ensures
        final(out)@ == old(out)@ + repeat(s@, n as nat),
{
    let mut i: usize = 0;
    assert(old(out)@ + repeat(s@, 0) =~= old(out)@);
    while i < n
        invariant
            i <= n,
            out@ == old(out)@ + repeat(s@, i as nat),
        decreases n - i,
    {
        out.append(s);
        i = i + 1;
        assert(out@ =~= old(out)@ + repeat(s@, i as nat));
    }
}

pub fn push_pad_left(out: &mut String, s: &str, width: usize, fill: &str)
    ensures
        final(out)@ == old(out)@ + pad_left(s@, width as nat, fill@),
{
    let len = s.unicode_len();
    if len < width {
        push_repeat(out, fill, width - len);
    }
    out.append(s);
    assert(final(out)@ =~= old(out)@ + pad_left(s@, width as nat, fill@));
}

pub fn push_pad_right(out: &mut String, s: &str, width: usize)
    ensures
        final(out)@ == old(out)@ + pad_right(s@, width as nat),
{
    let len = s.unicode_len();
    out.append(s);
    if len < width {
        push_repeat(out, " ", width - len);
    }
    assert(final(out)@ =~= old(out)@ + pad_right(s@, width as nat));
}

pub fn push_decimal(out: &mut String, n: u64)
    ensures
        final(out)@ == old(out)@ + decimal(n as nat),
{
    push_radix(out, n, 10);
}

pub fn push_hex_prefixed(out: &mut String, n: u64, digits: usize)
    ensures
        final(out)@ == old(out)@ + hex_prefixed(n as nat, digits as nat),
{
    let mut hex = String::new();
    push_radix(&mut hex, n, 16);
    assert(hex@ =~= radix_text(n as nat, 16));
    out.append("0x");
    push_pad_left(out, hex.as_str(), digits, "0");
    assert(final(out)@ =~= old(out)@ + hex_prefixed(n as nat, digits as nat));
}

} // verus!
