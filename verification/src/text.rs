//! Number and byte formatting used by the frame printers.
use vstd::prelude::*;

verus! {

/// The character of digit `d` (below 16), with `A`..`F` or `a`..`f` for ten and above.
pub open spec fn digit_char(d: nat, upper: bool) -> char {
    if d < 10 {
        ('0' as nat + d) as char
    } else if upper {
        ('A' as nat + (d - 10)) as char
    } else {
        ('a' as nat + (d - 10)) as char
    }
}

/// The digits of `n` written in base `radix`, most significant first, with no leading zeros
/// (zero is a single `0`).
pub open spec fn radix_text(n: nat, radix: nat, upper: bool) -> Seq<char>
    decreases n,
{
    if radix < 2 || n < radix {
        seq![digit_char(n, upper)]
    } else {
        proof {
            assert(n / radix < n) by (nonlinear_arith)
                requires
                    radix >= 2,
                    n >= radix,
            ;
        }
        radix_text(n / radix, radix, upper).push(digit_char(n % radix, upper))
    }
}

/// `text` widened to `width` characters by leading zeros; unchanged when already as wide.
pub open spec fn zero_pad(text: Seq<char>, width: nat) -> Seq<char> {
    if text.len() >= width {
        text
    } else {
        Seq::new((width - text.len()) as nat, |i: int| '0') + text
    }
}

/// The concatenation of `item(b)` over the bytes `b` of `data`, in order.
pub open spec fn concat_map(data: Seq<u8>, item: spec_fn(u8) -> Seq<char>) -> Seq<char>
    decreases data.len(),
{
    if data.len() == 0 {
        Seq::empty()
    } else {
        concat_map(data.drop_last(), item) + item(data.last())
    }
}

/// The value of an upper-case hex digit character (zero for any other character).
pub open spec fn hex_char_value(c: char) -> nat {
    if '0' <= c && c <= '9' {
        (c as int - '0' as int) as nat
    } else if 'A' <= c && c <= 'F' {
        (c as int - 'A' as int + 10) as nat
    } else {
        0
    }
}

/// `c` is an upper-case hex digit.
pub open spec fn is_hex_char(c: char) -> bool {
    ('0' <= c && c <= '9') || ('A' <= c && c <= 'F')
}

/// The number that the upper-case hex digits `s` stand for, most significant first.
pub open spec fn hex_value(s: Seq<char>) -> nat
    decreases s.len(),
{
    if s.len() == 0 {
        0
    } else {
        hex_value(s.drop_last()) * 16 + hex_char_value(s.last())
    }
}

/// Sixteen to the power `k`.
pub open spec fn pow16(k: nat) -> nat
    decreases k,
{
    if k == 0 {
        1
    } else {
        16 * pow16((k - 1) as nat)
    }
}

/// An upper-case digit character reads back as its digit.
proof fn lemma_digit_value(d: nat)
    requires
        d < 16,
    ensures
        hex_char_value(digit_char(d, true)) == d,
        is_hex_char(digit_char(d, true)),
{
    let c = digit_char(d, true);
    if d < 10 {
        assert(c as int == 48 + d);
    } else {
        assert(c as int == 65 + (d - 10));
    }
}

/// Reading the upper-case hex digits of `n` back gives `n`.
pub proof fn lemma_hex_value_of_digits(n: nat)
    ensures
        hex_value(radix_text(n, 16, true)) == n,
        forall|i: int| 0 <= i < radix_text(n, 16, true).len() ==> is_hex_char(#[trigger] radix_text(n, 16, true)[i]),
    decreases n,
{
    let t = radix_text(n, 16, true);
    if n < 16 {
        lemma_digit_value(n);
        assert(t =~= seq![digit_char(n, true)]);
        assert(t.drop_last() =~= Seq::<char>::empty());
        assert(hex_value(t.drop_last()) == 0);
        assert(hex_value(t) == hex_value(t.drop_last()) * 16 + hex_char_value(t.last()));
    } else {
        lemma_digit_value(n % 16);
        assert(n / 16 < n);
        lemma_hex_value_of_digits(n / 16);
        assert(t.drop_last() =~= radix_text(n / 16, 16, true));
        assert(t.last() == digit_char(n % 16, true));
        assert(hex_value(t) == hex_value(t.drop_last()) * 16 + hex_char_value(t.last()));
        let q = n / 16;
        let r = n % 16;
        assert(n == q * 16 + r) by (nonlinear_arith)
            requires
                q == n / 16,
                r == n % 16,
        ;
        assert(hex_value(t) == n);
        assert forall|i: int| 0 <= i < t.len() implies is_hex_char(#[trigger] t[i]) by {
            if i < t.len() - 1 {
                assert(t[i] == radix_text(n / 16, 16, true)[i]);
            }
        }
    }
}

/// The upper-case hex digits of a number below `16^k` are at most `k`.
pub proof fn lemma_hex_digits_len(n: nat, k: nat)
    requires
        k >= 1,
        n < pow16(k),
    ensures
        radix_text(n, 16, true).len() <= k,
    decreases n,
{
    if n >= 16 {
        assert(k >= 2) by {
            if k == 1 {
                assert(pow16(1) == 16 * pow16(0));
            }
        }
        assert(pow16(k) == 16 * pow16((k - 1) as nat));
        assert(n / 16 < pow16((k - 1) as nat)) by (nonlinear_arith)
            requires
                n < 16 * pow16((k - 1) as nat),
        ;
        assert(n / 16 < n);
        lemma_hex_digits_len(n / 16, (k - 1) as nat);
    }
}

/// Leading zeros do not change the value of hex digits.
pub proof fn lemma_hex_value_zeros(k: nat, s: Seq<char>)
    ensures
        hex_value(Seq::new(k, |i: int| '0') + s) == hex_value(s),
    decreases s.len() + k,
{
    let z = Seq::new(k, |i: int| '0');
    if s.len() == 0 {
        assert(z + s =~= z);
        if k > 0 {
            assert(z.drop_last() =~= Seq::new((k - 1) as nat, |i: int| '0'));
            lemma_hex_value_zeros((k - 1) as nat, s);
            assert(Seq::new((k - 1) as nat, |i: int| '0') + s =~= Seq::new((k - 1) as nat, |i: int| '0'));
        }
    } else {
        assert((z + s).drop_last() =~= z + s.drop_last());
        lemma_hex_value_zeros(k, s.drop_last());
    }
}

/// Reading back the upper-case hex digits of `n` widened by leading zeros gives `n`; every
/// character is a hex digit, and the text is `width` long when `n` has at most that many
/// digits.
pub proof fn lemma_padded_hex(n: nat, width: nat)
    ensures
        hex_value(zero_pad(radix_text(n, 16, true), width)) == n,
        forall|i: int| 0 <= i < zero_pad(radix_text(n, 16, true), width).len()
            ==> is_hex_char(#[trigger] zero_pad(radix_text(n, 16, true), width)[i]),
        radix_text(n, 16, true).len() <= width ==> zero_pad(radix_text(n, 16, true), width).len() == width,
{
    let t = radix_text(n, 16, true);
    lemma_hex_value_of_digits(n);
    if t.len() < width {
        let k = (width - t.len()) as nat;
        lemma_hex_value_zeros(k, t);
        let p = zero_pad(t, width);
        assert forall|i: int| 0 <= i < p.len() implies is_hex_char(#[trigger] p[i]) by {
            if i >= k {
                assert(p[i] == t[i - k]);
            }
        }
    }
}

/// The value of a digit character: `0`..`9`, `A`..`F` and `a`..`f` (zero for any other
/// character).
pub open spec fn digit_value(c: char) -> nat {
    if '0' <= c && c <= '9' {
        (c as int - '0' as int) as nat
    } else if 'A' <= c && c <= 'F' {
        (c as int - 'A' as int + 10) as nat
    } else if 'a' <= c && c <= 'f' {
        (c as int - 'a' as int + 10) as nat
    } else {
        0
    }
}

/// `c` is a digit of base `radix`, with letters in upper case when `upper`, else in lower
/// case.
pub open spec fn is_digit(c: char, radix: nat, upper: bool) -> bool {
    &&& (('0' <= c && c <= '9') || (upper && 'A' <= c && c <= 'F') || (!upper && 'a' <= c && c <= 'f'))
    &&& digit_value(c) < radix
}

/// Every character of `s` is a digit of base `radix` in the given case, and there is at
/// least one.
pub open spec fn all_digits(s: Seq<char>, radix: nat, upper: bool) -> bool {
    s.len() >= 1 && forall|i: int| 0 <= i < s.len() ==> is_digit(#[trigger] s[i], radix, upper)
}

/// The number that the digits `s` of base `radix` stand for, most significant first.
pub open spec fn digits_value(s: Seq<char>, radix: nat) -> nat
    decreases s.len(),
{
    if s.len() == 0 {
        0
    } else {
        digits_value(s.drop_last(), radix) * radix + digit_value(s.last())
    }
}

proof fn lemma_digit_char_value(d: nat, radix: nat, upper: bool)
    requires
        d < radix <= 16,
    ensures
        digit_value(digit_char(d, upper)) == d,
        is_digit(digit_char(d, upper), radix, upper),
{
    let c = digit_char(d, upper);
    if d < 10 {
        assert(c as int == 48 + d);
    } else if upper {
        assert(c as int == 65 + (d - 10));
    } else {
        assert(c as int == 97 + (d - 10));
    }
}

/// The base-`radix` digits of `n` are digits in the given case and read back as `n`.
pub proof fn lemma_digits_value(n: nat, radix: nat, upper: bool)
    requires
        2 <= radix <= 16,
    ensures
        digits_value(radix_text(n, radix, upper), radix) == n,
        all_digits(radix_text(n, radix, upper), radix, upper),
    decreases n,
{
    let t = radix_text(n, radix, upper);
    if n < radix {
        lemma_digit_char_value(n, radix, upper);
        assert(t =~= seq![digit_char(n, upper)]);
        assert(t.drop_last() =~= Seq::<char>::empty());
        assert(digits_value(t.drop_last(), radix) == 0);
        assert(digits_value(t, radix) == digits_value(t.drop_last(), radix) * radix + digit_value(t.last()));
    } else {
        let q = n / radix;
        let r = n % radix;
        assert(q < n && r < radix && n == q * radix + r) by (nonlinear_arith)
            requires
                q == n / radix,
                r == n % radix,
                radix >= 2,
                n >= radix,
        ;
        lemma_digit_char_value(r, radix, upper);
        lemma_digits_value(q, radix, upper);
        let p = radix_text(q, radix, upper);
        assert(t == p.push(digit_char(r, upper)));
        assert(t.drop_last() =~= p);
        assert(digits_value(t, radix) == digits_value(p, radix) * radix + digit_value(t.last()));
        assert forall|i: int| 0 <= i < t.len() implies is_digit(#[trigger] t[i], radix, upper) by {
            if i < t.len() - 1 {
                assert(t[i] == p[i]);
            }
        }
    }
}

/// Leading zeros do not change the value of digits.
pub proof fn lemma_digits_value_zeros(k: nat, s: Seq<char>, radix: nat)
    ensures
        digits_value(Seq::new(k, |i: int| '0') + s, radix) == digits_value(s, radix),
    decreases s.len() + k,
{
    let z = Seq::new(k, |i: int| '0');
    if s.len() == 0 {
        assert(z + s =~= z);
        if k > 0 {
            assert(z.drop_last() =~= Seq::new((k - 1) as nat, |i: int| '0'));
            lemma_digits_value_zeros((k - 1) as nat, s, radix);
            assert(Seq::new((k - 1) as nat, |i: int| '0') + s =~= Seq::new((k - 1) as nat, |i: int| '0'));
            assert(z.last() == '0');
            assert(digit_value('0') == 0);
            assert(digits_value(z.drop_last(), radix) == 0);
            assert(digits_value(z, radix) == digits_value(z.drop_last(), radix) * radix + digit_value(z.last()));
            assert(0 * radix == 0) by (nonlinear_arith);
        }
    } else {
        assert((z + s).drop_last() =~= z + s.drop_last());
        assert((z + s).last() == s.last());
        lemma_digits_value_zeros(k, s.drop_last(), radix);
    }
}

/// The base-`radix` digits of `n` widened by leading zeros to `width` are digits, read back
/// as `n`, and are `width` long or, when wider, as long as the digits themselves.
pub proof fn lemma_padded_digits(n: nat, radix: nat, upper: bool, width: nat)
    requires
        2 <= radix <= 16,
    ensures
        digits_value(zero_pad(radix_text(n, radix, upper), width), radix) == n,
        all_digits(zero_pad(radix_text(n, radix, upper), width), radix, upper),
        zero_pad(radix_text(n, radix, upper), width).len() >= width,
{
    let t = radix_text(n, radix, upper);
    lemma_digits_value(n, radix, upper);
    if t.len() < width {
        let k = (width - t.len()) as nat;
        lemma_digits_value_zeros(k, t, radix);
        let p = zero_pad(t, width);
        assert forall|i: int| 0 <= i < p.len() implies is_digit(#[trigger] p[i], radix, upper) by {
            if i >= k {
                assert(p[i] == t[i - k]);
            } else {
                assert(p[i] == '0');
            }
        }
    }
}

/// Executable digit character, as `digit_char`.
fn digit(d: u64, upper: bool) -> (c: char)
    requires
        d < 16,
    ensures
        c == digit_char(d as nat, upper),
{
    let b: u8 = d as u8;
    if d < 10 {
        ('0' as u8 + b) as char
    } else if upper {
        ('A' as u8 + (b - 10)) as char
    } else {
        ('a' as u8 + (b - 10)) as char
    }
}

/// Appends one character to a string (`String::push`).
#[verifier::external_body]
fn push_char(s: &mut String, c: char)
    ensures
        final(s)@ == old(s)@.push(c),
{
    s.push(c)
}

/// Appends the base-`radix` digits of `n` to `s`.
pub(crate) fn push_radix(s: &mut String, n: u64, radix: u64, upper: bool)
    requires
        2 <= radix <= 16,
    ensures
        final(s)@ == old(s)@ + radix_text(n as nat, radix as nat, upper),
    decreases n,
{
    if n < radix {
        push_char(s, digit(n, upper));
    } else {
        assert(n / radix < n) by (nonlinear_arith)
            requires
                radix >= 2,
                n >= radix,
        ;
        push_radix(s, n / radix, radix, upper);
        push_char(s, digit(n % radix, upper));
        assert(s@ =~= old(s)@ + radix_text(n as nat, radix as nat, upper));
    }
}

/// The number of base-`radix` digits of `n`.
fn radix_len(n: u64, radix: u64) -> (len: u64)
    requires
        2 <= radix <= 16,
    ensures
        len == radix_text(n as nat, radix as nat, true).len(),
        len <= n as int + 1,
    decreases n,
{
    if n < radix {
        1
    } else {
        assert(n / radix < n) by (nonlinear_arith)
            requires
                radix >= 2,
                n >= radix,
        ;
        assert(n / radix + 1 <= n && n / radix + n / radix <= n) by (nonlinear_arith)
            requires
                radix >= 2,
                n >= radix,
        ;
        radix_len(n / radix, radix) + 1
    }
}

/// Appends the base-`radix` digits of `n` to `s`, widened by leading zeros to `width`.
pub(crate) fn push_padded(s: &mut String, n: u64, radix: u64, upper: bool, width: u64)
    requires
        2 <= radix <= 16,
    ensures
        final(s)@ == old(s)@ + zero_pad(radix_text(n as nat, radix as nat, upper), width as nat),
{
    let len = radix_len(n, radix);
    proof {
        lemma_radix_len_case(n as nat, radix as nat, upper);
    }
    let ghost start = s@;
    if len < width {
        let mut k: u64 = len;
        while k < width
            invariant
                len <= k <= width,
                s@ == start + Seq::new((k - len) as nat, |i: int| '0'),
            decreases width - k,
        {
            push_char(s, '0');
            k = k + 1;
            assert(s@ =~= start + Seq::new((k - len) as nat, |i: int| '0'));
        }
    }
    push_radix(s, n, radix, upper);
    assert(s@ =~= start + zero_pad(radix_text(n as nat, radix as nat, upper), width as nat));
}

/// The length of the digit text does not depend on the case of the letters.
pub proof fn lemma_radix_len_case(n: nat, radix: nat, upper: bool)
    ensures
        radix_text(n, radix, upper).len() == radix_text(n, radix, true).len(),
    decreases n,
{
    if radix < 2 || n < radix {
    } else {
        assert(n / radix < n) by (nonlinear_arith)
            requires
                radix >= 2,
                n >= radix,
        ;
        lemma_radix_len_case(n / radix, radix, upper);
    }
}

} // verus!
