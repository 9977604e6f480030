//! Decimal and hexadecimal rendering of integers, and the string
//! operations the renderers are built from.

use vstd::prelude::*;
use vstd::string::*;
use vstd::utf8::{decode_utf8, valid_utf8};

verus! {

/// Appends one character to a string (`String::push`).
#[verifier::external_body]
pub(crate) fn push_char(s: &mut String, c: char)
    ensures
        final(s)@ == old(s)@.push(c),
{
    s.push(c);
}

/// Appends a string slice.
pub(crate) fn push_str(s: &mut String, t: &str)
    ensures
        final(s)@ == old(s)@ + t@,
{
    s.append(t);
}

/// The lower-case hexadecimal digit for `d < 16`.
pub open spec fn digit_char(d: nat) -> char {
    seq!['0', '1', '2', '3', '4', '5', '6', '7', '8', '9', 'a', 'b', 'c', 'd', 'e', 'f'][d as int]
}

fn digit(d: u64) -> (c: char)
    requires
        d < 16,
    ensures
        c == digit_char(d as nat),
{
    match d {
        0 => '0',
        1 => '1',
        2 => '2',
        3 => '3',
        4 => '4',
        5 => '5',
        6 => '6',
        7 => '7',
        8 => '8',
        9 => '9',
        10 => 'a',
        11 => 'b',
        12 => 'c',
        13 => 'd',
        14 => 'e',
        _ => 'f',
    }
}

/// Digits of `n` in base `base` (2..=16), most significant first, with no
/// leading zeros (zero is the single digit `0`).
pub open spec fn digits(n: nat, base: nat) -> Seq<char>
    decreases n,
{
    if base < 2 {
        seq![]
    } else if n < base {
        seq![digit_char(n)]
    } else {
        proof {
            vstd::arithmetic::div_mod::lemma_div_decreases(n as int, base as int);
        }
        digits(n / base, base).push(digit_char(n % base))
    }
}

/// Decimal text of a natural number.
pub open spec fn dec_nat(n: nat) -> Seq<char> {
    digits(n, 10)
}

/// Decimal text of an integer, with a leading `-` when negative.
pub open spec fn dec_int(i: int) -> Seq<char> {
    if i < 0 {
        seq!['-'] + dec_nat((-i) as nat)
    } else {
        dec_nat(i as nat)
    }
}

/// Lower-case hexadecimal text of a natural number, no leading zeros.
pub open spec fn hex_nat(n: nat) -> Seq<char> {
    digits(n, 16)
}

/// `n` zeros.
pub open spec fn zeros(n: nat) -> Seq<char> {
    Seq::new(n, |i: int| '0')
}

/// Hexadecimal text of `n`, left-padded with zeros to at least `width`
/// characters (`{:0width$x}`).
pub open spec fn hex_padded(n: nat, width: nat) -> Seq<char> {
    let h = hex_nat(n);
    if h.len() < width {
        zeros((width - h.len()) as nat) + h
    } else {
        h
    }
}

pub proof fn lemma_digits_nonempty(n: nat, base: nat)
    requires
        base >= 2,
    ensures
        digits(n, base).len() >= 1,
    decreases n,
{
    if n >= base {
        vstd::arithmetic::div_mod::lemma_div_decreases(n as int, base as int);
        lemma_digits_nonempty(n / base, base);
    }
}

/// A byte in two hex digits takes exactly two characters.
pub proof fn lemma_hex_padded_byte(b: u8)
    ensures
        hex_padded(b as nat, 2).len() == 2,
{
    if b >= 16 {
        assert(hex_nat(b as nat) == digits((b / 16) as nat, 16).push(digit_char((b % 16) as nat)));
        assert(b / 16 < 16);
    }
}

/// Appends the digits of `n` in base `base`.
pub(crate) fn push_digits(s: &mut String, n: u64, base: u64)
    requires
        2 <= base <= 16,
    ensures
        final(s)@ == old(s)@ + digits(n as nat, base as nat),
    decreases n,
{
    if n < base {
        push_char(s, digit(n));
        assert(digits(n as nat, base as nat) == seq![digit_char(n as nat)]);
    } else {
        proof {
            vstd::arithmetic::div_mod::lemma_div_decreases(n as int, base as int);
        }
        push_digits(s, n / base, base);
        push_char(s, digit(n % base));
    }
}

/// Appends the decimal text of an unsigned number.
pub(crate) fn push_dec_u64(s: &mut String, n: u64)
    ensures
        final(s)@ == old(s)@ + dec_nat(n as nat),
{
    push_digits(s, n, 10);
}

/// Appends the decimal text of a signed number.
pub(crate) fn push_dec_i64(s: &mut String, i: i64)
    ensures
        final(s)@ == old(s)@ + dec_int(i as int),
{
    if i < 0 {
        push_char(s, '-');
        let m: u64 = if i == i64::MIN {
            9223372036854775808u64
        } else {
            (-i) as u64
        };
        push_digits(s, m, 10);
        assert(old(s)@.push('-') + dec_nat(m as nat) == old(s)@ + (seq!['-'] + dec_nat(m as nat)));
    } else {
        push_digits(s, i as u64, 10);
    }
}

/// Appends `n` in lower-case hexadecimal, zero-padded to `width` digits.
pub(crate) fn push_hex_padded(s: &mut String, n: u64, width: usize)
    ensures
        final(s)@ == old(s)@ + hex_padded(n as nat, width as nat),
{
    let mut t = String::new();
    push_digits(&mut t, n, 16);
    let len = digit_count(n, 16);
    if len < width {
        let pad = width - len;
        let mut i: usize = 0;
        while i < pad
            invariant
                i <= pad,
                s@ == old(s)@ + zeros(i as nat),
            decreases pad - i,
        {
            push_char(s, '0');
            assert(zeros((i + 1) as nat) =~= zeros(i as nat).push('0'));
            i = i + 1;
        }
    }
    s.append(t.as_str());
    assert(hex_padded(n as nat, width as nat) =~= if len < width {
        zeros((width - len) as nat) + hex_nat(n as nat)
    } else {
        hex_nat(n as nat)
    });
}

/// Number of digits of `n` in base `base`.
pub(crate) fn digit_count(n: u64, base: u64) -> (r: usize)
    requires
        2 <= base <= 16,
    ensures
        r == digits(n as nat, base as nat).len(),
    decreases n,
{
    if n < base {
        1
    } else {
        proof {
            vstd::arithmetic::div_mod::lemma_div_decreases(n as int, base as int);
            vstd::arithmetic::power2::lemma2_to64();
            lemma_digits_len_log(n as nat, base as nat, 64);
        }
        let r = digit_count(n / base, base);
        r + 1
    }
}

proof fn lemma_digits_len_log(n: nat, base: nat, k: nat)
    requires
        base >= 2,
        n < vstd::arithmetic::power2::pow2(k),
    ensures
        digits(n, base).len() <= k + 1,
    decreases n,
{
    if n >= base {
        vstd::arithmetic::div_mod::lemma_div_decreases(n as int, base as int);
        vstd::arithmetic::power2::lemma_pow2_pos(k);
        if k == 0 {
            vstd::arithmetic::power2::lemma2_to64();
            assert(false);
        }
        let k1 = (k - 1) as nat;
        vstd::arithmetic::power2::lemma_pow2_unfold(k);
        vstd::arithmetic::div_mod::lemma_div_is_ordered_by_denominator(n as int, 2, base as int);
        assert(n / base < vstd::arithmetic::power2::pow2(k1));
        lemma_digits_len_log(n / base, base, k1);
    }
}

/// What `{:?}` prints for a string: the string quoted, with escapes.
pub uninterp spec fn str_debug(s: Seq<char>) -> Seq<char>;

/// `format!("{s:?}")`: the `Debug` text of a string slice, a function of
/// its characters alone.
#[verifier::external_body]
pub(crate) fn debug_str(s: &str) -> (r: String)
    ensures
        r@ == str_debug(s@),
{
    format!("{s:?}")
}

/// `std::str::from_utf8` on `bytes[lo..hi]`, copied into a `String`:
/// `Some` exactly when the bytes are valid UTF-8, and then the decoded
/// characters.
#[verifier::external_body]
pub(crate) fn utf8_string(bytes: &Vec<u8>, lo: usize, hi: usize) -> (r: Option<String>)
    requires
        lo <= hi <= bytes@.len(),
    ensures
        r is Some <==> valid_utf8(bytes@.subrange(lo as int, hi as int)),
        r matches Some(s) ==> s@ == decode_utf8(bytes@.subrange(lo as int, hi as int)),
{
    std::str::from_utf8(&bytes[lo..hi]).ok().map(|s| s.to_string())
}

} // verus!
