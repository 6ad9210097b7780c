use vstd::prelude::*;
use vstd::arithmetic::div_mod::lemma_div_is_strictly_smaller;
use vstd::arithmetic::div_mod::lemma_fundamental_div_mod;
use vstd::arithmetic::div_mod::lemma_fundamental_div_mod_converse;
use vstd::arithmetic::div_mod::lemma_mod_bound;
use vstd::arithmetic::mul::lemma_mul_is_distributive_add;
use vstd::arithmetic::mul::lemma_mul_is_distributive_sub;
use vstd::string::StrSliceExecFns;
use vstd::string::StringExecFns;
use crate::strbuf::push_char;
use crate::strbuf::push_repeat;
use crate::strbuf::repeat_char_s;

verus! {

/// The digit character for one digit value: `0`-`9`, then `a`-`z`.
pub open spec fn digit_char_s(d: nat) -> char {
    if d == 0 { '0' } else if d == 1 { '1' } else if d == 2 { '2' } else if d == 3 { '3' }
    else if d == 4 { '4' } else if d == 5 { '5' } else if d == 6 { '6' } else if d == 7 { '7' }
    else if d == 8 { '8' } else if d == 9 { '9' } else if d == 10 { 'a' } else if d == 11 { 'b' }
    else if d == 12 { 'c' } else if d == 13 { 'd' } else if d == 14 { 'e' } else if d == 15 { 'f' }
    else if d == 16 { 'g' } else if d == 17 { 'h' } else if d == 18 { 'i' } else if d == 19 { 'j' }
    else if d == 20 { 'k' } else if d == 21 { 'l' } else if d == 22 { 'm' } else if d == 23 { 'n' }
    else if d == 24 { 'o' } else if d == 25 { 'p' } else if d == 26 { 'q' } else if d == 27 { 'r' }
    else if d == 28 { 's' } else if d == 29 { 't' } else if d == 30 { 'u' } else if d == 31 { 'v' }
    else if d == 32 { 'w' } else if d == 33 { 'x' } else if d == 34 { 'y' } else { 'z' }
}

/// The positional digits of `n` in the given base, most significant first,
/// with no sign and no leading zeroes (`0` itself is the single digit `0`).
pub open spec fn udigits_s(n: nat, base: nat) -> Seq<char>
    recommends
        2 <= base <= 36,
    decreases n,
    when base >= 2
    via udigits_s_decreases
{
    if n < base {
        seq![digit_char_s(n)]
    } else {
        udigits_s(n / base, base).push(digit_char_s(n % base))
    }
}

#[via_fn]
proof fn udigits_s_decreases(n: nat, base: nat) {
    if n >= base {
        lemma_div_is_strictly_smaller(n as int, base as int);
    }
}

/// The decimal rendering of a signed number: a `-` sign for a negative
/// value, then its decimal digits.
pub open spec fn dec_int_s(i: int) -> Seq<char> {
    if i < 0 {
        seq!['-'] + udigits_s((-i) as nat, 10)
    } else {
        udigits_s(i as nat, 10)
    }
}

fn digit_char(d: u64) -> (c: char)
    requires
        d < 36,
    ensures
        c == digit_char_s(d as nat),
{
    match d {
        0 => '0', 1 => '1', 2 => '2', 3 => '3', 4 => '4', 5 => '5', 6 => '6', 7 => '7',
        8 => '8', 9 => '9', 10 => 'a', 11 => 'b', 12 => 'c', 13 => 'd', 14 => 'e', 15 => 'f',
        16 => 'g', 17 => 'h', 18 => 'i', 19 => 'j', 20 => 'k', 21 => 'l', 22 => 'm', 23 => 'n',
        24 => 'o', 25 => 'p', 26 => 'q', 27 => 'r', 28 => 's', 29 => 't', 30 => 'u', 31 => 'v',
        32 => 'w', 33 => 'x', 34 => 'y', _ => 'z',
    }
}

/// Appends the decimal digits of `n` to the buffer.
pub fn push_udec(n: u64, buf: &mut String)
    ensures
        final(buf)@ == old(buf)@ + udigits_s(n as nat, 10),
    decreases n,
{
    if n < 10 {
        push_char(buf, digit_char(n));
    } else {
        proof {
            lemma_div_is_strictly_smaller(n as int, 10);
        }
        push_udec(n / 10, buf);
        push_char(buf, digit_char(n % 10));
    }
}

/// Appends the decimal rendering of `n`, sign included, to the buffer.
pub fn push_dec_i64(n: i64, buf: &mut String)
    ensures
        final(buf)@ == old(buf)@ + dec_int_s(n as int),
{
    if n < 0 {
        push_char(buf, '-');
        let m: u64 = (-(n as i128)) as u64;
        proof {
            assert(m as int == -(n as int));
        }
        push_udec(m, buf);
        proof {
            assert(old(buf)@.push('-') + udigits_s(m as nat, 10) =~= old(buf)@ + dec_int_s(
                n as int,
            ));
        }
    } else {
        push_udec(n as u64, buf);
    }
}

/// Relies on radix_fmt's `radix` and its `Display` impl: they write the
/// positional digits of `n` in the given base, lowercase letters for digit
/// values above nine, which is exactly `udigits_s`.
#[verifier::external_body]
fn radix_digits(n: u64, base: u32) -> (r: String)
    requires
        2 <= base <= 36,
    ensures
        r@ == udigits_s(n as nat, base as nat),
{
    format!("{}", radix_fmt::radix(n, base as u8))
}

/// Appends the digits of `n` in the given base to the buffer.
pub fn push_radix(n: u64, base: u32, buf: &mut String)
    requires
        2 <= base <= 36,
    ensures
        final(buf)@ == old(buf)@ + udigits_s(n as nat, base as nat),
{
    let s = radix_digits(n, base);
    buf.append(s.as_str());
}

/// The tail of a digit grouping: from position `p` on, each group of `k`
/// characters is preceded by one separator.
pub open spec fn chunk_tail_s(s: Seq<char>, p: int, k: nat, c: char) -> Seq<char>
    decreases s.len() - p,
{
    if k >= 1 && 0 <= p && p + k <= s.len() {
        seq![c] + s.subrange(p, p + k) + chunk_tail_s(s, p + k, k, c)
    } else {
        Seq::empty()
    }
}

/// `s` with one separator inserted before each complete group of `k`
/// characters counted from the right; the leading group keeps the
/// remaining one to `k` characters. A string of at most `k` characters,
/// or an interval of zero, is left as it is.
pub open spec fn grouped_s(s: Seq<char>, k: nat, c: char) -> Seq<char> {
    if k == 0 || s.len() <= k {
        s
    } else {
        let edge: int = if s.len() % k == 0 { k as int } else { (s.len() % k) as int };
        s.subrange(0, edge) + chunk_tail_s(s, edge, k, c)
    }
}

/// For a nonnegative multiple `mm` of `ki` with `mm >= ki`, stepping down
/// by `ki` keeps it a multiple and lowers the quotient by one.
proof fn lemma_step_div(mm: int, ki: int)
    requires
        ki >= 1,
        mm >= ki,
        mm % ki == 0,
    ensures
        (mm - ki) % ki == 0,
        (mm - ki) / ki == mm / ki - 1,
{
    lemma_fundamental_div_mod(mm, ki);
    let q = mm / ki;
    lemma_mul_is_distributive_sub(ki, q, 1);
    lemma_fundamental_div_mod_converse(mm - ki, ki, q - 1, 0);
}

/// A nonnegative multiple of `ki` below `ki` is zero.
proof fn lemma_small_multiple(mm: int, ki: int)
    requires
        ki >= 1,
        0 <= mm < ki,
        mm % ki == 0,
    ensures
        mm == 0,
{
    lemma_fundamental_div_mod_converse(mm, ki, 0, mm);
}

proof fn lemma_chunk_tail_len(s: Seq<char>, p: int, k: nat, c: char)
    requires
        k >= 1,
        0 <= p <= s.len(),
        (s.len() - p) % (k as int) == 0,
    ensures
        chunk_tail_s(s, p, k, c).len() == (s.len() - p) + (s.len() - p) / (k as int),
    decreases s.len() - p,
{
    if p + k <= s.len() {
        lemma_step_div(s.len() - p, k as int);
        lemma_chunk_tail_len(s, p + k, k, c);
    } else {
        lemma_small_multiple(s.len() - p, k as int);
        assert((s.len() - p) / (k as int) == 0) by {
            lemma_fundamental_div_mod_converse(0, k as int, 0, 0);
        }
    }
}

/// The leading-group width of `n` characters grouped at interval `ki`:
/// it equals `((n - 1) % ki) + 1`, the rest is a whole number of groups,
/// and the number of groups after it is `ceil(n / ki) - 1`.
proof fn lemma_edge_facts(n: int, ki: int, edge: int)
    requires
        ki >= 1,
        n > ki,
        edge == (if n % ki == 0 { ki } else { n % ki }),
    ensures
        edge == (n - 1) % ki + 1,
        (n - edge) % ki == 0,
        (n - edge) / ki == (n + ki - 1) / ki - 1,
{
    lemma_mod_bound(n, ki);
    lemma_fundamental_div_mod(n, ki);
    let q = n / ki;
    let r = n % ki;
    if r == 0 {
        lemma_mul_is_distributive_sub(ki, q, 1);
        assert((q - 1) * ki == ki * (q - 1)) by (nonlinear_arith);
        lemma_fundamental_div_mod_converse(n - ki, ki, q - 1, 0);
        lemma_fundamental_div_mod_converse(n - 1, ki, q - 1, ki - 1);
        assert(q * ki == ki * q) by (nonlinear_arith);
        lemma_fundamental_div_mod_converse(n + ki - 1, ki, q, ki - 1);
    } else {
        assert(q * ki == ki * q) by (nonlinear_arith);
        lemma_fundamental_div_mod_converse(n - r, ki, q, 0);
        lemma_fundamental_div_mod_converse(n - 1, ki, q, r - 1);
        lemma_mul_is_distributive_add(ki, q, 1);
        assert((q + 1) * ki == ki * (q + 1)) by (nonlinear_arith);
        lemma_fundamental_div_mod_converse(n + ki - 1, ki, q + 1, r - 1);
    }
}

/// The comma-count law: grouping `n` characters at interval `k` inserts
/// exactly `ceil(n / k) - 1` separators, so the result holds
/// `n + ceil(n / k) - 1` characters; the leading group is the first
/// `((n - 1) % k) + 1` characters of the input, kept unchanged, and every
/// later group is exactly `k` characters wide.
pub proof fn lemma_comma_count(s: Seq<char>, k: nat, c: char)
    requires
        k >= 1,
        s.len() >= 1,
    ensures
        grouped_s(s, k, c).len() == s.len() + ((s.len() + k - 1) / (k as int) - 1),
        grouped_s(s, k, c).subrange(0, ((s.len() - 1) % (k as int)) + 1) == s.subrange(
            0,
            ((s.len() - 1) % (k as int)) + 1,
        ),
{
    let n = s.len() as int;
    let ki = k as int;
    if s.len() <= k {
        lemma_fundamental_div_mod_converse(n + ki - 1, ki, 1, n - 1);
        lemma_fundamental_div_mod_converse(n - 1, ki, 0, n - 1);
        assert(grouped_s(s, k, c).subrange(0, n) =~= s.subrange(0, n));
    } else {
        let edge: int = if s.len() % k == 0 { ki } else { (s.len() % k) as int };
        lemma_edge_facts(n, ki, edge);
        lemma_chunk_tail_len(s, edge, k, c);
        assert(grouped_s(s, k, c).subrange(0, edge) =~= s.subrange(0, edge));
    }
}

/// Inserts a separator every `k` characters, counted from the right.
pub fn group_chars(s: &str, k: usize, c: char) -> (r: String)
    ensures
        r@ == grouped_s(s@, k as nat, c),
{
    let n = s.unicode_len();
    if k == 0 || n <= k {
        return s.to_owned();
    }
    let mut edge: usize = n % k;
    if edge == 0 {
        edge = k;
    }
    let mut r = String::new();
    r.append(s.substring_char(0, edge));
    proof {
        assert(r@ =~= s@.subrange(0, edge as int));
        lemma_edge_facts(n as int, k as int, edge as int);
    }
    let mut p: usize = edge;
    while p < n
        invariant
            1 <= k,
            k < n == s@.len(),
            p <= n,
            (n - p) % (k as int) == 0,
            grouped_s(s@, k as nat, c) == r@ + chunk_tail_s(s@, p as int, k as nat, c),
        decreases n - p,
    {
        proof {
            if n - p < k {
                lemma_small_multiple(n - p, k as int);
            }
        }
        let ghost r_before = r@;
        push_char(&mut r, c);
        r.append(s.substring_char(p, p + k));
        proof {
            lemma_step_div(n - p, k as int);
            assert(chunk_tail_s(s@, p as int, k as nat, c) == seq![c] + s@.subrange(
                p as int,
                p + k,
            ) + chunk_tail_s(s@, p + k, k as nat, c));
            assert(r@ + chunk_tail_s(s@, p + k, k as nat, c) =~= r_before + chunk_tail_s(
                s@,
                p as int,
                k as nat,
                c,
            ));
        }
        p = p + k;
    }
    proof {
        assert(grouped_s(s@, k as nat, c) =~= r@);
    }
    r
}

/// `s` padded on the left with `pad` up to `mincol` characters; a string
/// already that wide is unchanged.
pub open spec fn padded_s(s: Seq<char>, mincol: nat, pad: char) -> Seq<char> {
    if s.len() < mincol {
        repeat_char_s(pad, (mincol - s.len()) as nat) + s
    } else {
        s
    }
}

/// Appends `s`, left-padded with `pad` up to `mincol` characters.
pub fn push_padded(s: &str, mincol: usize, pad: char, buf: &mut String)
    ensures
        final(buf)@ == old(buf)@ + padded_s(s@, mincol as nat, pad),
{
    let n = s.unicode_len();
    if n < mincol {
        push_repeat(buf, pad, mincol - n);
    }
    buf.append(s);
    proof {
        assert(buf@ =~= old(buf)@ + padded_s(s@, mincol as nat, pad));
    }
}

} // verus!
