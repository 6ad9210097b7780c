use vstd::prelude::*;
use vstd::arithmetic::div_mod::lemma_div_is_strictly_smaller;
use vstd::arithmetic::div_mod::lemma_mod_bound;
use vstd::string::StringExecFns;

verus! {

/// The cardinal word for a number below twenty.
pub open spec fn ones_word_s(n: nat) -> Seq<char> {
    if n == 0 { "zero"@ } else if n == 1 { "one"@ } else if n == 2 { "two"@ }
    else if n == 3 { "three"@ } else if n == 4 { "four"@ } else if n == 5 { "five"@ }
    else if n == 6 { "six"@ } else if n == 7 { "seven"@ } else if n == 8 { "eight"@ }
    else if n == 9 { "nine"@ } else if n == 10 { "ten"@ } else if n == 11 { "eleven"@ }
    else if n == 12 { "twelve"@ } else if n == 13 { "thirteen"@ } else if n == 14 { "fourteen"@ }
    else if n == 15 { "fifteen"@ } else if n == 16 { "sixteen"@ } else if n == 17 { "seventeen"@ }
    else if n == 18 { "eighteen"@ } else { "nineteen"@ }
}

/// The ordinal word for a number below twenty.
pub open spec fn ordinal_ones_word_s(n: nat) -> Seq<char> {
    if n == 0 { "zeroth"@ } else if n == 1 { "first"@ } else if n == 2 { "second"@ }
    else if n == 3 { "third"@ } else if n == 4 { "fourth"@ } else if n == 5 { "fifth"@ }
    else if n == 6 { "sixth"@ } else if n == 7 { "seventh"@ } else if n == 8 { "eighth"@ }
    else if n == 9 { "ninth"@ } else if n == 10 { "tenth"@ } else if n == 11 { "eleventh"@ }
    else if n == 12 { "twelfth"@ } else if n == 13 { "thirteenth"@ }
    else if n == 14 { "fourteenth"@ } else if n == 15 { "fifteenth"@ }
    else if n == 16 { "sixteenth"@ } else if n == 17 { "seventeenth"@ }
    else if n == 18 { "eighteenth"@ } else { "nineteenth"@ }
}

/// The cardinal word for a whole number of tens (the argument is the tens
/// digit).
pub open spec fn tens_word_s(n: nat) -> Seq<char> {
    if n == 0 { "zero"@ } else if n == 1 { "ten"@ } else if n == 2 { "twenty"@ }
    else if n == 3 { "thirty"@ } else if n == 4 { "forty"@ } else if n == 5 { "fifty"@ }
    else if n == 6 { "sixty"@ } else if n == 7 { "seventy"@ } else if n == 8 { "eighty"@ }
    else { "ninety"@ }
}

/// The ordinal word for a whole number of tens (the argument is the tens
/// digit).
pub open spec fn ordinal_tens_word_s(n: nat) -> Seq<char> {
    if n == 0 { "zeroth"@ } else if n == 1 { "tenth"@ } else if n == 2 { "twentieth"@ }
    else if n == 3 { "thirtieth"@ } else if n == 4 { "fortieth"@ } else if n == 5 { "fiftieth"@ }
    else if n == 6 { "sixtieth"@ } else if n == 7 { "seventieth"@ }
    else if n == 8 { "eightieth"@ } else { "ninetieth"@ }
}

/// The power of one thousand that scales a number of at least one thousand
/// down to a value between one and nine hundred ninety-nine.
pub open spec fn order_div_s(n: nat) -> nat {
    if n < 1000000 { 1000 }
    else if n < 1000000000 { 1000000 }
    else if n < 1000000000000 { 1000000000 }
    else if n < 1000000000000000 { 1000000000000 }
    else if n < 1000000000000000000 { 1000000000000000 }
    else { 1000000000000000000 }
}

/// The cardinal name of `order_div_s(n)`.
pub open spec fn order_word_s(n: nat) -> Seq<char> {
    if n < 1000000 { "thousand"@ }
    else if n < 1000000000 { "million"@ }
    else if n < 1000000000000 { "billion"@ }
    else if n < 1000000000000000 { "trillion"@ }
    else if n < 1000000000000000000 { "quadrillion"@ }
    else { "quintillion"@ }
}

/// The ordinal name of `order_div_s(n)`.
pub open spec fn ordinal_order_word_s(n: nat) -> Seq<char> {
    if n < 1000000 { "thousandth"@ }
    else if n < 1000000000 { "millionth"@ }
    else if n < 1000000000000 { "billionth"@ }
    else if n < 1000000000000000 { "trillionth"@ }
    else if n < 1000000000000000000 { "quadrillionth"@ }
    else { "quintillionth"@ }
}

/// The English cardinal words for `n`: words below one hundred are joined
/// with a hyphen, larger numbers name their leading part, the order word,
/// and the remainder.
pub open spec fn english_s(n: nat) -> Seq<char>
    decreases n, 1nat,
{
    if n < 20 {
        ones_word_s(n)
    } else if n < 100 {
        if n % 10 == 0 {
            tens_word_s(n / 10)
        } else {
            tens_word_s(n / 10) + "-"@ + english_s(n % 10)
        }
    } else if n < 1000 {
        numword_s(n, 100, "hundred"@)
    } else {
        numword_s(n, order_div_s(n), order_word_s(n))
    }
}

/// The cardinal words for `n` split at the scale `div`: the words for
/// `n / div`, the order's name, and, unless it is zero, the words for
/// `n % div`.
pub open spec fn numword_s(n: nat, div: nat, order: Seq<char>) -> Seq<char>
    decreases n, 0nat,
    via numword_s_decreases
{
    if 2 <= div <= n {
        if n % div == 0 {
            english_s(n / div) + " "@ + order
        } else {
            english_s(n / div) + " "@ + order + " "@ + english_s(n % div)
        }
    } else {
        Seq::empty()
    }
}

#[via_fn]
proof fn numword_s_decreases(n: nat, div: nat, order: Seq<char>) {
    if 2 <= div <= n {
        lemma_div_is_strictly_smaller(n as int, div as int);
        lemma_mod_bound(n as int, div as int);
    }
}

/// The English ordinal words for `n`: as the cardinal words, with the last
/// word turned ordinal.
pub open spec fn ordinal_english_s(n: nat) -> Seq<char>
    decreases n, 1nat,
{
    if n < 20 {
        ordinal_ones_word_s(n)
    } else if n < 100 {
        if n % 10 == 0 {
            ordinal_tens_word_s(n / 10)
        } else {
            tens_word_s(n / 10) + "-"@ + ordinal_english_s(n % 10)
        }
    } else if n < 1000 {
        numword_ord_s(n, 100, "hundred"@, "hundredth"@)
    } else {
        numword_ord_s(n, order_div_s(n), order_word_s(n), ordinal_order_word_s(n))
    }
}

/// The ordinal words for `n` split at the scale `div`: when the remainder
/// is zero the order's own name is made ordinal, otherwise the remainder's
/// words are.
pub open spec fn numword_ord_s(n: nat, div: nat, order: Seq<char>, orderth: Seq<char>) -> Seq<char>
    decreases n, 0nat,
    via numword_ord_s_decreases
{
    if 2 <= div <= n {
        if n % div == 0 {
            english_s(n / div) + " "@ + orderth
        } else {
            english_s(n / div) + " "@ + order + " "@ + ordinal_english_s(n % div)
        }
    } else {
        Seq::empty()
    }
}

#[via_fn]
proof fn numword_ord_s_decreases(n: nat, div: nat, order: Seq<char>, orderth: Seq<char>) {
    if 2 <= div <= n {
        lemma_div_is_strictly_smaller(n as int, div as int);
        lemma_mod_bound(n as int, div as int);
    }
}

fn ones_word(n: u64) -> (r: &'static str)
    requires
        n < 20,
    ensures
        r@ == ones_word_s(n as nat),
{
    match n {
        0 => "zero", 1 => "one", 2 => "two", 3 => "three", 4 => "four", 5 => "five",
        6 => "six", 7 => "seven", 8 => "eight", 9 => "nine", 10 => "ten", 11 => "eleven",
        12 => "twelve", 13 => "thirteen", 14 => "fourteen", 15 => "fifteen", 16 => "sixteen",
        17 => "seventeen", 18 => "eighteen", _ => "nineteen",
    }
}

fn ordinal_ones_word(n: u64) -> (r: &'static str)
    requires
        n < 20,
    ensures
        r@ == ordinal_ones_word_s(n as nat),
{
    match n {
        0 => "zeroth", 1 => "first", 2 => "second", 3 => "third", 4 => "fourth", 5 => "fifth",
        6 => "sixth", 7 => "seventh", 8 => "eighth", 9 => "ninth", 10 => "tenth",
        11 => "eleventh", 12 => "twelfth", 13 => "thirteenth", 14 => "fourteenth",
        15 => "fifteenth", 16 => "sixteenth", 17 => "seventeenth", 18 => "eighteenth",
        _ => "nineteenth",
    }
}

fn tens_word(n: u64) -> (r: &'static str)
    requires
        n < 10,
    ensures
        r@ == tens_word_s(n as nat),
{
    match n {
        0 => "zero", 1 => "ten", 2 => "twenty", 3 => "thirty", 4 => "forty", 5 => "fifty",
        6 => "sixty", 7 => "seventy", 8 => "eighty", _ => "ninety",
    }
}

fn ordinal_tens_word(n: u64) -> (r: &'static str)
    requires
        n < 10,
    ensures
        r@ == ordinal_tens_word_s(n as nat),
{
    match n {
        0 => "zeroth", 1 => "tenth", 2 => "twentieth", 3 => "thirtieth", 4 => "fortieth",
        5 => "fiftieth", 6 => "sixtieth", 7 => "seventieth", 8 => "eightieth", _ => "ninetieth",
    }
}

fn orders_for(n: u64) -> (r: (u64, &'static str, &'static str))
    requires
        n >= 1000,
    ensures
        r.0 as nat == order_div_s(n as nat),
        r.1@ == order_word_s(n as nat),
        r.2@ == ordinal_order_word_s(n as nat),
        1000 <= r.0 <= n,
{
    if n < 1000000 {
        (1000, "thousand", "thousandth")
    } else if n < 1000000000 {
        (1000000, "million", "millionth")
    } else if n < 1000000000000 {
        (1000000000, "billion", "billionth")
    } else if n < 1000000000000000 {
        (1000000000000, "trillion", "trillionth")
    } else if n < 1000000000000000000 {
        (1000000000000000, "quadrillion", "quadrillionth")
    } else {
        (1000000000000000000, "quintillion", "quintillionth")
    }
}

pub(crate) fn push_english_u64(n: u64, buf: &mut String)
    ensures
        final(buf)@ == old(buf)@ + english_s(n as nat),
    decreases n, 1nat,
{
    if n < 20 {
        buf.append(ones_word(n));
    } else if n < 100 {
        if n % 10 == 0 {
            buf.append(tens_word(n / 10));
        } else {
            buf.append(tens_word(n / 10));
            buf.append("-");
            push_english_u64(n % 10, buf);
            proof {
                assert(buf@ =~= old(buf)@ + english_s(n as nat));
            }
        }
    } else if n < 1000 {
        push_numword(n, 100, "hundred", buf);
    } else {
        let (div, order, _orderth) = orders_for(n);
        push_numword(n, div, order, buf);
    }
}

fn push_numword(n: u64, div: u64, order: &str, buf: &mut String)
    requires
        2 <= div <= n,
    ensures
        final(buf)@ == old(buf)@ + numword_s(n as nat, div as nat, order@),
    decreases n, 0nat,
{
    proof {
        lemma_div_is_strictly_smaller(n as int, div as int);
        lemma_mod_bound(n as int, div as int);
    }
    let q = n / div;
    let r = n % div;
    push_english_u64(q, buf);
    buf.append(" ");
    buf.append(order);
    if r != 0 {
        buf.append(" ");
        push_english_u64(r, buf);
    }
    proof {
        assert(buf@ =~= old(buf)@ + numword_s(n as nat, div as nat, order@));
    }
}

pub(crate) fn push_ordinal_english_u64(n: u64, buf: &mut String)
    ensures
        final(buf)@ == old(buf)@ + ordinal_english_s(n as nat),
    decreases n, 1nat,
{
    if n < 20 {
        buf.append(ordinal_ones_word(n));
    } else if n < 100 {
        if n % 10 == 0 {
            buf.append(ordinal_tens_word(n / 10));
        } else {
            buf.append(tens_word(n / 10));
            buf.append("-");
            push_ordinal_english_u64(n % 10, buf);
            proof {
                assert(buf@ =~= old(buf)@ + ordinal_english_s(n as nat));
            }
        }
    } else if n < 1000 {
        push_numword_ord(n, 100, "hundred", "hundredth", buf);
    } else {
        let (div, order, orderth) = orders_for(n);
        push_numword_ord(n, div, order, orderth, buf);
    }
}

fn push_numword_ord(n: u64, div: u64, order: &str, orderth: &str, buf: &mut String)
    requires
        2 <= div <= n,
    ensures
        final(buf)@ == old(buf)@ + numword_ord_s(n as nat, div as nat, order@, orderth@),
    decreases n, 0nat,
{
    proof {
        lemma_div_is_strictly_smaller(n as int, div as int);
        lemma_mod_bound(n as int, div as int);
    }
    let q = n / div;
    let r = n % div;
    push_english_u64(q, buf);
    buf.append(" ");
    if r == 0 {
        buf.append(orderth);
    } else {
        buf.append(order);
        buf.append(" ");
        push_ordinal_english_u64(r, buf);
    }
    proof {
        assert(buf@ =~= old(buf)@ + numword_ord_s(n as nat, div as nat, order@, orderth@));
    }
}

/// Appends the English cardinal words for `num` to the buffer.
pub fn into_english(num: usize, buf: &mut String)
    ensures
        final(buf)@ == old(buf)@ + english_s(num as nat),
{
    push_english_u64(num as u64, buf);
}

/// Appends the English ordinal words for `num` to the buffer.
pub fn into_ordinal_english(num: usize, buf: &mut String)
    ensures
        final(buf)@ == old(buf)@ + ordinal_english_s(num as nat),
{
    push_ordinal_english_u64(num as u64, buf);
}

/// The uppercase Roman numeral for the thousands digit.
pub open spec fn roman_th_s(d: nat) -> Seq<char> {
    if d == 0 { ""@ } else if d == 1 { "M"@ } else if d == 2 { "MM"@ } else { "MMM"@ }
}

/// The uppercase Roman numeral for the hundreds digit.
pub open spec fn roman_h_s(d: nat) -> Seq<char> {
    if d == 0 { ""@ } else if d == 1 { "C"@ } else if d == 2 { "CC"@ } else if d == 3 { "CCC"@ }
    else if d == 4 { "CD"@ } else if d == 5 { "D"@ } else if d == 6 { "DC"@ }
    else if d == 7 { "DCC"@ } else if d == 8 { "DCCC"@ } else { "CM"@ }
}

/// The uppercase Roman numeral for the tens digit.
pub open spec fn roman_t_s(d: nat) -> Seq<char> {
    if d == 0 { ""@ } else if d == 1 { "X"@ } else if d == 2 { "XX"@ } else if d == 3 { "XXX"@ }
    else if d == 4 { "XL"@ } else if d == 5 { "L"@ } else if d == 6 { "LX"@ }
    else if d == 7 { "LXX"@ } else if d == 8 { "LXXX"@ } else { "XC"@ }
}

/// The uppercase Roman numeral for the ones digit.
pub open spec fn roman_o_s(d: nat) -> Seq<char> {
    if d == 0 { ""@ } else if d == 1 { "I"@ } else if d == 2 { "II"@ } else if d == 3 { "III"@ }
    else if d == 4 { "IV"@ } else if d == 5 { "V"@ } else if d == 6 { "VI"@ }
    else if d == 7 { "VII"@ } else if d == 8 { "VIII"@ } else { "IX"@ }
}

/// The uppercase Roman numeral for `n`, digit by digit.
pub open spec fn roman_s(n: nat) -> Seq<char>
    recommends
        1 <= n <= 3999,
{
    roman_th_s(n / 1000) + roman_h_s(n / 100 % 10) + roman_t_s(n / 10 % 10) + roman_o_s(n % 10)
}

fn roman_th(d: u64) -> (r: &'static str)
    requires
        d <= 3,
    ensures
        r@ == roman_th_s(d as nat),
{
    match d {
        0 => "", 1 => "M", 2 => "MM", _ => "MMM",
    }
}

fn roman_h(d: u64) -> (r: &'static str)
    requires
        d < 10,
    ensures
        r@ == roman_h_s(d as nat),
{
    match d {
        0 => "", 1 => "C", 2 => "CC", 3 => "CCC", 4 => "CD", 5 => "D", 6 => "DC", 7 => "DCC",
        8 => "DCCC", _ => "CM",
    }
}

fn roman_t(d: u64) -> (r: &'static str)
    requires
        d < 10,
    ensures
        r@ == roman_t_s(d as nat),
{
    match d {
        0 => "", 1 => "X", 2 => "XX", 3 => "XXX", 4 => "XL", 5 => "L", 6 => "LX", 7 => "LXX",
        8 => "LXXX", _ => "XC",
    }
}

fn roman_o(d: u64) -> (r: &'static str)
    requires
        d < 10,
    ensures
        r@ == roman_o_s(d as nat),
{
    match d {
        0 => "", 1 => "I", 2 => "II", 3 => "III", 4 => "IV", 5 => "V", 6 => "VI", 7 => "VII",
        8 => "VIII", _ => "IX",
    }
}

/// Appends the uppercase Roman numeral for `n` to the buffer.
pub fn push_roman(n: u64, buf: &mut String)
    requires
        1 <= n <= 3999,
    ensures
        final(buf)@ == old(buf)@ + roman_s(n as nat),
{
    buf.append(roman_th(n / 1000));
    buf.append(roman_h(n / 100 % 10));
    buf.append(roman_t(n / 10 % 10));
    buf.append(roman_o(n % 10));
    proof {
        assert(buf@ =~= old(buf)@ + roman_s(n as nat));
    }
}

} // verus!
