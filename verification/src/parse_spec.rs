use vstd::prelude::*;
use crate::eval_spec::sub0;
use crate::tilde_kinds::CharKind;
use crate::tilde_kinds::KindV;
use crate::tilde_kinds::RadixFlag;
use crate::tilde_kinds::RadixParams;
use crate::tilde_kinds::StarKind;
use crate::tilde_kinds::TildeCondKind;
use crate::tilde_kinds::TildeLoopKind;
use crate::tilde_kinds::TildeV;

verus! {

/// The position of the first occurrence of `c` in `[i, to)`, when there
/// is one.
pub open spec fn find_to_s(s: Seq<char>, i: int, to: int, c: char) -> Option<int>
    decreases sub0(to, i),
{
    if 0 <= i < to && i < s.len() {
        if s[i] == c {
            Some(i)
        } else {
            find_to_s(s, i + 1, to, c)
        }
    } else {
        None
    }
}

/// The position a bounded find returns lies inside the bounds.
pub proof fn lemma_find_to_bounds(s: Seq<char>, i: int, to: int, c: char)
    ensures
        match find_to_s(s, i, to, c) {
            Some(j) => i <= j < to && j < s.len() && s[j] == c,
            None => true,
        },
    decreases sub0(to, i),
{
    if 0 <= i < to && i < s.len() {
        if s[i] != c {
            lemma_find_to_bounds(s, i + 1, to, c);
        }
    }
}

/// The position of the first `R` or `r` at or after `i`.
pub open spec fn find_r_s(s: Seq<char>, i: int) -> Option<int>
    decreases sub0(s.len() as int, i),
{
    if 0 <= i < s.len() {
        if s[i] == 'R' || s[i] == 'r' {
            Some(i)
        } else {
            find_r_s(s, i + 1)
        }
    } else {
        None
    }
}

/// Whether a character decides which directive parser runs.
pub open spec fn is_key_char(c: char) -> bool {
    ||| c == 'a' || c == 'A'
    ||| c == '{'
    ||| c == '$' || c == 'f' || c == 'F'
    ||| c == 'd' || c == 'D'
    ||| c == '['
    ||| c == '^'
    ||| c == '*'
    ||| c == '~'
    ||| c == 's' || c == 'S'
    ||| c == 'c' || c == 'C'
    ||| c == 'r' || c == 'R'
}

/// The position of the first key character at or after `i`.
pub open spec fn scan_key_s(s: Seq<char>, i: int) -> Option<int>
    decreases sub0(s.len() as int, i),
{
    if 0 <= i < s.len() {
        if is_key_char(s[i]) {
            Some(i)
        } else {
            scan_key_s(s, i + 1)
        }
    } else {
        None
    }
}

/// The decimal value of a digit character, when it is one.
pub open spec fn digit_of_s(c: char) -> Option<int> {
    if 48 <= c as u32 <= 57 {
        Some(c as u32 - 48)
    } else {
        None
    }
}

/// Folds the decimal digits of `s[i..hi)` onto `acc`, stopping with
/// `None` on a non-digit or when the value would leave the machine range.
pub open spec fn dec_fold_s(s: Seq<char>, i: int, hi: int, acc: int) -> Option<int>
    decreases sub0(hi, i),
{
    if 0 <= i < hi {
        match digit_of_s(s[i]) {
            Some(d) => if acc > usize::MAX as int / 10 {
                None
            } else if acc * 10 > usize::MAX - d {
                None
            } else {
                dec_fold_s(s, i + 1, hi, acc * 10 + d)
            },
            None => None,
        }
    } else {
        Some(acc)
    }
}

/// An optional numeric field: absent when empty, its decimal value when it
/// is all digits and fits in the machine range, `None` otherwise.
pub open spec fn opt_field_s(s: Seq<char>, lo: int, hi: int) -> Option<Option<int>> {
    if lo == hi {
        Some(None)
    } else {
        match dec_fold_s(s, lo, hi, 0) {
            Some(v) => Some(Some(v)),
            None => None,
        }
    }
}

/// The last field of a radix parameter list, ending in `R` or `r`: an
/// optional leading number, then the `:`/`@` flag forms.
pub open spec fn radix_flag_s(s: Seq<char>, lo: int, hi: int) -> Option<
    (Option<int>, Option<RadixFlag>),
> {
    if lo >= hi || !(s[hi - 1] == 'R' || s[hi - 1] == 'r') {
        None
    } else {
        let bh = hi - 1;
        match find_to_s(s, lo, bh, ':') {
            None => {
                if lo == bh {
                    Some((None, None))
                } else if lo + 1 == bh && s[lo] == '@' {
                    Some((None, Some(RadixFlag::At)))
                } else {
                    match opt_field_s(s, lo, bh) {
                        Some(v) => Some((v, None)),
                        None => None,
                    }
                }
            },
            Some(q) => {
                if find_to_s(s, q + 1, bh, ':') is Some {
                    None
                } else if q + 1 == bh {
                    if q == lo {
                        Some((None, Some(RadixFlag::Colon)))
                    } else {
                        match opt_field_s(s, lo, q) {
                            Some(v) => Some((v, Some(RadixFlag::Colon))),
                            None => None,
                        }
                    }
                } else if q == lo && q + 2 == bh && s[q + 1] == '@' {
                    Some((None, Some(RadixFlag::AtColon)))
                } else {
                    None
                }
            },
        }
    }
}

pub open spec fn opt_char_field_s(s: Seq<char>, lo: int, hi: int) -> Option<char> {
    if lo == hi {
        None
    } else {
        Some(s[lo])
    }
}

/// Parses a radix directive at `pos`: the fields before the closing `R`
/// split at commas into either one field (number and flags) or five
/// (radix, mincol, padchar, commachar, then interval and flags).
pub open spec fn parse_radix_s(s: Seq<char>, pos: int) -> Option<(TildeV, int)> {
    if !(0 <= pos < s.len() && s[pos] == '~') {
        None
    } else {
        match find_r_s(s, pos + 1) {
            None => None,
            Some(e) => {
                let lo = pos + 1;
                let hi = e + 1;
                match find_to_s(s, lo, hi, ',') {
                    None => match radix_flag_s(s, lo, hi) {
                        None => None,
                        Some((rv, flag)) => if rv matches Some(v) && v > u32::MAX as int {
                            None
                        } else {
                            Some(
                                (
                                    TildeV {
                                        len: hi - pos,
                                        value: KindV::Radix(
                                            RadixParams {
                                                radix: match rv {
                                                    Some(v) => Some(v as u32),
                                                    None => None,
                                                },
                                                mincol: None,
                                                padchar: None,
                                                commachar: None,
                                                comma_interval: None,
                                                flag,
                                            },
                                        ),
                                    },
                                    hi,
                                ),
                            )
                        },
                    },
                    Some(c0) => match find_to_s(s, c0 + 1, hi, ',') {
                        None => None,
                        Some(c1) => match find_to_s(s, c1 + 1, hi, ',') {
                            None => None,
                            Some(c2) => match find_to_s(s, c2 + 1, hi, ',') {
                                None => None,
                                Some(c3) => if find_to_s(s, c3 + 1, hi, ',') is Some {
                                    None
                                } else {
                                    match opt_field_s(s, lo, c0) {
                                        None => None,
                                        Some(rv) => if rv matches Some(v) && v > u32::MAX as int {
                                            None
                                        } else {
                                            match opt_field_s(s, c0 + 1, c1) {
                                                None => None,
                                                Some(mc) => match radix_flag_s(s, c3 + 1, hi) {
                                                    None => None,
                                                    Some((ci, flag)) => Some(
                                                        (
                                                            TildeV {
                                                                len: hi - pos,
                                                                value: KindV::Radix(
                                                                    RadixParams {
                                                                        radix: match rv {
                                                                            Some(v) => Some(v as u32),
                                                                            None => None,
                                                                        },
                                                                        mincol: match mc {
                                                                            Some(v) => Some(
                                                                                v as usize,
                                                                            ),
                                                                            None => None,
                                                                        },
                                                                        padchar: opt_char_field_s(
                                                                            s,
                                                                            c1 + 1,
                                                                            c2,
                                                                        ),
                                                                        commachar: opt_char_field_s(
                                                                            s,
                                                                            c2 + 1,
                                                                            c3,
                                                                        ),
                                                                        comma_interval: match ci {
                                                                            Some(v) => Some(
                                                                                v as usize,
                                                                            ),
                                                                            None => None,
                                                                        },
                                                                        flag,
                                                                    },
                                                                ),
                                                            },
                                                            hi,
                                                        ),
                                                    ),
                                                },
                                            }
                                        },
                                    }
                                },
                            },
                        },
                    },
                }
            },
        }
    }
}

/// Parses `~a`/`~A` at `pos`, whose key character stands at `key`.
pub open spec fn parse_value_s(s: Seq<char>, pos: int, key: int) -> Option<(TildeV, int)> {
    if 0 <= pos < key < s.len() && (s[key] == 'a' || s[key] == 'A') {
        Some((TildeV { len: key + 1 - pos, value: KindV::Va }, key + 1))
    } else {
        None
    }
}

/// Parses `~s`/`~S` at `pos`, whose key character stands at `key`.
pub open spec fn parse_standard_s(s: Seq<char>, pos: int, key: int) -> Option<(TildeV, int)> {
    if 0 <= pos < key < s.len() && (s[key] == 's' || s[key] == 'S') {
        Some((TildeV { len: key + 1 - pos, value: KindV::Standard }, key + 1))
    } else {
        None
    }
}

/// Parses a float directive at `pos`: the raw parameter text runs from
/// after the `~` to the key character.
pub open spec fn parse_float_s(s: Seq<char>, pos: int, key: int) -> Option<(TildeV, int)> {
    if 0 <= pos < key < s.len() && (s[key] == '$' || s[key] == 'f' || s[key] == 'F') {
        Some(
            (
                TildeV { len: key + 1 - pos, value: KindV::Float(Some(s.subrange(pos + 1, key))) },
                key + 1,
            ),
        )
    } else {
        None
    }
}

/// Parses `~d`/`~D` at `pos` with its optional parameter prefix.
pub open spec fn parse_digit_s(s: Seq<char>, pos: int, key: int) -> Option<(TildeV, int)> {
    if 0 <= pos < key < s.len() && (s[key] == 'd' || s[key] == 'D') {
        let kv = if key == pos + 1 {
            KindV::Digit(None)
        } else {
            KindV::Digit(Some(s.subrange(pos + 1, key)))
        };
        Some((TildeV { len: key + 1 - pos, value: kv }, key + 1))
    } else {
        None
    }
}

/// Parses `~*` and `~:*` at `pos`.
pub open spec fn parse_star_s(s: Seq<char>, pos: int) -> Option<(TildeV, int)> {
    if 0 <= pos && pos + 2 < s.len() && s[pos] == '~' && s[pos + 1] == ':' && s[pos + 2] == '*' {
        Some((TildeV { len: 3, value: KindV::Star(StarKind::Hop) }, pos + 3))
    } else if 0 <= pos && pos + 1 < s.len() && s[pos] == '~' && s[pos + 1] == '*' {
        Some((TildeV { len: 2, value: KindV::Star(StarKind::Skip) }, pos + 2))
    } else {
        None
    }
}

/// Parses `~n~` at `pos`, `n` a single digit.
pub open spec fn parse_tildes_s(s: Seq<char>, pos: int) -> Option<(TildeV, int)> {
    if 0 <= pos && pos + 2 < s.len() && s[pos] == '~' && s[pos + 2] == '~' {
        match digit_of_s(s[pos + 1]) {
            Some(d) => Some((TildeV { len: 3, value: KindV::Tildes(d as usize) }, pos + 3)),
            None => None,
        }
    } else {
        None
    }
}

/// Parses `~c`, `~C`, `~@c`, `~@C` at `pos`.
pub open spec fn parse_char_s(s: Seq<char>, pos: int) -> Option<(TildeV, int)> {
    if 0 <= pos && pos + 2 < s.len() && s[pos] == '~' && s[pos + 1] == '@' && (s[pos + 2] == 'c'
        || s[pos + 2] == 'C') {
        Some((TildeV { len: 3, value: KindV::Char(CharKind::At) }, pos + 3))
    } else if 0 <= pos && pos + 1 < s.len() && s[pos] == '~' && (s[pos + 1] == 'c' || s[pos + 1]
        == 'C') {
        Some((TildeV { len: 2, value: KindV::Char(CharKind::Nil) }, pos + 2))
    } else {
        None
    }
}

/// Parses `~^` at `pos`.
pub open spec fn parse_loop_end_s(s: Seq<char>, pos: int) -> Option<(TildeV, int)> {
    if 0 <= pos && pos + 1 < s.len() && s[pos] == '~' && s[pos + 1] == '^' {
        Some((TildeV { len: 2, value: KindV::LoopEnd }, pos + 2))
    } else {
        None
    }
}

/// The loop mode a plain open takes when a `~:}` closes the body.
pub open spec fn loop_close_kind(k: TildeLoopKind, colon: bool) -> TildeLoopKind {
    if k == TildeLoopKind::Nil && colon {
        TildeLoopKind::NilColon
    } else {
        k
    }
}

/// The conditional mode after the body: a `~:;` separator turns plain
/// index selection into its fallback form and leaves the other modes as
/// they are.
pub open spec fn cond_close_kind(k: TildeCondKind, saw_fallback: bool) -> TildeCondKind {
    if saw_fallback {
        match k {
            TildeCondKind::Nil(_) => TildeCondKind::Nil(true),
            other => other,
        }
    } else {
        k
    }
}

/// Parses the directive at `pos`: a `~`, a lookahead to the first key
/// character, and the sub-parser that character selects. The result is
/// the parsed node and the position after it; `None` on malformed or
/// unterminated text.
pub open spec fn parse_s(s: Seq<char>, pos: int) -> Option<(TildeV, int)>
    decreases sub0(s.len() as int, pos), 1nat,
{
    if !(0 <= pos < s.len() && s[pos] == '~') {
        None
    } else {
        match scan_key_s(s, pos + 1) {
            None => None,
            Some(key) => {
                let c = s[key];
                if c == 'a' || c == 'A' {
                    parse_value_s(s, pos, key)
                } else if c == '{' {
                    parse_loop_s(s, pos)
                } else if c == '$' || c == 'f' || c == 'F' {
                    parse_float_s(s, pos, key)
                } else if c == 'd' || c == 'D' {
                    parse_digit_s(s, pos, key)
                } else if c == '[' {
                    parse_cond_s(s, pos)
                } else if c == '^' {
                    parse_loop_end_s(s, pos)
                } else if c == '*' {
                    parse_star_s(s, pos)
                } else if c == '~' {
                    parse_tildes_s(s, pos)
                } else if c == 's' || c == 'S' {
                    parse_standard_s(s, pos, key)
                } else if c == 'c' || c == 'C' {
                    parse_char_s(s, pos)
                } else {
                    parse_radix_s(s, pos)
                }
            },
        }
    }
}

/// Parses a loop directive at `pos`: `~{` or `~@{`, the body, and the
/// `~}` or `~:}` close; the colon close turns the plain mode into its
/// run-once-on-empty form.
pub open spec fn parse_loop_s(s: Seq<char>, pos: int) -> Option<(TildeV, int)>
    decreases sub0(s.len() as int, pos), 0nat,
{
    if 0 <= pos && pos + 1 < s.len() && s[pos] == '~' && s[pos + 1] == '{' {
        match loop_body_s(s, pos + 2) {
            Some((body, colon, end)) => Some(
                (
                    TildeV {
                        len: end - pos,
                        value: KindV::Loop(body, loop_close_kind(TildeLoopKind::Nil, colon)),
                    },
                    end,
                ),
            ),
            None => None,
        }
    } else if 0 <= pos && pos + 2 < s.len() && s[pos] == '~' && s[pos + 1] == '@' && s[pos + 2]
        == '{' {
        match loop_body_s(s, pos + 3) {
            Some((body, colon, end)) => Some(
                (
                    TildeV {
                        len: end - pos,
                        value: KindV::Loop(body, loop_close_kind(TildeLoopKind::At, colon)),
                    },
                    end,
                ),
            ),
            None => None,
        }
    } else {
        None
    }
}

/// Parses a loop body from `cur` to its closing `~}` or `~:}`: literal
/// runs between tildes become text nodes, every other directive is parsed
/// recursively. Yields the body nodes, whether the close carried a colon,
/// and the position after the close.
pub open spec fn loop_body_s(s: Seq<char>, cur: int) -> Option<(Seq<TildeV>, bool, int)>
    decreases sub0(s.len() as int, cur), 2nat,
    via loop_body_s_decreases
{
    if !(0 <= cur <= s.len()) {
        None
    } else {
        match find_to_s(s, cur, s.len() as int, '~') {
            None => None,
            Some(j) => {
                let txt: Seq<TildeV> = if j > cur {
                    seq![TildeV { len: j - cur, value: KindV::Text(s.subrange(cur, j)) }]
                } else {
                    Seq::empty()
                };
                if j + 1 < s.len() && s[j + 1] == '}' {
                    Some((txt, false, j + 2))
                } else if j + 2 < s.len() && s[j + 1] == ':' && s[j + 2] == '}' {
                    Some((txt, true, j + 3))
                } else {
                    match parse_s(s, j) {
                        Some((tv, p2)) => if j < p2 <= s.len() {
                            match loop_body_s(s, p2) {
                                Some((rest, colon, end)) => Some((txt + seq![tv] + rest, colon, end)),
                                None => None,
                            }
                        } else {
                            None
                        },
                        None => None,
                    }
                }
            },
        }
    }
}

#[via_fn]
proof fn loop_body_s_decreases(s: Seq<char>, cur: int) {
    if 0 <= cur <= s.len() {
        lemma_find_to_bounds(s, cur, s.len() as int, '~');
    }
}

/// A completed conditional branch: its children and the sum of their
/// recorded widths.
pub open spec fn branch_v(cache: Seq<TildeV>, cache_len: int) -> TildeV {
    TildeV { len: cache_len, value: KindV::VecTilde(cache) }
}

/// Parses a conditional directive at `pos`: one of the four openers, the
/// branches, and the closing `~]`.
pub open spec fn parse_cond_s(s: Seq<char>, pos: int) -> Option<(TildeV, int)>
    decreases sub0(s.len() as int, pos), 0nat,
{
    if 0 <= pos && pos + 1 < s.len() && s[pos] == '~' && s[pos + 1] == '[' {
        cond_result_s(s, pos, pos + 2, TildeCondKind::Nil(false))
    } else if 0 <= pos && pos + 2 < s.len() && s[pos] == '~' && s[pos + 1] == '#' && s[pos + 2]
        == '[' {
        cond_result_s(s, pos, pos + 3, TildeCondKind::Sharp)
    } else if 0 <= pos && pos + 2 < s.len() && s[pos] == '~' && s[pos + 1] == '@' && s[pos + 2]
        == '[' {
        cond_result_s(s, pos, pos + 3, TildeCondKind::At)
    } else if 0 <= pos && pos + 2 < s.len() && s[pos] == '~' && s[pos + 1] == ':' && s[pos + 2]
        == '[' {
        cond_result_s(s, pos, pos + 3, TildeCondKind::Colon)
    } else {
        None
    }
}

/// Assembles a conditional node from its parsed body.
pub open spec fn cond_result_s(s: Seq<char>, pos: int, cur: int, kind: TildeCondKind) -> Option<
    (TildeV, int),
>
    decreases sub0(s.len() as int, cur), 3nat,
{
    match cond_body_s(s, cur, Seq::empty(), 0) {
        Some((branches, saw_fallback, end)) => Some(
            (
                TildeV {
                    len: end - pos,
                    value: KindV::Cond(branches, cond_close_kind(kind, saw_fallback)),
                },
                end,
            ),
        ),
        None => None,
    }
}

/// Parses conditional branches from `cur`: text and directives accumulate
/// into the open branch `cache` (of total width `cache_len`); a `~;`
/// closes the branch, a `~:;` closes it and marks the fallback, and `~]`
/// closes the branch and the directive. Yields the branch list, whether a
/// `~:;` was seen, and the position after the `~]`.
pub open spec fn cond_body_s(s: Seq<char>, cur: int, cache: Seq<TildeV>, cache_len: int) -> Option<
    (Seq<TildeV>, bool, int),
>
    decreases sub0(s.len() as int, cur), 2nat,
    via cond_body_s_decreases
{
    if !(0 <= cur <= s.len()) {
        None
    } else {
        match find_to_s(s, cur, s.len() as int, '~') {
            None => None,
            Some(j) => {
                let cache2: Seq<TildeV> = if j > cur {
                    cache.push(TildeV { len: j - cur, value: KindV::Text(s.subrange(cur, j)) })
                } else {
                    cache
                };
                let clen2 = cache_len + (j - cur);
                if j + 1 >= s.len() {
                    None
                } else {
                    let c = s[j + 1];
                    if c == ':' {
                        if j + 2 < s.len() && s[j + 2] == ';' {
                            match cond_body_s(s, j + 3, Seq::empty(), 0) {
                                Some((rest, _, end)) => Some(
                                    (seq![branch_v(cache2, clen2)] + rest, true, end),
                                ),
                                None => None,
                            }
                        } else {
                            None
                        }
                    } else if c == ';' {
                        match cond_body_s(s, j + 2, Seq::empty(), 0) {
                            Some((rest, fl, end)) => Some(
                                (seq![branch_v(cache2, clen2)] + rest, fl, end),
                            ),
                            None => None,
                        }
                    } else if c == ']' {
                        Some((seq![branch_v(cache2, clen2)], false, j + 2))
                    } else {
                        match parse_s(s, j) {
                            Some((tv, p2)) => if j < p2 <= s.len() {
                                cond_body_s(s, p2, cache2.push(tv), clen2 + (p2 - j))
                            } else {
                                None
                            },
                            None => None,
                        }
                    }
                }
            },
        }
    }
}

#[via_fn]
proof fn cond_body_s_decreases(s: Seq<char>, cur: int, cache: Seq<TildeV>, cache_len: int) {
    if 0 <= cur <= s.len() {
        lemma_find_to_bounds(s, cur, s.len() as int, '~');
    }
}

/// The `(span, directive)` pairs of a whole control string from position
/// `p` on: each `~` found starts a directive, the text between directives
/// is left to the spans' gaps. `None` when some directive is malformed.
pub open spec fn scan_spans_s(s: Seq<char>, p: int) -> Option<Seq<((int, int), TildeV)>>
    decreases sub0(s.len() as int, p),
    via scan_spans_s_decreases
{
    if !(0 <= p <= s.len()) {
        None
    } else {
        match find_to_s(s, p, s.len() as int, '~') {
            None => Some(Seq::empty()),
            Some(j) => match parse_s(s, j) {
                Some((tv, p2)) => if j < p2 <= s.len() {
                    match scan_spans_s(s, p2) {
                        Some(rest) => Some(seq![((j, p2), tv)] + rest),
                        None => None,
                    }
                } else {
                    None
                },
                None => None,
            },
        }
    }
}

#[via_fn]
proof fn scan_spans_s_decreases(s: Seq<char>, p: int) {
    if 0 <= p <= s.len() {
        lemma_find_to_bounds(s, p, s.len() as int, '~');
    }
}

} // verus!
