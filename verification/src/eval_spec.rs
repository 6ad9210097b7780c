use vstd::prelude::*;
use crate::args::ArgV;
use crate::digits::dec_int_s;
use crate::digits::grouped_s;
use crate::digits::padded_s;
use crate::digits::udigits_s;
use crate::numwords::english_s;
use crate::numwords::ordinal_english_s;
use crate::numwords::roman_s;
use crate::strbuf::repeat_char_s;
use crate::tilde_kinds::CharKind;
use crate::tilde_kinds::kind_view;
use crate::tilde_kinds::lemma_tilde_views;
use crate::tilde_kinds::tilde_view;
use crate::tilde_kinds::tilde_views;
use crate::tilde_kinds::RadixFlag;
use crate::tilde_kinds::RadixParams;
use crate::tilde_kinds::StarKind;
use crate::tilde_kinds::Tilde;
use crate::tilde_kinds::TildeCondKind;
use crate::tilde_kinds::TildeKind;
use crate::tilde_kinds::TildeLoopKind;

verus! {

/// `a - b`, stopped at zero; the measure that recursion over a shrinking
/// range decreases.
pub open spec fn sub0(a: int, b: int) -> nat {
    if a >= b {
        (a - b) as nat
    } else {
        0
    }
}

/// What an argument renders as in the bracketed list form: the shape Rust's
/// `Debug` gives the plain values. `None` when the value offers no such
/// rendering.
pub open spec fn debug_item_s(a: ArgV) -> Option<Seq<char>>
    decreases a, 0nat,
{
    match a {
        ArgV::Int(i) => Some(dec_int_s(i)),
        ArgV::Bool(b) => Some(if b { "true"@ } else { "false"@ }),
        ArgV::Ch(c) => Some(seq!['\''] + seq![c] + seq!['\'']),
        ArgV::Text(s) => Some(seq!['"'] + s + seq!['"']),
        ArgV::Opt(o) => match o {
            None => Some("None"@),
            Some(b) => match debug_item_s(*b) {
                Some(x) => Some("Some("@ + x + ")"@),
                None => None,
            },
        },
        ArgV::List(l) => match debug_items_s(l, 0) {
            Some(x) => Some(seq!['['] + x + seq![']']),
            None => None,
        },
        ArgV::Custom { va, .. } => va,
    }
}

/// The elements of a list from position `i` on, in their `Debug` shape,
/// joined with a comma and a space.
pub open spec fn debug_items_s(l: Seq<ArgV>, i: int) -> Option<Seq<char>>
    decreases l, 1nat, sub0(l.len() as int, i),
{
    if 0 <= i < l.len() {
        match debug_item_s(l[i]) {
            Some(x) => match debug_items_s(l, i + 1) {
                Some(y) => Some(if i + 1 < l.len() { x + ", "@ + y } else { x }),
                None => None,
            },
            None => None,
        }
    } else {
        Some(Seq::empty())
    }
}

/// What an argument renders as under the generic-display capability of the
/// `~a` directive: numbers in decimal, booleans as `true`/`false`, text and
/// characters as they are, an absent optional value as `nil`, a present one
/// as its own rendering, and a list in bracketed form.
pub open spec fn va_str_s(a: ArgV) -> Option<Seq<char>>
    decreases a, 2nat,
{
    match a {
        ArgV::Int(i) => Some(dec_int_s(i)),
        ArgV::Bool(b) => Some(if b { "true"@ } else { "false"@ }),
        ArgV::Ch(c) => Some(seq![c]),
        ArgV::Text(s) => Some(s),
        ArgV::Opt(o) => match o {
            None => Some("nil"@),
            Some(b) => va_str_s(*b),
        },
        ArgV::List(l) => match debug_items_s(l, 0) {
            Some(x) => Some(seq!['['] + x + seq![']']),
            None => None,
        },
        ArgV::Custom { va, .. } => va,
    }
}

/// What an argument renders as under the quoted-standard capability of the
/// `~s` directive: text in double quotes, a character in single quotes,
/// numbers and booleans plainly.
pub open spec fn standard_str_s(a: ArgV) -> Option<Seq<char>> {
    match a {
        ArgV::Int(i) => Some(dec_int_s(i)),
        ArgV::Bool(b) => Some(if b { "true"@ } else { "false"@ }),
        ArgV::Ch(c) => Some(seq!['\''] + seq![c] + seq!['\'']),
        ArgV::Text(s) => Some(seq!['"'] + s + seq!['"']),
        ArgV::Custom { standard, .. } => standard,
        _ => None,
    }
}

/// What an argument renders as under the digit capability of the `~d`
/// directive.
pub open spec fn digit_str_s(a: ArgV) -> Option<Seq<char>> {
    match a {
        ArgV::Int(i) => Some(dec_int_s(i)),
        ArgV::Custom { digit, .. } => digit,
        _ => None,
    }
}

/// What a character argument renders as under the `~c` directive: the
/// at-variant single-quotes it.
pub open spec fn char_str_s(k: CharKind, a: ArgV) -> Option<Seq<char>> {
    match a {
        ArgV::Ch(c) => Some(
            if k == CharKind::At {
                seq!['\''] + seq![c] + seq!['\'']
            } else {
                seq![c]
            },
        ),
        _ => None,
    }
}

/// Whether every optional parameter of a radix directive other than the
/// radix itself and the trailing flag is absent.
pub open spec fn radix_plain_params(p: RadixParams) -> bool {
    &&& p.mincol is None
    &&& p.padchar is None
    &&& p.commachar is None
    &&& p.comma_interval is None
}

/// What an integer renders as under a radix directive. With no radix and no
/// flag: English cardinal words, a negative value prefixed with
/// `negative `. With the colon flag and no radix: ordinal words. With the
/// at flag: an uppercase Roman numeral, defined for one through three
/// thousand nine hundred ninety-nine only. With a radix: positional digits
/// in that base (the base must lie between two and thirty-six), grouped
/// from the right when the colon flag asks for it and left-padded up to
/// `mincol`; the sign stands before the padding.
pub open spec fn radix_int_s(p: RadixParams, i: int) -> Option<Seq<char>> {
    let m = abs_nat(i);
    if radix_plain_params(p) && p.flag is None {
        match p.radix {
            None => Some(if i < 0 { "negative "@ + english_s(m) } else { english_s(m) }),
            Some(r) => if 2 <= r <= 36 {
                Some(sign_s(i) + udigits_s(m, r as nat))
            } else {
                None
            },
        }
    } else if radix_plain_params(p) && p.flag == Some(RadixFlag::Colon) {
        match p.radix {
            None => Some(
                if i < 0 {
                    "negative "@ + ordinal_english_s(m)
                } else {
                    ordinal_english_s(m)
                },
            ),
            Some(r) => if 2 <= r <= 36 {
                Some(sign_s(i) + grouped_s(udigits_s(m, r as nat), 3, ','))
            } else {
                None
            },
        }
    } else if radix_plain_params(p) && p.flag == Some(RadixFlag::At) && p.radix is None {
        if 1 <= i <= 3999 {
            Some(roman_s(m))
        } else {
            None
        }
    } else if radix_plain_params(p) && p.flag == Some(RadixFlag::AtColon) && p.radix is None {
        None
    } else {
        match p.radix {
            None => None,
            Some(r) => if 2 <= r <= 36 {
                let digits = udigits_s(m, r as nat);
                let grouped = match (p.flag, p.comma_interval) {
                    (Some(RadixFlag::Colon), Some(ci)) => grouped_s(
                        digits,
                        ci as nat,
                        comma_or_default(p.commachar),
                    ),
                    _ => digits,
                };
                let padded = match p.mincol {
                    Some(mc) => padded_s(grouped, mc as nat, pad_or_default(p.padchar)),
                    None => grouped,
                };
                Some(sign_s(i) + padded)
            } else {
                None
            },
        }
    }
}

pub open spec fn abs_nat(i: int) -> nat {
    if i < 0 {
        (-i) as nat
    } else {
        i as nat
    }
}

pub open spec fn sign_s(i: int) -> Seq<char> {
    if i < 0 {
        seq!['-']
    } else {
        Seq::empty()
    }
}

pub open spec fn comma_or_default(c: Option<char>) -> char {
    match c {
        Some(x) => x,
        None => ',',
    }
}

pub open spec fn pad_or_default(c: Option<char>) -> char {
    match c {
        Some(x) => x,
        None => ' ',
    }
}

/// The outcome of evaluating one directive against the arguments `items`
/// at cursor position `ind`. `nil` tells that the directive stands in a
/// conditional branch that renders against the no-argument placeholder:
/// there `~a` prints `nil` without consuming anything, and every directive
/// that would consume or move the cursor is an error. The result is the
/// text the directive appends and the cursor position it leaves, or `None`
/// for an evaluation error.
pub open spec fn eval_kind_s(k: TildeKind, items: Seq<ArgV>, ind: int, nil: bool) -> Option<
    (Seq<char>, int),
>
    decreases k, 9nat, 0nat, 0nat,
{
    match k {
        TildeKind::Text(s) => Some((s@, ind)),
        TildeKind::Tildes(n) => Some((repeat_char_s('~', n as nat), ind)),
        TildeKind::Va => if nil {
            Some(("nil"@, ind))
        } else if 0 <= ind < items.len() {
            match va_str_s(items[ind]) {
                Some(o) => Some((o, ind + 1)),
                None => None,
            }
        } else {
            None
        },
        TildeKind::Standard => if !nil && 0 <= ind < items.len() {
            match standard_str_s(items[ind]) {
                Some(o) => Some((o, ind + 1)),
                None => None,
            }
        } else {
            None
        },
        TildeKind::Digit(_) => if !nil && 0 <= ind < items.len() {
            match digit_str_s(items[ind]) {
                Some(o) => Some((o, ind + 1)),
                None => None,
            }
        } else {
            None
        },
        TildeKind::Char(ck) => if !nil && 0 <= ind < items.len() {
            match char_str_s(ck, items[ind]) {
                Some(o) => Some((o, ind + 1)),
                None => None,
            }
        } else {
            None
        },
        TildeKind::Radix(p) => if !nil && 0 <= ind < items.len() {
            match items[ind] {
                ArgV::Int(i) => match radix_int_s(p, i) {
                    Some(o) => Some((o, ind + 1)),
                    None => None,
                },
                _ => None,
            }
        } else {
            None
        },
        TildeKind::Float(_) => None,
        TildeKind::LoopEnd => None,
        TildeKind::Star(sk) => if nil {
            None
        } else {
            match sk {
                StarKind::Skip => if 0 <= ind < items.len() {
                    Some((Seq::empty(), ind + 1))
                } else {
                    None
                },
                StarKind::Hop => if 0 < ind <= items.len() {
                    Some((Seq::empty(), ind - 1))
                } else {
                    None
                },
            }
        },
        TildeKind::VecTilde(vv) => eval_seq_s(vv, 0, items, ind, nil),
        TildeKind::Cond(vv, ck) => if nil {
            None
        } else {
            eval_cond_s(vv, ck, items, ind)
        },
        TildeKind::Loop(vv, lk) => if nil {
            None
        } else {
            eval_loop_s(vv, lk, items, ind)
        },
    }
}

/// Evaluates the directives of `vv` from position `j` on, one after the
/// other, concatenating their text.
pub open spec fn eval_seq_s(vv: Vec<Tilde>, j: int, items: Seq<ArgV>, ind: int, nil: bool) -> Option<
    (Seq<char>, int),
>
    decreases vv, 1nat, 0nat, sub0(vv@.len() as int, j),
{
    if 0 <= j < vv@.len() {
        match eval_kind_s(vv@[j].value, items, ind, nil) {
            Some((o, ind2)) => match eval_seq_s(vv, j + 1, items, ind2, nil) {
                Some((o2, ind3)) => Some((o + o2, ind3)),
                None => None,
            },
            None => None,
        }
    } else {
        Some((Seq::empty(), ind))
    }
}

/// One pass of a loop body from child `j` on, started when the cursor
/// stood at `ps`. A `~^` stops the whole loop once no arguments are left,
/// otherwise it is inert. At the end of a pass the loop stops when the
/// cursor is exhausted, runs another pass when the pass consumed at least
/// one argument, and stops otherwise, so that a body that consumes nothing
/// runs exactly once.
pub open spec fn loop_pass_s(vv: Vec<Tilde>, j: int, items: Seq<ArgV>, ind: int, ps: int) -> Option<
    (Seq<char>, int),
>
    decreases vv, 2nat, sub0(items.len() as int, ps), sub0(vv@.len() as int, j),
{
    if 0 <= j < vv@.len() {
        if vv@[j].value is LoopEnd {
            if items.len() - ind != 0 {
                loop_pass_s(vv, j + 1, items, ind, ps)
            } else {
                Some((Seq::empty(), ind))
            }
        } else {
            match eval_kind_s(vv@[j].value, items, ind, false) {
                Some((o, ind2)) => match loop_pass_s(vv, j + 1, items, ind2, ps) {
                    Some((o2, ind3)) => Some((o + o2, ind3)),
                    None => None,
                },
                None => None,
            }
        }
    } else {
        if items.len() - ind == 0 {
            Some((Seq::empty(), ind))
        } else if 0 <= ps < ind <= items.len() {
            loop_pass_s(vv, 0, items, ind, ind)
        } else {
            Some((Seq::empty(), ind))
        }
    }
}

/// Evaluates a loop directive. The `~@{` form iterates the body over the
/// remaining arguments in place. The `~{` form consumes one argument,
/// which must be a list, and iterates the body over a fresh cursor on it;
/// an empty list renders nothing, except that the `~{ ... ~:}` form still
/// runs the body once against the empty cursor.
pub open spec fn eval_loop_s(vv: Vec<Tilde>, lk: TildeLoopKind, items: Seq<ArgV>, ind: int) -> Option<
    (Seq<char>, int),
>
    decreases vv, 3nat, 0nat, 0nat,
{
    match lk {
        TildeLoopKind::At => loop_pass_s(vv, 0, items, ind, ind),
        TildeLoopKind::Nil => if 0 <= ind < items.len() {
            match items[ind] {
                ArgV::List(l) => if l.len() == 0 {
                    Some((Seq::empty(), ind + 1))
                } else {
                    match loop_pass_s(vv, 0, l, 0, 0) {
                        Some((o, _)) => Some((o, ind + 1)),
                        None => None,
                    }
                },
                _ => None,
            }
        } else {
            None
        },
        TildeLoopKind::NilColon => if 0 <= ind < items.len() {
            match items[ind] {
                ArgV::List(l) => match loop_pass_s(vv, 0, l, 0, 0) {
                    Some((o, _)) => Some((o, ind + 1)),
                    None => None,
                },
                _ => None,
            }
        } else {
            None
        },
    }
}

/// Evaluates a conditional directive. The `~#[` form selects the branch
/// whose index is the number of remaining arguments, clamped to the last
/// branch, and renders it against the live cursor. The plain `~[` form
/// consumes a non-negative integer index and renders that branch against
/// the placeholder; out of range, it renders the last branch when a `~:;`
/// marked it as a fallback and nothing otherwise. The `~:[` form consumes
/// a boolean and renders the false or true branch against the placeholder.
/// The `~@[` form consumes an optional value: when present, the branch
/// directives render against a fresh one-argument cursor holding it; when
/// absent, nothing is rendered.
pub open spec fn eval_cond_s(vv: Vec<Tilde>, ck: TildeCondKind, items: Seq<ArgV>, ind: int) -> Option<
    (Seq<char>, int),
>
    decreases vv, 2nat, 0nat, 0nat,
{
    match ck {
        TildeCondKind::Sharp => {
            if vv@.len() == 0 {
                None
            } else {
                let l = sub0(items.len() as int, ind) as int;
                let b: int = if l >= vv@.len() {
                    vv@.len() - 1
                } else {
                    l
                };
                eval_kind_s(vv@[b].value, items, ind, false)
            }
        },
        TildeCondKind::Nil(fallback) => if 0 <= ind < items.len() {
            match items[ind] {
                ArgV::Int(i) => if i >= 0 {
                    if i < vv@.len() {
                        eval_kind_s(vv@[i].value, items, ind + 1, true)
                    } else if fallback {
                        if vv@.len() >= 1 {
                            eval_kind_s(vv@[vv@.len() - 1].value, items, ind + 1, true)
                        } else {
                            Some((Seq::empty(), ind + 1))
                        }
                    } else {
                        Some((Seq::empty(), ind + 1))
                    }
                } else {
                    None
                },
                _ => None,
            }
        } else {
            None
        },
        TildeCondKind::Colon => if 0 <= ind < items.len() {
            match items[ind] {
                ArgV::Bool(b) => {
                    let sel: int = if b {
                        1
                    } else {
                        0
                    };
                    if sel < vv@.len() {
                        eval_kind_s(vv@[sel].value, items, ind + 1, true)
                    } else {
                        None
                    }
                },
                _ => None,
            }
        } else {
            None
        },
        TildeCondKind::At => if 0 <= ind < items.len() {
            match items[ind] {
                ArgV::Opt(o) => match o {
                    Some(inner) => match eval_seq_s(vv, 0, seq![*inner], 0, false) {
                        Some((o2, _)) => Some((o2, ind + 1)),
                        None => None,
                    },
                    None => Some((Seq::empty(), ind + 1)),
                },
                _ => None,
            }
        } else {
            None
        },
    }
}




/// Evaluation reads a directive only through its mathematical value: two
/// directive kinds with equal views evaluate alike on every argument
/// sequence, position and placeholder context.
pub proof fn lemma_eval_kind_view(k1: TildeKind, k2: TildeKind, items: Seq<ArgV>, ind: int, nil: bool)
    requires
        kind_view(k1) == kind_view(k2),
    ensures
        eval_kind_s(k1, items, ind, nil) == eval_kind_s(k2, items, ind, nil),
    decreases k1, 9nat, 0nat, 0nat,
{
    match (k1, k2) {
        (TildeKind::Loop(b1, l1), TildeKind::Loop(b2, l2)) => {
            if !nil {
                lemma_eval_loop_view(b1, b2, l1, items, ind);
            }
        },
        (TildeKind::Cond(b1, c1), TildeKind::Cond(b2, c2)) => {
            if !nil {
                lemma_eval_cond_view(b1, b2, c1, items, ind);
            }
        },
        (TildeKind::VecTilde(v1), TildeKind::VecTilde(v2)) => {
            lemma_eval_seq_view(v1, v2, 0, items, ind, nil);
        },
        _ => {},
    }
}

/// As `lemma_eval_kind_view`, for a directive sequence from position `j`.
pub proof fn lemma_eval_seq_view(
    vv1: Vec<Tilde>,
    vv2: Vec<Tilde>,
    j: int,
    items: Seq<ArgV>,
    ind: int,
    nil: bool,
)
    requires
        tilde_views(vv1, 0) == tilde_views(vv2, 0),
    ensures
        eval_seq_s(vv1, j, items, ind, nil) == eval_seq_s(vv2, j, items, ind, nil),
    decreases vv1, 1nat, 0nat, sub0(vv1@.len() as int, j),
{
    lemma_tilde_views(vv1, 0);
    lemma_tilde_views(vv2, 0);
    assert(vv1@.len() == vv2@.len());
    if 0 <= j < vv1@.len() {
        assert(tilde_views(vv1, 0)[j] == tilde_view(vv1@[j]));
        assert(tilde_views(vv2, 0)[j] == tilde_view(vv2@[j]));
        lemma_eval_kind_view(vv1@[j].value, vv2@[j].value, items, ind, nil);
        match eval_kind_s(vv1@[j].value, items, ind, nil) {
            Some(res) => {
                lemma_eval_seq_view(vv1, vv2, j + 1, items, res.1, nil);
            },
            None => {},
        }
    }
}

/// As `lemma_eval_kind_view`, for one loop pass from child `j`.
pub proof fn lemma_loop_pass_view(
    vv1: Vec<Tilde>,
    vv2: Vec<Tilde>,
    j: int,
    items: Seq<ArgV>,
    ind: int,
    ps: int,
)
    requires
        tilde_views(vv1, 0) == tilde_views(vv2, 0),
    ensures
        loop_pass_s(vv1, j, items, ind, ps) == loop_pass_s(vv2, j, items, ind, ps),
    decreases vv1, 2nat, sub0(items.len() as int, ps), sub0(vv1@.len() as int, j),
{
    lemma_tilde_views(vv1, 0);
    lemma_tilde_views(vv2, 0);
    assert(vv1@.len() == vv2@.len());
    if 0 <= j < vv1@.len() {
        assert(tilde_views(vv1, 0)[j] == tilde_view(vv1@[j]));
        assert(tilde_views(vv2, 0)[j] == tilde_view(vv2@[j]));
        assert(vv1@[j].value is LoopEnd <==> vv2@[j].value is LoopEnd);
        if vv1@[j].value is LoopEnd {
            if items.len() - ind != 0 {
                lemma_loop_pass_view(vv1, vv2, j + 1, items, ind, ps);
            }
        } else {
            lemma_eval_kind_view(vv1@[j].value, vv2@[j].value, items, ind, false);
            match eval_kind_s(vv1@[j].value, items, ind, false) {
                Some(res) => {
                    lemma_loop_pass_view(vv1, vv2, j + 1, items, res.1, ps);
                },
                None => {},
            }
        }
    } else {
        if items.len() - ind == 0 {
        } else if 0 <= ps < ind <= items.len() {
            lemma_loop_pass_view(vv1, vv2, 0, items, ind, ind);
        }
    }
}

/// As `lemma_eval_kind_view`, for the loop directive.
pub proof fn lemma_eval_loop_view(
    vv1: Vec<Tilde>,
    vv2: Vec<Tilde>,
    lk: TildeLoopKind,
    items: Seq<ArgV>,
    ind: int,
)
    requires
        tilde_views(vv1, 0) == tilde_views(vv2, 0),
    ensures
        eval_loop_s(vv1, lk, items, ind) == eval_loop_s(vv2, lk, items, ind),
    decreases vv1, 3nat, 0nat, 0nat,
{
    match lk {
        TildeLoopKind::At => {
            lemma_loop_pass_view(vv1, vv2, 0, items, ind, ind);
        },
        TildeLoopKind::Nil => {
            if 0 <= ind < items.len() {
                match items[ind] {
                    ArgV::List(l) => {
                        if l.len() != 0 {
                            lemma_loop_pass_view(vv1, vv2, 0, l, 0, 0);
                        }
                    },
                    _ => {},
                }
            }
        },
        TildeLoopKind::NilColon => {
            if 0 <= ind < items.len() {
                match items[ind] {
                    ArgV::List(l) => {
                        lemma_loop_pass_view(vv1, vv2, 0, l, 0, 0);
                    },
                    _ => {},
                }
            }
        },
    }
}

/// As `lemma_eval_kind_view`, for the conditional directive.
pub proof fn lemma_eval_cond_view(
    vv1: Vec<Tilde>,
    vv2: Vec<Tilde>,
    ck: TildeCondKind,
    items: Seq<ArgV>,
    ind: int,
)
    requires
        tilde_views(vv1, 0) == tilde_views(vv2, 0),
    ensures
        eval_cond_s(vv1, ck, items, ind) == eval_cond_s(vv2, ck, items, ind),
    decreases vv1, 2nat, 0nat, 0nat,
{
    lemma_tilde_views(vv1, 0);
    lemma_tilde_views(vv2, 0);
    assert(vv1@.len() == vv2@.len());
    match ck {
        TildeCondKind::Sharp => {
            if vv1@.len() != 0 {
                let l = sub0(items.len() as int, ind) as int;
                let b: int = if l >= vv1@.len() {
                    vv1@.len() - 1
                } else {
                    l
                };
                assert(tilde_views(vv1, 0)[b] == tilde_view(vv1@[b]));
                assert(tilde_views(vv2, 0)[b] == tilde_view(vv2@[b]));
                lemma_eval_kind_view(vv1@[b].value, vv2@[b].value, items, ind, false);
            }
        },
        TildeCondKind::Nil(fallback) => {
            if 0 <= ind < items.len() {
                match items[ind] {
                    ArgV::Int(i) => {
                        if i >= 0 {
                            if i < vv1@.len() {
                                assert(tilde_views(vv1, 0)[i] == tilde_view(vv1@[i]));
                                assert(tilde_views(vv2, 0)[i] == tilde_view(vv2@[i]));
                                lemma_eval_kind_view(
                                    vv1@[i].value,
                                    vv2@[i].value,
                                    items,
                                    ind + 1,
                                    true,
                                );
                            } else if fallback && vv1@.len() >= 1 {
                                let last = vv1@.len() - 1;
                                assert(tilde_views(vv1, 0)[last] == tilde_view(vv1@[last]));
                                assert(tilde_views(vv2, 0)[last] == tilde_view(vv2@[last]));
                                lemma_eval_kind_view(
                                    vv1@[last].value,
                                    vv2@[last].value,
                                    items,
                                    ind + 1,
                                    true,
                                );
                            }
                        }
                    },
                    _ => {},
                }
            }
        },
        TildeCondKind::Colon => {
            if 0 <= ind < items.len() {
                match items[ind] {
                    ArgV::Bool(b) => {
                        let sel: int = if b {
                            1
                        } else {
                            0
                        };
                        if sel < vv1@.len() {
                            assert(tilde_views(vv1, 0)[sel] == tilde_view(vv1@[sel]));
                            assert(tilde_views(vv2, 0)[sel] == tilde_view(vv2@[sel]));
                            lemma_eval_kind_view(
                                vv1@[sel].value,
                                vv2@[sel].value,
                                items,
                                ind + 1,
                                true,
                            );
                        }
                    },
                    _ => {},
                }
            }
        },
        TildeCondKind::At => {
            if 0 <= ind < items.len() {
                match items[ind] {
                    ArgV::Opt(o) => match o {
                        Some(inner) => {
                            lemma_eval_seq_view(vv1, vv2, 0, seq![*inner], 0, false);
                        },
                        None => {},
                    },
                    _ => {},
                }
            }
        },
    }
}

} // verus!
