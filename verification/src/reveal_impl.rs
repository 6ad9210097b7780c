use vstd::prelude::*;
use vstd::string::StringExecFns;
use crate::args::Arg;
use crate::args::Args;
use crate::args::arg_view;
use crate::args::arg_views;
use crate::args::lemma_arg_views;
use crate::digits::group_chars;
use crate::digits::push_dec_i64;
use crate::digits::push_padded;
use crate::digits::push_radix;
use crate::eval_spec::debug_item_s;
use crate::eval_spec::debug_items_s;
use crate::eval_spec::char_str_s;
use crate::eval_spec::digit_str_s;
use crate::eval_spec::eval_cond_s;
use crate::eval_spec::eval_kind_s;
use crate::eval_spec::eval_loop_s;
use crate::eval_spec::eval_seq_s;
use crate::eval_spec::loop_pass_s;
use crate::eval_spec::radix_int_s;
use crate::eval_spec::standard_str_s;
use crate::eval_spec::sub0;
use crate::eval_spec::va_str_s;
use crate::numwords::push_english_u64;
use crate::numwords::push_ordinal_english_u64;
use crate::numwords::push_roman;
use crate::strbuf::push_char;
use crate::strbuf::push_repeat;
use crate::tilde_kinds::CharKind;
use crate::tilde_kinds::ErrorKind;
use crate::tilde_kinds::RadixFlag;
use crate::tilde_kinds::RadixParams;
use crate::tilde_kinds::StarKind;
use crate::tilde_kinds::Tilde;
use crate::tilde_kinds::TildeCondKind;
use crate::tilde_kinds::TildeError;
use crate::tilde_kinds::TildeKind;
use crate::tilde_kinds::TildeLoopKind;

verus! {

broadcast use crate::args::lemma_args_ind_nonneg;

fn reveal_err(msg: &str) -> (r: TildeError)
    ensures
        r.kind == ErrorKind::RevealError,
{
    TildeError::new(ErrorKind::RevealError, msg)
}

fn format_err(msg: &str) -> (r: TildeError)
    ensures
        r.kind == ErrorKind::FormatError,
{
    TildeError::new(ErrorKind::FormatError, msg)
}

/// Appends the `Debug`-like rendering of one argument.
fn push_debug_item(a: &Arg, buf: &mut String) -> (r: Result<(), TildeError>)
    ensures
        r matches Err(e) ==> e.kind == ErrorKind::RevealError || e.kind == ErrorKind::FormatError,
        match debug_item_s(a@) {
            Some(o) => r is Ok && final(buf)@ == old(buf)@ + o,
            None => r is Err,
        },
    decreases a, 0nat,
{
    match a {
        Arg::Int(i) => {
            push_dec_i64(*i, buf);
            Ok(())
        },
        Arg::Bool(b) => {
            buf.append(if *b { "true" } else { "false" });
            Ok(())
        },
        Arg::Ch(c) => {
            push_char(buf, '\'');
            push_char(buf, *c);
            push_char(buf, '\'');
            proof {
                assert(buf@ =~= old(buf)@ + (seq!['\''] + seq![*c] + seq!['\'']));
            }
            Ok(())
        },
        Arg::Text(s) => {
            push_char(buf, '"');
            buf.append(s.as_str());
            push_char(buf, '"');
            proof {
                assert(buf@ =~= old(buf)@ + (seq!['"'] + s@ + seq!['"']));
            }
            Ok(())
        },
        Arg::Opt(o) => match o {
            None => {
                buf.append("None");
                Ok(())
            },
            Some(b) => {
                buf.append("Some(");
                match push_debug_item(&**b, buf) {
                    Ok(()) => {
                        buf.append(")");
                        proof {
                            if debug_item_s(arg_view(*a)) is Some {
                                assert(buf@ =~= old(buf)@ + debug_item_s(arg_view(*a)).unwrap());
                            }
                        }
                        Ok(())
                    },
                    Err(e) => Err(e),
                }
            },
        },
        Arg::List(v) => {
            push_char(buf, '[');
            match push_debug_items(v, 0, buf) {
                Ok(()) => {
                    push_char(buf, ']');
                    proof {
                        if debug_item_s(arg_view(*a)) is Some {
                            assert(buf@ =~= old(buf)@ + debug_item_s(arg_view(*a)).unwrap());
                        }
                    }
                    Ok(())
                },
                Err(e) => Err(e),
            }
        },
        Arg::Custom { va, .. } => match va {
            Some(s) => {
                buf.append(s.as_str());
                Ok(())
            },
            None => Err(reveal_err("cannot reveal to Va")),
        },
    }
}

/// Appends the remaining list elements from position `j` on, separated by
/// a comma and a space.
fn push_debug_items(v: &Vec<Arg>, j: usize, buf: &mut String) -> (r: Result<(), TildeError>)
    requires
        j <= v@.len(),
    ensures
        r matches Err(e) ==> e.kind == ErrorKind::RevealError || e.kind == ErrorKind::FormatError,
        match debug_items_s(arg_views(*v, 0), j as int) {
            Some(o) => r is Ok && final(buf)@ == old(buf)@ + o,
            None => r is Err,
        },
    decreases v, 1nat, sub0(v@.len() as int, j as int),
{
    proof {
        lemma_arg_views(*v, 0);
    }
    if j < v.len() {
        match push_debug_item(&v[j], buf) {
            Ok(()) => {
                let ghost mid = buf@;
                if j + 1 < v.len() {
                    buf.append(", ");
                }
                match push_debug_items(v, j + 1, buf) {
                    Ok(()) => {
                        proof {
                            let l = arg_views(*v, 0);
                            let x = debug_item_s(l[j as int]).unwrap();
                            let y = debug_items_s(l, j as int + 1).unwrap();
                            if j + 1 < v.len() {
                                assert(buf@ =~= old(buf)@ + (x + ", "@ + y));
                            } else {
                                assert(debug_items_s(l, j as int + 1) == Some(
                                    Seq::<char>::empty(),
                                ));
                                assert(buf@ =~= old(buf)@ + x);
                            }
                        }
                        Ok(())
                    },
                    Err(e) => Err(e),
                }
            },
            Err(e) => Err(e),
        }
    } else {
        proof {
            assert(old(buf)@ + Seq::<char>::empty() =~= old(buf)@);
        }
        Ok(())
    }
}

/// Appends the generic-display rendering of one argument.
fn push_va(a: &Arg, buf: &mut String) -> (r: Result<(), TildeError>)
    ensures
        r matches Err(e) ==> e.kind == ErrorKind::RevealError || e.kind == ErrorKind::FormatError,
        match va_str_s(a@) {
            Some(o) => r is Ok && final(buf)@ == old(buf)@ + o,
            None => r is Err,
        },
    decreases a, 2nat,
{
    match a {
        Arg::Int(i) => {
            push_dec_i64(*i, buf);
            Ok(())
        },
        Arg::Bool(b) => {
            buf.append(if *b { "true" } else { "false" });
            Ok(())
        },
        Arg::Ch(c) => {
            push_char(buf, *c);
            proof {
                assert(buf@ =~= old(buf)@ + seq![*c]);
            }
            Ok(())
        },
        Arg::Text(s) => {
            buf.append(s.as_str());
            Ok(())
        },
        Arg::Opt(o) => match o {
            None => {
                buf.append("nil");
                Ok(())
            },
            Some(b) => push_va(&**b, buf),
        },
        Arg::List(v) => {
            push_char(buf, '[');
            match push_debug_items(v, 0, buf) {
                Ok(()) => {
                    push_char(buf, ']');
                    proof {
                        if va_str_s(arg_view(*a)) is Some {
                            assert(buf@ =~= old(buf)@ + va_str_s(arg_view(*a)).unwrap());
                        }
                    }
                    Ok(())
                },
                Err(e) => Err(e),
            }
        },
        Arg::Custom { va, .. } => match va {
            Some(s) => {
                buf.append(s.as_str());
                Ok(())
            },
            None => Err(reveal_err("cannot reveal to Va")),
        },
    }
}

/// Appends the quoted-standard rendering of one argument.
fn push_standard(a: &Arg, buf: &mut String) -> (r: Result<(), TildeError>)
    ensures
        r matches Err(e) ==> e.kind == ErrorKind::RevealError || e.kind == ErrorKind::FormatError,
        match standard_str_s(a@) {
            Some(o) => r is Ok && final(buf)@ == old(buf)@ + o,
            None => r is Err,
        },
{
    match a {
        Arg::Int(i) => {
            push_dec_i64(*i, buf);
            Ok(())
        },
        Arg::Bool(b) => {
            buf.append(if *b { "true" } else { "false" });
            Ok(())
        },
        Arg::Ch(c) => {
            push_char(buf, '\'');
            push_char(buf, *c);
            push_char(buf, '\'');
            proof {
                assert(buf@ =~= old(buf)@ + (seq!['\''] + seq![*c] + seq!['\'']));
            }
            Ok(())
        },
        Arg::Text(s) => {
            push_char(buf, '"');
            buf.append(s.as_str());
            push_char(buf, '"');
            proof {
                assert(buf@ =~= old(buf)@ + (seq!['"'] + s@ + seq!['"']));
            }
            Ok(())
        },
        Arg::Custom { standard, .. } => match standard {
            Some(s) => {
                buf.append(s.as_str());
                Ok(())
            },
            None => Err(reveal_err("cannot reveal to Standard")),
        },
        _ => Err(reveal_err("cannot reveal to Standard")),
    }
}

/// Appends the digit rendering of one argument.
fn push_digit_arg(a: &Arg, buf: &mut String) -> (r: Result<(), TildeError>)
    ensures
        r matches Err(e) ==> e.kind == ErrorKind::RevealError || e.kind == ErrorKind::FormatError,
        match digit_str_s(a@) {
            Some(o) => r is Ok && final(buf)@ == old(buf)@ + o,
            None => r is Err,
        },
{
    match a {
        Arg::Int(i) => {
            push_dec_i64(*i, buf);
            Ok(())
        },
        Arg::Custom { digit, .. } => match digit {
            Some(s) => {
                buf.append(s.as_str());
                Ok(())
            },
            None => Err(reveal_err("cannot reveal to Digit")),
        },
        _ => Err(reveal_err("cannot reveal to Digit")),
    }
}

/// Appends the character rendering of one argument.
fn push_char_arg(k: &CharKind, a: &Arg, buf: &mut String) -> (r: Result<(), TildeError>)
    ensures
        r matches Err(e) ==> e.kind == ErrorKind::RevealError || e.kind == ErrorKind::FormatError,
        match char_str_s(*k, a@) {
            Some(o) => r is Ok && final(buf)@ == old(buf)@ + o,
            None => r is Err,
        },
{
    match a {
        Arg::Ch(c) => {
            match k {
                CharKind::At => {
                    push_char(buf, '\'');
                    push_char(buf, *c);
                    push_char(buf, '\'');
                    proof {
                        assert(buf@ =~= old(buf)@ + (seq!['\''] + seq![*c] + seq!['\'']));
                    }
                },
                CharKind::Nil => {
                    push_char(buf, *c);
                    proof {
                        assert(buf@ =~= old(buf)@ + seq![*c]);
                    }
                },
            }
            Ok(())
        },
        _ => Err(reveal_err("cannot reveal to Char")),
    }
}

/// The magnitude of a signed number as an unsigned one.
fn abs_u64(n: i64) -> (r: u64)
    ensures
        r as int == crate::eval_spec::abs_nat(n as int),
{
    if n < 0 {
        (-(n as i128)) as u64
    } else {
        n as u64
    }
}

/// Appends the radix rendering of an integer argument, per the directive's
/// parameters.
fn push_radix_int(p: &RadixParams, n: i64, buf: &mut String) -> (r: Result<(), TildeError>)
    ensures
        r matches Err(e) ==> e.kind == ErrorKind::RevealError || e.kind == ErrorKind::FormatError,
        match radix_int_s(*p, n as int) {
            Some(o) => r is Ok && final(buf)@ == old(buf)@ + o,
            None => r is Err,
        },
{
    let m = abs_u64(n);
    let plain = p.mincol.is_none() && p.padchar.is_none() && p.commachar.is_none()
        && p.comma_interval.is_none();
    if plain && p.flag.is_none() {
        match p.radix {
            None => {
                if n < 0 {
                    buf.append("negative ");
                }
                push_english_u64(m, buf);
                proof {
                    assert(buf@ =~= old(buf)@ + radix_int_s(*p, n as int).unwrap());
                }
                Ok(())
            },
            Some(r) => {
                if 2 <= r && r <= 36 {
                    if n < 0 {
                        push_char(buf, '-');
                    }
                    push_radix(m, r, buf);
                    proof {
                        assert(buf@ =~= old(buf)@ + radix_int_s(*p, n as int).unwrap());
                    }
                    Ok(())
                } else {
                    Err(format_err("the radix must lie between 2 and 36"))
                }
            },
        }
    } else if plain && matches!(p.flag, Some(RadixFlag::Colon)) {
        match p.radix {
            None => {
                if n < 0 {
                    buf.append("negative ");
                }
                push_ordinal_english_u64(m, buf);
                proof {
                    assert(buf@ =~= old(buf)@ + radix_int_s(*p, n as int).unwrap());
                }
                Ok(())
            },
            Some(r) => {
                if 2 <= r && r <= 36 {
                    if n < 0 {
                        push_char(buf, '-');
                    }
                    let mut ds = String::new();
                    push_radix(m, r, &mut ds);
                    let g = group_chars(ds.as_str(), 3, ',');
                    buf.append(g.as_str());
                    proof {
                        assert(buf@ =~= old(buf)@ + radix_int_s(*p, n as int).unwrap());
                    }
                    Ok(())
                } else {
                    Err(format_err("the radix must lie between 2 and 36"))
                }
            },
        }
    } else if plain && matches!(p.flag, Some(RadixFlag::At)) && p.radix.is_none() {
        if 1 <= n && n <= 3999 {
            push_roman(m, buf);
            Ok(())
        } else {
            Err(format_err("only 1 through 3999 can be revealed as Roman numerals"))
        }
    } else if plain && matches!(p.flag, Some(RadixFlag::AtColon)) && p.radix.is_none() {
        Err(format_err("old-style Roman numerals are not supported"))
    } else {
        match p.radix {
            None => Err(format_err("these radix parameters need an explicit radix")),
            Some(r) => {
                if 2 <= r && r <= 36 {
                    if n < 0 {
                        push_char(buf, '-');
                    }
                    let mut ds = String::new();
                    push_radix(m, r, &mut ds);
                    let grouped: String = if matches!(p.flag, Some(RadixFlag::Colon))
                        && p.comma_interval.is_some() {
                        let ci = match p.comma_interval {
                            Some(x) => x,
                            None => 0,
                        };
                        let cc = match p.commachar {
                            Some(x) => x,
                            None => ',',
                        };
                        group_chars(ds.as_str(), ci, cc)
                    } else {
                        ds
                    };
                    match p.mincol {
                        Some(mc) => {
                            let pc = match p.padchar {
                                Some(x) => x,
                                None => ' ',
                            };
                            push_padded(grouped.as_str(), mc, pc, buf);
                        },
                        None => {
                            buf.append(grouped.as_str());
                        },
                    }
                    proof {
                        assert(buf@ =~= old(buf)@ + radix_int_s(*p, n as int).unwrap());
                    }
                    Ok(())
                } else {
                    Err(format_err("the radix must lie between 2 and 36"))
                }
            },
        }
    }
}

/// Evaluates one directive against the cursor, appending its text to the
/// buffer. `nil` marks evaluation against the no-argument placeholder of a
/// conditional branch. The outcome is exactly `eval_kind_s`.
fn eval_kind(k: &TildeKind, args: &mut Args, nil: bool, buf: &mut String) -> (r: Result<
    (),
    TildeError,
>)
    ensures
        final(args)@.items == old(args)@.items,
        r matches Err(e) ==> e.kind == ErrorKind::RevealError || e.kind == ErrorKind::FormatError,
        match eval_kind_s(*k, old(args)@.items, old(args)@.ind, nil) {
            Some(res) => r is Ok && final(args)@.ind == res.1 && final(buf)@ == old(buf)@ + res.0,
            None => r is Err,
        },
    decreases *k, 9nat, 0nat, 0nat,
{
    match k {
        TildeKind::Text(s) => {
            buf.append(s.as_str());
            Ok(())
        },
        TildeKind::Tildes(n) => {
            push_repeat(buf, '~', *n);
            Ok(())
        },
        TildeKind::Va => {
            if nil {
                buf.append("nil");
                Ok(())
            } else {
                match args.pop() {
                    Some(a) => push_va(&a, buf),
                    None => Err(format_err("run out args")),
                }
            }
        },
        TildeKind::Standard => {
            if nil {
                Err(reveal_err("cannot reveal to Standard"))
            } else {
                match args.pop() {
                    Some(a) => push_standard(&a, buf),
                    None => Err(format_err("run out args")),
                }
            }
        },
        TildeKind::Digit(_) => {
            if nil {
                Err(reveal_err("cannot reveal to Digit"))
            } else {
                match args.pop() {
                    Some(a) => push_digit_arg(&a, buf),
                    None => Err(format_err("run out args")),
                }
            }
        },
        TildeKind::Char(ck) => {
            if nil {
                Err(reveal_err("cannot reveal to Char"))
            } else {
                match args.pop() {
                    Some(a) => push_char_arg(ck, &a, buf),
                    None => Err(format_err("run out args")),
                }
            }
        },
        TildeKind::Radix(p) => {
            if nil {
                Err(reveal_err("cannot reveal to Radix"))
            } else {
                match args.pop() {
                    Some(a) => match a {
                        Arg::Int(i) => push_radix_int(p, i, buf),
                        _ => Err(reveal_err("cannot reveal to Radix")),
                    },
                    None => Err(format_err("run out args")),
                }
            }
        },
        TildeKind::Float(_) => Err(reveal_err("no argument offers the Float capability")),
        TildeKind::LoopEnd => Err(reveal_err("loop end cannot reveal")),
        TildeKind::Star(sk) => {
            if nil {
                Err(reveal_err("cannot reveal to Star"))
            } else {
                match sk {
                    StarKind::Skip => match args.pop() {
                        Some(_) => {
                            proof {
                                assert(buf@ =~= old(buf)@ + Seq::<char>::empty());
                            }
                            Ok(())
                        },
                        None => Err(format_err("run out args")),
                    },
                    StarKind::Hop => match args.back() {
                        Some(_) => {
                            proof {
                                assert(buf@ =~= old(buf)@ + Seq::<char>::empty());
                            }
                            Ok(())
                        },
                        None => Err(format_err("cannot step back before the first argument")),
                    },
                }
            }
        },
        TildeKind::VecTilde(vv) => eval_seq(vv, 0, args, nil, buf),
        TildeKind::Cond(vv, ck) => {
            if nil {
                Err(reveal_err("cannot reveal to Cond"))
            } else {
                eval_cond(vv, ck, args, buf)
            }
        },
        TildeKind::Loop(vv, lk) => {
            if nil {
                Err(reveal_err("cannot reveal to Loop"))
            } else {
                eval_loop(vv, lk, args, buf)
            }
        },
    }
}

/// Evaluates the directives of `vv` from position `j` on against the
/// cursor. The outcome is exactly `eval_seq_s`.
fn eval_seq(vv: &Vec<Tilde>, j: usize, args: &mut Args, nil: bool, buf: &mut String) -> (r: Result<
    (),
    TildeError,
>)
    requires
        j <= vv@.len(),
    ensures
        final(args)@.items == old(args)@.items,
        r matches Err(e) ==> e.kind == ErrorKind::RevealError || e.kind == ErrorKind::FormatError,
        match eval_seq_s(*vv, j as int, old(args)@.items, old(args)@.ind, nil) {
            Some(res) => r is Ok && final(args)@.ind == res.1 && final(buf)@ == old(buf)@ + res.0,
            None => r is Err,
        },
    decreases *vv, 1nat, 0nat, sub0(vv@.len() as int, j as int),
{
    if j < vv.len() {
        let t = &vv[j];
        match eval_kind(&t.value, args, nil, buf) {
            Ok(()) => {
                let ghost mid = buf@;
                match eval_seq(vv, j + 1, args, nil, buf) {
                    Ok(()) => {
                        proof {
                            let res = eval_seq_s(
                                *vv,
                                j as int,
                                old(args)@.items,
                                old(args)@.ind,
                                nil,
                            );
                            assert(buf@ =~= old(buf)@ + res.unwrap().0);
                        }
                        Ok(())
                    },
                    Err(e) => Err(e),
                }
            },
            Err(e) => Err(e),
        }
    } else {
        proof {
            assert(old(buf)@ + Seq::<char>::empty() =~= old(buf)@);
        }
        Ok(())
    }
}

/// Runs one pass of a loop body from child `j` on; `ps` is the cursor
/// position at which the pass started. The outcome is exactly
/// `loop_pass_s`.
fn loop_pass(vv: &Vec<Tilde>, j: usize, args: &mut Args, ps: usize, buf: &mut String) -> (r: Result<
    (),
    TildeError,
>)
    requires
        j <= vv@.len(),
    ensures
        final(args)@.items == old(args)@.items,
        r matches Err(e) ==> e.kind == ErrorKind::RevealError || e.kind == ErrorKind::FormatError,
        match loop_pass_s(*vv, j as int, old(args)@.items, old(args)@.ind, ps as int) {
            Some(res) => r is Ok && final(args)@.ind == res.1 && final(buf)@ == old(buf)@ + res.0,
            None => r is Err,
        },
    decreases *vv, 2nat, sub0(args@.items.len() as int, ps as int), sub0(
        vv@.len() as int,
        j as int,
    ),
{
    if j < vv.len() {
        let t = &vv[j];
        if matches!(&t.value, TildeKind::LoopEnd) {
            if args.left_count() != 0 {
                loop_pass(vv, j + 1, args, ps, buf)
            } else {
                proof {
                    assert(old(buf)@ + Seq::<char>::empty() =~= old(buf)@);
                }
                Ok(())
            }
        } else {
            match eval_kind(&t.value, args, false, buf) {
                Ok(()) => {
                    match loop_pass(vv, j + 1, args, ps, buf) {
                        Ok(()) => {
                            proof {
                                let res = loop_pass_s(
                                    *vv,
                                    j as int,
                                    old(args)@.items,
                                    old(args)@.ind,
                                    ps as int,
                                );
                                assert(buf@ =~= old(buf)@ + res.unwrap().0);
                            }
                            Ok(())
                        },
                        Err(e) => Err(e),
                    }
                },
                Err(e) => Err(e),
            }
        }
    } else {
        if args.left_count() == 0 {
            proof {
                assert(old(buf)@ + Seq::<char>::empty() =~= old(buf)@);
            }
            Ok(())
        } else {
            let ind = args.position();
            if ps < ind {
                loop_pass(vv, 0, args, ind, buf)
            } else {
                proof {
                    assert(old(buf)@ + Seq::<char>::empty() =~= old(buf)@);
                }
                Ok(())
            }
        }
    }
}

/// Evaluates a loop directive against the cursor. The outcome is exactly
/// `eval_loop_s`.
fn eval_loop(vv: &Vec<Tilde>, lk: &TildeLoopKind, args: &mut Args, buf: &mut String) -> (r: Result<
    (),
    TildeError,
>)
    ensures
        final(args)@.items == old(args)@.items,
        r matches Err(e) ==> e.kind == ErrorKind::RevealError || e.kind == ErrorKind::FormatError,
        match eval_loop_s(*vv, *lk, old(args)@.items, old(args)@.ind) {
            Some(res) => r is Ok && final(args)@.ind == res.1 && final(buf)@ == old(buf)@ + res.0,
            None => r is Err,
        },
    decreases *vv, 3nat, 0nat, 0nat,
{
    match lk {
        TildeLoopKind::At => {
            let ps = args.position();
            loop_pass(vv, 0, args, ps, buf)
        },
        TildeLoopKind::Nil => {
            match args.pop() {
                Some(a) => match a {
                    Arg::List(v) => {
                        if v.len() == 0 {
                            proof {
                                lemma_arg_views(v, 0);
                                assert(old(buf)@ + Seq::<char>::empty() =~= old(buf)@);
                            }
                            Ok(())
                        } else {
                            proof {
                                lemma_arg_views(v, 0);
                            }
                            let mut sub = Args::new(v);
                            loop_pass(vv, 0, &mut sub, 0, buf)
                        }
                    },
                    _ => Err(reveal_err("cannot reveal to Loop")),
                },
                None => Err(format_err("run out args")),
            }
        },
        TildeLoopKind::NilColon => {
            match args.pop() {
                Some(a) => match a {
                    Arg::List(v) => {
                        let mut sub = Args::new(v);
                        loop_pass(vv, 0, &mut sub, 0, buf)
                    },
                    _ => Err(reveal_err("cannot reveal to Loop")),
                },
                None => Err(format_err("run out args")),
            }
        },
    }
}

/// Evaluates a conditional directive against the cursor. The outcome is
/// exactly `eval_cond_s`.
fn eval_cond(vv: &Vec<Tilde>, ck: &TildeCondKind, args: &mut Args, buf: &mut String) -> (r: Result<
    (),
    TildeError,
>)
    ensures
        final(args)@.items == old(args)@.items,
        r matches Err(e) ==> e.kind == ErrorKind::RevealError || e.kind == ErrorKind::FormatError,
        match eval_cond_s(*vv, *ck, old(args)@.items, old(args)@.ind) {
            Some(res) => r is Ok && final(args)@.ind == res.1 && final(buf)@ == old(buf)@ + res.0,
            None => r is Err,
        },
    decreases *vv, 2nat, 0nat, 0nat,
{
    match ck {
        TildeCondKind::Sharp => {
            if vv.len() == 0 {
                Err(reveal_err("a conditional needs at least one branch"))
            } else {
                let l = args.left_count();
                let b = if l >= vv.len() {
                    vv.len() - 1
                } else {
                    l
                };
                eval_kind(&vv[b].value, args, false, buf)
            }
        },
        TildeCondKind::Nil(fallback) => {
            match args.pop() {
                Some(a) => match a {
                    Arg::Int(i) => {
                        if i < 0 {
                            Err(reveal_err("a branch index cannot be negative"))
                        } else if (i as u64) < (vv.len() as u64) {
                            eval_kind(&vv[i as usize].value, args, true, buf)
                        } else if *fallback {
                            if vv.len() >= 1 {
                                eval_kind(&vv[vv.len() - 1].value, args, true, buf)
                            } else {
                                proof {
                                    assert(old(buf)@ + Seq::<char>::empty() =~= old(buf)@);
                                }
                                Ok(())
                            }
                        } else {
                            proof {
                                assert(old(buf)@ + Seq::<char>::empty() =~= old(buf)@);
                            }
                            Ok(())
                        }
                    },
                    _ => Err(reveal_err("cannot reveal to Cond")),
                },
                None => Err(format_err("run out args")),
            }
        },
        TildeCondKind::Colon => {
            match args.pop() {
                Some(a) => match a {
                    Arg::Bool(b) => {
                        let sel: usize = if b {
                            1
                        } else {
                            0
                        };
                        if sel < vv.len() {
                            eval_kind(&vv[sel].value, args, true, buf)
                        } else {
                            Err(format_err("cannot get tilde"))
                        }
                    },
                    _ => Err(reveal_err("cannot reveal to Cond")),
                },
                None => Err(format_err("run out args")),
            }
        },
        TildeCondKind::At => {
            match args.pop() {
                Some(a) => match a {
                    Arg::Opt(o) => match o {
                        Some(bx) => {
                            let mut one: Vec<Arg> = Vec::new();
                            one.push(*bx);
                            proof {
                                lemma_arg_views(one, 0);
                                assert(arg_views(one, 0) =~= seq![arg_view(one@[0])]);
                            }
                            let mut sub = Args::new(one);
                            match eval_seq(vv, 0, &mut sub, false, buf) {
                                Ok(()) => Ok(()),
                                Err(e) => Err(e),
                            }
                        },
                        None => {
                            proof {
                                assert(old(buf)@ + Seq::<char>::empty() =~= old(buf)@);
                            }
                            Ok(())
                        },
                    },
                    _ => Err(reveal_err("cannot reveal to Cond")),
                },
                None => Err(format_err("run out args")),
            }
        },
    }
}

impl TildeKind {
    /// Evaluates this directive against the cursor, appending its text to
    /// the buffer. The outcome is exactly `eval_kind_s` with the live
    /// cursor (no placeholder context); on an error the buffer is left
    /// untouched.
    pub fn match_reveal(&self, args: &mut Args, buf: &mut String) -> (r: Result<(), TildeError>)
        ensures
            final(args)@.items == old(args)@.items,
            match eval_kind_s(*self, old(args)@.items, old(args)@.ind, false) {
                Some(res) => r is Ok && final(args)@.ind == res.1 && final(buf)@ == old(buf)@
                    + res.0,
                None => r is Err,
            },
            r is Err ==> final(buf)@ == old(buf)@,
            r matches Err(e) ==> e.kind == ErrorKind::RevealError || e.kind
                == ErrorKind::FormatError,
    {
        let mut tmp = String::new();
        match eval_kind(self, args, false, &mut tmp) {
            Ok(()) => {
                buf.append(tmp.as_str());
                proof {
                    let res = eval_kind_s(
                        *self,
                        old(args)@.items,
                        old(args)@.ind,
                        false,
                    ).unwrap();
                    assert(buf@ =~= old(buf)@ + res.0);
                }
                Ok(())
            },
            Err(e) => Err(e),
        }
    }
}

impl Tilde {
    /// Evaluates this parsed directive against the cursor, appending its
    /// text to the buffer; on an error the buffer is left untouched.
    pub fn render(&self, args: &mut Args, buf: &mut String) -> (r: Result<(), TildeError>)
        ensures
            final(args)@.items == old(args)@.items,
            match eval_kind_s(self.value, old(args)@.items, old(args)@.ind, false) {
                Some(res) => r is Ok && final(args)@.ind == res.1 && final(buf)@ == old(buf)@
                    + res.0,
                None => r is Err,
            },
            r is Err ==> final(buf)@ == old(buf)@,
            r matches Err(e) ==> e.kind == ErrorKind::RevealError || e.kind
                == ErrorKind::FormatError,
    {
        self.value.match_reveal(args, buf)
    }
}

} // verus!
