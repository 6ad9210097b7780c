use vstd::prelude::*;
use vstd::string::StrSliceExecFns;
use vstd::string::StringExecFns;
use crate::args::Args;
use crate::args::ArgV;
use crate::eval_spec::eval_kind_s;
use crate::eval_spec::lemma_eval_kind_view;
use crate::eval_spec::sub0;
use crate::tilde_kinds::Tilde;
use crate::tilde_kinds::TildeError;
use crate::parse_spec::scan_spans_s;
use crate::tilde_kinds::ErrorKind;
use crate::tilde_kinds::TildeV;
use crate::tilde_kinds::tilde_view;
use crate::tildes::find_char;
use crate::tildes::tilde_wf;
use crate::tildes::to_chars;

verus! {

broadcast use crate::args::lemma_args_ind_nonneg;

/// Well-formed span list: every span lies inside the text, is exactly as
/// wide as the directive parsed from it records, and the spans stand in
/// order without overlapping.
pub open spec fn spans_wf(spans: Seq<((usize, usize), Tilde)>, len: int) -> bool {
    &&& forall|i: int|
        0 <= i < spans.len() ==> (#[trigger] spans[i]).0.0 <= spans[i].0.1 <= len
    &&& forall|i: int|
        0 <= i < spans.len() ==> (#[trigger] spans[i]).1.len == spans[i].0.1 - spans[i].0.0
    &&& forall|i: int|
        0 <= i < spans.len() - 1 ==> (#[trigger] spans[i]).0.1 <= spans[i + 1].0.0
}

/// The output of evaluating the spans from index `k` on: the literal text
/// from `start` to each directive's span, the directive's own text, and
/// the trailing literal after the last span. `None` on the first
/// evaluation error.
pub open spec fn render_from_s(
    text: Seq<char>,
    spans: Seq<((usize, usize), Tilde)>,
    k: int,
    start: int,
    items: Seq<ArgV>,
    ind: int,
) -> Option<Seq<char>>
    decreases sub0(spans.len() as int, k),
{
    if 0 <= k < spans.len() {
        let sp = spans[k];
        match eval_kind_s(sp.1.value, items, ind, false) {
            Some(res) => match render_from_s(
                text,
                spans,
                k + 1,
                sp.0.1 as int,
                items,
                res.1,
            ) {
                Some(rest) => Some(text.subrange(start, sp.0.0 as int) + res.0 + rest),
                None => None,
            },
            None => None,
        }
    } else {
        Some(text.subrange(start, text.len() as int))
    }
}

/// What a reveal call returns: the control text with every directive span
/// replaced by that directive's output, evaluated left to right against
/// the argument list from position `ind` on. `None` when some directive
/// fails to evaluate.
pub open spec fn render_s(
    text: Seq<char>,
    spans: Seq<((usize, usize), Tilde)>,
    items: Seq<ArgV>,
    ind: int,
) -> Option<Seq<char>> {
    render_from_s(text, spans, 0, 0, items, ind)
}

/// The mathematical value of a span list: positions as integers and
/// directives as their tree values.
pub open spec fn span_views(spans: Seq<((usize, usize), Tilde)>) -> Seq<((int, int), TildeV)> {
    Seq::new(
        spans.len(),
        |i: int| ((spans[i].0.0 as int, spans[i].0.1 as int), tilde_view(spans[i].1)),
    )
}

/// A parsed control string: the template text and the ordered list of
/// `(span, directive)` pairs found in it. Built once, immutable, and
/// reusable across any number of reveal calls.
#[derive(Debug)]
pub struct ControlStr {
    inner: String,
    tildes: Vec<((usize, usize), Tilde)>,
}

impl ControlStr {
    #[verifier::type_invariant]
    pub closed spec fn wf(&self) -> bool {
        spans_wf(self.tildes@, self.inner@.len() as int)
    }

    /// The template text.
    pub closed spec fn text(&self) -> Seq<char> {
        self.inner@
    }

    /// The parsed `(span, directive)` pairs, in order.
    pub closed spec fn spans(&self) -> Seq<((usize, usize), Tilde)> {
        self.tildes@
    }

    /// The template text, for a caller that wants to look at it.
    pub fn as_str(&self) -> (r: &str)
        ensures
            r@ == self.text(),
    {
        self.inner.as_str()
    }

    /// The parsed directives with their spans.
    pub fn tildes(&self) -> (r: &Vec<((usize, usize), Tilde)>)
        ensures
            r@ == self.spans(),
            spans_wf(self.spans(), self.text().len() as int),
    {
        proof {
            use_type_invariant(self);
        }
        &self.tildes
    }

    /// Parses a control string: each `~` starts a directive, the text
    /// between directives is kept as literal runs. Succeeds exactly when
    /// the spec-level scan of the text does, and then holds exactly the
    /// spans and directive trees that scan yields; the spans tile the
    /// text in order and each directive records exactly the width of its
    /// span.
    pub fn from(s: &str) -> (r: Result<Self, TildeError>)
        ensures
            match scan_spans_s(s@, 0) {
                Some(sps) => {
                    &&& r matches Ok(cs)
                    &&& r matches Ok(cs) ==> cs.text() == s@ && span_views(cs.spans()) == sps
                        && spans_wf(cs.spans(), s@.len() as int) && forall|i: int|
                        0 <= i < cs.spans().len() ==> tilde_wf((#[trigger] cs.spans()[i]).1)
                },
                None => r matches Err(e) && e.kind == ErrorKind::ParseError,
            },
    {
        let chars = to_chars(s);
        let cl = chars.len();
        let mut tl: Vec<((usize, usize), Tilde)> = Vec::new();
        let mut p: usize = 0;
        let mut done = false;
        proof {
            assert(span_views(tl@) =~= Seq::<((int, int), TildeV)>::empty());
            let sc = scan_spans_s(s@, 0);
            if sc is Some {
                assert(span_views(tl@) + sc.unwrap() =~= sc.unwrap());
            }
        }
        while !done
            invariant
                p <= cl,
                cl == chars@.len(),
                chars@ == s@,
                spans_wf(tl@, cl as int),
                forall|i: int| 0 <= i < tl@.len() ==> tilde_wf((#[trigger] tl@[i]).1),
                tl@.len() > 0 ==> tl@[tl@.len() - 1].0.1 <= p,
                match scan_spans_s(s@, p as int) {
                    Some(rest) => scan_spans_s(s@, 0) == Some(span_views(tl@) + rest),
                    None => scan_spans_s(s@, 0) is None,
                },
                done ==> scan_spans_s(s@, 0) == Some(span_views(tl@)),
            decreases cl - p + (if done { 0int } else { 1int }),
        {
            match find_char(&chars, p, '~') {
                None => {
                    proof {
                        assert(scan_spans_s(s@, p as int) == Some(
                            Seq::<((int, int), TildeV)>::empty(),
                        ));
                        assert(span_views(tl@) + Seq::<((int, int), TildeV)>::empty()
                            =~= span_views(tl@));
                    }
                    done = true;
                },
                Some(j) => {
                    match Tilde::parse(&chars, j) {
                        Ok((t, p2)) => {
                            let ghost old_tl = tl@;
                            let ghost new_view = ((j as int, p2 as int), tilde_view(t));
                            tl.push(((j, p2), t));
                            proof {
                                assert forall|i: int|
                                    0 <= i < tl@.len() implies (#[trigger] tl@[i]).0.0
                                    <= tl@[i].0.1 <= cl as int && tl@[i].1.len == tl@[i].0.1
                                    - tl@[i].0.0 by {
                                    if i < old_tl.len() {
                                        assert(tl@[i] == old_tl[i]);
                                    }
                                }
                                assert forall|i: int| 0 <= i < tl@.len() implies tilde_wf(
                                    (#[trigger] tl@[i]).1,
                                ) by {
                                    if i < old_tl.len() {
                                        assert(tl@[i] == old_tl[i]);
                                    }
                                }
                                assert forall|i: int|
                                    0 <= i < tl@.len() - 1 implies (#[trigger] tl@[i]).0.1
                                    <= tl@[i + 1].0.0 by {
                                    if i < old_tl.len() - 1 {
                                        assert(tl@[i] == old_tl[i]);
                                        assert(tl@[i + 1] == old_tl[i + 1]);
                                    } else {
                                        assert(tl@[i] == old_tl[i]);
                                    }
                                }
                                assert(span_views(tl@) =~= span_views(old_tl).push(new_view));
                                let sc2 = scan_spans_s(s@, p2 as int);
                                if sc2 is Some {
                                    let rest = sc2.unwrap();
                                    assert(scan_spans_s(s@, p as int) == Some(
                                        seq![new_view] + rest,
                                    ));
                                    assert(span_views(tl@) + rest =~= span_views(old_tl) + (
                                    seq![new_view] + rest));
                                } else {
                                    assert(scan_spans_s(s@, p as int) is None);
                                }
                            }
                            p = p2;
                        },
                        Err(e) => {
                            proof {
                                assert(scan_spans_s(s@, p as int) is None);
                            }
                            return Err(e);
                        },
                    }
                },
            }
        }
        let cs = ControlStr { inner: String::from_str(s), tildes: tl };
        Ok(cs)
    }

    /// Evaluates the control string against an argument cursor, returning
    /// the assembled output, or the first evaluation error with all
    /// partial output discarded. The result is exactly `render_s` of the
    /// text, the parsed spans, and the arguments: a pure function of its
    /// inputs.
    pub fn render(&self, args: Args) -> (r: Result<String, TildeError>)
        ensures
            match render_s(self.text(), self.spans(), args@.items, args@.ind) {
                Some(o) => r matches Ok(out) && out@ == o,
                None => r is Err,
            },
            r matches Err(e) ==> e.kind == ErrorKind::RevealError || e.kind
                == ErrorKind::FormatError,
    {
        proof {
            use_type_invariant(self);
        }
        let ghost items0 = args@.items;
        let ghost ind0 = args@.ind;
        let mut cursor = args;
        let mut out = String::new();
        match render_loop(&self.inner, &self.tildes, 0, 0, &mut cursor, &mut out) {
            Ok(()) => {
                proof {
                    assert(out@ =~= render_s(self.text(), self.spans(), items0, ind0).unwrap());
                }
                Ok(out)
            },
            Err(e) => Err(e),
        }
    }
}

/// Walks the spans from index `k` on: appends the literal text from
/// `start` up to each span, then the directive's output, and after the
/// last span the trailing literal text.
fn render_loop(
    inner: &String,
    tildes: &Vec<((usize, usize), Tilde)>,
    k: usize,
    start: usize,
    cursor: &mut Args,
    out: &mut String,
) -> (r: Result<(), TildeError>)
    requires
        spans_wf(tildes@, inner@.len() as int),
        k <= tildes@.len(),
        start <= inner@.len(),
        k < tildes@.len() ==> start <= tildes@[k as int].0.0,
    ensures
        final(cursor)@.items == old(cursor)@.items,
        match render_from_s(
            inner@,
            tildes@,
            k as int,
            start as int,
            old(cursor)@.items,
            old(cursor)@.ind,
        ) {
            Some(o) => r is Ok && final(out)@ == old(out)@ + o,
            None => r is Err,
        },
        r matches Err(e) ==> e.kind == ErrorKind::RevealError || e.kind
            == ErrorKind::FormatError,
    decreases tildes@.len() - k,
{
    if k < tildes.len() {
        let a = tildes[k].0.0;
        let b = tildes[k].0.1;
        out.append(inner.as_str().substring_char(start, a));
        let ghost out_mid = out@;
        let ghost ind_before = cursor@.ind;
        let tr = &tildes[k].1;
        match tr.render(cursor, out) {
            Ok(()) => {
                let ghost out_mid2 = out@;
                match render_loop(inner, tildes, k + 1, b, cursor, out) {
                    Ok(()) => {
                        proof {
                            let res = eval_kind_s(
                                tildes@[k as int].1.value,
                                old(cursor)@.items,
                                ind_before,
                                false,
                            ).unwrap();
                            let rest = render_from_s(
                                inner@,
                                tildes@,
                                k as int + 1,
                                b as int,
                                old(cursor)@.items,
                                res.1,
                            ).unwrap();
                            assert(out@ =~= old(out)@ + (inner@.subrange(
                                start as int,
                                a as int,
                            ) + res.0 + rest));
                        }
                        Ok(())
                    },
                    Err(e) => Err(e),
                }
            },
            Err(e) => Err(e),
        }
    } else {
        let text_len = inner.as_str().unicode_len();
        out.append(inner.as_str().substring_char(start, text_len));
        Ok(())
    }
}

/// Determinism: what a reveal call returns is a pure function of the
/// parsed control string and the argument sequence. Two calls on equal
/// inputs return equal outputs.
pub proof fn lemma_render_deterministic(
    text1: Seq<char>,
    spans1: Seq<((usize, usize), Tilde)>,
    items1: Seq<ArgV>,
    ind1: int,
    text2: Seq<char>,
    spans2: Seq<((usize, usize), Tilde)>,
    items2: Seq<ArgV>,
    ind2: int,
)
    requires
        text1 == text2,
        spans1 == spans2,
        items1 == items2,
        ind1 == ind2,
    ensures
        render_s(text1, spans1, items1, ind1) == render_s(text2, spans2, items2, ind2),
{
}

/// Rendering reads the spans only through their mathematical value: two
/// span lists with equal views render alike from any index, start, and
/// cursor.
pub proof fn lemma_render_from_views(
    text: Seq<char>,
    spans1: Seq<((usize, usize), Tilde)>,
    spans2: Seq<((usize, usize), Tilde)>,
    k: int,
    start: int,
    items: Seq<ArgV>,
    ind: int,
)
    requires
        span_views(spans1) == span_views(spans2),
    ensures
        render_from_s(text, spans1, k, start, items, ind) == render_from_s(
            text,
            spans2,
            k,
            start,
            items,
            ind,
        ),
    decreases sub0(spans1.len() as int, k),
{
    assert(spans1.len() == spans2.len()) by {
        assert(span_views(spans1).len() == spans1.len());
        assert(span_views(spans2).len() == spans2.len());
    }
    if 0 <= k < spans1.len() {
        assert(span_views(spans1)[k] == span_views(spans2)[k]);
        let sp1 = spans1[k];
        let sp2 = spans2[k];
        assert(tilde_view(sp1.1) == tilde_view(sp2.1));
        assert(sp1.0.0 == sp2.0.0 && sp1.0.1 == sp2.0.1);
        lemma_eval_kind_view(sp1.1.value, sp2.1.value, items, ind, false);
        match eval_kind_s(sp1.1.value, items, ind, false) {
            Some(res) => {
                lemma_render_from_views(text, spans1, spans2, k + 1, sp1.0.1 as int, items, res.1);
            },
            None => {},
        }
    }
}

/// Reusability: a parsed control string carries no evaluation state, and
/// rendering depends only on the text and the spans' mathematical value.
/// Any value with the same text and view-equal spans — in particular a
/// freshly parsed copy of the same template, since `from` fixes the
/// spans' value as a function of the text — yields the same output on
/// every argument list, in whatever order the lists are evaluated.
pub proof fn lemma_render_reusable(
    text1: Seq<char>,
    spans1: Seq<((usize, usize), Tilde)>,
    text2: Seq<char>,
    spans2: Seq<((usize, usize), Tilde)>,
)
    requires
        text1 == text2,
        span_views(spans1) == span_views(spans2),
    ensures
        forall|items: Seq<ArgV>, ind: int|
            #[trigger] render_s(text1, spans1, items, ind) == render_s(
                text2,
                spans2,
                items,
                ind,
            ),
{
    assert forall|items: Seq<ArgV>, ind: int|
        #[trigger] render_s(text1, spans1, items, ind) == render_s(
            text2,
            spans2,
            items,
            ind,
        ) by {
        lemma_render_from_views(text1, spans1, spans2, 0, 0, items, ind);
    }
}

} // verus!
