use vstd::prelude::*;

verus! {

/// Error raised while parsing a control string or revealing it against
/// arguments.
#[derive(Debug, Clone)]
pub struct TildeError {
    pub kind: ErrorKind,
    pub msg: String,
}

impl TildeError {
    pub fn new(kind: ErrorKind, msg: &str) -> (r: Self)
        ensures
            r.kind == kind,
            r.msg@ == msg@,
    {
        TildeError { kind, msg: String::from_str(msg) }
    }
}

/// The family an error belongs to.
#[derive(Debug, Clone, Copy, PartialEq, Eq, Structural)]
pub enum ErrorKind {
    ParseError,
    RevealError,
    EmptyImplenmentError,
    FormatError,
}

/// The mode of a conditional directive: plain index selection (the flag
/// records whether a `~:;` separator marked the last branch as a fallback),
/// selection by the number of remaining arguments (`~#[`), optional
/// rendering (`~@[`), or boolean selection (`~:[`).
#[derive(Debug, Clone, Copy, PartialEq, Eq, Structural)]
pub enum TildeCondKind {
    Nil(bool),
    Sharp,
    At,
    Colon,
}

impl TildeCondKind {
    pub fn to_true(&mut self)
        ensures
            *final(self) == (match *old(self) {
                TildeCondKind::Nil(_) => TildeCondKind::Nil(true),
                k => k,
            }),
    {
        match self {
            TildeCondKind::Nil(_) => {
                *self = TildeCondKind::Nil(true);
            },
            _ => {},
        }
    }
}

/// The mode of a loop directive: `~{~}` consumes one list argument,
/// `~{~:}` does the same but always runs the body at least once, and
/// `~@{~}` iterates directly over the remaining arguments.
#[derive(Debug, Clone, Copy, PartialEq, Eq, Structural)]
pub enum TildeLoopKind {
    Nil,
    NilColon,
    At,
}

/// The mode of a cursor-position directive: `~:*` steps back, `~*` skips.
#[derive(Debug, Clone, Copy, PartialEq, Eq, Structural)]
pub enum StarKind {
    Hop,
    Skip,
}

/// The mode of a character directive: `~@c` quotes, `~c` does not.
#[derive(Debug, Clone, Copy, PartialEq, Eq, Structural)]
pub enum CharKind {
    Nil,
    At,
}

/// The trailing flag of a radix directive: `~@R`, `~:R`, or `~:@R`.
#[derive(Debug, Clone, Copy, PartialEq, Eq, Structural)]
pub enum RadixFlag {
    At,
    Colon,
    AtColon,
}

/// The parameters of a radix directive, in the order they are written:
/// radix, mincol, padchar, commachar, comma interval, trailing flag.
#[derive(Debug, Clone, Copy, PartialEq, Eq)]
pub struct RadixParams {
    pub radix: Option<u32>,
    pub mincol: Option<usize>,
    pub padchar: Option<char>,
    pub commachar: Option<char>,
    pub comma_interval: Option<usize>,
    pub flag: Option<RadixFlag>,
}

/// One parsed directive occurrence. Composite directives own their nested
/// directive sequences.
#[derive(Debug, PartialEq)]
pub enum TildeKind {
    /// `~c`, `~C`, and `~@c`
    Char(CharKind),
    /// `~$`, `~5$`, `~,5f`: parsed, but no argument offers the capability
    Float(Option<String>),
    /// `~R` with optional parameters and flags
    Radix(RadixParams),
    /// `~d` and `~D`
    Digit(Option<String>),
    /// `~a` and `~A`
    Va,
    /// `~*` and `~:*`
    Star(StarKind),
    /// `~s` and `~S`
    Standard,
    /// `~{ ... ~}` and its variants
    Loop(Vec<Tilde>, TildeLoopKind),
    /// `~^` inside a loop body
    LoopEnd,
    /// `~n~`: n literal tilde characters
    Tildes(usize),
    /// `~[ ... ~]` and its variants
    Cond(Vec<Tilde>, TildeCondKind),
    /// a literal run of text
    Text(String),
    /// one branch of a conditional: a plain sequence of directives
    VecTilde(Vec<Tilde>),
}

/// A parsed directive together with the number of characters of control
/// text it was parsed from.
#[derive(Debug, PartialEq)]
pub struct Tilde {
    pub len: usize,
    pub value: TildeKind,
}

/// The mathematical value of a parsed directive: the same tree with text
/// as character sequences and bodies as sequences. Two parses of the same
/// control text yield the same `TildeV`, whatever `String` allocations
/// back them.
pub ghost struct TildeV {
    pub len: int,
    pub value: KindV,
}

/// The mathematical value of a directive kind.
pub ghost enum KindV {
    Char(CharKind),
    Float(Option<Seq<char>>),
    Radix(RadixParams),
    Digit(Option<Seq<char>>),
    Va,
    Star(StarKind),
    Standard,
    Loop(Seq<TildeV>, TildeLoopKind),
    LoopEnd,
    Tildes(usize),
    Cond(Seq<TildeV>, TildeCondKind),
    Text(Seq<char>),
    VecTilde(Seq<TildeV>),
}

pub open spec fn opt_text_view(o: Option<String>) -> Option<Seq<char>> {
    match o {
        Some(s) => Some(s@),
        None => None,
    }
}

pub open spec fn kind_view(k: TildeKind) -> KindV
    decreases k, 0nat, 0nat,
{
    match k {
        TildeKind::Char(ck) => KindV::Char(ck),
        TildeKind::Float(o) => KindV::Float(opt_text_view(o)),
        TildeKind::Radix(p) => KindV::Radix(p),
        TildeKind::Digit(o) => KindV::Digit(opt_text_view(o)),
        TildeKind::Va => KindV::Va,
        TildeKind::Star(sk) => KindV::Star(sk),
        TildeKind::Standard => KindV::Standard,
        TildeKind::Loop(body, lk) => KindV::Loop(tilde_views(body, 0), lk),
        TildeKind::LoopEnd => KindV::LoopEnd,
        TildeKind::Tildes(n) => KindV::Tildes(n),
        TildeKind::Cond(branches, ck) => KindV::Cond(tilde_views(branches, 0), ck),
        TildeKind::Text(s) => KindV::Text(s@),
        TildeKind::VecTilde(children) => KindV::VecTilde(tilde_views(children, 0)),
    }
}

pub open spec fn tilde_view(t: Tilde) -> TildeV
    decreases t, 1nat, 0nat,
{
    TildeV { len: t.len as int, value: kind_view(t.value) }
}

pub open spec fn tilde_views(v: Vec<Tilde>, i: int) -> Seq<TildeV>
    decreases v, 2nat, v@.len() - i,
{
    if 0 <= i < v@.len() {
        seq![tilde_view(v@[i])] + tilde_views(v, i + 1)
    } else {
        Seq::empty()
    }
}

pub proof fn lemma_tilde_views(v: Vec<Tilde>, i: int)
    requires
        0 <= i <= v@.len(),
    ensures
        tilde_views(v, i).len() == v@.len() - i,
        forall|k: int| 0 <= k < v@.len() - i ==> tilde_views(v, i)[k] == tilde_view(v@[i + k]),
    decreases v@.len() - i,
{
    if i < v@.len() {
        lemma_tilde_views(v, i + 1);
        assert forall|k: int| 0 <= k < v@.len() - i implies tilde_views(v, i)[k] == tilde_view(
            v@[i + k],
        ) by {
            if k > 0 {
                assert(tilde_views(v, i)[k] == tilde_views(v, i + 1)[k - 1]);
            }
        }
    }
}

pub proof fn lemma_tilde_views_push(v: Vec<Tilde>, w: Vec<Tilde>, t: Tilde, i: int)
    requires
        0 <= i <= v@.len(),
        w@ == v@.push(t),
    ensures
        tilde_views(w, i) == tilde_views(v, i).push(tilde_view(t)),
    decreases v@.len() - i,
{
    if i < v@.len() {
        lemma_tilde_views_push(v, w, t, i + 1);
        assert(w@[i] == v@[i]);
        assert(tilde_views(w, i) =~= tilde_views(v, i).push(tilde_view(t)));
    } else {
        assert(w@[i] == t);
        assert(tilde_views(w, i + 1) =~= Seq::<TildeV>::empty());
        assert(tilde_views(w, i) =~= tilde_views(v, i).push(tilde_view(t)));
    }
}

impl Tilde {
    pub fn new(len: usize, value: TildeKind) -> (r: Self)
        ensures
            r.len == len,
            r.value == value,
    {
        Self { len, value }
    }

    /// The number of characters of control text this directive consumed.
    pub fn len(&self) -> (r: usize)
        ensures
            r == self.len,
    {
        self.len
    }
}

} // verus!
