use vstd::prelude::*;

verus! {

/// The mathematical value of one argument.
pub ghost enum ArgV {
    Int(int),
    Bool(bool),
    Ch(char),
    Text(Seq<char>),
    Opt(Option<Box<ArgV>>),
    List(Seq<ArgV>),
    Custom { va: Option<Seq<char>>, digit: Option<Seq<char>>, standard: Option<Seq<char>> },
}

/// One argument handed to a reveal call. Each variant supports a fixed set
/// of formatting capabilities; a directive that demands a capability the
/// argument does not offer is an evaluation error. `Custom` is the
/// extension point for caller-defined values: it carries the text the value
/// renders as under each capability it chooses to support.
pub enum Arg {
    Int(i64),
    Bool(bool),
    Ch(char),
    Text(String),
    Opt(Option<Box<Arg>>),
    List(Vec<Arg>),
    Custom { va: Option<String>, digit: Option<String>, standard: Option<String> },
}

pub open spec fn opt_string_view(o: Option<String>) -> Option<Seq<char>> {
    match o {
        Some(s) => Some(s@),
        None => None,
    }
}

pub open spec fn arg_view(a: Arg) -> ArgV
    decreases a,
{
    match a {
        Arg::Int(i) => ArgV::Int(i as int),
        Arg::Bool(b) => ArgV::Bool(b),
        Arg::Ch(c) => ArgV::Ch(c),
        Arg::Text(s) => ArgV::Text(s@),
        Arg::Opt(o) => ArgV::Opt(
            match o {
                Some(b) => Some(Box::new(arg_view(*b))),
                None => None,
            },
        ),
        Arg::List(v) => ArgV::List(arg_views(v, 0)),
        Arg::Custom { va, digit, standard } => ArgV::Custom {
            va: opt_string_view(va),
            digit: opt_string_view(digit),
            standard: opt_string_view(standard),
        },
    }
}

pub open spec fn arg_views(v: Vec<Arg>, i: int) -> Seq<ArgV>
    decreases v, v@.len() - i,
{
    if 0 <= i < v@.len() {
        seq![arg_view(v@[i])] + arg_views(v, i + 1)
    } else {
        Seq::empty()
    }
}

pub proof fn lemma_arg_views(v: Vec<Arg>, i: int)
    requires
        0 <= i <= v@.len(),
    ensures
        arg_views(v, i).len() == v@.len() - i,
        forall|k: int| 0 <= k < v@.len() - i ==> arg_views(v, i)[k] == arg_view(v@[i + k]),
    decreases v@.len() - i,
{
    if i < v@.len() {
        lemma_arg_views(v, i + 1);
        assert forall|k: int| 0 <= k < v@.len() - i implies arg_views(v, i)[k] == arg_view(
            v@[i + k],
        ) by {
            if k > 0 {
                assert(arg_views(v, i)[k] == arg_views(v, i + 1)[k - 1]);
            }
        }
    }
}

impl View for Arg {
    type V = ArgV;

    open spec fn view(&self) -> ArgV {
        arg_view(*self)
    }
}

fn clone_opt_string(o: &Option<String>) -> (r: Option<String>)
    ensures
        opt_string_view(r) == opt_string_view(*o),
{
    match o {
        Some(s) => Some(s.clone()),
        None => None,
    }
}

fn clone_arg(a: &Arg) -> (r: Arg)
    ensures
        arg_view(r) == arg_view(*a),
    decreases a,
{
    match a {
        Arg::Int(i) => Arg::Int(*i),
        Arg::Bool(b) => Arg::Bool(*b),
        Arg::Ch(c) => Arg::Ch(*c),
        Arg::Text(s) => Arg::Text(s.clone()),
        Arg::Opt(o) => match o {
            Some(b) => Arg::Opt(Some(Box::new(clone_arg(&**b)))),
            None => Arg::Opt(None),
        },
        Arg::List(v) => {
            let w = clone_arg_vec(v);
            proof {
                lemma_arg_views(*v, 0);
                lemma_arg_views(w, 0);
                assert(arg_views(w, 0) =~= arg_views(*v, 0));
            }
            Arg::List(w)
        },
        Arg::Custom { va, digit, standard } => Arg::Custom {
            va: clone_opt_string(va),
            digit: clone_opt_string(digit),
            standard: clone_opt_string(standard),
        },
    }
}

fn clone_arg_vec(v: &Vec<Arg>) -> (r: Vec<Arg>)
    ensures
        r@.len() == v@.len(),
        forall|k: int| 0 <= k < v@.len() ==> arg_view(r@[k]) == arg_view(v@[k]),
    decreases v,
{
    let mut out: Vec<Arg> = Vec::new();
    let n = v.len();
    let mut j: usize = 0;
    while j < n
        invariant
            n == v@.len(),
            j <= n,
            out@.len() == j,
            forall|k: int| 0 <= k < j ==> arg_view(out@[k]) == arg_view(v@[k]),
        decreases n - j,
    {
        out.push(clone_arg(&v[j]));
        j = j + 1;
    }
    out
}

impl Clone for Arg {
    fn clone(&self) -> (r: Self)
        ensures
            arg_view(r) == arg_view(*self),
    {
        clone_arg(self)
    }
}

/// The mathematical value of an argument cursor: the argument values and
/// the read position.
pub ghost struct ArgsV {
    pub items: Seq<ArgV>,
    pub ind: int,
}

/// The argument cursor: an ordered list of arguments and a read position.
/// The position is the one piece of state that evaluation mutates.
pub struct Args {
    inner: Vec<Arg>,
    ind: usize,
}

impl View for Args {
    type V = ArgsV;

    closed spec fn view(&self) -> ArgsV {
        ArgsV { items: arg_views(self.inner, 0), ind: self.ind as int }
    }
}

/// The read position of a cursor is never negative.
pub broadcast proof fn lemma_args_ind_nonneg(a: Args)
    ensures
        (#[trigger] a@).ind >= 0,
{
}

impl Args {
    #[verifier::type_invariant]
    pub closed spec fn wf(&self) -> bool {
        self.ind <= self.inner@.len()
    }

    pub fn new(i: Vec<Arg>) -> (r: Self)
        ensures
            r@.items == arg_views(i, 0),
            r@.ind == 0,
    {
        Self { inner: i, ind: 0 }
    }

    /// Builds a cursor over a copy of a borrowed argument list.
    pub fn new_cow(i: &Vec<Arg>) -> (r: Self)
        ensures
            r@.items == arg_views(*i, 0),
            r@.ind == 0,
    {
        let w = clone_arg_vec(i);
        proof {
            lemma_arg_views(*i, 0);
            lemma_arg_views(w, 0);
            assert(arg_views(w, 0) =~= arg_views(*i, 0));
        }
        Self { inner: w, ind: 0 }
    }

    /// Returns the argument at the current position and advances past it;
    /// `None` when the cursor is exhausted.
    pub fn pop(&mut self) -> (r: Option<Arg>)
        ensures
            old(self)@.ind <= old(self)@.items.len(),
            final(self)@.items == old(self)@.items,
            if old(self)@.ind < old(self)@.items.len() {
                &&& r matches Some(a) && a@ == old(self)@.items[old(self)@.ind]
                &&& final(self)@.ind == old(self)@.ind + 1
            } else {
                &&& r is None
                &&& final(self)@.ind == old(self)@.ind
            },
    {
        proof {
            use_type_invariant(&*self);
            lemma_arg_views(self.inner, 0);
        }
        if self.ind < self.inner.len() {
            let a = clone_arg(&self.inner[self.ind]);
            self.ind = self.ind + 1;
            Some(a)
        } else {
            None
        }
    }

    /// Steps the position back by one and returns the argument now under
    /// the cursor; `None` when the position is already at the start.
    pub fn back(&mut self) -> (r: Option<Arg>)
        ensures
            old(self)@.ind <= old(self)@.items.len(),
            final(self)@.items == old(self)@.items,
            if old(self)@.ind > 0 {
                &&& r matches Some(a) && a@ == old(self)@.items[old(self)@.ind - 1]
                &&& final(self)@.ind == old(self)@.ind - 1
            } else {
                &&& r is None
                &&& final(self)@.ind == old(self)@.ind
            },
    {
        proof {
            use_type_invariant(&*self);
            lemma_arg_views(self.inner, 0);
        }
        if self.ind > 0 {
            self.ind = self.ind - 1;
            Some(clone_arg(&self.inner[self.ind]))
        } else {
            None
        }
    }

    /// The number of arguments not yet consumed.
    pub fn left_count(&self) -> (r: usize)
        ensures
            r == self@.items.len() - self@.ind,
    {
        proof {
            use_type_invariant(self);
            lemma_arg_views(self.inner, 0);
        }
        self.inner.len() - self.ind
    }

    /// The current read position.
    pub fn position(&self) -> (r: usize)
        ensures
            r as int == self@.ind,
            r as int <= self@.items.len(),
    {
        proof {
            use_type_invariant(self);
            lemma_arg_views(self.inner, 0);
        }
        self.ind
    }

    /// Moves the position back to the start, so the same argument list can
    /// feed a fresh evaluation.
    pub fn reset(&mut self)
        ensures
            final(self)@.items == old(self)@.items,
            final(self)@.ind == 0,
    {
        self.ind = 0;
    }
}

} // verus!
