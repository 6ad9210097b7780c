use vstd::prelude::*;
use vstd::string::StrSliceExecFns;
use crate::parse_spec::digit_of_s;
use crate::parse_spec::find_r_s;
use crate::parse_spec::find_to_s;
use crate::parse_spec::dec_fold_s;
use crate::parse_spec::opt_field_s;
use crate::parse_spec::parse_char_s;
use crate::parse_spec::parse_cond_s;
use crate::parse_spec::parse_loop_s;
use crate::parse_spec::parse_radix_s;
use crate::parse_spec::parse_s;
use crate::parse_spec::cond_body_s;
use crate::parse_spec::cond_close_kind;
use crate::parse_spec::loop_body_s;
use crate::parse_spec::loop_close_kind;
use crate::parse_spec::radix_flag_s;
use crate::parse_spec::parse_digit_s;
use crate::parse_spec::parse_float_s;
use crate::parse_spec::parse_loop_end_s;
use crate::parse_spec::parse_standard_s;
use crate::parse_spec::parse_star_s;
use crate::parse_spec::parse_tildes_s;
use crate::parse_spec::parse_value_s;
use crate::parse_spec::scan_key_s;
use crate::strbuf::push_char;
use crate::tilde_kinds::CharKind;
use crate::tilde_kinds::ErrorKind;
use crate::tilde_kinds::RadixFlag;
use crate::tilde_kinds::RadixParams;
use crate::tilde_kinds::StarKind;
use crate::tilde_kinds::Tilde;
use crate::tilde_kinds::TildeCondKind;
use crate::tilde_kinds::TildeError;
use crate::tilde_kinds::TildeKind;
use crate::tilde_kinds::TildeLoopKind;
use crate::tilde_kinds::KindV;
use crate::tilde_kinds::TildeV;
use crate::tilde_kinds::tilde_view;
use crate::tilde_kinds::tilde_views;
use crate::tilde_kinds::lemma_tilde_views_push;

verus! {

fn parse_err(msg: &str) -> (r: TildeError)
    ensures
        r.kind == ErrorKind::ParseError,
{
    TildeError::new(ErrorKind::ParseError, msg)
}

/// The characters of a piece of text, one by one.
pub fn to_chars(s: &str) -> (r: Vec<char>)
    ensures
        r@ == s@,
{
    let n = s.unicode_len();
    let mut r: Vec<char> = Vec::new();
    let mut i: usize = 0;
    while i < n
        invariant
            i <= n,
            n == s@.len(),
            r@ == s@.subrange(0, i as int),
        decreases n - i,
    {
        r.push(s.get_char(i));
        proof {
            assert(r@ =~= s@.subrange(0, i as int + 1));
        }
        i = i + 1;
    }
    proof {
        assert(r@ =~= s@);
    }
    r
}

/// The position of the first occurrence of `c` at or after `from`.
pub(crate) fn find_char(s: &Vec<char>, from: usize, c: char) -> (r: Option<usize>)
    requires
        from <= s@.len(),
    ensures
        match r {
            Some(j) => from <= j < s@.len() && j < usize::MAX && s@[j as int] == c && find_to_s(
                s@,
                from as int,
                s@.len() as int,
                c,
            ) == Some(j as int),
            None => find_to_s(s@, from as int, s@.len() as int, c) is None,
        },
{
    let n = s.len();
    let mut i = from;
    while i < n
        invariant
            from <= i <= n,
            n == s@.len(),
            find_to_s(s@, from as int, n as int, c) == find_to_s(s@, i as int, n as int, c),
        decreases n - i,
    {
        if s[i] == c {
            return Some(i);
        }
        i = i + 1;
    }
    None
}

/// The position of the first occurrence of `c` in `[from, to)`.
fn find_char_to(s: &Vec<char>, from: usize, to: usize, c: char) -> (r: Option<usize>)
    requires
        from <= to <= s@.len(),
    ensures
        match r {
            Some(j) => from <= j < to && s@[j as int] == c && find_to_s(
                s@,
                from as int,
                to as int,
                c,
            ) == Some(j as int),
            None => find_to_s(s@, from as int, to as int, c) is None,
        },
{
    let mut i = from;
    while i < to
        invariant
            from <= i <= to <= s@.len(),
            find_to_s(s@, from as int, to as int, c) == find_to_s(s@, i as int, to as int, c),
        decreases to - i,
    {
        if s[i] == c {
            return Some(i);
        }
        i = i + 1;
    }
    None
}

/// The position of the first `R` or `r` at or after `from`.
fn find_char_r(s: &Vec<char>, from: usize) -> (r: Option<usize>)
    requires
        from <= s@.len(),
    ensures
        match r {
            Some(j) => from <= j < s@.len() && j < usize::MAX && find_r_s(s@, from as int)
                == Some(j as int),
            None => find_r_s(s@, from as int) is None,
        },
{
    let n = s.len();
    let mut i = from;
    while i < n
        invariant
            from <= i <= n,
            n == s@.len(),
            find_r_s(s@, from as int) == find_r_s(s@, i as int),
        decreases n - i,
    {
        if s[i] == 'R' || s[i] == 'r' {
            return Some(i);
        }
        i = i + 1;
    }
    None
}

/// The characters of `s` between `lo` and `hi` as an owned string.
fn chars_to_string(s: &Vec<char>, lo: usize, hi: usize) -> (r: String)
    requires
        lo <= hi <= s@.len(),
    ensures
        r@ == s@.subrange(lo as int, hi as int),
{
    let mut r = String::new();
    let mut i = lo;
    while i < hi
        invariant
            lo <= i <= hi <= s@.len(),
            r@ == s@.subrange(lo as int, i as int),
        decreases hi - i,
    {
        push_char(&mut r, s[i]);
        proof {
            assert(r@ =~= s@.subrange(lo as int, i as int + 1));
        }
        i = i + 1;
    }
    r
}

/// The decimal value of a digit character, when it is one.
fn digit_val(c: char) -> (r: Option<u32>)
    ensures
        match r {
            Some(d) => digit_of_s(c) == Some(d as int),
            None => digit_of_s(c) is None,
        },
{
    let u = c as u32;
    if 48 <= u && u <= 57 {
        Some(u - 48)
    } else {
        None
    }
}

/// An optional decimal field: absent when empty, its value when it is all
/// digits and fits, nothing otherwise.
fn parse_opt_usize(s: &Vec<char>, lo: usize, hi: usize) -> (r: Option<Option<usize>>)
    requires
        lo <= hi <= s@.len(),
    ensures
        match r {
            Some(Some(u)) => opt_field_s(s@, lo as int, hi as int) == Some(Some(u as int)),
            Some(None) => opt_field_s(s@, lo as int, hi as int) == Some(Option::<int>::None),
            None => opt_field_s(s@, lo as int, hi as int) is None,
        },
{
    if lo == hi {
        return Some(None);
    }
    let mut acc: usize = 0;
    let mut i = lo;
    while i < hi
        invariant
            lo <= i <= hi <= s@.len(),
            lo < hi,
            dec_fold_s(s@, lo as int, hi as int, 0) == dec_fold_s(s@, i as int, hi as int, acc as int),
        decreases hi - i,
    {
        match digit_val(s[i]) {
            Some(d) => {
                if acc > usize::MAX / 10 {
                    return None;
                }
                acc = acc * 10;
                if acc > usize::MAX - (d as usize) {
                    return None;
                }
                acc = acc + (d as usize);
            },
            None => {
                return None;
            },
        }
        i = i + 1;
    }
    Some(Some(acc))
}

/// As `parse_opt_usize`, for the radix field: a value above the radix
/// range is rejected.
fn parse_opt_u32(s: &Vec<char>, lo: usize, hi: usize) -> (r: Option<Option<u32>>)
    requires
        lo <= hi <= s@.len(),
    ensures
        match opt_field_s(s@, lo as int, hi as int) {
            None => r is None,
            Some(None) => r == Some(Option::<u32>::None),
            Some(Some(v)) => if v <= u32::MAX as int {
                r matches Some(x) && x matches Some(u) && u as int == v
            } else {
                r is None
            },
        },
{
    match parse_opt_usize(s, lo, hi) {
        Some(None) => Some(None),
        Some(Some(v)) => {
            if v <= u32::MAX as usize {
                Some(Some(v as u32))
            } else {
                None
            }
        },
        None => None,
    }
}

/// Which key characters select which directive parser.
spec fn tag_sel(t: KindTag, c: char) -> bool {
    match t {
        KindTag::Value => c == 'a' || c == 'A',
        KindTag::LoopOpen => c == '{',
        KindTag::Float => c == '$' || c == 'f' || c == 'F',
        KindTag::Digit => c == 'd' || c == 'D',
        KindTag::CondOpen => c == '[',
        KindTag::LoopEnd => c == '^',
        KindTag::Star => c == '*',
        KindTag::Tildes => c == '~',
        KindTag::Standard => c == 's' || c == 'S',
        KindTag::Ch => c == 'c' || c == 'C',
        KindTag::Radix => c == 'r' || c == 'R',
    }
}

/// Which directive parser the text after a `~` selects.
enum KindTag {
    Value,
    LoopOpen,
    Float,
    Digit,
    CondOpen,
    LoopEnd,
    Star,
    Tildes,
    Standard,
    Ch,
    Radix,
}

/// Consumed-length bookkeeping of a successful parse: the directive starts
/// at `pos`, ends at `p2`, records exactly the consumed width, and its
/// nested nodes account for their own widths.
pub open spec fn parse_ok_at(s: Seq<char>, pos: int, t: Tilde, p2: int) -> bool {
    &&& pos < p2 <= s.len()
    &&& t.len == p2 - pos
    &&& tilde_wf(t)
}

/// The sum of the recorded lengths of the nodes from position `i` on.
pub open spec fn lens_sum(v: Vec<Tilde>, i: int) -> int
    decreases v, v@.len() - i,
{
    if 0 <= i < v@.len() {
        v@[i].len + lens_sum(v, i + 1)
    } else {
        0
    }
}

proof fn lemma_lens_sum_push(v: Vec<Tilde>, w: Vec<Tilde>, t: Tilde, i: int)
    requires
        0 <= i <= v@.len(),
        w@ == v@.push(t),
    ensures
        lens_sum(w, i) == lens_sum(v, i) + t.len,
    decreases v@.len() - i,
{
    if i < v@.len() {
        lemma_lens_sum_push(v, w, t, i + 1);
        assert(w@[i] == v@[i]);
    } else {
        assert(w@[i] == t);
        assert(lens_sum(w, i + 1) == 0);
    }
}

/// The length a parsed node records accounts for every character its
/// nested nodes consumed: a literal run records its own width, a loop
/// records its body plus at least the four delimiter characters, a
/// conditional has at least one branch, and each branch records exactly
/// the widths of its children.
pub open spec fn tilde_wf(t: Tilde) -> bool
    decreases t,
{
    match t.value {
        TildeKind::Text(txt) => t.len == txt@.len(),
        TildeKind::Loop(body, _) => {
            &&& lens_sum(body, 0) + 4 <= t.len
            &&& forall|i: int| 0 <= i < body@.len() ==> tilde_wf(#[trigger] body@[i])
        },
        TildeKind::Cond(branches, _) => {
            &&& branches@.len() >= 1
            &&& forall|i: int|
                0 <= i < branches@.len() ==> (#[trigger] branches@[i]).value is VecTilde
                    && tilde_wf(branches@[i])
        },
        TildeKind::VecTilde(children) => {
            &&& t.len == lens_sum(children, 0)
            &&& forall|i: int| 0 <= i < children@.len() ==> tilde_wf(#[trigger] children@[i])
        },
        _ => true,
    }
}

impl Tilde {
    /// Scans forward from the `~` at `pos` to the first key character and
    /// names the sub-parser it selects, together with the position of the
    /// key character. A pure lookahead: no position is consumed.
    fn scan_for_kind(s: &Vec<char>, pos: usize) -> (r: Result<(KindTag, usize), TildeError>)
        requires
            pos <= s@.len(),
        ensures
            match r {
                Ok(ti) => pos < ti.1 < s@.len() && s@[pos as int] == '~' && scan_key_s(
                    s@,
                    pos as int + 1,
                ) == Some(ti.1 as int) && tag_sel(ti.0, s@[ti.1 as int]),
                Err(e) => (pos >= s@.len() || s@[pos as int] != '~' || scan_key_s(
                    s@,
                    pos as int + 1,
                ) is None) && e.kind == ErrorKind::ParseError,
            },
    {
        let n = s.len();
        if pos >= n || s[pos] != '~' {
            return Err(parse_err("a directive should start with ~"));
        }
        let mut i = pos + 1;
        while i < n
            invariant
                pos < i <= n,
                n == s@.len(),
                s@[pos as int] == '~',
                scan_key_s(s@, pos as int + 1) == scan_key_s(s@, i as int),
            decreases n - i,
        {
            let c = s[i];
            if c == 'a' || c == 'A' {
                return Ok((KindTag::Value, i));
            } else if c == '{' {
                return Ok((KindTag::LoopOpen, i));
            } else if c == '$' || c == 'f' || c == 'F' {
                return Ok((KindTag::Float, i));
            } else if c == 'd' || c == 'D' {
                return Ok((KindTag::Digit, i));
            } else if c == '[' {
                return Ok((KindTag::CondOpen, i));
            } else if c == '^' {
                return Ok((KindTag::LoopEnd, i));
            } else if c == '*' {
                return Ok((KindTag::Star, i));
            } else if c == '~' {
                return Ok((KindTag::Tildes, i));
            } else if c == 's' || c == 'S' {
                return Ok((KindTag::Standard, i));
            } else if c == 'c' || c == 'C' {
                return Ok((KindTag::Ch, i));
            } else if c == 'r' || c == 'R' {
                return Ok((KindTag::Radix, i));
            }
            i = i + 1;
        }
        Err(parse_err("read to end"))
    }

    /// Parses the directive whose `~` stands at `pos`. The outcome is
    /// exactly the spec-level `parse_s`: it succeeds precisely when that
    /// does, the parsed node's value and end position are the ones it
    /// gives, and the node records exactly the number of characters
    /// consumed.
    pub fn parse(s: &Vec<char>, pos: usize) -> (r: Result<(Tilde, usize), TildeError>)
        requires
            pos <= s@.len(),
        ensures
            match r {
                Ok(tp) => parse_ok_at(s@, pos as int, tp.0, tp.1 as int) && parse_s(
                    s@,
                    pos as int,
                ) == Some((tilde_view(tp.0), tp.1 as int)),
                Err(e) => parse_s(s@, pos as int) is None && e.kind == ErrorKind::ParseError,
            },
        decreases s@.len() - pos, 1nat,
    {
        match Self::scan_for_kind(s, pos) {
            Ok((tag, key)) => match tag {
                KindTag::Value => Self::parse_value(s, pos, key),
                KindTag::LoopOpen => Self::parse_loop(s, pos),
                KindTag::Float => Self::parse_float(s, pos, key),
                KindTag::Digit => Self::parse_digit(s, pos, key),
                KindTag::CondOpen => Self::parse_cond(s, pos),
                KindTag::LoopEnd => Self::parse_loop_end(s, pos),
                KindTag::Star => Self::parse_star(s, pos),
                KindTag::Tildes => Self::parse_tildes(s, pos),
                KindTag::Standard => Self::parse_standard(s, pos, key),
                KindTag::Ch => Self::parse_char(s, pos),
                KindTag::Radix => Self::parse_radix(s, pos),
            },
            Err(e) => Err(e),
        }
    }

    /// Parses `~a` and `~A`, the generic insert directive; `key` is the
    /// position of its key character.
    fn parse_value(s: &Vec<char>, pos: usize, key: usize) -> (r: Result<(Tilde, usize), TildeError>)
        requires
            pos < key < s@.len(),
        ensures
            match r {
                Ok(tp) => parse_ok_at(s@, pos as int, tp.0, tp.1 as int) && parse_value_s(
                    s@,
                    pos as int,
                    key as int,
                ) == Some((tilde_view(tp.0), tp.1 as int)),
                Err(e) => parse_value_s(s@, pos as int, key as int) is None && e.kind
                    == ErrorKind::ParseError,
            },
    {
        if key < s.len() && (s[key] == 'a' || s[key] == 'A') {
            Ok((Tilde::new(key + 1 - pos, TildeKind::Va), key + 1))
        } else {
            Err(parse_err("should start with ~a"))
        }
    }

    /// Parses `~$`, `~n$` and `~,nf`: the float directive with its raw
    /// parameter text; `key` is the position of its key character.
    fn parse_float(s: &Vec<char>, pos: usize, key: usize) -> (r: Result<(Tilde, usize), TildeError>)
        requires
            pos < key < s@.len(),
        ensures
            match r {
                Ok(tp) => parse_ok_at(s@, pos as int, tp.0, tp.1 as int) && parse_float_s(
                    s@,
                    pos as int,
                    key as int,
                ) == Some((tilde_view(tp.0), tp.1 as int)),
                Err(e) => parse_float_s(s@, pos as int, key as int) is None && e.kind
                    == ErrorKind::ParseError,
            },
    {
        if key < s.len() && (s[key] == '$' || s[key] == 'f' || s[key] == 'F') {
            let param = chars_to_string(s, pos + 1, key);
            Ok((Tilde::new(key + 1 - pos, TildeKind::Float(Some(param))), key + 1))
        } else {
            Err(parse_err("cannot find the '$' or 'f'"))
        }
    }

    /// Parses `~d` and `~D` with an optional parameter prefix; `key` is
    /// the position of its key character.
    fn parse_digit(s: &Vec<char>, pos: usize, key: usize) -> (r: Result<(Tilde, usize), TildeError>)
        requires
            pos < key < s@.len(),
        ensures
            match r {
                Ok(tp) => parse_ok_at(s@, pos as int, tp.0, tp.1 as int) && parse_digit_s(
                    s@,
                    pos as int,
                    key as int,
                ) == Some((tilde_view(tp.0), tp.1 as int)),
                Err(e) => parse_digit_s(s@, pos as int, key as int) is None && e.kind
                    == ErrorKind::ParseError,
            },
    {
        if key < s.len() && (s[key] == 'd' || s[key] == 'D') {
            let kind = if key == pos + 1 {
                TildeKind::Digit(None)
            } else {
                TildeKind::Digit(Some(chars_to_string(s, pos + 1, key)))
            };
            Ok((Tilde::new(key + 1 - pos, kind), key + 1))
        } else {
            Err(parse_err("cannot find the 'd' or 'D'"))
        }
    }

    /// Parses `~s` and `~S`, the quoted insert directive; `key` is the
    /// position of its key character.
    fn parse_standard(s: &Vec<char>, pos: usize, key: usize) -> (r: Result<
        (Tilde, usize),
        TildeError,
    >)
        requires
            pos < key < s@.len(),
        ensures
            match r {
                Ok(tp) => parse_ok_at(s@, pos as int, tp.0, tp.1 as int) && parse_standard_s(
                    s@,
                    pos as int,
                    key as int,
                ) == Some((tilde_view(tp.0), tp.1 as int)),
                Err(e) => parse_standard_s(s@, pos as int, key as int) is None && e.kind
                    == ErrorKind::ParseError,
            },
    {
        if key < s.len() && (s[key] == 's' || s[key] == 'S') {
            Ok((Tilde::new(key + 1 - pos, TildeKind::Standard), key + 1))
        } else {
            Err(parse_err("cannot find the 's' or 'S'"))
        }
    }

    /// Parses `~*` and `~:*`, the cursor skip and rewind directives.
    fn parse_star(s: &Vec<char>, pos: usize) -> (r: Result<(Tilde, usize), TildeError>)
        requires
            pos <= s@.len(),
        ensures
            match r {
                Ok(tp) => parse_ok_at(s@, pos as int, tp.0, tp.1 as int) && parse_star_s(
                    s@,
                    pos as int,
                ) == Some((tilde_view(tp.0), tp.1 as int)),
                Err(e) => parse_star_s(s@, pos as int) is None && e.kind == ErrorKind::ParseError,
            },
    {
        let n = s.len();
        if pos < n && n - pos > 2 && s[pos] == '~' && s[pos + 1] == ':' && s[pos + 2] == '*' {
            Ok((Tilde::new(3, TildeKind::Star(StarKind::Hop)), pos + 3))
        } else if pos < n && n - pos > 1 && s[pos] == '~' && s[pos + 1] == '*' {
            Ok((Tilde::new(2, TildeKind::Star(StarKind::Skip)), pos + 2))
        } else {
            Err(parse_err("should start with ~* or ~:*"))
        }
    }

    /// Parses `~n~`: `n` literal tilde characters, `n` a single digit.
    fn parse_tildes(s: &Vec<char>, pos: usize) -> (r: Result<(Tilde, usize), TildeError>)
        requires
            pos <= s@.len(),
        ensures
            match r {
                Ok(tp) => parse_ok_at(s@, pos as int, tp.0, tp.1 as int) && parse_tildes_s(
                    s@,
                    pos as int,
                ) == Some((tilde_view(tp.0), tp.1 as int)),
                Err(e) => parse_tildes_s(s@, pos as int) is None && e.kind
                    == ErrorKind::ParseError,
            },
    {
        let n = s.len();
        if pos < n && n - pos > 2 && s[pos] == '~' && s[pos + 2] == '~' {
            match digit_val(s[pos + 1]) {
                Some(d) => Ok((Tilde::new(3, TildeKind::Tildes(d as usize)), pos + 3)),
                None => Err(parse_err("the count of tildes should be one digit")),
            }
        } else {
            Err(parse_err("should start with ~n~"))
        }
    }

    /// Parses `~c`, `~C`, `~@c` and `~@C`, the character directive.
    fn parse_char(s: &Vec<char>, pos: usize) -> (r: Result<(Tilde, usize), TildeError>)
        requires
            pos <= s@.len(),
        ensures
            match r {
                Ok(tp) => parse_ok_at(s@, pos as int, tp.0, tp.1 as int) && parse_char_s(
                    s@,
                    pos as int,
                ) == Some((tilde_view(tp.0), tp.1 as int)),
                Err(e) => parse_char_s(s@, pos as int) is None && e.kind == ErrorKind::ParseError,
            },
    {
        let n = s.len();
        if pos < n && n - pos > 2 && s[pos] == '~' && s[pos + 1] == '@' && (s[pos + 2] == 'c' || s[
            pos + 2] == 'C') {
            Ok((Tilde::new(3, TildeKind::Char(CharKind::At)), pos + 3))
        } else if pos < n && n - pos > 1 && s[pos] == '~' && (s[pos + 1] == 'c' || s[pos + 1]
            == 'C') {
            Ok((Tilde::new(2, TildeKind::Char(CharKind::Nil)), pos + 2))
        } else {
            Err(parse_err("should start with ~c or ~@c"))
        }
    }

    /// Parses `~^`, the loop break marker.
    fn parse_loop_end(s: &Vec<char>, pos: usize) -> (r: Result<(Tilde, usize), TildeError>)
        requires
            pos <= s@.len(),
        ensures
            match r {
                Ok(tp) => parse_ok_at(s@, pos as int, tp.0, tp.1 as int) && parse_loop_end_s(
                    s@,
                    pos as int,
                ) == Some((tilde_view(tp.0), tp.1 as int)),
                Err(e) => parse_loop_end_s(s@, pos as int) is None && e.kind
                    == ErrorKind::ParseError,
            },
    {
        let n = s.len();
        if pos < n && n - pos > 1 && s[pos] == '~' && s[pos + 1] == '^' {
            Ok((Tilde::new(2, TildeKind::LoopEnd), pos + 2))
        } else {
            Err(parse_err("should start with ~^"))
        }
    }

    /// Parses the final field of a radix parameter list: the optional
    /// leading number, the `:`/`@` flag combinations, and the closing
    /// `R` or `r`.
    fn parse_radix_flag(s: &Vec<char>, lo: usize, hi: usize) -> (r: Result<
        (Option<usize>, Option<RadixFlag>),
        TildeError,
    >)
        requires
            lo <= hi <= s@.len(),
        ensures
            match r {
                Ok(rf) => radix_flag_s(s@, lo as int, hi as int) == Some(
                    (
                        match rf.0 {
                            Some(u) => Some(u as int),
                            None => None,
                        },
                        rf.1,
                    ),
                ),
                Err(e) => radix_flag_s(s@, lo as int, hi as int) is None && e.kind
                    == ErrorKind::ParseError,
            },
    {
        if lo >= hi || !(s[hi - 1] == 'R' || s[hi - 1] == 'r') {
            return Err(parse_err("the radix directive should end with R"));
        }
        // the field without its closing R
        let body_hi = hi - 1;
        match find_char_to(s, lo, body_hi, ':') {
            None => {
                // "R", "nR", or "@R"
                if lo == body_hi {
                    Ok((None, None))
                } else if lo + 1 == body_hi && s[lo] == '@' {
                    Ok((None, Some(RadixFlag::At)))
                } else {
                    match parse_opt_usize(s, lo, body_hi) {
                        Some(v) => Ok((v, None)),
                        None => Err(parse_err("parsing the radix flag has a problem")),
                    }
                }
            },
            Some(q) => {
                // ":R", "n:R", or ":@R"
                if find_char_to(s, q + 1, body_hi, ':').is_some() {
                    Err(parse_err("too many ':' in the radix flag"))
                } else if q + 1 == body_hi {
                    // right side is exactly "R"
                    if q == lo {
                        Ok((None, Some(RadixFlag::Colon)))
                    } else {
                        match parse_opt_usize(s, lo, q) {
                            Some(v) => Ok((v, Some(RadixFlag::Colon))),
                            None => Err(parse_err("parsing the radix flag has a problem")),
                        }
                    }
                } else if q == lo && q + 2 == body_hi && s[q + 1] == '@' {
                    Ok((None, Some(RadixFlag::AtColon)))
                } else {
                    Err(parse_err("parsing the radix flag has a problem"))
                }
            },
        }
    }

    /// Parses the radix directive `~R` with its comma-separated parameter
    /// fields: either the bare form with an optional number and flags, or
    /// all five fields.
    fn parse_radix(s: &Vec<char>, pos: usize) -> (r: Result<(Tilde, usize), TildeError>)
        requires
            pos <= s@.len(),
        ensures
            match r {
                Ok(tp) => parse_ok_at(s@, pos as int, tp.0, tp.1 as int) && parse_radix_s(
                    s@,
                    pos as int,
                ) == Some((tilde_view(tp.0), tp.1 as int)),
                Err(e) => parse_radix_s(s@, pos as int) is None && e.kind
                    == ErrorKind::ParseError,
            },
    {
        let n = s.len();
        if pos >= n || s[pos] != '~' {
            return Err(parse_err("a directive should start with ~"));
        }
        // find the closing R or r
        let e = match find_char_r(s, pos + 1) {
            Some(e) => e,
            None => {
                return Err(parse_err("read to end"));
            },
        };
        // the fields lie between the `~` and the closing R, inclusive
        let lo = pos + 1;
        let hi = e + 1;
        let c0 = match find_char_to(s, lo, hi, ',') {
            None => {
                // one field: an optional number and the flags
                let (radix_usize, flag) = match Self::parse_radix_flag(s, lo, hi) {
                    Ok(v) => v,
                    Err(er) => {
                        return Err(er);
                    },
                };
                let radix: Option<u32> = match radix_usize {
                    Some(v) => {
                        if v <= u32::MAX as usize {
                            Some(v as u32)
                        } else {
                            return Err(parse_err("the radix is too large"));
                        }
                    },
                    None => None,
                };
                let params = RadixParams {
                    radix,
                    mincol: None,
                    padchar: None,
                    commachar: None,
                    comma_interval: None,
                    flag,
                };
                return Ok((Tilde::new(hi - pos, TildeKind::Radix(params)), hi));
            },
            Some(c0) => c0,
        };
        // five fields: radix, mincol, padchar, commachar, interval and flags
        let c1 = match find_char_to(s, c0 + 1, hi, ',') {
            Some(c1) => c1,
            None => {
                return Err(parse_err("the number of radix fields should be 1 or 5"));
            },
        };
        let c2 = match find_char_to(s, c1 + 1, hi, ',') {
            Some(c2) => c2,
            None => {
                return Err(parse_err("the number of radix fields should be 1 or 5"));
            },
        };
        let c3 = match find_char_to(s, c2 + 1, hi, ',') {
            Some(c3) => c3,
            None => {
                return Err(parse_err("the number of radix fields should be 1 or 5"));
            },
        };
        if find_char_to(s, c3 + 1, hi, ',').is_some() {
            return Err(parse_err("the number of radix fields should be 1 or 5"));
        }
        let radix = match parse_opt_u32(s, lo, c0) {
            Some(v) => v,
            None => {
                return Err(parse_err("the radix field should be a number"));
            },
        };
        let mincol = match parse_opt_usize(s, c0 + 1, c1) {
            Some(v) => v,
            None => {
                return Err(parse_err("the mincol field should be a number"));
            },
        };
        let padchar: Option<char> = if c1 + 1 == c2 {
            None
        } else {
            Some(s[c1 + 1])
        };
        let commachar: Option<char> = if c2 + 1 == c3 {
            None
        } else {
            Some(s[c2 + 1])
        };
        let (comma_interval, flag) = match Self::parse_radix_flag(s, c3 + 1, hi) {
            Ok(v) => v,
            Err(er) => {
                return Err(er);
            },
        };
        let params = RadixParams { radix, mincol, padchar, commachar, comma_interval, flag };
        Ok((Tilde::new(hi - pos, TildeKind::Radix(params)), hi))
    }

    /// Parses `~{ ... ~}` and its variants: the loop directive and its
    /// body, closed by `~}` or `~:}`.
    fn parse_loop(s: &Vec<char>, pos: usize) -> (r: Result<(Tilde, usize), TildeError>)
        requires
            pos <= s@.len(),
        ensures
            match r {
                Ok(tp) => parse_ok_at(s@, pos as int, tp.0, tp.1 as int) && parse_loop_s(
                    s@,
                    pos as int,
                ) == Some((tilde_view(tp.0), tp.1 as int)),
                Err(e) => parse_loop_s(s@, pos as int) is None && e.kind == ErrorKind::ParseError,
            },
        decreases s@.len() - pos, 0nat,
    {
        let n = s.len();
        let mut kind = TildeLoopKind::Nil;
        let mut cur: usize;
        if pos < n && n - pos > 1 && s[pos] == '~' && s[pos + 1] == '{' {
            cur = pos + 2;
        } else if pos < n && n - pos > 2 && s[pos] == '~' && s[pos + 1] == '@' && s[pos + 2]
            == '{' {
            kind = TildeLoopKind::At;
            cur = pos + 3;
        } else {
            return Err(parse_err("should start with ~{"));
        }
        let ghost body_start = cur as int;
        let mut body: Vec<Tilde> = Vec::new();
        proof {
            assert(tilde_views(body, 0) =~= Seq::<TildeV>::empty());
            let lb = loop_body_s(s@, cur as int);
            if lb is Some {
                assert(tilde_views(body, 0) + lb.unwrap().0 =~= lb.unwrap().0);
            }
        }
        loop
            invariant
                pos < cur <= n,
                n == s@.len(),
                pos + 2 <= body_start <= cur,
                lens_sum(body, 0) == cur - body_start,
                forall|i: int| 0 <= i < body@.len() ==> tilde_wf(#[trigger] body@[i]),
                match loop_body_s(s@, cur as int) {
                    Some(res) => parse_loop_s(s@, pos as int) == Some(
                        (
                            TildeV {
                                len: res.2 - pos,
                                value: KindV::Loop(
                                    tilde_views(body, 0) + res.0,
                                    loop_close_kind(kind, res.1),
                                ),
                            },
                            res.2,
                        ),
                    ),
                    None => parse_loop_s(s@, pos as int) is None,
                },
            decreases n - cur,
        {
            let ghost body0 = body;
            let j = match find_char(s, cur, '~') {
                Some(j) => j,
                None => {
                    return Err(parse_err("the loop directive is not terminated"));
                },
            };
            let ghost txt_seq: Seq<TildeV> = if j > cur {
                seq![TildeV { len: j - cur, value: KindV::Text(s@.subrange(cur as int, j as int)) }]
            } else {
                Seq::empty()
            };
            if j > cur {
                let txt = Tilde::new(j - cur, TildeKind::Text(chars_to_string(s, cur, j)));
                proof {
                    assert(tilde_wf(txt));
                }
                body.push(txt);
                proof {
                    lemma_lens_sum_push(body0, body, txt, 0);
                    lemma_tilde_views_push(body0, body, txt, 0);
                    assert forall|i: int| 0 <= i < body@.len() implies tilde_wf(
                        #[trigger] body@[i],
                    ) by {
                        if i < body0@.len() {
                            assert(body@[i] == body0@[i]);
                        } else {
                            assert(body@[i] == txt);
                        }
                    }
                }
            }
            proof {
                assert(tilde_views(body, 0) =~= tilde_views(body0, 0) + txt_seq);
                assert(lens_sum(body, 0) == j - body_start);
            }
            if n - j > 1 && s[j + 1] == '}' {
                let t = Tilde::new(j + 2 - pos, TildeKind::Loop(body, kind));
                proof {
                    assert(tilde_wf(t));
                    assert(loop_body_s(s@, cur as int) == Some((txt_seq, false, (j + 2) as int)));
                    assert(tilde_views(body0, 0) + txt_seq =~= tilde_view(t).value->Loop_0);
                    assert(loop_close_kind(kind, false) == kind);
                }
                return Ok((t, j + 2));
            }
            if n - j > 2 && s[j + 1] == ':' && s[j + 2] == '}' {
                let closed_kind = match kind {
                    TildeLoopKind::Nil => TildeLoopKind::NilColon,
                    k => k,
                };
                let t = Tilde::new(j + 3 - pos, TildeKind::Loop(body, closed_kind));
                proof {
                    assert(tilde_wf(t));
                    assert(loop_body_s(s@, cur as int) == Some((txt_seq, true, (j + 3) as int)));
                    assert(tilde_views(body0, 0) + txt_seq =~= tilde_view(t).value->Loop_0);
                    assert(closed_kind == loop_close_kind(kind, true));
                }
                return Ok((t, j + 3));
            }
            match Self::parse(s, j) {
                Ok((t, p2)) => {
                    let ghost body1 = body;
                    body.push(t);
                    proof {
                        lemma_lens_sum_push(body1, body, t, 0);
                        lemma_tilde_views_push(body1, body, t, 0);
                        assert forall|i: int| 0 <= i < body@.len() implies tilde_wf(
                            #[trigger] body@[i],
                        ) by {
                            if i < body1@.len() {
                                assert(body@[i] == body1@[i]);
                            }
                        }
                        let lb2 = loop_body_s(s@, p2 as int);
                        if lb2 is Some {
                            let rest = lb2.unwrap();
                            assert(loop_body_s(s@, cur as int) == Some(
                                (txt_seq + seq![tilde_view(t)] + rest.0, rest.1, rest.2),
                            ));
                            assert(tilde_views(body, 0) + rest.0 =~= tilde_views(body0, 0) + (
                            txt_seq + seq![tilde_view(t)] + rest.0));
                        } else {
                            assert(loop_body_s(s@, cur as int) is None);
                        }
                    }
                    cur = p2;
                },
                Err(e) => {
                    proof {
                        assert(loop_body_s(s@, cur as int) is None);
                    }
                    return Err(e);
                },
            }
        }
    }

    /// Parses `~[ ... ~]` and its variants: the conditional directive,
    /// its branches split at `~;`, the fallback marker `~:;`, and the
    /// closing `~]`.
    #[verifier::rlimit(100)]
    fn parse_cond(s: &Vec<char>, pos: usize) -> (r: Result<(Tilde, usize), TildeError>)
        requires
            pos <= s@.len(),
        ensures
            match r {
                Ok(tp) => parse_ok_at(s@, pos as int, tp.0, tp.1 as int) && parse_cond_s(
                    s@,
                    pos as int,
                ) == Some((tilde_view(tp.0), tp.1 as int)),
                Err(e) => parse_cond_s(s@, pos as int) is None && e.kind == ErrorKind::ParseError,
            },
        decreases s@.len() - pos, 0nat,
    {
        let n = s.len();
        let mut kind = TildeCondKind::Nil(false);
        let mut cur: usize;
        if pos < n && n - pos > 1 && s[pos] == '~' && s[pos + 1] == '[' {
            cur = pos + 2;
        } else if pos < n && n - pos > 2 && s[pos] == '~' && s[pos + 1] == '#' && s[pos + 2]
            == '[' {
            kind = TildeCondKind::Sharp;
            cur = pos + 3;
        } else if pos < n && n - pos > 2 && s[pos] == '~' && s[pos + 1] == '@' && s[pos + 2]
            == '[' {
            kind = TildeCondKind::At;
            cur = pos + 3;
        } else if pos < n && n - pos > 2 && s[pos] == '~' && s[pos + 1] == ':' && s[pos + 2]
            == '[' {
            kind = TildeCondKind::Colon;
            cur = pos + 3;
        } else {
            return Err(parse_err("should start with ~[, ~#[, ~@[ or ~:["));
        }
        let ghost kind0 = kind;
        let ghost mut saw: bool = false;
        let mut branches: Vec<Tilde> = Vec::new();
        let mut cache: Vec<Tilde> = Vec::new();
        let mut cache_len: usize = 0;
        proof {
            assert(tilde_views(branches, 0) =~= Seq::<TildeV>::empty());
            assert(tilde_views(cache, 0) =~= Seq::<TildeV>::empty());
            let cb = cond_body_s(s@, cur as int, tilde_views(cache, 0), cache_len as int);
            if cb is Some {
                assert(tilde_views(branches, 0) + cb.unwrap().0 =~= cb.unwrap().0);
            }
        }
        loop
            invariant
                pos < cur <= n,
                n == s@.len(),
                cache_len <= cur,
                lens_sum(cache, 0) == cache_len,
                forall|i: int| 0 <= i < cache@.len() ==> tilde_wf(#[trigger] cache@[i]),
                forall|i: int|
                    0 <= i < branches@.len() ==> (#[trigger] branches@[i]).value is VecTilde
                        && tilde_wf(branches@[i]),
                kind == cond_close_kind(kind0, saw),
                match cond_body_s(s@, cur as int, tilde_views(cache, 0), cache_len as int) {
                    Some(res) => parse_cond_s(s@, pos as int) == Some(
                        (
                            TildeV {
                                len: res.2 - pos,
                                value: KindV::Cond(
                                    tilde_views(branches, 0) + res.0,
                                    cond_close_kind(kind0, saw || res.1),
                                ),
                            },
                            res.2,
                        ),
                    ),
                    None => parse_cond_s(s@, pos as int) is None,
                },
            decreases n - cur,
        {
            let ghost cache0 = cache;
            let ghost clen0 = cache_len as int;
            let j = match find_char(s, cur, '~') {
                Some(j) => j,
                None => {
                    return Err(parse_err("the conditional directive is not terminated"));
                },
            };
            if j > cur {
                let txt = Tilde::new(j - cur, TildeKind::Text(chars_to_string(s, cur, j)));
                proof {
                    assert(tilde_wf(txt));
                }
                cache.push(txt);
                cache_len = cache_len + (j - cur);
                proof {
                    lemma_lens_sum_push(cache0, cache, txt, 0);
                    lemma_tilde_views_push(cache0, cache, txt, 0);
                    assert forall|i: int| 0 <= i < cache@.len() implies tilde_wf(
                        #[trigger] cache@[i],
                    ) by {
                        if i < cache0@.len() {
                            assert(cache@[i] == cache0@[i]);
                        } else {
                            assert(cache@[i] == txt);
                        }
                    }
                }
            }
            // the spec's view of the open branch after the literal run
            proof {
                assert(tilde_views(cache, 0) =~= (if j > cur {
                    tilde_views(cache0, 0).push(
                        TildeV { len: j - cur, value: KindV::Text(s@.subrange(cur as int, j as int)) },
                    )
                } else {
                    tilde_views(cache0, 0)
                }));
            }
            if n - j <= 1 {
                return Err(parse_err("the conditional directive is not terminated"));
            }
            let c = s[j + 1];
            if c == ':' {
                if n - j > 2 && s[j + 2] == ';' {
                    let ghost branches0 = branches;
                    let br = Tilde::new(cache_len, TildeKind::VecTilde(cache));
                    proof {
                        assert(tilde_wf(br));
                    }
                    branches.push(br);
                    proof {
                        lemma_tilde_views_push(branches0, branches, br, 0);
                        assert forall|i: int|
                            0 <= i < branches@.len() implies (
                        #[trigger] branches@[i]).value is VecTilde && tilde_wf(
                            branches@[i],
                        ) by {
                            if i < branches0@.len() {
                                assert(branches@[i] == branches0@[i]);
                            } else {
                                assert(branches@[i] == br);
                            }
                        }
                    }
                    cache = Vec::new();
                    cache_len = 0;
                    kind.to_true();
                    proof {
                        saw = true;
                        assert(kind == cond_close_kind(kind0, true));
                        assert(tilde_views(cache, 0) =~= Seq::<TildeV>::empty());
                        let cb2 = cond_body_s(s@, (j + 3) as int, tilde_views(cache, 0), 0);
                        if cb2 is Some {
                            let rest = cb2.unwrap();
                            assert(tilde_views(branches, 0) + rest.0 =~= tilde_views(
                                branches0,
                                0,
                            ) + (seq![tilde_view(br)] + rest.0));
                        }
                    }
                    cur = j + 3;
                } else {
                    return Err(parse_err("expected ; after ~: in a conditional"));
                }
            } else if c == ';' {
                let ghost branches0 = branches;
                let br = Tilde::new(cache_len, TildeKind::VecTilde(cache));
                proof {
                    assert(tilde_wf(br));
                }
                branches.push(br);
                proof {
                    lemma_tilde_views_push(branches0, branches, br, 0);
                    assert forall|i: int|
                        0 <= i < branches@.len() implies (
                    #[trigger] branches@[i]).value is VecTilde && tilde_wf(branches@[i]) by {
                        if i < branches0@.len() {
                            assert(branches@[i] == branches0@[i]);
                        } else {
                            assert(branches@[i] == br);
                        }
                    }
                }
                cache = Vec::new();
                cache_len = 0;
                proof {
                    assert(tilde_views(cache, 0) =~= Seq::<TildeV>::empty());
                    let cb2 = cond_body_s(s@, (j + 2) as int, tilde_views(cache, 0), 0);
                    if cb2 is Some {
                        let rest = cb2.unwrap();
                        assert(tilde_views(branches, 0) + rest.0 =~= tilde_views(branches0, 0) + (
                        seq![tilde_view(br)] + rest.0));
                    }
                }
                cur = j + 2;
            } else if c == ']' {
                let ghost branches0 = branches;
                let br = Tilde::new(cache_len, TildeKind::VecTilde(cache));
                proof {
                    assert(tilde_wf(br));
                }
                branches.push(br);
                proof {
                    lemma_tilde_views_push(branches0, branches, br, 0);
                    assert forall|i: int|
                        0 <= i < branches@.len() implies (
                    #[trigger] branches@[i]).value is VecTilde && tilde_wf(branches@[i]) by {
                        if i < branches0@.len() {
                            assert(branches@[i] == branches0@[i]);
                        } else {
                            assert(branches@[i] == br);
                        }
                    }
                }
                let t = Tilde::new(j + 2 - pos, TildeKind::Cond(branches, kind));
                proof {
                    assert(tilde_wf(t));
                    assert(tilde_views(branches0, 0) + seq![tilde_view(br)] =~= tilde_view(
                        t,
                    ).value->Cond_0);
                }
                return Ok((t, j + 2));
            } else {
                match Self::parse(s, j) {
                    Ok((t, p2)) => {
                        let ghost cache1 = cache;
                        cache.push(t);
                        cache_len = cache_len + (p2 - j);
                        proof {
                            lemma_lens_sum_push(cache1, cache, t, 0);
                            lemma_tilde_views_push(cache1, cache, t, 0);
                            assert forall|i: int| 0 <= i < cache@.len() implies tilde_wf(
                                #[trigger] cache@[i],
                            ) by {
                                if i < cache1@.len() {
                                    assert(cache@[i] == cache1@[i]);
                                }
                            }
                        }
                        cur = p2;
                    },
                    Err(e) => {
                        return Err(e);
                    },
                }
            }
        }
    }
}

} // verus!
