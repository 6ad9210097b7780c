use vstd::prelude::*;

verus! {

/// Relies on std's `String::push`: appends exactly the given character.
#[verifier::external_body]
pub fn push_char(s: &mut String, c: char)
    ensures
        final(s)@ == old(s)@.push(c),
{
    s.push(c);
}

/// The sequence of `n` copies of `c`.
pub open spec fn repeat_char_s(c: char, n: nat) -> Seq<char> {
    Seq::new(n, |i: int| c)
}

/// Appends `n` copies of `c` to the buffer.
pub fn push_repeat(buf: &mut String, c: char, n: usize)
    ensures
        final(buf)@ == old(buf)@ + repeat_char_s(c, n as nat),
{
    proof {
        assert(old(buf)@ + repeat_char_s(c, 0) =~= old(buf)@);
    }
    let mut j: usize = 0;
    while j < n
        invariant
            j <= n,
            buf@ == old(buf)@ + repeat_char_s(c, j as nat),
        decreases n - j,
    {
        push_char(buf, c);
        proof {
            assert(old(buf)@ + repeat_char_s(c, j as nat + 1) =~= (old(buf)@ + repeat_char_s(
                c,
                j as nat,
            )).push(c));
        }
        j = j + 1;
    }
    proof {
        assert(buf@ =~= old(buf)@ + repeat_char_s(c, n as nat));
    }
}

} // verus!
