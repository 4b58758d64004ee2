use vstd::prelude::*;

verus! {

/// Relies on std's `String::push`: appends the one character at the end.
#[verifier::external_body]
pub(crate) fn push_char(s: &mut String, c: char)
    ensures
        final(s)@ == old(s)@.push(c),
{
    s.push(c);
}

/// Appends every character of `tail` to `s`.
pub(crate) fn push_chars(s: &mut String, tail: &str)
    ensures
        final(s)@ == old(s)@ + tail@,
{
    let ghost start = s@;
    for c in it: tail.chars()
        invariant
            it.seq() == tail@,
            s@ == start + tail@.subrange(0, it.index() as int),
    {
        proof {
            assert(tail@.subrange(0, it.index() + 1) == tail@.subrange(0, it.index() as int).push(c));
        }
        push_char(s, c);
    }
    assert(tail@.subrange(0, tail@.len() as int) == tail@);
}

/// The characters of `s`, in order.
pub(crate) fn chars_of(s: &str) -> (r: Vec<char>)
    ensures
        r@ == s@,
{
    let mut out: Vec<char> = Vec::new();
    for c in it: s.chars()
        invariant
            it.seq() == s@,
            out@ == s@.subrange(0, it.index() as int),
    {
        proof {
            assert(s@.subrange(0, it.index() + 1) == s@.subrange(0, it.index() as int).push(c));
        }
        out.push(c);
    }
    assert(s@.subrange(0, s@.len() as int) == s@);
    out
}

} // verus!
