//! Operations on plain sequences of character units: the mathematical
//! splice operations that the rope's contracts are stated over, and the
//! verified vector helpers that the rope's leaves are edited with.

use vstd::prelude::*;

verus! {

/// The text that results from inserting `s` at position `p` of `t`.
pub open spec fn insert_text(t: Seq<char>, p: int, s: Seq<char>) -> Seq<char> {
    t.take(p) + s + t.skip(p)
}

/// The text that results from removing the half-open range `[start, end)` of `t`.
pub open spec fn remove_range(t: Seq<char>, start: int, end: int) -> Seq<char> {
    t.take(start) + t.skip(end)
}

/// An index clamped into `[0, len]`.
pub open spec fn clamp_index(len: int, i: int) -> int {
    if i < 0 {
        0
    } else if i > len {
        len
    } else {
        i
    }
}

/// The text of the half-open range `[start, end)` of `t`, with forgiving
/// bounds: both endpoints are clamped into `[0, len]`, and an inverted
/// range yields the empty text.
pub open spec fn substring_text(t: Seq<char>, start: int, end: int) -> Seq<char> {
    let s = clamp_index(t.len() as int, start);
    let e = clamp_index(t.len() as int, end);
    if s <= e {
        t.subrange(s, e)
    } else {
        Seq::<char>::empty()
    }
}

/// Inserting a text at position `p` and then removing the range it occupies
/// restores the original text.  This is the law behind the round trip of
/// `ComponentRope::insert` followed by `ComponentRope::remove`, whose
/// contracts are stated over `insert_text` and `remove_range`.
pub proof fn lemma_insert_then_remove(t: Seq<char>, p: int, s: Seq<char>)
    requires
        0 <= p <= t.len(),
    ensures
        remove_range(insert_text(t, p, s), p, p + s.len()) == t,
{
    assert(remove_range(insert_text(t, p, s), p, p + s.len()) =~= t);
}

/// Appends the elements of `src` with indices in `[start, end)` to `dst`.
pub fn append_range(dst: &mut Vec<char>, src: &Vec<char>, start: usize, end: usize)
    requires
        start <= end,
        end <= src@.len(),
    ensures
        final(dst)@ == old(dst)@ + src@.subrange(start as int, end as int),
{
    let mut i: usize = start;
    while i < end
        invariant
            start <= i <= end,
            end <= src@.len(),
            dst@ == old(dst)@ + src@.subrange(start as int, i as int),
        decreases end - i,
    {
        dst.push(src[i]);
        i = i + 1;
        proof {
            assert(dst@ =~= old(dst)@ + src@.subrange(start as int, i as int));
        }
    }
}

/// Returns a fresh vector holding the elements of `src` with indices in
/// `[start, end)`.
pub fn copy_range(src: &Vec<char>, start: usize, end: usize) -> (r: Vec<char>)
    requires
        start <= end,
        end <= src@.len(),
    ensures
        r@ == src@.subrange(start as int, end as int),
{
    let mut r: Vec<char> = Vec::new();
    append_range(&mut r, src, start, end);
    proof {
        assert(r@ =~= src@.subrange(start as int, end as int));
    }
    r
}

} // verus!
