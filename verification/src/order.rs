//! Texts in the order of their characters.
use crate::text::characters;
use vstd::prelude::*;

verus! {

/// How one text stands to another.
#[derive(Clone, Copy, PartialEq, Eq, Structural, Debug)]
pub enum Rank {
    Before,
    Same,
    After,
}

/// The first text comes before the second: at the first place where they differ its character is
/// the lower, or it ends there.
pub open spec fn text_before(a: Seq<char>, b: Seq<char>) -> bool
    decreases a.len(),
{
    if b.len() == 0 {
        false
    } else if a.len() == 0 {
        true
    } else if a[0] != b[0] {
        (a[0] as int) < (b[0] as int)
    } else {
        text_before(a.skip(1), b.skip(1))
    }
}

/// No text comes before itself, and of two texts one comes before the other unless they are the
/// same.
pub proof fn order_is_total(a: Seq<char>, b: Seq<char>)
    ensures
        !text_before(a, a),
        text_before(a, b) || text_before(b, a) || a == b,
        !(text_before(a, b) && text_before(b, a)),
    decreases a.len(),
{
    if a.len() > 0 && b.len() > 0 {
        order_is_total(a.skip(1), b.skip(1));
        if a.skip(1) == b.skip(1) && a[0] == b[0] {
            assert forall|i: int| 0 <= i < a.len() implies a[i] == b[i] by {
                if i > 0 {
                    assert(a.skip(1)[i - 1] == b.skip(1)[i - 1]);
                }
            }
            assert(a =~= b);
        }
    } else if a.len() > 0 {
        order_is_total(a.skip(1), b);
    } else if b.len() == 0 {
        assert(a =~= b);
    }
}

/// A text that comes before one that comes before a third comes before the third.
pub proof fn order_is_transitive(a: Seq<char>, b: Seq<char>, c: Seq<char>)
    requires
        text_before(a, b),
        text_before(b, c),
    ensures
        text_before(a, c),
    decreases a.len(),
{
    if a.len() > 0 && a[0] == b[0] && b[0] == c[0] {
        order_is_transitive(a.skip(1), b.skip(1), c.skip(1));
    }
}

/// How one text stands to another.
pub fn rank_texts(a: &str, b: &str) -> (rank: Rank)
    ensures
        rank == Rank::Before <==> text_before(a@, b@),
        rank == Rank::Same <==> a@ == b@,
        rank == Rank::After <==> text_before(b@, a@),
{
    let first: Vec<char> = characters(a);
    let second: Vec<char> = characters(b);
    let mut i: usize = 0;
    proof {
        order_is_total(a@, b@);
        order_is_total(b@, a@);
        assert(first@.skip(0) =~= a@);
        assert(second@.skip(0) =~= b@);
    }
    while i < first.len() && i < second.len()
        invariant
            i <= first@.len(),
            i <= second@.len(),
            first@ == a@,
            second@ == b@,
            a@.take(i as int) == b@.take(i as int),
            text_before(a@, b@) == text_before(first@.skip(i as int), second@.skip(i as int)),
            text_before(b@, a@) == text_before(second@.skip(i as int), first@.skip(i as int)),
            !text_before(a@, a@),
            !text_before(b@, b@),
            !(text_before(a@, b@) && text_before(b@, a@)),
        decreases first@.len() - i,
    {
        assert(first@.skip(i as int)[0] == first@[i as int]);
        assert(second@.skip(i as int)[0] == second@[i as int]);
        if first[i] != second[i] {
            let low: char = first[i];
            let high: char = second[i];
            return if low < high {
                Rank::Before
            } else {
                Rank::After
            };
        }
        assert(first@.skip(i as int).skip(1) =~= first@.skip(i + 1));
        assert(second@.skip(i as int).skip(1) =~= second@.skip(i + 1));
        assert(a@.take(i + 1) =~= a@.take(i as int).push(a@[i as int]));
        assert(b@.take(i + 1) =~= b@.take(i as int).push(b@[i as int]));
        i = i + 1;
    }
    if i < second.len() {
        Rank::Before
    } else if i < first.len() {
        Rank::After
    } else {
        assert(a@.take(i as int) =~= a@);
        assert(b@.take(i as int) =~= b@);
        Rank::Same
    }
}

/// A text stands before every longer one that begins with it, and where two texts first differ the
/// smaller character decides.
pub proof fn the_first_difference_decides(
    common: Seq<char>,
    a: char,
    b: char,
    rest: Seq<char>,
    tail: Seq<char>,
)
    requires
        a != b,
    ensures
        text_before(common, common.push(a)),
        text_before(common.push(a) + rest, common.push(b) + tail) == ((a as int) < (b as int)),
        !text_before(common, common),
    decreases common.len(),
{
    let longer = common.push(a);
    let left = common.push(a) + rest;
    let right = common.push(b) + tail;
    if common.len() > 0 {
        let inner = common.skip(1);
        the_first_difference_decides(inner, a, b, rest, tail);
        assert(longer.skip(1) =~= inner.push(a));
        assert(left.skip(1) =~= inner.push(a) + rest);
        assert(right.skip(1) =~= inner.push(b) + tail);
        assert(left[0] == common[0] && right[0] == common[0] && longer[0] == common[0]);
    } else {
        assert(left[0] == a && right[0] == b);
    }
}

} // verus!
