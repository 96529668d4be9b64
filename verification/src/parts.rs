//! Sequences that are made of others.

use vstd::prelude::*;

verus! {

/// The parts stand in the whole as they are, one after the other, in their order.
pub open spec fn in_order<T>(whole: Seq<T>, parts: Seq<Seq<T>>) -> bool
    decreases parts.len(),
{
    parts.len() == 0 || exists|at: int|
        {
            &&& 0 <= at
            &&& at + parts.last().len() <= whole.len()
            &&& whole.subrange(at, at + parts.last().len()) == parts.last()
            &&& in_order(#[trigger] whole.take(at), parts.drop_last())
        }
}

/// The length of all parts together.
pub open spec fn total<T>(parts: Seq<Seq<T>>) -> int
    decreases parts.len(),
{
    if parts.len() == 0 {
        0
    } else {
        total(parts.drop_last()) + parts.last().len()
    }
}

/// The whole is made of the parts, in their order, and of at most `others` more.
pub open spec fn made_of<T>(whole: Seq<T>, parts: Seq<Seq<T>>, others: int) -> bool {
    in_order(whole, parts) && whole.len() <= total(parts) + others
}

/// What is in a part is in the whole.
pub proof fn parts_are_contained<T>(whole: Seq<T>, parts: Seq<Seq<T>>, k: int, i: int)
    requires
        in_order(whole, parts),
        0 <= k < parts.len(),
        0 <= i < parts[k].len(),
    ensures
        whole.contains(parts[k][i]),
    decreases parts.len(),
{
    let last = parts.last();
    let at = choose|at: int|
        {
            &&& 0 <= at
            &&& at + last.len() <= whole.len()
            &&& whole.subrange(at, at + last.len()) == last
            &&& in_order(#[trigger] whole.take(at), parts.drop_last())
        };
    if k == parts.len() - 1 {
        assert(whole.subrange(at, at + last.len())[i] == whole[at + i]);
    } else {
        parts_are_contained(whole.take(at), parts.drop_last(), k, i);
        let j = choose|j: int| 0 <= j < at && whole.take(at)[j] == parts[k][i];
        assert(whole[j] == parts[k][i]);
    }
}

proof fn in_order_before<T>(whole: Seq<T>, parts: Seq<Seq<T>>, rest: Seq<T>)
    requires
        in_order(whole, parts),
    ensures
        in_order(whole + rest, parts),
{
    if parts.len() > 0 {
        let last = parts.last();
        let at = choose|at: int|
            {
                &&& 0 <= at
                &&& at + last.len() <= whole.len()
                &&& whole.subrange(at, at + last.len()) == last
                &&& in_order(#[trigger] whole.take(at), parts.drop_last())
            };
        assert((whole + rest).take(at) =~= whole.take(at));
        assert((whole + rest).subrange(at, at + last.len()) =~= last);
    }
}

proof fn total_of_both<T>(a: Seq<Seq<T>>, b: Seq<Seq<T>>)
    ensures
        total(a + b) == total(a) + total(b),
    decreases b.len(),
{
    if b.len() == 0 {
        assert(a + b =~= a);
    } else {
        assert((a + b).drop_last() =~= a + b.drop_last());
        total_of_both(a, b.drop_last());
    }
}

proof fn in_order_both<T>(a: Seq<T>, a_parts: Seq<Seq<T>>, b: Seq<T>, b_parts: Seq<Seq<T>>)
    requires
        in_order(a, a_parts),
        in_order(b, b_parts),
    ensures
        in_order(a + b, a_parts + b_parts),
    decreases b_parts.len(),
{
    if b_parts.len() == 0 {
        assert(a_parts + b_parts =~= a_parts);
        in_order_before(a, a_parts, b);
    } else {
        let last = b_parts.last();
        let at = choose|at: int|
            {
                &&& 0 <= at
                &&& at + last.len() <= b.len()
                &&& b.subrange(at, at + last.len()) == last
                &&& in_order(#[trigger] b.take(at), b_parts.drop_last())
            };
        in_order_both(a, a_parts, b.take(at), b_parts.drop_last());
        let both = a + b;
        let moved = a.len() as int + at;
        assert(both.take(moved) =~= a + b.take(at));
        assert(both.subrange(moved, moved + last.len()) =~= last);
        assert((a_parts + b_parts).drop_last() =~= a_parts + b_parts.drop_last());
    }
}

/// What is made of parts can be put together.
pub proof fn made_of_both<T>(
    a: Seq<T>,
    a_parts: Seq<Seq<T>>,
    a_others: int,
    b: Seq<T>,
    b_parts: Seq<Seq<T>>,
    b_others: int,
)
    requires
        made_of(a, a_parts, a_others),
        made_of(b, b_parts, b_others),
    ensures
        made_of(a + b, a_parts + b_parts, a_others + b_others),
{
    in_order_both(a, a_parts, b, b_parts);
    total_of_both(a_parts, b_parts);
}

/// Everything is made of itself.
pub proof fn made_of_itself<T>(whole: Seq<T>)
    ensures
        made_of(whole, seq![whole], 0),
{
    reveal_with_fuel(in_order, 2);
    reveal_with_fuel(total, 2);
    assert(whole.subrange(0, whole.len() as int) =~= whole);
    assert(in_order(whole.take(0), seq![whole].drop_last()));
}

/// More at the end makes no difference to the parts.
pub proof fn made_of_more<T>(whole: Seq<T>, parts: Seq<Seq<T>>, others: int, rest: Seq<T>, count: int)
    requires
        made_of(whole, parts, others),
        rest.len() <= count,
    ensures
        made_of(whole + rest, parts, others + count),
{
    made_of_both(whole, parts, others, rest, seq![], count);
    assert(parts + seq![] =~= parts);
}

} // verus!
