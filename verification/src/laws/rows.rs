//! Rows of anything, and what stands more in one than in another.

use vstd::prelude::*;

verus! {

/// Whether a row is another with something more at one place from `from` up to `to`.
pub open spec fn inserted<T>(
    with: Seq<T>,
    without: Seq<T>,
    more: Seq<T>,
    from: int,
    to: int,
) -> bool {
    exists|k: int|
        from <= k <= to <= without.len() && with == #[trigger] without.take(k) + more
            + without.skip(k)
}

pub proof fn lemma_inserted<T>(
    with: Seq<T>,
    without: Seq<T>,
    pre: Seq<T>,
    more: Seq<T>,
    post: Seq<T>,
    from: int,
    to: int,
)
    requires
        with == pre + more + post,
        without == pre + post,
        0 <= from <= pre.len() <= to <= without.len(),
    ensures
        inserted(with, without, more, from, to),
{
    let k = pre.len() as int;
    assert(without.take(k) =~= pre);
    assert(without.skip(k) =~= post);
    assert(with == without.take(k) + more + without.skip(k));
}

pub proof fn lemma_assoc<T>(a: Seq<T>, b: Seq<T>, c: Seq<T>)
    ensures
        a + b + c == a + (b + c),
{
    assert(a + b + c =~= a + (b + c));
}

pub proof fn lemma_empty<T>(a: Seq<T>)
    ensures
        a + Seq::<T>::empty() == a,
        Seq::<T>::empty() + a == a,
{
    assert(a + Seq::<T>::empty() =~= a);
    assert(Seq::<T>::empty() + a =~= a);
}

/// Something more in the middle of a row is something more in the whole row.
pub proof fn lemma_inserted_within<T>(
    with: Seq<T>,
    without: Seq<T>,
    more: Seq<T>,
    pre: Seq<T>,
    post: Seq<T>,
    from: int,
    to: int,
)
    requires
        inserted(with, without, more, 0, without.len() as int),
        0 <= from <= pre.len(),
        pre.len() + without.len() <= to <= pre.len() + without.len() + post.len(),
    ensures
        inserted(pre + with + post, pre + without + post, more, from, to),
{
    let k = choose|k: int|
        0 <= k <= without.len() && with == #[trigger] without.take(k) + more + without.skip(k);
    let a = pre + without.take(k);
    let b = without.skip(k) + post;
    assert(without.take(k) + without.skip(k) =~= without);
    assert(pre + with + post =~= a + more + b);
    assert(pre + without + post =~= a + b);
    lemma_inserted(pre + with + post, pre + without + post, a, more, b, from, to);
}

/// A row with one more holds that and what it held.
pub proof fn lemma_push_holds<T>(s: Seq<T>, x: T, y: T)
    ensures
        s.push(x).contains(y) <==> s.contains(y) || y == x,
{
    if s.contains(y) {
        let i = choose|i: int| 0 <= i < s.len() && s[i] == y;
        assert(s.push(x)[i] == y);
    }
    assert(s.push(x)[s.len() as int] == x);
}

} // verus!
