//! Sequences without repetition: keeping the first occurrence of each item.

use vstd::prelude::*;

verus! {

/// `acc`, followed by those items of `s` that occur neither in `acc` nor
/// earlier in `s`, in the order of their first occurrence.
pub open spec fn absorb<A>(acc: Seq<A>, s: Seq<A>) -> Seq<A>
    decreases s.len(),
{
    if s.len() == 0 {
        acc
    } else {
        let before = absorb(acc, s.drop_last());
        if before.contains(s.last()) {
            before
        } else {
            before.push(s.last())
        }
    }
}

/// The items of `s`, each once, in the order of their first occurrence.
pub open spec fn distinct<A>(s: Seq<A>) -> Seq<A> {
    absorb(Seq::empty(), s)
}

/// Absorbing one more item either changes nothing or appends that item.
pub proof fn lemma_absorb_next<A>(acc: Seq<A>, s: Seq<A>, i: int)
    requires
        0 <= i < s.len(),
    ensures
        absorb(acc, s.take(i + 1)) == if absorb(acc, s.take(i)).contains(s[i]) {
            absorb(acc, s.take(i))
        } else {
            absorb(acc, s.take(i)).push(s[i])
        },
{
    assert(s.take(i + 1).drop_last() =~= s.take(i));
}

/// Absorbing leaves what was there in place, at the front.
pub proof fn lemma_absorb_keeps_front<A>(acc: Seq<A>, s: Seq<A>)
    ensures
        acc.len() <= absorb(acc, s).len(),
        forall|i: int| 0 <= i < acc.len() ==> absorb(acc, s)[i] == acc[i],
    decreases s.len(),
{
    if s.len() > 0 {
        lemma_absorb_keeps_front(acc, s.drop_last());
    }
}

/// Absorbing adds no more than it is given.
pub proof fn lemma_absorb_len<A>(acc: Seq<A>, s: Seq<A>)
    ensures
        absorb(acc, s).len() <= acc.len() + s.len(),
    decreases s.len(),
{
    if s.len() > 0 {
        lemma_absorb_len(acc, s.drop_last());
    }
}

/// Absorbing never introduces a repetition.
pub proof fn lemma_absorb_no_duplicates<A>(acc: Seq<A>, s: Seq<A>)
    requires
        acc.no_duplicates(),
    ensures
        absorb(acc, s).no_duplicates(),
    decreases s.len(),
{
    if s.len() > 0 {
        lemma_absorb_no_duplicates(acc, s.drop_last());
    }
}

/// What the result holds is what either argument held.
pub proof fn lemma_absorb_contains<A>(acc: Seq<A>, s: Seq<A>, x: A)
    ensures
        absorb(acc, s).contains(x) <==> acc.contains(x) || s.contains(x),
    decreases s.len(),
{
    if s.len() > 0 {
        let before = absorb(acc, s.drop_last());
        lemma_absorb_contains(acc, s.drop_last(), x);
        if s.contains(x) {
            let i = choose|i: int| 0 <= i < s.len() && s[i] == x;
            if i < s.len() - 1 {
                assert(s.drop_last()[i] == x);
            }
        }
        if s.drop_last().contains(x) {
            let i = choose|i: int| 0 <= i < s.drop_last().len() && s.drop_last()[i] == x;
            assert(s[i] == x);
        }
        if !before.contains(s.last()) {
            assert(before.push(s.last())[before.len() as int] == s.last());
            if before.contains(x) {
                let i = choose|i: int| 0 <= i < before.len() && before[i] == x;
                assert(before.push(s.last())[i] == x);
            }
        }
    }
}

/// Absorbing a concatenation is absorbing its two parts in turn.
pub proof fn lemma_absorb_concat<A>(acc: Seq<A>, s: Seq<A>, t: Seq<A>)
    ensures
        absorb(acc, s + t) == absorb(absorb(acc, s), t),
    decreases t.len(),
{
    if t.len() == 0 {
        assert(s + t =~= s);
    } else {
        assert((s + t).drop_last() =~= s + t.drop_last());
        assert((s + t).last() == t.last());
        lemma_absorb_concat(acc, s, t.drop_last());
    }
}

/// A single item is distinct as it stands.
pub proof fn lemma_distinct_single<A>(x: A)
    ensures
        distinct(seq![x]) == seq![x],
{
    let one = seq![x];
    let none = Seq::<A>::empty();
    assert(one.drop_last() =~= none);
    assert(absorb(none, none) == none);
    assert(!none.contains(x));
    assert(none.push(x) =~= one);
}

/// `distinct` repeats nothing and holds exactly what `s` holds.
pub proof fn lemma_distinct<A>(s: Seq<A>)
    ensures
        distinct(s).no_duplicates(),
        forall|x: A| distinct(s).contains(x) <==> s.contains(x),
{
    lemma_absorb_no_duplicates(Seq::<A>::empty(), s);
    assert forall|x: A| distinct(s).contains(x) <==> s.contains(x) by {
        lemma_absorb_contains(Seq::<A>::empty(), s, x);
    }
}

} // verus!
