//! Stable sorting, stated once for every list and order of the crate.
//!
//! A list is sorted by entering its entries one by one into a sorted list,
//! each behind the entries that come before it or are equal to it. Entries
//! that the order does not tell apart keep the order in which they came.

use vstd::prelude::*;
use vstd::relations::{reflexive, sorted_by, strongly_connected, total_ordering, transitive};
use vstd::seq_lib::{lemma_sorted_unique, to_multiset_build, to_multiset_insert, to_multiset_len};
use crate::summary::views;

verus! {

/// An order that compares any two values and is reflexive and transitive;
/// different values may be equal in it.
pub open spec fn total_preorder<A>(leq: spec_fn(A, A) -> bool) -> bool {
    &&& reflexive(leq)
    &&& transitive(leq)
    &&& strongly_connected(leq)
}

/// Where a new entry goes in a sorted list: behind the leading entries that
/// come before it or are equal to it.
pub open spec fn insert_point<A>(sorted: Seq<A>, entry: A, leq: spec_fn(A, A) -> bool) -> int
    decreases sorted.len(),
{
    if sorted.len() == 0 || !leq(sorted[0], entry) {
        0
    } else {
        1 + insert_point(sorted.drop_first(), entry, leq)
    }
}

/// The entries of `pool`, stably sorted by `leq`.
pub open spec fn stable_sorted<A>(pool: Seq<A>, leq: spec_fn(A, A) -> bool) -> Seq<A>
    decreases pool.len(),
{
    if pool.len() == 0 {
        Seq::empty()
    } else {
        let front = stable_sorted(pool.drop_last(), leq);
        front.insert(insert_point(front, pool.last(), leq), pool.last())
    }
}

/// The insert point lies within the list or at its end; everything before
/// it comes before the entry or equals it, and what stands at it does not.
pub proof fn lemma_insert_point<A>(sorted: Seq<A>, entry: A, leq: spec_fn(A, A) -> bool)
    ensures
        0 <= insert_point(sorted, entry, leq) <= sorted.len(),
        forall|i: int|
            0 <= i < insert_point(sorted, entry, leq) ==> leq(#[trigger] sorted[i], entry),
        insert_point(sorted, entry, leq) < sorted.len() ==> !leq(
            sorted[insert_point(sorted, entry, leq)],
            entry,
        ),
    decreases sorted.len(),
{
    if sorted.len() == 0 || !leq(sorted[0], entry) {
    } else {
        let rest = sorted.drop_first();
        lemma_insert_point(rest, entry, leq);
        assert forall|i: int| 0 <= i < insert_point(sorted, entry, leq) implies leq(
            #[trigger] sorted[i],
            entry,
        ) by {
            if i > 0 {
                assert(sorted[i] == rest[i - 1]);
            }
        }
    }
}

/// A place is the insert point if everything before it comes before the
/// entry or equals it and what stands at it does not; and if the first
/// `known` entries all come before the entry or equal it, the insert point is
/// not among them.
pub proof fn lemma_insert_point_is<A>(
    sorted: Seq<A>,
    entry: A,
    leq: spec_fn(A, A) -> bool,
    at: int,
    known: int,
)
    requires
        0 <= at <= known <= sorted.len(),
        forall|k: int| 0 <= k < at ==> leq(#[trigger] sorted[k], entry),
        at < known ==> !leq(sorted[at], entry),
    ensures
        at < known ==> insert_point(sorted, entry, leq) == at,
        at == known ==> insert_point(sorted, entry, leq) >= known,
{
    lemma_insert_point(sorted, entry, leq);
    let p = insert_point(sorted, entry, leq);
    if p < at {
        assert(leq(sorted[p], entry));
    }
    if at < known && p > at {
        assert(leq(sorted[at], entry));
    }
}

/// Entering an entry at its insert point keeps a sorted list sorted.
pub proof fn lemma_insert_keeps_sorted<A>(sorted: Seq<A>, entry: A, leq: spec_fn(A, A) -> bool)
    requires
        total_preorder(leq),
        sorted_by(sorted, leq),
    ensures
        sorted_by(sorted.insert(insert_point(sorted, entry, leq), entry), leq),
{
    let at = insert_point(sorted, entry, leq);
    let after = sorted.insert(at, entry);
    lemma_insert_point(sorted, entry, leq);
    sorted.insert_ensures(at, entry);
    assert forall|i: int, j: int| 0 <= i < j < after.len() implies #[trigger] leq(
        after[i],
        after[j],
    ) by {
        if j < at {
            assert(leq(sorted[i], sorted[j]));
        } else if j == at {
            assert(leq(sorted[i], entry));
        } else if i == at {
            assert(after[j] == sorted[j - 1]);
            assert(!leq(sorted[at], entry));
            assert(leq(sorted[at], entry) || leq(entry, sorted[at]));
            if j - 1 > at {
                assert(leq(sorted[at], sorted[j - 1]));
            }
            assert(leq(entry, sorted[at]) && leq(sorted[at], sorted[j - 1]) ==> leq(
                entry,
                sorted[j - 1],
            ));
        } else if i < at {
            assert(after[j] == sorted[j - 1]);
            assert(leq(sorted[i], sorted[j - 1]));
        } else {
            assert(after[i] == sorted[i - 1]);
            assert(after[j] == sorted[j - 1]);
            assert(leq(sorted[i - 1], sorted[j - 1]));
        }
    }
}

/// Sorting a list with one more entry enters that entry into the sorted
/// list.
pub proof fn lemma_stable_sorted_push<A>(pool: Seq<A>, entry: A, leq: spec_fn(A, A) -> bool)
    ensures
        stable_sorted(pool.push(entry), leq) == stable_sorted(pool, leq).insert(
            insert_point(stable_sorted(pool, leq), entry, leq),
            entry,
        ),
{
    assert(pool.push(entry).drop_last() =~= pool);
}

/// A sorted list is in order and holds exactly the entries it was made
/// from, each as often.
pub proof fn lemma_stable_sorted<A>(pool: Seq<A>, leq: spec_fn(A, A) -> bool)
    requires
        total_preorder(leq),
    ensures
        sorted_by(stable_sorted(pool, leq), leq),
        stable_sorted(pool, leq).to_multiset() == pool.to_multiset(),
        stable_sorted(pool, leq).len() == pool.len(),
    decreases pool.len(),
{
    if pool.len() == 0 {
        assert(pool =~= Seq::<A>::empty());
    } else {
        let front = stable_sorted(pool.drop_last(), leq);
        lemma_stable_sorted(pool.drop_last(), leq);
        lemma_insert_point(front, pool.last(), leq);
        lemma_insert_keeps_sorted(front, pool.last(), leq);
        to_multiset_insert(front, insert_point(front, pool.last(), leq), pool.last());
        to_multiset_build(pool.drop_last(), pool.last());
        assert(pool.drop_last().push(pool.last()) =~= pool);
    }
    to_multiset_len(pool);
    to_multiset_len(stable_sorted(pool, leq));
}

/// Under an order that tells all values apart, the sorted list does not
/// depend on the order in which the entries came.
pub proof fn lemma_stable_sorted_unique<A>(first: Seq<A>, second: Seq<A>, leq: spec_fn(A, A) -> bool)
    requires
        total_ordering(leq),
        first.to_multiset() == second.to_multiset(),
    ensures
        stable_sorted(first, leq) == stable_sorted(second, leq),
{
    lemma_stable_sorted(first, leq);
    lemma_stable_sorted(second, leq);
    lemma_sorted_unique(stable_sorted(first, leq), stable_sorted(second, leq), leq);
}

/// Whether `a` comes before `b`, or equals it, when texts are compared
/// character by character from the left and characters by their `rank`; a
/// text comes before every text that it begins.
pub open spec fn lex_le_by(a: Seq<char>, b: Seq<char>, rank: spec_fn(char) -> int) -> bool
    decreases a.len(),
{
    if a.len() == 0 {
        true
    } else if b.len() == 0 {
        false
    } else if a[0] == b[0] {
        lex_le_by(a.drop_first(), b.drop_first(), rank)
    } else {
        rank(a[0]) < rank(b[0])
    }
}

/// No two characters have the same rank.
pub open spec fn distinct_ranks(rank: spec_fn(char) -> int) -> bool {
    forall|x: char, y: char| #[trigger] rank(x) == #[trigger] rank(y) ==> x == y
}

/// Every text comes before or equals itself.
pub proof fn lemma_lex_reflexive(a: Seq<char>, rank: spec_fn(char) -> int)
    ensures
        lex_le_by(a, a, rank),
    decreases a.len(),
{
    if a.len() > 0 {
        lemma_lex_reflexive(a.drop_first(), rank);
    }
}

/// Two texts that each come before or equal the other are the same text.
pub proof fn lemma_lex_antisymmetric(a: Seq<char>, b: Seq<char>, rank: spec_fn(char) -> int)
    requires
        lex_le_by(a, b, rank),
        lex_le_by(b, a, rank),
    ensures
        a == b,
    decreases a.len(),
{
    if a.len() == 0 || b.len() == 0 {
        assert(a =~= b);
    } else {
        lemma_lex_antisymmetric(a.drop_first(), b.drop_first(), rank);
        assert(a =~= seq![a[0]] + a.drop_first());
        assert(b =~= seq![b[0]] + b.drop_first());
    }
}

/// The order of texts is transitive.
pub proof fn lemma_lex_transitive(
    a: Seq<char>,
    b: Seq<char>,
    c: Seq<char>,
    rank: spec_fn(char) -> int,
)
    requires
        lex_le_by(a, b, rank),
        lex_le_by(b, c, rank),
    ensures
        lex_le_by(a, c, rank),
    decreases a.len(),
{
    if a.len() > 0 && b.len() > 0 && c.len() > 0 {
        if a[0] == b[0] && b[0] == c[0] {
            lemma_lex_transitive(a.drop_first(), b.drop_first(), c.drop_first(), rank);
        }
    }
}

/// Of two texts, one comes before or equals the other.
pub proof fn lemma_lex_total(a: Seq<char>, b: Seq<char>, rank: spec_fn(char) -> int)
    requires
        distinct_ranks(rank),
    ensures
        lex_le_by(a, b, rank) || lex_le_by(b, a, rank),
    decreases a.len(),
{
    if a.len() > 0 && b.len() > 0 {
        if a[0] == b[0] {
            lemma_lex_total(a.drop_first(), b.drop_first(), rank);
        } else {
            assert(rank(a[0]) != rank(b[0]));
        }
    }
}

/// A type whose values can be put in order by what they stand for.
pub trait Sortable: View + Sized {
    /// Whether the value `a` comes before the value `b` or equals it.
    spec fn leq(a: Self::V, b: Self::V) -> bool;

    /// The order compares any two values and is reflexive and transitive.
    proof fn lemma_leq_preorder()
        ensures
            total_preorder(|a: Self::V, b: Self::V| Self::leq(a, b)),
    ;

    /// Decides whether `self` comes before `other` or equals it.
    fn before(&self, other: &Self) -> (r: bool)
        ensures
            r == Self::leq(self@, other@),
    ;

    /// A copy of `self` that stands for the same value.
    fn duplicate(&self) -> (copy: Self)
        ensures
            copy@ == self@,
    ;
}

/// The order of a sortable type as a relation.
pub open spec fn order_of<T: Sortable>() -> spec_fn(T::V, T::V) -> bool {
    |a: T::V, b: T::V| T::leq(a, b)
}

/// Enters `entry` into a sorted list at its place: behind the entries that
/// come before it or equal it.
pub fn insert_sorted<T: Sortable>(sorted: &mut Vec<T>, entry: T)
    requires
        sorted_by(views(old(sorted)@), order_of::<T>()),
    ensures
        views(final(sorted)@) == views(old(sorted)@).insert(
            insert_point(views(old(sorted)@), entry@, order_of::<T>()),
            entry@,
        ),
        sorted_by(views(final(sorted)@), order_of::<T>()),
{
    let ghost leq = order_of::<T>();
    let ghost before = views(sorted@);
    proof {
        T::lemma_leq_preorder();
        lemma_insert_point(before, entry@, leq);
        lemma_insert_keeps_sorted(before, entry@, leq);
    }
    let mut at: usize = sorted.len();
    while at > 0 && !sorted[at - 1].before(&entry)
        invariant
            at <= sorted.len(),
            views(sorted@) == before,
            leq == order_of::<T>(),
            forall|k: int| at <= k < sorted.len() ==> !leq(#[trigger] before[k], entry@),
        decreases at,
    {
        at = at - 1;
    }
    proof {
        assert forall|k: int| 0 <= k < at implies leq(#[trigger] before[k], entry@) by {
            assert(leq(before[at - 1], entry@));
            if k < at - 1 {
                assert(leq(before[k], before[at - 1]));
            }
        }
        lemma_insert_point_is(before, entry@, leq, at as int, sorted.len() as int);
    }
    sorted.insert(at, entry);
    assert(views(sorted@) =~= before.insert(at as int, entry@));
}

/// Copies of `entries`, stably sorted by the order of their type.
pub fn stable_sort<T: Sortable>(entries: &[T]) -> (sorted: Vec<T>)
    ensures
        views(sorted@) == stable_sorted(views(entries@), order_of::<T>()),
{
    let mut sorted: Vec<T> = Vec::new();
    let mut i: usize = 0;
    proof {
        assert(views(sorted@) =~= stable_sorted(views(entries@.take(0)), order_of::<T>()));
    }
    while i < entries.len()
        invariant
            i <= entries.len(),
            views(sorted@) == stable_sorted(views(entries@.take(i as int)), order_of::<T>()),
        decreases entries.len() - i,
    {
        let entry = entries[i].duplicate();
        proof {
            let read = views(entries@.take(i as int));
            T::lemma_leq_preorder();
            lemma_stable_sorted(read, order_of::<T>());
            assert(views(entries@.take(i + 1)) =~= read.push(entry@));
            lemma_stable_sorted_push(read, entry@, order_of::<T>());
        }
        insert_sorted(&mut sorted, entry);
        i = i + 1;
    }
    assert(entries@.take(i as int) =~= entries@);
    sorted
}

} // verus!
