//! The ranking of functions and methods by size.
//!
//! Larger counts come first; among equal counts the names decide, in
//! ascending order, compared character by character by code point.

use vstd::prelude::*;
use vstd::relations::{sorted_by, total_ordering};
use vstd::seq_lib::lemma_multiset_commutative;
use vstd::std_specs::iter::IteratorSpec;
use vstd::utf8::char_u32_cast;
use crate::sorting::{
    distinct_ranks, lemma_insert_point, lemma_insert_point_is,
    lemma_lex_antisymmetric, lemma_lex_reflexive, lemma_lex_total, lemma_lex_transitive,
    lemma_stable_sorted, lemma_stable_sorted_push, lemma_stable_sorted_unique, lex_le_by,
    order_of, stable_sorted, Sortable,
};
use crate::summary::{views, NamedLoc, NamedLocView};

verus! {

/// How many entries the ranking of a file keeps.
pub const TOP_FUNCTION_COUNT: usize = 3;

/// The rank of a character among names: its code point.
pub open spec fn code_point_rank() -> spec_fn(char) -> int {
    |c: char| c as u32 as int
}

/// Whether `a` comes before `b`, or equals it, in lexicographic order by
/// code point.
pub open spec fn lex_le(a: Seq<char>, b: Seq<char>) -> bool {
    lex_le_by(a, b, code_point_rank())
}

/// No two characters have the same code point.
pub proof fn lemma_code_points_distinct()
    ensures
        distinct_ranks(code_point_rank()),
{
    let rank = code_point_rank();
    assert forall|x: char, y: char| #[trigger] rank(x) == #[trigger] rank(y) implies x == y by {
        char_u32_cast(x, x as u32);
        char_u32_cast(y, y as u32);
    }
}

/// Whether `a` ranks before `b` or equal to it: by larger count first, then
/// by name in ascending order.
pub open spec fn ranks_before(a: NamedLocView, b: NamedLocView) -> bool {
    a.loc > b.loc || (a.loc == b.loc && lex_le(a.name, b.name))
}

impl Sortable for NamedLoc {
    open spec fn leq(a: NamedLocView, b: NamedLocView) -> bool {
        ranks_before(a, b)
    }

    proof fn lemma_leq_preorder() {
        let r = |a: NamedLocView, b: NamedLocView| Self::leq(a, b);
        let rank = code_point_rank();
        lemma_code_points_distinct();
        assert forall|x: NamedLocView| #[trigger] r(x, x) by {
            lemma_lex_reflexive(x.name, rank);
        }
        assert forall|x: NamedLocView, y: NamedLocView, z: NamedLocView| #[trigger]
            r(x, y) && #[trigger] r(y, z) implies r(x, z) by {
            if x.loc == y.loc && y.loc == z.loc {
                lemma_lex_transitive(x.name, y.name, z.name, rank);
            }
        }
        assert forall|x: NamedLocView, y: NamedLocView| #[trigger] r(x, y) || #[trigger] r(
            y,
            x,
        ) by {
            lemma_lex_total(x.name, y.name, rank);
        }
    }

    fn before(&self, other: &Self) -> (r: bool) {
        ranks_first(self, other)
    }

    fn duplicate(&self) -> (copy: Self) {
        self.clone()
    }
}

/// The ranking order as a relation.
pub open spec fn rank_order() -> spec_fn(NamedLocView, NamedLocView) -> bool {
    order_of::<NamedLoc>()
}

/// The entries of `pool` in ranking order.
pub open spec fn ranked(pool: Seq<NamedLocView>) -> Seq<NamedLocView> {
    stable_sorted(pool, rank_order())
}

/// How many entries the ranking of `count` candidates keeps.
pub open spec fn top_len(count: nat) -> int {
    if count < TOP_FUNCTION_COUNT {
        count as int
    } else {
        TOP_FUNCTION_COUNT as int
    }
}

/// The first entries of `pool` in ranking order, as many as the ranking
/// keeps.
pub open spec fn top_ranked(pool: Seq<NamedLocView>) -> Seq<NamedLocView> {
    ranked(pool).take(top_len(pool.len()))
}

/// The ranking order is a total order on the values of entries: it tells
/// any two different values apart.
pub proof fn lemma_rank_order_total()
    ensures
        total_ordering(rank_order()),
{
    let r = rank_order();
    NamedLoc::lemma_leq_preorder();
    assert forall|x: NamedLocView, y: NamedLocView| #[trigger] r(x, y) && #[trigger] r(y, x) implies x
        == y by {
        lemma_lex_antisymmetric(x.name, y.name, code_point_rank());
    }
}

/// The ranking of a pool is sorted by the ranking order and holds exactly
/// the entries of the pool, each as often as the pool does.
pub proof fn lemma_ranked(pool: Seq<NamedLocView>)
    ensures
        sorted_by(ranked(pool), rank_order()),
        ranked(pool).to_multiset() == pool.to_multiset(),
        ranked(pool).len() == pool.len(),
{
    lemma_rank_order_total();
    lemma_stable_sorted(pool, rank_order());
}

/// The ranking does not depend on the order in which the candidates were
/// found: two pools with the same entries, each as often in one as in the
/// other, have the same ranking.
pub proof fn lemma_top_ranked_order_independent(first: Seq<NamedLocView>, second: Seq<NamedLocView>)
    requires
        first.to_multiset() == second.to_multiset(),
    ensures
        ranked(first) == ranked(second),
        top_ranked(first) == top_ranked(second),
{
    lemma_rank_order_total();
    lemma_stable_sorted_unique(first, second, rank_order());
    lemma_ranked(first);
    lemma_ranked(second);
}

/// The ranking holds at most three entries, and each of them ranks before
/// the ones behind it or equal to them: larger counts first, and among equal
/// counts the names in ascending order.
pub proof fn lemma_top_ranked_sorted(pool: Seq<NamedLocView>)
    ensures
        top_ranked(pool).len() == top_len(pool.len()),
        top_ranked(pool).len() <= TOP_FUNCTION_COUNT,
        forall|i: int, j: int|
            0 <= i < j < top_ranked(pool).len() ==> ranks_before(
                #[trigger] top_ranked(pool)[i],
                #[trigger] top_ranked(pool)[j],
            ),
{
    lemma_ranked(pool);
    let all = ranked(pool);
    let top = top_ranked(pool);
    assert forall|i: int, j: int| 0 <= i < j < top.len() implies ranks_before(
        #[trigger] top[i],
        #[trigger] top[j],
    ) by {
        assert(rank_order()(all[i], all[j]));
    }
}

/// The candidates that the ranking leaves out: those behind the first three
/// in ranking order.
pub open spec fn not_selected(pool: Seq<NamedLocView>) -> Seq<NamedLocView> {
    ranked(pool).skip(top_len(pool.len()))
}

/// The ranking and the candidates it leaves out make up the pool, and no
/// candidate left out has a larger count than an entry of the ranking.
pub proof fn lemma_top_ranked_dominates(pool: Seq<NamedLocView>)
    ensures
        pool.to_multiset() == top_ranked(pool).to_multiset().add(not_selected(pool).to_multiset()),
        forall|i: int, j: int|
            0 <= i < top_ranked(pool).len() && 0 <= j < not_selected(pool).len()
                ==> #[trigger] top_ranked(pool)[i].loc >= #[trigger] not_selected(pool)[j].loc,
{
    lemma_ranked(pool);
    let all = ranked(pool);
    let top = top_ranked(pool);
    let rest = not_selected(pool);
    assert(all =~= top + rest);
    lemma_multiset_commutative(top, rest);
    assert forall|i: int, j: int| 0 <= i < top.len() && 0 <= j < rest.len() implies #[trigger] top[i].loc
        >= #[trigger] rest[j].loc by {
        assert(rank_order()(all[i], all[top.len() + j]));
    }
}

/// Decides whether the name `a` comes before the name `b` or equals it.
pub fn name_le(a: &str, b: &str) -> (r: bool)
    ensures
        r == lex_le(a@, b@),
{
    let mut left = a.chars();
    let mut right = b.chars();
    loop
        invariant
            left.obeys_prophetic_iter_laws(),
            right.obeys_prophetic_iter_laws(),
            left.decrease() is Some,
            lex_le(a@, b@) == lex_le(left.remaining(), right.remaining()),
        decreases left.decrease()->0,
    {
        let x = left.next();
        match x {
            None => {
                return true;
            },
            Some(c) => {
                let y = right.next();
                match y {
                    None => {
                        return false;
                    },
                    Some(d) => {
                        if c != d {
                            return (c as u32) < (d as u32);
                        }
                    },
                }
            },
        }
    }
}

/// Decides whether `a` ranks before `b` or equal to it.
pub fn ranks_first(a: &NamedLoc, b: &NamedLoc) -> (r: bool)
    ensures
        r == ranks_before(a@, b@),
{
    a.loc > b.loc || (a.loc == b.loc && name_le(a.name.as_str(), b.name.as_str()))
}

/// Ranks the entries of `pool` and keeps the first three.
pub fn top_functions(pool: &Vec<NamedLoc>) -> (top: Vec<NamedLoc>)
    ensures
        views(top@) == top_ranked(views(pool@)),
{
    let mut top: Vec<NamedLoc> = Vec::new();
    let mut i: usize = 0;
    proof {
        lemma_ranked(views(pool@.take(0)));
        assert(views(top@) =~= top_ranked(views(pool@.take(0))));
    }
    while i < pool.len()
        invariant
            i <= pool.len(),
            views(top@) == top_ranked(views(pool@.take(i as int))),
        decreases pool.len() - i,
    {
        let ghost seen = views(pool@.take(i as int));
        let ghost before = ranked(seen);
        let entry = &pool[i];
        proof {
            lemma_ranked(seen);
            lemma_stable_sorted_push(seen, entry@, rank_order());
            lemma_insert_point(before, entry@, rank_order());
            assert(views(pool@.take(i + 1)) =~= seen.push(entry@));
            assert(views(top@).len() == top.len());
        }
        let mut at: usize = 0;
        while at < top.len() && ranks_first(&top[at], entry)
            invariant
                at <= top.len(),
                before.len() == seen.len(),
                top.len() == top_len(seen.len()),
                views(top@) == before.take(top_len(seen.len())),
                forall|k: int| 0 <= k < at ==> ranks_before(#[trigger] before[k], entry@),
            decreases top.len() - at,
        {
            assert(views(top@)[at as int] == before[at as int]);
            at = at + 1;
        }
        proof {
            if at < top.len() {
                assert(views(top@)[at as int] == before[at as int]);
            }
            lemma_insert_point_is(before, entry@, rank_order(), at as int, top.len() as int);
        }
        if at < TOP_FUNCTION_COUNT {
            top.insert(at, entry.clone());
            top.truncate(TOP_FUNCTION_COUNT);
        }
        assert(views(top@) =~= top_ranked(seen.push(entry@)));
        i = i + 1;
    }
    assert(pool@.take(i as int) =~= pool@);
    top
}

} // verus!
