//! The order in which a rendered report lists the entries of a file.
//!
//! Every list is shown with the larger counts first. Among equal counts,
//! named entries go by name, as in the ranking; methods and implementation
//! blocks go by the trait they belong to, those without a trait first, then
//! by type and method name.

use vstd::prelude::*;
use crate::ranking::{code_point_rank, lemma_code_points_distinct, lex_le, name_le};
use crate::sorting::{
    lemma_lex_antisymmetric, lemma_lex_reflexive, lemma_lex_total, lemma_lex_transitive, Sortable,
};
use crate::summary::{
    option_text, ImplBlockLoc, ImplBlockLocView, ImplMethodLoc, ImplMethodLocView,
    TraitMethodLoc, TraitMethodLocView,
};

verus! {

/// Whether the optional name `a` comes before `b` or equals it: no name
/// comes first, then the names in their order.
pub open spec fn option_le(a: Option<Seq<char>>, b: Option<Seq<char>>) -> bool {
    match (a, b) {
        (None, _) => true,
        (Some(_), None) => false,
        (Some(x), Some(y)) => lex_le(x, y),
    }
}

/// The order of implementation methods: larger counts first, then by trait,
/// by type and by method name.
pub open spec fn impl_method_le(a: ImplMethodLocView, b: ImplMethodLocView) -> bool {
    if a.loc != b.loc {
        a.loc > b.loc
    } else if a.trait_name != b.trait_name {
        option_le(a.trait_name, b.trait_name)
    } else if a.impl_target != b.impl_target {
        lex_le(a.impl_target, b.impl_target)
    } else {
        lex_le(a.method_name, b.method_name)
    }
}

/// The order of trait methods: larger counts first, then by trait and by
/// method name.
pub open spec fn trait_method_le(a: TraitMethodLocView, b: TraitMethodLocView) -> bool {
    if a.loc != b.loc {
        a.loc > b.loc
    } else if a.trait_name != b.trait_name {
        lex_le(a.trait_name, b.trait_name)
    } else {
        lex_le(a.method_name, b.method_name)
    }
}

/// The order of implementation blocks: larger counts first, then by trait
/// and by type.
pub open spec fn impl_block_le(a: ImplBlockLocView, b: ImplBlockLocView) -> bool {
    if a.loc != b.loc {
        a.loc > b.loc
    } else if a.trait_name != b.trait_name {
        option_le(a.trait_name, b.trait_name)
    } else {
        lex_le(a.target, b.target)
    }
}

/// What the order of names gives for three names.
pub proof fn lemma_names_in_order(a: Seq<char>, b: Seq<char>, c: Seq<char>)
    ensures
        lex_le(a, a),
        lex_le(a, b) || lex_le(b, a),
        lex_le(a, b) && lex_le(b, a) ==> a == b,
        lex_le(b, c) && lex_le(c, b) ==> b == c,
        lex_le(a, b) && lex_le(b, c) ==> lex_le(a, c),
{
    let rank = code_point_rank();
    lemma_code_points_distinct();
    lemma_lex_reflexive(a, rank);
    lemma_lex_total(a, b, rank);
    if lex_le(a, b) && lex_le(b, a) {
        lemma_lex_antisymmetric(a, b, rank);
    }
    if lex_le(b, c) && lex_le(c, b) {
        lemma_lex_antisymmetric(b, c, rank);
    }
    if lex_le(a, b) && lex_le(b, c) {
        lemma_lex_transitive(a, b, c, rank);
    }
}

/// What the order of optional names gives for three of them.
pub proof fn lemma_options_in_order(
    a: Option<Seq<char>>,
    b: Option<Seq<char>>,
    c: Option<Seq<char>>,
)
    ensures
        option_le(a, a),
        option_le(a, b) || option_le(b, a),
        option_le(a, b) && option_le(b, a) ==> a == b,
        option_le(b, c) && option_le(c, b) ==> b == c,
        option_le(a, b) && option_le(b, c) ==> option_le(a, c),
{
    match (a, b, c) {
        (Some(x), Some(y), Some(z)) => {
            lemma_names_in_order(x, y, z);
        },
        (Some(x), Some(y), None) => {
            lemma_names_in_order(x, y, y);
        },
        (Some(x), None, Some(z)) => {
            lemma_names_in_order(x, x, z);
        },
        (None, Some(y), Some(z)) => {
            lemma_names_in_order(y, y, z);
        },
        (Some(x), None, None) => {
            lemma_names_in_order(x, x, x);
        },
        _ => {},
    }
}

/// Decides whether two optional names are the same.
fn same_option(a: &Option<String>, b: &Option<String>) -> (same: bool)
    ensures
        same == (option_text(*a) == option_text(*b)),
{
    match (a, b) {
        (None, None) => true,
        (Some(x), Some(y)) => *x == *y,
        _ => false,
    }
}

/// Decides whether the optional name `a` comes before `b` or equals it.
fn option_before(a: &Option<String>, b: &Option<String>) -> (r: bool)
    ensures
        r == option_le(option_text(*a), option_text(*b)),
{
    match (a, b) {
        (None, _) => true,
        (Some(_), None) => false,
        (Some(x), Some(y)) => name_le(x.as_str(), y.as_str()),
    }
}

impl Sortable for ImplMethodLoc {
    open spec fn leq(a: ImplMethodLocView, b: ImplMethodLocView) -> bool {
        impl_method_le(a, b)
    }

    proof fn lemma_leq_preorder() {
        let r = |a: ImplMethodLocView, b: ImplMethodLocView| Self::leq(a, b);
        assert forall|x: ImplMethodLocView| #[trigger] r(x, x) by {
            lemma_names_in_order(x.method_name, x.method_name, x.method_name);
        }
        assert forall|x: ImplMethodLocView, y: ImplMethodLocView, z: ImplMethodLocView| #[trigger]
            r(x, y) && #[trigger] r(y, z) implies r(x, z) by {
            lemma_options_in_order(x.trait_name, y.trait_name, z.trait_name);
            lemma_names_in_order(x.impl_target, y.impl_target, z.impl_target);
            lemma_names_in_order(x.method_name, y.method_name, z.method_name);
        }
        assert forall|x: ImplMethodLocView, y: ImplMethodLocView| #[trigger] r(x, y)
            || #[trigger] r(y, x) by {
            lemma_options_in_order(x.trait_name, y.trait_name, y.trait_name);
            lemma_names_in_order(x.impl_target, y.impl_target, y.impl_target);
            lemma_names_in_order(x.method_name, y.method_name, y.method_name);
        }
    }

    fn before(&self, other: &Self) -> (r: bool) {
        if self.loc != other.loc {
            self.loc > other.loc
        } else if !same_option(&self.trait_name, &other.trait_name) {
            option_before(&self.trait_name, &other.trait_name)
        } else if !(self.impl_target == other.impl_target) {
            name_le(self.impl_target.as_str(), other.impl_target.as_str())
        } else {
            name_le(self.method_name.as_str(), other.method_name.as_str())
        }
    }

    fn duplicate(&self) -> (copy: Self) {
        self.clone()
    }
}

impl Sortable for TraitMethodLoc {
    open spec fn leq(a: TraitMethodLocView, b: TraitMethodLocView) -> bool {
        trait_method_le(a, b)
    }

    proof fn lemma_leq_preorder() {
        let r = |a: TraitMethodLocView, b: TraitMethodLocView| Self::leq(a, b);
        assert forall|x: TraitMethodLocView| #[trigger] r(x, x) by {
            lemma_names_in_order(x.method_name, x.method_name, x.method_name);
        }
        assert forall|x: TraitMethodLocView, y: TraitMethodLocView, z: TraitMethodLocView| #[trigger]
            r(x, y) && #[trigger] r(y, z) implies r(x, z) by {
            lemma_names_in_order(x.trait_name, y.trait_name, z.trait_name);
            lemma_names_in_order(x.method_name, y.method_name, z.method_name);
        }
        assert forall|x: TraitMethodLocView, y: TraitMethodLocView| #[trigger] r(x, y)
            || #[trigger] r(y, x) by {
            lemma_names_in_order(x.trait_name, y.trait_name, y.trait_name);
            lemma_names_in_order(x.method_name, y.method_name, y.method_name);
        }
    }

    fn before(&self, other: &Self) -> (r: bool) {
        if self.loc != other.loc {
            self.loc > other.loc
        } else if !(self.trait_name == other.trait_name) {
            name_le(self.trait_name.as_str(), other.trait_name.as_str())
        } else {
            name_le(self.method_name.as_str(), other.method_name.as_str())
        }
    }

    fn duplicate(&self) -> (copy: Self) {
        self.clone()
    }
}

impl Sortable for ImplBlockLoc {
    open spec fn leq(a: ImplBlockLocView, b: ImplBlockLocView) -> bool {
        impl_block_le(a, b)
    }

    proof fn lemma_leq_preorder() {
        let r = |a: ImplBlockLocView, b: ImplBlockLocView| Self::leq(a, b);
        assert forall|x: ImplBlockLocView| #[trigger] r(x, x) by {
            lemma_names_in_order(x.target, x.target, x.target);
        }
        assert forall|x: ImplBlockLocView, y: ImplBlockLocView, z: ImplBlockLocView| #[trigger]
            r(x, y) && #[trigger] r(y, z) implies r(x, z) by {
            lemma_options_in_order(x.trait_name, y.trait_name, z.trait_name);
            lemma_names_in_order(x.target, y.target, z.target);
        }
        assert forall|x: ImplBlockLocView, y: ImplBlockLocView| #[trigger] r(x, y) || #[trigger] r(
            y,
            x,
        ) by {
            lemma_options_in_order(x.trait_name, y.trait_name, y.trait_name);
            lemma_names_in_order(x.target, y.target, y.target);
        }
    }

    fn before(&self, other: &Self) -> (r: bool) {
        if self.loc != other.loc {
            self.loc > other.loc
        } else if !same_option(&self.trait_name, &other.trait_name) {
            option_before(&self.trait_name, &other.trait_name)
        } else {
            name_le(self.target.as_str(), other.target.as_str())
        }
    }

    fn duplicate(&self) -> (copy: Self) {
        self.clone()
    }
}

} // verus!
