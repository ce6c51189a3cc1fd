//! Capability traits: one per expression shape, exposing exactly the
//! operators the backend defines for that shape.
//!
//! Each infix operator is implemented once, in [`crate::expr`]; the traits
//! only gate which operand combinations can be formed.  An operation absent
//! from a shape's trait is unreachable on expressions of that shape, so an
//! invalid combination is a compile-time type error, never a runtime one.

use vstd::prelude::*;

use crate::expr::Expr;
use crate::expr::infix;
use crate::sql::SpecAtom;
use crate::sql::infixed;
use crate::types::Array;
use crate::types::Bool;
use crate::types::Lquery;
use crate::types::Ltree;
use crate::types::Ltxtquery;

verus! {

/// Operations on a scalar `ltree` value expression.
pub trait LtreeExtensions: View<V = Seq<SpecAtom>> + Sized {
    /// `self @> other`: is this path an ancestor of (or equal to) `other`?
    fn contains(self, other: Expr<Ltree>) -> (r: Expr<Bool>)
        ensures
            r@ == infixed(self@, " @> "@, other@),
    ;

    /// `self @> other`: is this path an ancestor of any element of `other`?
    fn contains_any(self, other: Expr<Array<Ltree>>) -> (r: Expr<Bool>)
        ensures
            r@ == infixed(self@, " @> "@, other@),
    ;

    /// `self <@ other`: is this path a descendant of (or equal to) `other`?
    fn contained_by(self, other: Expr<Ltree>) -> (r: Expr<Bool>)
        ensures
            r@ == infixed(self@, " <@ "@, other@),
    ;

    /// `self <@ other`: is this path a descendant of any element of `other`?
    fn contained_by_any(self, other: Expr<Array<Ltree>>) -> (r: Expr<Bool>)
        ensures
            r@ == infixed(self@, " <@ "@, other@),
    ;

    /// `self ~ other`: does this path match the pattern query?
    fn matches(self, other: Expr<Lquery>) -> (r: Expr<Bool>)
        ensures
            r@ == infixed(self@, " ~ "@, other@),
    ;

    /// `self ? other`: does this path match any pattern query in the array?
    fn matches_any(self, other: Expr<Array<Lquery>>) -> (r: Expr<Bool>)
        ensures
            r@ == infixed(self@, " ? "@, other@),
    ;

    /// `self @ other`: does this path match the full-text pattern?
    fn tmatches(self, other: Expr<Ltxtquery>) -> (r: Expr<Bool>)
        ensures
            r@ == infixed(self@, " @ "@, other@),
    ;

    /// `self || other`: path concatenation; the result is again a value.
    fn concat(self, other: Expr<Ltree>) -> (r: Expr<Ltree>)
        ensures
            r@ == infixed(self@, " || "@, other@),
    ;
}

/// Operations on an array-of-`ltree` expression.
pub trait LtreeArrayExtensions: View<V = Seq<SpecAtom>> + Sized {
    /// `self @> other`: is any element of this array an ancestor of `other`?
    fn any_contains(self, other: Expr<Ltree>) -> (r: Expr<Bool>)
        ensures
            r@ == infixed(self@, " @> "@, other@),
    ;

    /// `self <@ other`: is any element of this array a descendant of `other`?
    fn any_contained_by(self, other: Expr<Ltree>) -> (r: Expr<Bool>)
        ensures
            r@ == infixed(self@, " <@ "@, other@),
    ;

    /// `self ~ other`: does any element of this array match the pattern?
    fn any_matches(self, other: Expr<Lquery>) -> (r: Expr<Bool>)
        ensures
            r@ == infixed(self@, " ~ "@, other@),
    ;

    /// `self ? other`: does any element match any pattern in the array?
    fn any_matches_any(self, other: Expr<Array<Lquery>>) -> (r: Expr<Bool>)
        ensures
            r@ == infixed(self@, " ? "@, other@),
    ;

    /// `self @ other`: does any element match the full-text pattern?
    fn any_tmatches(self, other: Expr<Ltxtquery>) -> (r: Expr<Bool>)
        ensures
            r@ == infixed(self@, " @ "@, other@),
    ;

    /// `self ?@> other`: the first element of this array that is an ancestor
    /// of `other`.
    fn first_contains(self, other: Expr<Ltree>) -> (r: Expr<Bool>)
        ensures
            r@ == infixed(self@, " ?@> "@, other@),
    ;

    /// `self ?<@ other`: the first element of this array that is a
    /// descendant of `other`.
    fn first_contained_by(self, other: Expr<Ltree>) -> (r: Expr<Bool>)
        ensures
            r@ == infixed(self@, " ?<@ "@, other@),
    ;

    /// `self ?~ other`: the first element of this array that matches the
    /// pattern query.
    fn first_matches(self, other: Expr<Lquery>) -> (r: Expr<Bool>)
        ensures
            r@ == infixed(self@, " ?~ "@, other@),
    ;

    /// `self ?@ other`: the first element of this array that matches the
    /// full-text pattern.
    fn first_tmatches(self, other: Expr<Ltxtquery>) -> (r: Expr<Bool>)
        ensures
            r@ == infixed(self@, " ?@ "@, other@),
    ;
}

/// Operations on a scalar `lquery` pattern expression.
pub trait LqueryExtensions: View<V = Seq<SpecAtom>> + Sized {
    /// `self ~ other`: does the path match this pattern?
    fn matches(self, other: Expr<Ltree>) -> (r: Expr<Bool>)
        ensures
            r@ == infixed(self@, " ~ "@, other@),
    ;

    /// `self ~ other`: does any path in the array match this pattern?
    fn matches_any(self, other: Expr<Array<Ltree>>) -> (r: Expr<Bool>)
        ensures
            r@ == infixed(self@, " ~ "@, other@),
    ;
}

/// Operations on an array-of-`lquery` expression.
pub trait LqueryArrayExtensions: View<V = Seq<SpecAtom>> + Sized {
    /// `self ? other`: does the path match any pattern in this array?
    fn any_matches(self, other: Expr<Ltree>) -> (r: Expr<Bool>)
        ensures
            r@ == infixed(self@, " ? "@, other@),
    ;

    /// `self ? other`: does any path in the array match any pattern in this
    /// array?
    fn any_matches_any(self, other: Expr<Array<Ltree>>) -> (r: Expr<Bool>)
        ensures
            r@ == infixed(self@, " ? "@, other@),
    ;
}

/// Operations on a scalar `ltxtquery` full-text pattern expression.
pub trait LtxtqueryExtensions: View<V = Seq<SpecAtom>> + Sized {
    /// `self @ other`: does the path match this full-text pattern?
    fn tmatches(self, other: Expr<Ltree>) -> (r: Expr<Bool>)
        ensures
            r@ == infixed(self@, " @ "@, other@),
    ;

    /// `self @ other`: does any path in the array match this full-text
    /// pattern?
    fn tmatches_any(self, other: Expr<Array<Ltree>>) -> (r: Expr<Bool>)
        ensures
            r@ == infixed(self@, " @ "@, other@),
    ;
}

impl LtreeExtensions for Expr<Ltree> {
    fn contains(self, other: Expr<Ltree>) -> (r: Expr<Bool>) {
        infix(self, " @> ", other)
    }

    fn contains_any(self, other: Expr<Array<Ltree>>) -> (r: Expr<Bool>) {
        infix(self, " @> ", other)
    }

    fn contained_by(self, other: Expr<Ltree>) -> (r: Expr<Bool>) {
        infix(self, " <@ ", other)
    }

    fn contained_by_any(self, other: Expr<Array<Ltree>>) -> (r: Expr<Bool>) {
        infix(self, " <@ ", other)
    }

    fn matches(self, other: Expr<Lquery>) -> (r: Expr<Bool>) {
        infix(self, " ~ ", other)
    }

    fn matches_any(self, other: Expr<Array<Lquery>>) -> (r: Expr<Bool>) {
        infix(self, " ? ", other)
    }

    fn tmatches(self, other: Expr<Ltxtquery>) -> (r: Expr<Bool>) {
        infix(self, " @ ", other)
    }

    fn concat(self, other: Expr<Ltree>) -> (r: Expr<Ltree>) {
        infix(self, " || ", other)
    }
}

impl LtreeArrayExtensions for Expr<Array<Ltree>> {
    fn any_contains(self, other: Expr<Ltree>) -> (r: Expr<Bool>) {
        infix(self, " @> ", other)
    }

    fn any_contained_by(self, other: Expr<Ltree>) -> (r: Expr<Bool>) {
        infix(self, " <@ ", other)
    }

    fn any_matches(self, other: Expr<Lquery>) -> (r: Expr<Bool>) {
        infix(self, " ~ ", other)
    }

    fn any_matches_any(self, other: Expr<Array<Lquery>>) -> (r: Expr<Bool>) {
        infix(self, " ? ", other)
    }

    fn any_tmatches(self, other: Expr<Ltxtquery>) -> (r: Expr<Bool>) {
        infix(self, " @ ", other)
    }

    fn first_contains(self, other: Expr<Ltree>) -> (r: Expr<Bool>) {
        infix(self, " ?@> ", other)
    }

    fn first_contained_by(self, other: Expr<Ltree>) -> (r: Expr<Bool>) {
        infix(self, " ?<@ ", other)
    }

    fn first_matches(self, other: Expr<Lquery>) -> (r: Expr<Bool>) {
        infix(self, " ?~ ", other)
    }

    fn first_tmatches(self, other: Expr<Ltxtquery>) -> (r: Expr<Bool>) {
        infix(self, " ?@ ", other)
    }
}

impl LqueryExtensions for Expr<Lquery> {
    fn matches(self, other: Expr<Ltree>) -> (r: Expr<Bool>) {
        infix(self, " ~ ", other)
    }

    fn matches_any(self, other: Expr<Array<Ltree>>) -> (r: Expr<Bool>) {
        infix(self, " ~ ", other)
    }
}

impl LqueryArrayExtensions for Expr<Array<Lquery>> {
    fn any_matches(self, other: Expr<Ltree>) -> (r: Expr<Bool>) {
        infix(self, " ? ", other)
    }

    fn any_matches_any(self, other: Expr<Array<Ltree>>) -> (r: Expr<Bool>) {
        infix(self, " ? ", other)
    }
}

impl LtxtqueryExtensions for Expr<Ltxtquery> {
    fn tmatches(self, other: Expr<Ltree>) -> (r: Expr<Bool>) {
        infix(self, " @ ", other)
    }

    fn tmatches_any(self, other: Expr<Array<Ltree>>) -> (r: Expr<Bool>) {
        infix(self, " @ ", other)
    }
}

} // verus!
