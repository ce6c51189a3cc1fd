//! The ltree domain types, the SQL type tags, and the text wire adapter.

use vstd::prelude::*;

use crate::expr::Expr;
use crate::sql::Atom;
use crate::sql::SpecAtom;
use crate::sql::SpecBind;
use crate::sql::atom_views;
use crate::sql::binds_of;
use crate::sql::lemma_one_atom;
use crate::sql::nbinds;
use crate::sql::push_lit;

verus! {

/// A path value: a dot-separated sequence of labels, e.g. `"a.b.c"`.
///
/// Doubles as the static SQL type tag of `ltree`-typed expressions.  The
/// wrapped text is the value's identity; this layer never normalizes or
/// validates it against the path grammar — that is backend behavior.
#[derive(Clone, Debug, PartialEq, Eq)]
pub struct Ltree(pub String);

/// The static SQL type tag of `lquery` path-pattern expressions.  Patterns
/// carry no host-side payload: their text is supplied at the call site.
#[derive(Clone, Copy, Debug)]
pub struct Lquery;

/// The static SQL type tag of `ltxtquery` full-text pattern expressions.
#[derive(Clone, Copy, Debug)]
pub struct Ltxtquery;

/// The static SQL type tag of boolean expressions.
#[derive(Clone, Copy, Debug)]
pub struct Bool;

/// The static SQL type tag of 4-byte integer expressions.
#[derive(Clone, Copy, Debug)]
pub struct Int4;

/// The static SQL type tag of text expressions.
#[derive(Clone, Copy, Debug)]
pub struct Text;

/// The static SQL type tag of arrays whose elements have type tag `T`.
pub struct Array<T>(pub core::marker::PhantomData<T>);

/// The one runtime failure of this layer: the backend returned no text at
/// all for a value-typed cell.
#[derive(Clone, Copy, Debug, PartialEq, Eq)]
pub enum DeserializationError {
    UnexpectedNull,
}

/// The atoms that encoding a path value emits: its text as a bind parameter,
/// followed by an explicit cast from text to `ltree`.  The cast makes the
/// fragment embeddable wherever an `ltree` expression is expected even
/// though the value itself crosses the wire as plain text.
pub open spec fn encode_atoms(s: Seq<char>) -> Seq<SpecAtom> {
    seq![SpecAtom::BindText(s), SpecAtom::Sql("::text::ltree"@)]
}

/// What decoding returns for each inbound cell: the text unchanged, or the
/// error when no text is present.
pub open spec fn decoded(raw: Option<Seq<char>>) -> Result<Seq<char>, DeserializationError> {
    match raw {
        Some(s) => Ok(s),
        None => Err(DeserializationError::UnexpectedNull),
    }
}

impl Ltree {
    /// Wire-adapter encoding: an `ltree`-typed expression that binds this
    /// value's text and casts it to `ltree` in the emitted SQL.
    pub fn to_expression(&self) -> (e: Expr<Ltree>)
        ensures
            e@ == encode_atoms(self.0@),
    {
        let mut atoms: Vec<Atom> = Vec::new();
        atoms.push(Atom::BindText(self.0.clone()));
        push_lit(&mut atoms, "::text::ltree");
        proof {
            assert(atom_views(atoms@) =~= encode_atoms(self.0@));
        }
        Expr::from_atoms(atoms)
    }

    /// Wire-adapter decoding: read the text the backend returned for an
    /// `ltree` cell.  A plain pass-through: no path-grammar validation is
    /// performed.  Fails exactly when no text is present.
    pub fn from_sql(raw: Option<String>) -> (r: Result<Ltree, DeserializationError>)
        ensures
            match raw {
                Some(s) => r matches Ok(v) && v.0@ == s@,
                None => r matches Err(e) && e == DeserializationError::UnexpectedNull,
            },
    {
        match raw {
            Some(s) => Ok(Ltree(s)),
            None => Err(DeserializationError::UnexpectedNull),
        }
    }
}

/// Round trip through the text wire adapter is lossless: encoding a path
/// value emits exactly one bind parameter, carrying the value's text
/// unchanged, and decoding that text returns it unchanged, so
/// decode(encode(s)) recovers s for every text s.
pub proof fn lemma_wire_round_trip(s: Seq<char>)
    ensures
        binds_of(encode_atoms(s)) == seq![SpecBind::Text(s)],
        nbinds(encode_atoms(s)) == 1,
        decoded(Some(s)) == Ok::<Seq<char>, DeserializationError>(s),
{
    let cast = SpecAtom::Sql("::text::ltree"@);
    assert(encode_atoms(s).drop_first() =~= seq![cast]);
    lemma_one_atom(cast, 0);
    assert(binds_of(encode_atoms(s)) == seq![SpecBind::Text(s)] + binds_of(seq![cast]));
    assert(seq![SpecBind::Text(s)] + Seq::<SpecBind>::empty() =~= seq![SpecBind::Text(s)]);
    assert(nbinds(encode_atoms(s)) == 1 + nbinds(seq![cast]));
}

} // verus!
