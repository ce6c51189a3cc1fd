//! Statically typed SQL expression fragments.

use core::marker::PhantomData;
use vstd::prelude::*;
use vstd::string::StringExecFns;

use crate::sql::Atom;
use crate::sql::BindParam;
use crate::sql::SpecAtom;
use crate::sql::atom_views;
use crate::sql::bind_views;
use crate::sql::binds_of;
use crate::sql::copy_atoms;
use crate::sql::infixed;
use crate::sql::lemma_atom_views_push;
use crate::sql::lemma_bind_views_push;
use crate::sql::lemma_binds_of_append;
use crate::sql::lemma_nbinds_append;
use crate::sql::lemma_one_atom;
use crate::sql::lemma_render_append;
use crate::sql::nbinds;
use crate::sql::push_dec;
use crate::sql::push_frag;
use crate::sql::push_lit;
use crate::sql::render;
use crate::types::Int4;
use crate::types::Text;

verus! {

/// A statically typed SQL expression fragment.
///
/// `T` is the expression's SQL type tag (`Ltree`, `Lquery`, `Ltxtquery`,
/// `Bool`, `Int4`, `Text`, or `Array<..>` of one of these); it exists only at
/// compile time and gates which operations are reachable.  The value holds
/// the fragment's atoms; the view is their denotations in order.
pub struct Expr<T> {
    pub(crate) atoms: Vec<Atom>,
    pub(crate) marker: PhantomData<T>,
}

impl<T> View for Expr<T> {
    type V = Seq<SpecAtom>;

    closed spec fn view(&self) -> Seq<SpecAtom> {
        atom_views(self.atoms@)
    }
}

impl<T> Expr<T> {
    /// Wrap already-built atoms as an expression of declared type `T`.
    pub(crate) fn from_atoms(atoms: Vec<Atom>) -> (e: Expr<T>)
        ensures
            e@ == atom_views(atoms@),
    {
        Expr { atoms, marker: PhantomData }
    }

    /// Unwrap into the underlying atoms.
    pub(crate) fn into_atoms(self) -> (r: Vec<Atom>)
        ensures
            atom_views(r@) == self@,
    {
        self.atoms
    }

    /// Copy the underlying atoms.
    pub(crate) fn clone_atoms(&self) -> (r: Vec<Atom>)
        ensures
            atom_views(r@) == self@,
    {
        copy_atoms(&self.atoms)
    }

    /// A raw SQL expression of declared type `T`, e.g. a column reference.
    pub fn column(name: &str) -> (e: Expr<T>)
        ensures
            e@ == seq![SpecAtom::Sql(name@)],
    {
        let mut atoms: Vec<Atom> = Vec::new();
        push_lit(&mut atoms, name);
        proof {
            assert(atom_views(atoms@) =~= seq![SpecAtom::Sql(name@)]);
        }
        Expr { atoms, marker: PhantomData }
    }

    /// Compile the expression: its SQL text with binds numbered upward from
    /// `$1`, together with the bind values in order of appearance.
    pub fn to_sql(&self) -> (r: (String, Vec<BindParam>))
        ensures
            r.0@ == render(self@, 1),
            bind_views(r.1@) == binds_of(self@),
            r.1@.len() == nbinds(self@),
    {
        let mut sql = String::new();
        let mut binds: Vec<BindParam> = Vec::new();
        let mut i: usize = 0;
        while i < self.atoms.len()
            invariant
                i <= self.atoms@.len(),
                binds@.len() == nbinds(atom_views(self.atoms@.take(i as int))),
                binds@.len() <= i,
                sql@ == render(atom_views(self.atoms@.take(i as int)), 1),
                bind_views(binds@) == binds_of(atom_views(self.atoms@.take(i as int))),
            decreases self.atoms@.len() - i,
        {
            let ghost prefix = atom_views(self.atoms@.take(i as int));
            let ghost av = self.atoms@[i as int]@;
            proof {
                assert(self.atoms@.take(i as int + 1) =~= self.atoms@.take(i as int).push(
                    self.atoms@[i as int],
                ));
                lemma_atom_views_push(self.atoms@.take(i as int), self.atoms@[i as int]);
                assert(prefix.push(av) =~= prefix + seq![av]);
                lemma_render_append(prefix, seq![av], 1);
                lemma_one_atom(av, 1 + nbinds(prefix));
                lemma_nbinds_append(prefix, seq![av]);
                lemma_binds_of_append(prefix, seq![av]);
            }
            let a = &self.atoms[i];
            match a {
                Atom::Sql(s) => {
                    sql.append(s.as_str());
                },
                Atom::BindText(s) => {
                    sql.append("$");
                    let n: usize = binds.len() + 1;
                    push_dec(n, &mut sql);
                    proof {
                        lemma_bind_views_push(binds@, BindParam::Text(*s));
                        reveal_strlit("$");
                        assert("$"@ =~= seq!['$']);
                    }
                    binds.push(BindParam::Text(s.clone()));
                },
                Atom::BindInt(v) => {
                    sql.append("$");
                    let n: usize = binds.len() + 1;
                    push_dec(n, &mut sql);
                    proof {
                        lemma_bind_views_push(binds@, BindParam::Int(*v));
                        reveal_strlit("$");
                        assert("$"@ =~= seq!['$']);
                    }
                    binds.push(BindParam::Int(*v));
                },
            }
            proof {
                assert(sql@ =~= render(atom_views(self.atoms@.take(i as int + 1)), 1));
                assert(bind_views(binds@) =~= binds_of(
                    atom_views(self.atoms@.take(i as int + 1)),
                ));
            }
            i += 1;
        }
        proof {
            assert(self.atoms@.take(self.atoms@.len() as int) =~= self.atoms@);
        }
        (sql, binds)
    }
}

impl Expr<Text> {
    /// A text value bound as a parameter, rendered as `$N`.
    pub fn bind(value: &str) -> (e: Expr<Text>)
        ensures
            e@ == seq![SpecAtom::BindText(value@)],
    {
        let mut atoms: Vec<Atom> = Vec::new();
        atoms.push(Atom::BindText(value.to_owned()));
        proof {
            assert(atom_views(atoms@) =~= seq![SpecAtom::BindText(value@)]);
        }
        Expr { atoms, marker: PhantomData }
    }
}

impl Expr<Int4> {
    /// An integer value bound as a parameter, rendered as `$N`.
    pub fn bind(value: i32) -> (e: Expr<Int4>)
        ensures
            e@ == seq![SpecAtom::BindInt(value as int)],
    {
        let mut atoms: Vec<Atom> = Vec::new();
        atoms.push(Atom::BindInt(value));
        proof {
            assert(atom_views(atoms@) =~= seq![SpecAtom::BindInt(value as int)]);
        }
        Expr { atoms, marker: PhantomData }
    }
}

/// Join two operand fragments with an infix operator symbol; the result's
/// declared type is the operator's result type, chosen by the caller.
pub(crate) fn infix<L, R, O>(l: Expr<L>, sym: &str, r: Expr<R>) -> (o: Expr<O>)
    ensures
        o@ == infixed(l@, sym@, r@),
{
    let ghost lv = l@;
    let ghost rv = r@;
    let mut atoms = l.atoms;
    push_lit(&mut atoms, sym);
    push_frag(&mut atoms, r.atoms);
    proof {
        assert(atom_views(atoms@) =~= infixed(lv, sym@, rv));
    }
    Expr { atoms, marker: PhantomData }
}

} // verus!
