//! Typed bindings for the backend's ltree functions.
//!
//! Each binding is a pass-through: it performs no host-side computation and
//! emits `<name>(<arg>, <arg>, ...)` with each argument's fragment embedded
//! unchanged, declaring the result type the backend gives the function.

use vstd::prelude::*;

use crate::expr::Expr;
use crate::sql::Atom;
use crate::sql::SpecAtom;
use crate::sql::SpecBind;
use crate::sql::atom_views;
use crate::sql::binds_of;
use crate::sql::infixed;
use crate::sql::lemma_infix_sql;
use crate::sql::lemma_binds_of_append;
use crate::sql::lemma_nbinds_append;
use crate::sql::lemma_one_atom;
use crate::sql::lemma_render_append;
use crate::sql::lemma_two_lits;
use crate::sql::nbinds;
use crate::sql::push_frag;
use crate::sql::push_lit;
use crate::sql::render;
use crate::types::Array;
use crate::types::Int4;
use crate::types::Lquery;
use crate::types::Ltree;
use crate::types::Ltxtquery;
use crate::types::Text;

verus! {

/// The atoms of a one-argument function call `name(a)`.
pub open spec fn call1_atoms(name: Seq<char>, a: Seq<SpecAtom>) -> Seq<SpecAtom> {
    seq![SpecAtom::Sql(name), SpecAtom::Sql("("@)] + a + seq![SpecAtom::Sql(")"@)]
}

/// The atoms of a two-argument function call `name(a, b)`.
pub open spec fn call2_atoms(name: Seq<char>, a: Seq<SpecAtom>, b: Seq<SpecAtom>) -> Seq<
    SpecAtom,
> {
    seq![SpecAtom::Sql(name), SpecAtom::Sql("("@)] + a + seq![SpecAtom::Sql(", "@)] + b + seq![
        SpecAtom::Sql(")"@),
    ]
}

/// The atoms of a three-argument function call `name(a, b, c)`.
pub open spec fn call3_atoms(
    name: Seq<char>,
    a: Seq<SpecAtom>,
    b: Seq<SpecAtom>,
    c: Seq<SpecAtom>,
) -> Seq<SpecAtom> {
    seq![SpecAtom::Sql(name), SpecAtom::Sql("("@)] + a + seq![SpecAtom::Sql(", "@)] + b + seq![
        SpecAtom::Sql(", "@),
    ] + c + seq![SpecAtom::Sql(")"@)]
}

fn call1<A, O>(name: &str, a: Expr<A>) -> (r: Expr<O>)
    ensures
        r@ == call1_atoms(name@, a@),
{
    let ghost av = a@;
    let mut atoms: Vec<Atom> = Vec::new();
    push_lit(&mut atoms, name);
    push_lit(&mut atoms, "(");
    push_frag(&mut atoms, a.into_atoms());
    push_lit(&mut atoms, ")");
    proof {
        assert(atom_views(atoms@) =~= call1_atoms(name@, av));
    }
    Expr::from_atoms(atoms)
}

fn call2<A, B, O>(name: &str, a: Expr<A>, b: Expr<B>) -> (r: Expr<O>)
    ensures
        r@ == call2_atoms(name@, a@, b@),
{
    let ghost av = a@;
    let ghost bv = b@;
    let mut atoms: Vec<Atom> = Vec::new();
    push_lit(&mut atoms, name);
    push_lit(&mut atoms, "(");
    push_frag(&mut atoms, a.into_atoms());
    push_lit(&mut atoms, ", ");
    push_frag(&mut atoms, b.into_atoms());
    push_lit(&mut atoms, ")");
    proof {
        assert(atom_views(atoms@) =~= call2_atoms(name@, av, bv));
    }
    Expr::from_atoms(atoms)
}

fn call3<A, B, C, O>(name: &str, a: Expr<A>, b: Expr<B>, c: Expr<C>) -> (r: Expr<O>)
    ensures
        r@ == call3_atoms(name@, a@, b@, c@),
{
    let ghost av = a@;
    let ghost bv = b@;
    let ghost cv = c@;
    let mut atoms: Vec<Atom> = Vec::new();
    push_lit(&mut atoms, name);
    push_lit(&mut atoms, "(");
    push_frag(&mut atoms, a.into_atoms());
    push_lit(&mut atoms, ", ");
    push_frag(&mut atoms, b.into_atoms());
    push_lit(&mut atoms, ", ");
    push_frag(&mut atoms, c.into_atoms());
    push_lit(&mut atoms, ")");
    proof {
        assert(atom_views(atoms@) =~= call3_atoms(name@, av, bv, cv));
    }
    Expr::from_atoms(atoms)
}

/// `subltree(ltree, start, end)`: the subpath from label position `start`
/// (inclusive) to `end` (exclusive).
pub fn subltree(ltree: Expr<Ltree>, start: Expr<Int4>, end: Expr<Int4>) -> (r: Expr<Ltree>)
    ensures
        r@ == call3_atoms("subltree"@, ltree@, start@, end@),
{
    call3("subltree", ltree, start, end)
}

/// `subpath(ltree, offset, len)`: the subpath starting at label position
/// `offset`, of length `len`.
pub fn subpath(ltree: Expr<Ltree>, offset: Expr<Int4>, len: Expr<Int4>) -> (r: Expr<Ltree>)
    ensures
        r@ == call3_atoms("subpath"@, ltree@, offset@, len@),
{
    call3("subpath", ltree, offset, len)
}

/// `nlevel(ltree)`: the number of labels in the path.
pub fn nlevel(ltree: Expr<Ltree>) -> (r: Expr<Int4>)
    ensures
        r@ == call1_atoms("nlevel"@, ltree@),
{
    call1("nlevel", ltree)
}

/// `index(a, b, offset)`: the position of the first occurrence of `b` in
/// `a`, searching from `offset`.
pub fn index(a: Expr<Ltree>, b: Expr<Ltree>, offset: Expr<Int4>) -> (r: Expr<Int4>)
    ensures
        r@ == call3_atoms("index"@, a@, b@, offset@),
{
    call3("index", a, b, offset)
}

/// `text2ltree(text)`: parse a path value from its text form.
pub fn text2ltree(text: Expr<Text>) -> (r: Expr<Ltree>)
    ensures
        r@ == call1_atoms("text2ltree"@, text@),
{
    call1("text2ltree", text)
}

/// `ltree2text(ltree)`: render a path value to its text form.
pub fn ltree2text(ltree: Expr<Ltree>) -> (r: Expr<Text>)
    ensures
        r@ == call1_atoms("ltree2text"@, ltree@),
{
    call1("ltree2text", ltree)
}

/// `lca(ltrees)`: the lowest common ancestor of an array of path values.
pub fn lca(ltrees: Expr<Array<Ltree>>) -> (r: Expr<Ltree>)
    ensures
        r@ == call1_atoms("lca"@, ltrees@),
{
    call1("lca", ltrees)
}

/// `lquery(x)`: compile a path-pattern query from its text form.
pub fn lquery(x: Expr<Text>) -> (r: Expr<Lquery>)
    ensures
        r@ == call1_atoms("lquery"@, x@),
{
    call1("lquery", x)
}

/// `ltxtquery(x)`: compile a full-text pattern query from its text form.
pub fn ltxtquery(x: Expr<Text>) -> (r: Expr<Ltxtquery>)
    ensures
        r@ == call1_atoms("ltxtquery"@, x@),
{
    call1("ltxtquery", x)
}

/// The SQL of a function call is the function's name, an opening
/// parenthesis, each argument's SQL recursively compiled with its binds
/// numbered after those of the arguments before it, `, ` between arguments,
/// and a closing parenthesis; the bind list is the arguments' bind lists in
/// order.  Stated here for each supported arity.
pub proof fn lemma_call1_sql(name: Seq<char>, a: Seq<SpecAtom>, k: nat)
    ensures
        render(call1_atoms(name, a), k) == name + "("@ + render(a, k) + ")"@,
        binds_of(call1_atoms(name, a)) == binds_of(a),
        nbinds(call1_atoms(name, a)) == nbinds(a),
{
    let open_atoms = seq![SpecAtom::Sql(name), SpecAtom::Sql("("@)];
    let close_atoms = seq![SpecAtom::Sql(")"@)];
    lemma_render_append(open_atoms + a, close_atoms, k);
    lemma_render_append(open_atoms, a, k);
    lemma_two_lits(name, "("@, k);
    lemma_one_atom(SpecAtom::Sql(")"@), k + nbinds(open_atoms + a));
    lemma_nbinds_append(open_atoms, a);
    lemma_nbinds_append(open_atoms + a, close_atoms);
    lemma_binds_of_append(open_atoms, a);
    lemma_binds_of_append(open_atoms + a, close_atoms);
    assert(((name + "("@) + render(a, k)) + ")"@ =~= name + "("@ + render(a, k) + ")"@);
    assert(binds_of(call1_atoms(name, a)) =~= binds_of(a));
}

/// See [`lemma_call1_sql`].
pub proof fn lemma_call2_sql(name: Seq<char>, a: Seq<SpecAtom>, b: Seq<SpecAtom>, k: nat)
    ensures
        render(call2_atoms(name, a, b), k) == name + "("@ + render(a, k) + ", "@ + render(
            b,
            k + nbinds(a),
        ) + ")"@,
        binds_of(call2_atoms(name, a, b)) == binds_of(a) + binds_of(b),
        nbinds(call2_atoms(name, a, b)) == nbinds(a) + nbinds(b),
{
    let open_atoms = seq![SpecAtom::Sql(name), SpecAtom::Sql("("@)];
    let comma = seq![SpecAtom::Sql(", "@)];
    let close_atoms = seq![SpecAtom::Sql(")"@)];
    let head = open_atoms + a + comma + b;
    lemma_render_append(head, close_atoms, k);
    lemma_render_append(open_atoms + a + comma, b, k);
    lemma_render_append(open_atoms + a, comma, k);
    lemma_render_append(open_atoms, a, k);
    lemma_two_lits(name, "("@, k);
    lemma_nbinds_append(open_atoms, a);
    lemma_nbinds_append(open_atoms + a, comma);
    lemma_nbinds_append(open_atoms + a + comma, b);
    lemma_nbinds_append(head, close_atoms);
    lemma_one_atom(SpecAtom::Sql(", "@), k + nbinds(open_atoms + a));
    lemma_one_atom(SpecAtom::Sql(")"@), k + nbinds(head));
    lemma_binds_of_append(open_atoms, a);
    lemma_binds_of_append(open_atoms + a, comma);
    lemma_binds_of_append(open_atoms + a + comma, b);
    lemma_binds_of_append(head, close_atoms);
    assert((((name + "("@ + render(a, k)) + ", "@) + render(b, k + nbinds(a))) + ")"@ =~= name
        + "("@ + render(a, k) + ", "@ + render(b, k + nbinds(a)) + ")"@);
    assert(binds_of(call2_atoms(name, a, b)) =~= binds_of(a) + binds_of(b));
}

/// See [`lemma_call1_sql`].
pub proof fn lemma_call3_sql(
    name: Seq<char>,
    a: Seq<SpecAtom>,
    b: Seq<SpecAtom>,
    c: Seq<SpecAtom>,
    k: nat,
)
    ensures
        render(call3_atoms(name, a, b, c), k) == name + "("@ + render(a, k) + ", "@ + render(
            b,
            k + nbinds(a),
        ) + ", "@ + render(c, k + nbinds(a) + nbinds(b)) + ")"@,
        binds_of(call3_atoms(name, a, b, c)) == binds_of(a) + binds_of(b) + binds_of(c),
        nbinds(call3_atoms(name, a, b, c)) == nbinds(a) + nbinds(b) + nbinds(c),
{
    let open_atoms = seq![SpecAtom::Sql(name), SpecAtom::Sql("("@)];
    let comma = seq![SpecAtom::Sql(", "@)];
    let close_atoms = seq![SpecAtom::Sql(")"@)];
    let head2 = open_atoms + a + comma + b;
    let head3 = head2 + comma + c;
    lemma_render_append(head3, close_atoms, k);
    lemma_render_append(head2 + comma, c, k);
    lemma_render_append(head2, comma, k);
    lemma_render_append(open_atoms + a + comma, b, k);
    lemma_render_append(open_atoms + a, comma, k);
    lemma_render_append(open_atoms, a, k);
    lemma_two_lits(name, "("@, k);
    lemma_nbinds_append(open_atoms, a);
    lemma_nbinds_append(open_atoms + a, comma);
    lemma_nbinds_append(open_atoms + a + comma, b);
    lemma_nbinds_append(head2, comma);
    lemma_nbinds_append(head2 + comma, c);
    lemma_nbinds_append(head3, close_atoms);
    lemma_one_atom(SpecAtom::Sql(", "@), k + nbinds(open_atoms + a));
    lemma_one_atom(SpecAtom::Sql(", "@), k + nbinds(head2));
    lemma_one_atom(SpecAtom::Sql(")"@), k + nbinds(head3));
    lemma_binds_of_append(open_atoms, a);
    lemma_binds_of_append(open_atoms + a, comma);
    lemma_binds_of_append(open_atoms + a + comma, b);
    lemma_binds_of_append(head2, comma);
    lemma_binds_of_append(head2 + comma, c);
    lemma_binds_of_append(head3, close_atoms);
    assert(call3_atoms(name, a, b, c) =~= head3 + close_atoms);
    assert(render(call3_atoms(name, a, b, c), k) =~= name + "("@ + render(a, k) + ", "@ + render(
        b,
        k + nbinds(a),
    ) + ", "@ + render(c, k + nbinds(a) + nbinds(b)) + ")"@);
    assert(binds_of(call3_atoms(name, a, b, c)) =~= binds_of(a) + binds_of(b) + binds_of(c));
}

/// The denotation of each element of a sequence of expressions.
pub open spec fn elem_views<T>(s: Seq<Expr<T>>) -> Seq<Seq<SpecAtom>> {
    s.map_values(|e: Expr<T>| e@)
}

/// Element fragments joined by `,`.
pub open spec fn joined(parts: Seq<Seq<SpecAtom>>) -> Seq<SpecAtom>
    decreases parts.len(),
{
    if parts.len() == 0 {
        Seq::empty()
    } else if parts.len() == 1 {
        parts[0]
    } else {
        parts[0] + seq![SpecAtom::Sql(","@)] + joined(parts.drop_first())
    }
}

/// The atoms of an `ARRAY[...]` literal over the element fragments.
pub open spec fn array_atoms(parts: Seq<Seq<SpecAtom>>) -> Seq<SpecAtom> {
    seq![SpecAtom::Sql("ARRAY["@)] + joined(parts) + seq![SpecAtom::Sql("]"@)]
}

/// The rendered SQL of element fragments joined by `,`, numbering binds
/// upward from `k`, element by element.
pub open spec fn joined_sql(parts: Seq<Seq<SpecAtom>>, k: nat) -> Seq<char>
    decreases parts.len(),
{
    if parts.len() == 0 {
        Seq::empty()
    } else if parts.len() == 1 {
        render(parts[0], k)
    } else {
        render(parts[0], k) + ","@ + joined_sql(parts.drop_first(), k + nbinds(parts[0]))
    }
}

/// The bind values of the element fragments, in element order.
pub open spec fn joined_binds(parts: Seq<Seq<SpecAtom>>) -> Seq<SpecBind>
    decreases parts.len(),
{
    if parts.len() == 0 {
        Seq::empty()
    } else {
        binds_of(parts[0]) + joined_binds(parts.drop_first())
    }
}

/// The number of bind slots the element fragments consume together.
pub open spec fn joined_nbinds(parts: Seq<Seq<SpecAtom>>) -> nat
    decreases parts.len(),
{
    if parts.len() == 0 {
        0
    } else {
        nbinds(parts[0]) + joined_nbinds(parts.drop_first())
    }
}

proof fn lemma_joined_sql(parts: Seq<Seq<SpecAtom>>, k: nat)
    ensures
        render(joined(parts), k) == joined_sql(parts, k),
        binds_of(joined(parts)) == joined_binds(parts),
        nbinds(joined(parts)) == joined_nbinds(parts),
    decreases parts.len(),
{
    if parts.len() == 0 {
        assert(binds_of(joined(parts)) =~= joined_binds(parts));
    } else if parts.len() == 1 {
        assert(parts.drop_first() =~= Seq::<Seq<SpecAtom>>::empty());
        assert(joined_binds(Seq::<Seq<SpecAtom>>::empty()) == Seq::<SpecBind>::empty());
        assert(joined_nbinds(Seq::<Seq<SpecAtom>>::empty()) == 0);
        assert(binds_of(parts[0]) + Seq::<SpecBind>::empty() =~= binds_of(parts[0]));
    } else {
        assert(joined(parts) == infixed(parts[0], ","@, joined(parts.drop_first())));
        lemma_infix_sql(parts[0], ","@, joined(parts.drop_first()), k);
        lemma_joined_sql(parts.drop_first(), k + nbinds(parts[0]));
    }
}

/// The SQL of an `ARRAY[...]` literal is `ARRAY[`, then each element's SQL
/// recursively compiled with its binds numbered after those of the elements
/// before it, joined by `,`, then `]`; its bind list is the elements' bind
/// lists in element order.
pub proof fn lemma_array_sql(parts: Seq<Seq<SpecAtom>>, k: nat)
    ensures
        render(array_atoms(parts), k) == "ARRAY["@ + joined_sql(parts, k) + "]"@,
        binds_of(array_atoms(parts)) == joined_binds(parts),
        nbinds(array_atoms(parts)) == joined_nbinds(parts),
{
    let open_atoms = seq![SpecAtom::Sql("ARRAY["@)];
    let close_atoms = seq![SpecAtom::Sql("]"@)];
    lemma_joined_sql(parts, k);
    lemma_render_append(open_atoms + joined(parts), close_atoms, k);
    lemma_render_append(open_atoms, joined(parts), k);
    lemma_one_atom(SpecAtom::Sql("ARRAY["@), k);
    lemma_one_atom(SpecAtom::Sql("]"@), k + nbinds(open_atoms + joined(parts)));
    lemma_nbinds_append(open_atoms, joined(parts));
    lemma_nbinds_append(open_atoms + joined(parts), close_atoms);
    lemma_binds_of_append(open_atoms, joined(parts));
    lemma_binds_of_append(open_atoms + joined(parts), close_atoms);
    assert(("ARRAY["@ + joined_sql(parts, k)) + "]"@ =~= "ARRAY["@ + joined_sql(parts, k)
        + "]"@);
    assert(binds_of(array_atoms(parts)) =~= joined_binds(parts));
}

proof fn lemma_joined_push(parts: Seq<Seq<SpecAtom>>, x: Seq<SpecAtom>)
    ensures
        joined(parts.push(x)) == if parts.len() == 0 {
            x
        } else {
            joined(parts) + seq![SpecAtom::Sql(","@)] + x
        },
    decreases parts.len(),
{
    let comma = seq![SpecAtom::Sql(","@)];
    if parts.len() == 0 {
        assert(parts.push(x) =~= seq![x]);
        assert(joined(seq![x]) == x);
    } else if parts.len() == 1 {
        assert(parts.push(x).drop_first() =~= seq![x]);
        assert(joined(seq![x]) == x);
        assert(joined(parts.push(x)) == parts.push(x)[0] + comma + joined(seq![x]));
        assert(joined(parts.push(x)) == parts[0] + comma + x);
        assert(joined(parts) == parts[0]);
    } else {
        assert(parts.push(x).drop_first() =~= parts.drop_first().push(x));
        lemma_joined_push(parts.drop_first(), x);
        assert(parts[0] + comma + (joined(parts.drop_first()) + comma + x) =~= (parts[0] + comma
            + joined(parts.drop_first())) + comma + x);
    }
}

/// `ARRAY[e1,e2,...]`: an array literal of uniformly typed element
/// expressions, joined by commas.
pub fn array<T>(elems: &Vec<Expr<T>>) -> (r: Expr<Array<T>>)
    ensures
        r@ == array_atoms(elem_views(elems@)),
{
    let mut atoms: Vec<Atom> = Vec::new();
    push_lit(&mut atoms, "ARRAY[");
    proof {
        assert(elem_views(elems@.take(0)) =~= Seq::<Seq<SpecAtom>>::empty());
        assert(atom_views(atoms@) =~= seq![SpecAtom::Sql("ARRAY["@)] + joined(
            elem_views(elems@.take(0)),
        ));
    }
    let mut i: usize = 0;
    while i < elems.len()
        invariant
            i <= elems@.len(),
            atom_views(atoms@) == seq![SpecAtom::Sql("ARRAY["@)] + joined(
                elem_views(elems@.take(i as int)),
            ),
        decreases elems@.len() - i,
    {
        if i > 0 {
            push_lit(&mut atoms, ",");
        }
        let frag = elems[i].clone_atoms();
        push_frag(&mut atoms, frag);
        proof {
            assert(elems@.take(i as int + 1) =~= elems@.take(i as int).push(elems@[i as int]));
            assert(elem_views(elems@.take(i as int).push(elems@[i as int])) =~= elem_views(
                elems@.take(i as int),
            ).push(elems@[i as int]@));
            lemma_joined_push(elem_views(elems@.take(i as int)), elems@[i as int]@);
            assert(atom_views(atoms@) =~= seq![SpecAtom::Sql("ARRAY["@)] + joined(
                elem_views(elems@.take(i as int + 1)),
            ));
        }
        i += 1;
    }
    push_lit(&mut atoms, "]");
    proof {
        assert(elems@.take(elems@.len() as int) =~= elems@);
        assert(atom_views(atoms@) =~= array_atoms(elem_views(elems@)));
    }
    Expr::from_atoms(atoms)
}

} // verus!
