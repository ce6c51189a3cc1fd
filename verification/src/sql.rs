//! SQL fragments as sequences of atoms.
//!
//! An expression is compiled by walking its atoms once: literal atoms
//! contribute their text unchanged, and each bind atom contributes a `$N`
//! placeholder, numbered from the left, while its value is collected into the
//! bind list.

use vstd::prelude::*;
use vstd::string::StringExecFns;

verus! {

/// One atom of an SQL fragment: literal SQL text, or a bind parameter that is
/// rendered as `$N` and whose value is collected into the bind list.
pub enum Atom {
    Sql(String),
    BindText(String),
    BindInt(i32),
}

/// What an [`Atom`] denotes, with text as a sequence of characters.
pub enum SpecAtom {
    Sql(Seq<char>),
    BindText(Seq<char>),
    BindInt(int),
}

impl View for Atom {
    type V = SpecAtom;

    open spec fn view(&self) -> SpecAtom {
        match self {
            Atom::Sql(s) => SpecAtom::Sql(s@),
            Atom::BindText(s) => SpecAtom::BindText(s@),
            Atom::BindInt(i) => SpecAtom::BindInt(*i as int),
        }
    }
}

impl Clone for Atom {
    fn clone(&self) -> (r: Atom)
        ensures
            r@ == self@,
    {
        match self {
            Atom::Sql(s) => Atom::Sql(s.clone()),
            Atom::BindText(s) => Atom::BindText(s.clone()),
            Atom::BindInt(i) => Atom::BindInt(*i),
        }
    }
}

/// A bind parameter value collected while compiling an expression.
#[derive(Debug, PartialEq)]
pub enum BindParam {
    Text(String),
    Int(i32),
}

/// What a [`BindParam`] denotes.
pub enum SpecBind {
    Text(Seq<char>),
    Int(int),
}

impl View for BindParam {
    type V = SpecBind;

    open spec fn view(&self) -> SpecBind {
        match self {
            BindParam::Text(s) => SpecBind::Text(s@),
            BindParam::Int(i) => SpecBind::Int(*i as int),
        }
    }
}

/// The denotations of a sequence of atoms.
pub open spec fn atom_views(s: Seq<Atom>) -> Seq<SpecAtom> {
    s.map_values(|a: Atom| a@)
}

/// The denotations of a sequence of bind parameters.
pub open spec fn bind_views(s: Seq<BindParam>) -> Seq<SpecBind> {
    s.map_values(|b: BindParam| b@)
}

/// Does this atom consume a bind-parameter slot?
pub open spec fn is_bind(a: SpecAtom) -> bool {
    !(a is Sql)
}

/// The bind value carried by a bind atom.
pub open spec fn bind_of(a: SpecAtom) -> SpecBind {
    match a {
        SpecAtom::Sql(_) => SpecBind::Text(Seq::empty()),
        SpecAtom::BindText(s) => SpecBind::Text(s),
        SpecAtom::BindInt(i) => SpecBind::Int(i),
    }
}

/// The decimal digit `d` as a character, for `d < 10`.
pub open spec fn digit_char(d: nat) -> char {
    if d == 0 {
        '0'
    } else if d == 1 {
        '1'
    } else if d == 2 {
        '2'
    } else if d == 3 {
        '3'
    } else if d == 4 {
        '4'
    } else if d == 5 {
        '5'
    } else if d == 6 {
        '6'
    } else if d == 7 {
        '7'
    } else if d == 8 {
        '8'
    } else {
        '9'
    }
}

/// The decimal digits of `n`, most significant first.
pub open spec fn dec_str(n: nat) -> Seq<char>
    decreases n,
{
    if n < 10 {
        seq![digit_char(n)]
    } else {
        dec_str(n / 10) + seq![digit_char(n % 10)]
    }
}

/// The SQL text of one atom, where `k` is the placeholder number the atom
/// receives if it is a bind.
pub open spec fn atom_sql(a: SpecAtom, k: nat) -> Seq<char> {
    match a {
        SpecAtom::Sql(s) => s,
        _ => seq!['$'] + dec_str(k),
    }
}

/// How many bind-parameter slots the atoms consume.
pub open spec fn nbinds(s: Seq<SpecAtom>) -> nat
    decreases s.len(),
{
    if s.len() == 0 {
        0
    } else {
        (if is_bind(s[0]) {
            1nat
        } else {
            0nat
        }) + nbinds(s.drop_first())
    }
}

/// The bind values of the atoms, in order of appearance.
pub open spec fn binds_of(s: Seq<SpecAtom>) -> Seq<SpecBind>
    decreases s.len(),
{
    if s.len() == 0 {
        Seq::empty()
    } else if is_bind(s[0]) {
        seq![bind_of(s[0])] + binds_of(s.drop_first())
    } else {
        binds_of(s.drop_first())
    }
}

/// The rendered SQL text of the atoms, numbering binds upward from `k`.
pub open spec fn render(s: Seq<SpecAtom>, k: nat) -> Seq<char>
    decreases s.len(),
{
    if s.len() == 0 {
        Seq::empty()
    } else {
        atom_sql(s[0], k) + render(
            s.drop_first(),
            k + (if is_bind(s[0]) {
                1nat
            } else {
                0nat
            }),
        )
    }
}

/// The atoms of an infix operator application: the left operand, the operator
/// symbol (a single space on each side) as literal SQL, then the right
/// operand.
pub open spec fn infixed(l: Seq<SpecAtom>, sym: Seq<char>, r: Seq<SpecAtom>) -> Seq<SpecAtom> {
    l + seq![SpecAtom::Sql(sym)] + r
}

pub(crate) proof fn lemma_nbinds_append(a: Seq<SpecAtom>, b: Seq<SpecAtom>)
    ensures
        nbinds(a + b) == nbinds(a) + nbinds(b),
    decreases a.len(),
{
    if a.len() == 0 {
        assert(a + b =~= b);
    } else {
        assert((a + b).drop_first() =~= a.drop_first() + b);
        lemma_nbinds_append(a.drop_first(), b);
    }
}

pub(crate) proof fn lemma_binds_of_append(a: Seq<SpecAtom>, b: Seq<SpecAtom>)
    ensures
        binds_of(a + b) == binds_of(a) + binds_of(b),
    decreases a.len(),
{
    if a.len() == 0 {
        assert(a + b =~= b);
        assert(binds_of(a) + binds_of(b) =~= binds_of(b));
    } else {
        assert((a + b).drop_first() =~= a.drop_first() + b);
        lemma_binds_of_append(a.drop_first(), b);
        if is_bind(a[0]) {
            assert(seq![bind_of(a[0])] + (binds_of(a.drop_first()) + binds_of(b)) =~= (seq![
                bind_of(a[0]),
            ] + binds_of(a.drop_first())) + binds_of(b));
        }
    }
}

pub(crate) proof fn lemma_render_append(a: Seq<SpecAtom>, b: Seq<SpecAtom>, k: nat)
    ensures
        render(a + b, k) == render(a, k) + render(b, k + nbinds(a)),
    decreases a.len(),
{
    if a.len() == 0 {
        assert(a + b =~= b);
        assert(render(a, k) + render(b, k) =~= render(b, k));
    } else {
        assert((a + b).drop_first() =~= a.drop_first() + b);
        let k1 = k + (if is_bind(a[0]) {
            1nat
        } else {
            0nat
        });
        lemma_render_append(a.drop_first(), b, k1);
        assert(atom_sql(a[0], k) + (render(a.drop_first(), k1) + render(
            b,
            k1 + nbinds(a.drop_first()),
        )) =~= (atom_sql(a[0], k) + render(a.drop_first(), k1)) + render(
            b,
            k1 + nbinds(a.drop_first()),
        ));
    }
}

/// Facts about a fragment of a single atom.
pub(crate) proof fn lemma_one_atom(x: SpecAtom, k: nat)
    ensures
        render(seq![x], k) == atom_sql(x, k),
        nbinds(seq![x]) == if is_bind(x) {
            1nat
        } else {
            0nat
        },
        binds_of(seq![x]) == if is_bind(x) {
            seq![bind_of(x)]
        } else {
            Seq::<SpecBind>::empty()
        },
{
    let e = Seq::<SpecAtom>::empty();
    let k1 = k + (if is_bind(x) {
        1nat
    } else {
        0nat
    });
    assert(seq![x].drop_first() =~= e);
    assert(render(e, k1) == Seq::<char>::empty());
    assert(nbinds(e) == 0);
    assert(binds_of(e) == Seq::<SpecBind>::empty());
    assert(render(seq![x], k) == atom_sql(x, k) + render(e, k1));
    assert(atom_sql(x, k) + Seq::<char>::empty() =~= atom_sql(x, k));
    if is_bind(x) {
        assert(binds_of(seq![x]) == seq![bind_of(x)] + binds_of(e));
        assert(seq![bind_of(x)] + Seq::<SpecBind>::empty() =~= seq![bind_of(x)]);
    } else {
        assert(binds_of(seq![x]) == binds_of(e));
    }
}

/// The number of `$N` placeholders a fragment renders equals the number of
/// bind values it collects.
pub proof fn lemma_binds_count(s: Seq<SpecAtom>)
    ensures
        binds_of(s).len() == nbinds(s),
    decreases s.len(),
{
    if s.len() != 0 {
        lemma_binds_count(s.drop_first());
    }
}

/// Facts about a fragment of two literal atoms.
pub(crate) proof fn lemma_two_lits(x: Seq<char>, y: Seq<char>, k: nat)
    ensures
        render(seq![SpecAtom::Sql(x), SpecAtom::Sql(y)], k) == x + y,
        nbinds(seq![SpecAtom::Sql(x), SpecAtom::Sql(y)]) == 0,
        binds_of(seq![SpecAtom::Sql(x), SpecAtom::Sql(y)]) == Seq::<SpecBind>::empty(),
{
    let s = seq![SpecAtom::Sql(x), SpecAtom::Sql(y)];
    assert(s.drop_first() =~= seq![SpecAtom::Sql(y)]);
    lemma_one_atom(SpecAtom::Sql(y), k);
    assert(render(s, k) == x + render(seq![SpecAtom::Sql(y)], k));
}

/// The SQL of an infix application is the left operand's SQL, then the
/// operator symbol, then the right operand's SQL, with the right operand's
/// binds numbered after the left operand's; the bind list is the left
/// operand's binds followed by the right operand's.  This holds of every
/// operator of the family, whose atoms are exactly `infixed`.
pub proof fn lemma_infix_sql(l: Seq<SpecAtom>, sym: Seq<char>, r: Seq<SpecAtom>, k: nat)
    ensures
        render(infixed(l, sym, r), k) == render(l, k) + sym + render(r, k + nbinds(l)),
        binds_of(infixed(l, sym, r)) == binds_of(l) + binds_of(r),
        nbinds(infixed(l, sym, r)) == nbinds(l) + nbinds(r),
{
    let m = seq![SpecAtom::Sql(sym)];
    lemma_one_atom(SpecAtom::Sql(sym), k + nbinds(l));
    lemma_nbinds_append(l, m);
    lemma_nbinds_append(l + m, r);
    lemma_render_append(l, m, k);
    lemma_render_append(l + m, r, k);
    lemma_binds_of_append(l, m);
    lemma_binds_of_append(l + m, r);
    assert((render(l, k) + sym) + render(r, k + nbinds(l)) =~= render(l, k) + sym + render(
        r,
        k + nbinds(l),
    ));
    assert(binds_of(l) + Seq::<SpecBind>::empty() =~= binds_of(l));
}

/// The decimal digit `d`, for `d < 10`, as a one-character SQL literal.
fn digit_str(d: usize) -> (s: &'static str)
    requires
        d < 10,
    ensures
        s@ == seq![digit_char(d as nat)],
{
    let s: &'static str = match d {
        0 => "0",
        1 => "1",
        2 => "2",
        3 => "3",
        4 => "4",
        5 => "5",
        6 => "6",
        7 => "7",
        8 => "8",
        _ => "9",
    };
    proof {
        reveal_strlit("0");
        reveal_strlit("1");
        reveal_strlit("2");
        reveal_strlit("3");
        reveal_strlit("4");
        reveal_strlit("5");
        reveal_strlit("6");
        reveal_strlit("7");
        reveal_strlit("8");
        reveal_strlit("9");
        assert(s@ =~= seq![digit_char(d as nat)]);
    }
    s
}

/// Append the decimal digits of `n` to `out`.
pub(crate) fn push_dec(n: usize, out: &mut String)
    ensures
        final(out)@ == old(out)@ + dec_str(n as nat),
    decreases n,
{
    if n < 10 {
        out.append(digit_str(n));
    } else {
        push_dec(n / 10, out);
        out.append(digit_str(n % 10));
        proof {
            assert((old(out)@ + dec_str((n / 10) as nat)) + seq![digit_char((n % 10) as nat)]
                =~= old(out)@ + (dec_str((n / 10) as nat) + seq![digit_char((n % 10) as nat)]));
        }
    }
}

/// Append one literal SQL atom.
pub(crate) fn push_lit(atoms: &mut Vec<Atom>, s: &str)
    ensures
        atom_views(final(atoms)@) == atom_views(old(atoms)@).push(SpecAtom::Sql(s@)),
{
    atoms.push(Atom::Sql(s.to_owned()));
    proof {
        assert(atom_views(atoms@) =~= atom_views(old(atoms)@).push(SpecAtom::Sql(s@)));
    }
}

/// Append every atom of a sub-fragment.
pub(crate) fn push_frag(atoms: &mut Vec<Atom>, frag: Vec<Atom>)
    ensures
        atom_views(final(atoms)@) == atom_views(old(atoms)@) + atom_views(frag@),
{
    let mut tail = frag;
    atoms.append(&mut tail);
    proof {
        assert(atom_views(atoms@) =~= atom_views(old(atoms)@) + atom_views(frag@));
    }
}

pub(crate) proof fn lemma_atom_views_push(s: Seq<Atom>, x: Atom)
    ensures
        atom_views(s.push(x)) == atom_views(s).push(x@),
{
    assert(atom_views(s.push(x)) =~= atom_views(s).push(x@));
}

pub(crate) proof fn lemma_bind_views_push(s: Seq<BindParam>, x: BindParam)
    ensures
        bind_views(s.push(x)) == bind_views(s).push(x@),
{
    assert(bind_views(s.push(x)) =~= bind_views(s).push(x@));
}

/// Copy a fragment's atoms.
pub(crate) fn copy_atoms(v: &Vec<Atom>) -> (r: Vec<Atom>)
    ensures
        atom_views(r@) == atom_views(v@),
{
    let mut r: Vec<Atom> = Vec::new();
    let mut i: usize = 0;
    while i < v.len()
        invariant
            i <= v.len(),
            atom_views(r@) == atom_views(v@.take(i as int)),
        decreases v.len() - i,
    {
        let a = v[i].clone();
        proof {
            assert(v@.take(i as int + 1) =~= v@.take(i as int).push(v@[i as int]));
            lemma_atom_views_push(v@.take(i as int), v@[i as int]);
            lemma_atom_views_push(r@, a);
        }
        r.push(a);
        i += 1;
    }
    proof {
        assert(v@.take(v.len() as int) =~= v@);
    }
    r
}

} // verus!
