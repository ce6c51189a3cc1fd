use ltree_dsl::Array;
use ltree_dsl::BindParam;
use ltree_dsl::Expr;
use ltree_dsl::Lquery;
use ltree_dsl::LqueryArrayExtensions;
use ltree_dsl::LqueryExtensions;
use ltree_dsl::Ltree;
use ltree_dsl::LtreeArrayExtensions;
use ltree_dsl::LtreeExtensions;
use ltree_dsl::Ltxtquery;
use ltree_dsl::LtxtqueryExtensions;

fn path() -> Expr<Ltree> {
    Expr::<Ltree>::column("path")
}

fn paths() -> Expr<Array<Ltree>> {
    Expr::<Array<Ltree>>::column("paths")
}

fn pattern() -> Expr<Lquery> {
    Expr::<Lquery>::column("pattern")
}

fn patterns() -> Expr<Array<Lquery>> {
    Expr::<Array<Lquery>>::column("patterns")
}

fn tpattern() -> Expr<Ltxtquery> {
    Expr::<Ltxtquery>::column("tpattern")
}

#[test]
fn ltree_operator_symbols() {
    assert_eq!(path().contains(path()).to_sql().0, "path @> path");
    assert_eq!(path().contains_any(paths()).to_sql().0, "path @> paths");
    assert_eq!(path().contained_by(path()).to_sql().0, "path <@ path");
    assert_eq!(path().contained_by_any(paths()).to_sql().0, "path <@ paths");
    assert_eq!(path().matches(pattern()).to_sql().0, "path ~ pattern");
    assert_eq!(path().matches_any(patterns()).to_sql().0, "path ? patterns");
    assert_eq!(path().tmatches(tpattern()).to_sql().0, "path @ tpattern");
    assert_eq!(path().concat(path()).to_sql().0, "path || path");
}

#[test]
fn ltree_array_operator_symbols() {
    assert_eq!(paths().any_contains(path()).to_sql().0, "paths @> path");
    assert_eq!(paths().any_contained_by(path()).to_sql().0, "paths <@ path");
    assert_eq!(paths().any_matches(pattern()).to_sql().0, "paths ~ pattern");
    assert_eq!(paths().any_matches_any(patterns()).to_sql().0, "paths ? patterns");
    assert_eq!(paths().any_tmatches(tpattern()).to_sql().0, "paths @ tpattern");
    assert_eq!(paths().first_contains(path()).to_sql().0, "paths ?@> path");
    assert_eq!(paths().first_contained_by(path()).to_sql().0, "paths ?<@ path");
    assert_eq!(paths().first_matches(pattern()).to_sql().0, "paths ?~ pattern");
    assert_eq!(paths().first_tmatches(tpattern()).to_sql().0, "paths ?@ tpattern");
}

#[test]
fn lquery_operator_symbols() {
    assert_eq!(pattern().matches(path()).to_sql().0, "pattern ~ path");
    assert_eq!(pattern().matches_any(paths()).to_sql().0, "pattern ~ paths");
}

#[test]
fn lquery_array_operator_symbols() {
    assert_eq!(patterns().any_matches(path()).to_sql().0, "patterns ? path");
    assert_eq!(patterns().any_matches_any(paths()).to_sql().0, "patterns ? paths");
}

#[test]
fn ltxtquery_operator_symbols() {
    assert_eq!(tpattern().tmatches(path()).to_sql().0, "tpattern @ path");
    assert_eq!(tpattern().tmatches_any(paths()).to_sql().0, "tpattern @ paths");
}

#[test]
fn operators_produce_no_binds_for_columns() {
    let (sql, binds) = path().contains(path()).to_sql();
    assert_eq!(sql, "path @> path");
    assert!(binds.is_empty());
}

#[test]
fn binds_are_numbered_left_to_right() {
    let left = Ltree("a.b".to_string()).to_expression();
    let right = Ltree("a.b.c".to_string()).to_expression();
    let (sql, binds) = left.contains(right).to_sql();
    assert_eq!(sql, "$1::text::ltree @> $2::text::ltree");
    assert_eq!(
        binds,
        vec![
            BindParam::Text("a.b".to_string()),
            BindParam::Text("a.b.c".to_string()),
        ]
    );
}

#[test]
fn concat_is_associative_in_the_type_system() {
    let e: Expr<Ltree> = path().concat(path()).concat(Expr::<Ltree>::column("tail"));
    assert_eq!(e.to_sql().0, "path || path || tail");
}
