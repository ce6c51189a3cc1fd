use ltree_dsl::Array;
use ltree_dsl::BindParam;
use ltree_dsl::DeserializationError;
use ltree_dsl::Expr;
use ltree_dsl::Int4;
use ltree_dsl::Ltree;
use ltree_dsl::LtreeArrayExtensions;
use ltree_dsl::LtreeExtensions;
use ltree_dsl::Text;
use ltree_dsl::array;
use ltree_dsl::index;
use ltree_dsl::lca;
use ltree_dsl::lquery;
use ltree_dsl::ltree2text;
use ltree_dsl::ltxtquery;
use ltree_dsl::nlevel;
use ltree_dsl::subltree;
use ltree_dsl::subpath;
use ltree_dsl::text2ltree;

#[test]
fn wire_round_trip_is_lossless() {
    let value = Ltree("Top.Science.Astronomy".to_string());
    let (sql, binds) = value.to_expression().to_sql();
    assert_eq!(sql, "$1::text::ltree");
    assert_eq!(binds, vec![BindParam::Text("Top.Science.Astronomy".to_string())]);
    let decoded = Ltree::from_sql(Some("Top.Science.Astronomy".to_string()));
    assert_eq!(decoded, Ok(value));
}

#[test]
fn wire_round_trip_keeps_the_empty_string() {
    let value = Ltree(String::new());
    let (sql, binds) = value.to_expression().to_sql();
    assert_eq!(sql, "$1::text::ltree");
    assert_eq!(binds, vec![BindParam::Text(String::new())]);
    assert_eq!(Ltree::from_sql(Some(String::new())), Ok(value));
}

#[test]
fn decoding_an_absent_cell_fails() {
    assert_eq!(Ltree::from_sql(None), Err(DeserializationError::UnexpectedNull));
}

#[test]
fn scalar_function_calls() {
    let (sql, binds) = subltree(
        Expr::<Ltree>::column("path"),
        Expr::<Int4>::bind(0),
        Expr::<Int4>::bind(2),
    )
    .to_sql();
    assert_eq!(sql, "subltree(path, $1, $2)");
    assert_eq!(binds, vec![BindParam::Int(0), BindParam::Int(2)]);

    let (sql, binds) = subpath(
        Expr::<Ltree>::column("path"),
        Expr::<Int4>::bind(1),
        Expr::<Int4>::bind(3),
    )
    .to_sql();
    assert_eq!(sql, "subpath(path, $1, $2)");
    assert_eq!(binds, vec![BindParam::Int(1), BindParam::Int(3)]);

    assert_eq!(nlevel(Expr::<Ltree>::column("path")).to_sql().0, "nlevel(path)");

    let (sql, binds) = index(
        Expr::<Ltree>::column("a"),
        Expr::<Ltree>::column("b"),
        Expr::<Int4>::bind(-4),
    )
    .to_sql();
    assert_eq!(sql, "index(a, b, $1)");
    assert_eq!(binds, vec![BindParam::Int(-4)]);

    let (sql, binds) = text2ltree(Expr::<Text>::bind("x.y")).to_sql();
    assert_eq!(sql, "text2ltree($1)");
    assert_eq!(binds, vec![BindParam::Text("x.y".to_string())]);

    assert_eq!(ltree2text(Expr::<Ltree>::column("path")).to_sql().0, "ltree2text(path)");
}

#[test]
fn matches_a_compiled_pattern() {
    let (sql, binds) = Expr::<Ltree>::column("path_column")
        .matches(lquery(Expr::<Text>::bind("a.*.b")))
        .to_sql();
    assert_eq!(sql, "path_column ~ lquery($1)");
    assert_eq!(binds, vec![BindParam::Text("a.*.b".to_string())]);
}

#[test]
fn tmatches_a_compiled_text_pattern() {
    let (sql, binds) = Expr::<Ltree>::column("path")
        .tmatches(ltxtquery(Expr::<Text>::bind("Europe & Russia*")))
        .to_sql();
    assert_eq!(sql, "path @ ltxtquery($1)");
    assert_eq!(binds, vec![BindParam::Text("Europe & Russia*".to_string())]);
}

#[test]
fn array_column_contains_a_bound_path() {
    let (sql, binds) = Expr::<Array<Ltree>>::column("array_of_paths")
        .any_contains(Ltree("x.y".to_string()).to_expression())
        .to_sql();
    assert_eq!(sql, "array_of_paths @> $1::text::ltree");
    assert_eq!(binds, vec![BindParam::Text("x.y".to_string())]);
}

#[test]
fn lca_of_an_array_literal() {
    let elems = vec![
        Ltree("a.b.c".to_string()).to_expression(),
        Ltree("a.b.d".to_string()).to_expression(),
        Ltree("a.e".to_string()).to_expression(),
    ];
    let (sql, binds) = lca(array(&elems)).to_sql();
    assert_eq!(sql, "lca(ARRAY[$1::text::ltree,$2::text::ltree,$3::text::ltree])");
    assert_eq!(
        binds,
        vec![
            BindParam::Text("a.b.c".to_string()),
            BindParam::Text("a.b.d".to_string()),
            BindParam::Text("a.e".to_string()),
        ]
    );
}

#[test]
fn lca_result_types_as_a_value() {
    let columns = vec![
        Expr::<Ltree>::column("p1"),
        Expr::<Ltree>::column("p2"),
        Expr::<Ltree>::column("p3"),
    ];
    let ancestor: Expr<Ltree> = lca(array(&columns));
    let (sql, binds) = ancestor.concat(Expr::<Ltree>::column("suffix")).to_sql();
    assert_eq!(sql, "lca(ARRAY[p1,p2,p3]) || suffix");
    assert!(binds.is_empty());
}

#[test]
fn empty_array_literal() {
    let elems: Vec<Expr<Ltree>> = Vec::new();
    assert_eq!(array(&elems).to_sql().0, "ARRAY[]");
}

#[test]
fn bind_numbers_reach_two_digits() {
    let mut elems = Vec::new();
    for i in 0..12 {
        elems.push(Ltree(format!("n.{}", i)).to_expression());
    }
    let (sql, binds) = array(&elems).to_sql();
    assert_eq!(binds.len(), 12);
    assert!(sql.starts_with("ARRAY[$1::text::ltree,"));
    assert!(sql.contains("$10::text::ltree"));
    assert!(sql.ends_with("$12::text::ltree]"));
    assert_eq!(binds[11], BindParam::Text("n.11".to_string()));
}
