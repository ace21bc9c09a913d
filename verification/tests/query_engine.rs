use utopia::query_engine::{
    execute, fetch_schema, statement_timeout, wrapped, ColumnRow, ForeignKeyRow, PostgresEngine,
    PrimaryKeyRow, READ_ONLY,
};

fn column(table: &str, column: &str, nullable: Option<&str>) -> ColumnRow {
    ColumnRow {
        schema: "public".into(),
        table: table.into(),
        column: column.into(),
        data_type: "integer".into(),
        is_nullable: nullable.map(str::to_string),
        comment: Some(format!("{table}.{column}")),
    }
}

fn foreign(name: &str, table: &str, column: &str, to: Option<&str>) -> ForeignKeyRow {
    ForeignKeyRow {
        constraint: name.into(),
        schema: "public".into(),
        table: table.into(),
        column: column.into(),
        ref_schema: Some("public".into()),
        ref_table: to.map(str::to_string),
    }
}

fn primary(name: &str, table: &str, column: &str) -> PrimaryKeyRow {
    PrimaryKeyRow {
        constraint: name.into(),
        schema: "public".into(),
        table: table.into(),
        column: column.into(),
    }
}

#[test]
fn an_engine_keeps_its_connection() {
    assert_eq!(PostgresEngine::new("postgres://db").conn, "postgres://db");
}

#[test]
fn columns_carry_their_keys() {
    let cols = vec![
        column("parent", "id", Some("NO")),
        column("parent", "ref_parent", Some("YES")),
        column("parent", "note", Some("YES")),
        column("child", "id", None),
    ];
    let pks = vec![primary("parent_pkey", "parent", "id")];
    let fks = vec![foreign("parent_ref_fkey", "parent", "ref_parent", Some("parent"))];
    let got = fetch_schema(cols, &pks, &fks);
    assert_eq!(got.len(), 4);
    assert!(got[0].is_primary_key && !got[0].is_foreign_key && !got[0].nullable);
    assert_eq!(got[0].references_table, None);
    assert!(!got[1].is_primary_key && got[1].is_foreign_key && got[1].nullable);
    assert_eq!(got[1].references_table.as_deref(), Some("public.parent"));
    assert!(!got[2].is_primary_key && !got[2].is_foreign_key && got[2].nullable);
    assert!(!got[3].is_primary_key && !got[3].is_foreign_key && !got[3].nullable);
    assert_eq!(got[3].column, "id");
    assert_eq!(got[3].comment.as_deref(), Some("child.id"));
    assert_eq!(got[3].data_type, "integer");
}

#[test]
fn the_last_foreign_key_of_a_column_counts() {
    let cols = || vec![column("child", "parent_id", Some("NO"))];
    let fks = vec![
        foreign("f1", "child", "parent_id", Some("a")),
        foreign("f2", "child", "parent_id", Some("b")),
    ];
    assert_eq!(
        fetch_schema(cols(), &vec![], &fks)[0].references_table.as_deref(),
        Some("public.b")
    );
    let fks = vec![
        foreign("f1", "child", "parent_id", Some("a")),
        foreign("f2", "child", "parent_id", None),
    ];
    let got = fetch_schema(cols(), &vec![], &fks);
    assert!(got[0].is_foreign_key);
    assert_eq!(got[0].references_table, None);
}

#[test]
fn members_of_a_key_of_several_columns_stay_unmarked() {
    let cols = || {
        vec![column("child", "parent_id", Some("NO")), column("child", "ordinal", Some("NO"))]
    };
    let pks = vec![primary("child_pkey", "child", "parent_id"), primary("child_pkey", "child", "ordinal")];
    let fks = vec![
        foreign("pair", "child", "parent_id", Some("pairs")),
        foreign("pair", "child", "ordinal", Some("pairs")),
    ];
    for c in fetch_schema(cols(), &pks, &fks) {
        assert!(!c.is_primary_key && !c.is_foreign_key && !c.nullable, "{}", c.column);
        assert_eq!(c.references_table, None);
    }
    let fks = vec![
        foreign("one", "child", "parent_id", Some("parent")),
        foreign("pair", "child", "parent_id", Some("pairs")),
        foreign("pair", "child", "ordinal", Some("pairs")),
    ];
    let got = fetch_schema(cols(), &pks, &fks);
    assert_eq!(got[0].references_table.as_deref(), Some("public.parent"));
    assert!(!got[1].is_foreign_key);
}

#[test]
fn keys_of_one_name_in_two_tables_are_two_keys() {
    let cols = vec![column("a", "x", None), column("b", "y", None)];
    let fks = vec![foreign("ref", "a", "x", Some("c")), foreign("ref", "b", "y", Some("d"))];
    let pks = vec![primary("k", "a", "x"), primary("k", "b", "y")];
    let got = fetch_schema(cols, &pks, &fks);
    assert!(got.iter().all(|c| c.is_primary_key && c.is_foreign_key));
    assert_eq!(got[1].references_table.as_deref(), Some("public.d"));
}

#[test]
fn a_query_is_wrapped_and_bounded() {
    assert_eq!(
        wrapped("SELECT 1", 200),
        "SELECT row_to_json(_q)::text AS _j FROM ( SELECT 1 ) AS _q LIMIT 201"
    );
    assert_eq!(statement_timeout(30), "SET statement_timeout = '30s'");
    assert_eq!(READ_ONLY, "SET default_transaction_read_only = on");
}

#[test]
fn rows_beyond_the_cap_are_cut() {
    let rows = |n: usize| -> Vec<Option<String>> { (0..n).map(|i| Some(i.to_string())).collect() };
    let got = execute(&rows(3), 2);
    assert_eq!(got.rows, ["0", "1"]);
    assert!(got.truncated);
    let got = execute(&rows(2), 2);
    assert_eq!(got.rows, ["0", "1"]);
    assert!(!got.truncated);
    let got = execute(&vec![None], 2);
    assert_eq!(got.rows, ["{}"]);
    assert!(execute(&vec![], 2).rows.is_empty());
}
