use sql_mapper::display::{fmt_list, SqlDisplay};
use sql_mapper::error::{Construct, Error};
use sql_mapper::parse::Identifier;
use sql_mapper::schema::{ColumnType, NullableType};
use sql_mapper::sql::{
    parse_query, FromClause, IntoClause, Quantifier, Query, SelectClause, SelectList,
    SelectSublist, SqlStatement, TableReference,
};

fn id(name: &str) -> Identifier {
    Identifier { id: name.to_string() }
}

fn printed<T: SqlDisplay>(node: &T, level: usize) -> String {
    let mut text = String::new();
    node.fmt_sql(&mut text, level).unwrap();
    text
}

#[test]
fn query_prints_each_clause_on_its_own_line() {
    let query = parse_query("SELECT * FROM pupil").unwrap();
    assert_eq!(query.render().unwrap(), "SELECT\n    *\nFROM\n    pupil");
    assert_eq!(printed(&query, 0), "SELECT\n    *\nFROM\n    pupil");
}

#[test]
fn query_without_from_prints_its_select_clause() {
    let query = parse_query("SELECT *").unwrap();
    assert_eq!(query.render().unwrap(), "SELECT\n    *");
}

#[test]
fn deeper_level_indents_every_line() {
    let query = parse_query("SELECT DISTINCT * FROM a, b").unwrap();
    assert_eq!(printed(&query, 1), "    SELECT DISTINCT\n        *\n    FROM\n        a,b");
    assert_eq!(
        printed(&query, 2),
        "        SELECT DISTINCT\n            *\n        FROM\n            a,b"
    );
}

#[test]
fn quantifier_follows_select_on_its_line() {
    assert_eq!(parse_query("SELECT ALL *").unwrap().render().unwrap(), "SELECT ALL\n    *");
    assert_eq!(printed(&Quantifier::All, 3), "ALL");
    assert_eq!(printed(&Quantifier::Distinct, 0), "DISTINCT");
}

#[test]
fn alias_prints_after_as() {
    let query = parse_query("SELECT * FROM pupil p, teacher AS t, school").unwrap();
    assert_eq!(query.render().unwrap(), "SELECT\n    *\nFROM\n    pupil AS p,teacher AS t,school");
    let reference = TableReference { table_name: id("pupil"), alias: Some(id("p")) };
    assert_eq!(printed(&reference, 0), "pupil AS p");
}

#[test]
fn printing_appends_to_what_is_there() {
    let mut text = String::from("-- ");
    id("pupil").fmt_sql(&mut text, 5).unwrap();
    assert_eq!(text, "-- pupil");
    let clause = FromClause {
        table_references: vec![TableReference { table_name: id("a"), alias: None }],
    };
    clause.fmt_sql(&mut text, 0).unwrap();
    assert_eq!(text, "-- pupilFROM\n    a");
}

#[test]
fn into_clause_has_no_rendering() {
    let query = parse_query("SELECT * INTO target FROM pupil").unwrap();
    assert_eq!(query.render(), Err(Error::UnsupportedConstruct(Construct::IntoClause)));
    let mut text = String::from("before");
    assert_eq!(query.fmt_sql(&mut text, 0), Err(Construct::IntoClause));
    assert_eq!(text, "before");
    let clause = IntoClause { identifier: id("target") };
    assert_eq!(clause.fmt_sql(&mut text, 0), Err(Construct::IntoClause));
    assert_eq!(text, "before");
}

#[test]
fn statement_prints_its_query_only() {
    let statement = SqlStatement::parse("-- \"schema.rs\" Pupil SELECT ALL * FROM pupil").unwrap();
    assert_eq!(statement.render().unwrap(), "SELECT ALL\n    *\nFROM\n    pupil");
}

#[test]
fn schema_types_print_as_nothing_where_nullable() {
    let nullable = NullableType { ty: id("Int4") };
    assert_eq!(printed(&nullable, 0), "");
    assert_eq!(printed(&ColumnType::Nullable(nullable), 1), "");
    assert_eq!(printed(&ColumnType::Plain(id("Int4")), 1), "Int4");
}

#[test]
fn column_list_prints_its_separators() {
    assert_eq!(printed(&SelectSublist, 0), "");
    assert_eq!(printed(&SelectList::Star, 0), "*");
    assert_eq!(printed(&SelectList::Sublists(vec![]), 0), "");
    assert_eq!(printed(&SelectList::Sublists(vec![SelectSublist]), 0), "");
    assert_eq!(printed(&SelectList::Sublists(vec![SelectSublist, SelectSublist, SelectSublist]), 0), ",,");
    let clause = SelectClause {
        all_or_distinct: None,
        star_or_sublists: SelectList::Sublists(vec![]),
    };
    assert_eq!(printed(&clause, 0), "SELECT\n    ");
}

#[test]
fn list_prints_items_between_commas() {
    let mut text = String::new();
    fmt_list::<Identifier>(&vec![], &mut text, 0).unwrap();
    assert_eq!(text, "");
    fmt_list(&vec![id("a")], &mut text, 0).unwrap();
    assert_eq!(text, "a");
    fmt_list(&vec![id("b"), id("c"), id("d")], &mut text, 0).unwrap();
    assert_eq!(text, "ab,c,d");
    let clauses = vec![IntoClause { identifier: id("x") }];
    assert_eq!(fmt_list(&clauses, &mut text, 0), Err(Construct::IntoClause));
    assert_eq!(text, "ab,c,d");
}

#[test]
fn printed_query_reads_back_as_itself() {
    let texts = [
        "SELECT *",
        "SELECT",
        "SELECT ALL",
        "SELECT ALL *",
        "SELECT DISTINCT * FROM pupil",
        "SELECT * FROM pupil p",
        "SELECT * FROM pupil AS p, teacher, school s,",
        "SELECT * FROM AS AS AS, FROM SELECT, ALL",
        "SELECT DISTINCT * FROM _a1, B_2 AS _",
    ];
    for text in texts {
        let query = parse_query(text).unwrap();
        for level in [0, 1, 3] {
            let mut printed = String::new();
            query.fmt_sql(&mut printed, level).unwrap();
            let again: Query = parse_query(&printed).unwrap();
            assert_eq!(again, query);
        }
    }
}
