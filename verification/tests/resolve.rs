use sql_mapper::error::{Construct, Error};
use sql_mapper::parse::Identifier;
use sql_mapper::resolve::{Projection, ProjectionWalker};
use sql_mapper::schema::{ColumnType, NullableType, Schema};
use sql_mapper::sql::{
    parse_query, FromClause, Query, SelectClause, SelectList, SelectSublist, SqlStatement,
};

const SCHEMA: &str = "table! { a (id) { id -> Int4, name -> Nullable<Text> } }\n\
                      table! { b (x) { x -> Float8 } }\n\
                      table! { empty (x) { } }\n\
                      table! { b (x) { late -> Text } }";

fn id(name: &str) -> Identifier {
    Identifier { id: name.to_string() }
}

fn names(columns: &[Projection<'_>]) -> Vec<String> {
    columns.iter().map(|c| c.name.clone()).collect()
}

#[test]
fn columns_follow_the_from_clause_then_the_declarations() {
    let schema = Schema::parse(SCHEMA).unwrap();
    let query = parse_query("SELECT * FROM a, b").unwrap();
    let columns = query.walk_projection(&schema).unwrap();
    assert_eq!(names(&columns), vec!["a.id", "a.name", "b.x"]);
    assert_eq!(columns[0].diesel_type, &ColumnType::Plain(id("Int4")));
    assert_eq!(columns[1].diesel_type, &ColumnType::Nullable(NullableType { ty: id("Text") }));
    assert_eq!(columns[2].diesel_type, &ColumnType::Plain(id("Float8")));

    let query = parse_query("SELECT * FROM b, a").unwrap();
    let columns = query.walk_projection(&schema).unwrap();
    assert_eq!(names(&columns), vec!["b.x", "a.id", "a.name"]);
}

#[test]
fn aliases_play_no_part_in_resolution() {
    let schema = Schema::parse(SCHEMA).unwrap();
    let plain = parse_query("SELECT * FROM a, b").unwrap();
    let aliased = parse_query("SELECT * FROM a AS b, b a").unwrap();
    assert_eq!(aliased.walk_projection(&schema), plain.walk_projection(&schema));
}

#[test]
fn table_may_be_named_twice() {
    let schema = Schema::parse(SCHEMA).unwrap();
    let query = parse_query("SELECT * FROM b, empty, b").unwrap();
    assert_eq!(names(&query.walk_projection(&schema).unwrap()), vec!["b.x", "b.x"]);
}

#[test]
fn first_declaration_of_a_name_is_the_table() {
    let schema = Schema::parse(SCHEMA).unwrap();
    let query = parse_query("SELECT * FROM b").unwrap();
    assert_eq!(names(&query.walk_projection(&schema).unwrap()), vec!["b.x"]);
}

#[test]
fn table_names_match_exactly() {
    let schema = Schema::parse(SCHEMA).unwrap();
    let query = parse_query("SELECT * FROM A").unwrap();
    assert_eq!(query.walk_projection(&schema), Err(Error::UnknownTable("A".to_string())));
}

#[test]
fn first_unknown_table_is_reported() {
    let schema = Schema::parse(SCHEMA).unwrap();
    let query = parse_query("SELECT * FROM missing_table").unwrap();
    assert_eq!(
        query.walk_projection(&schema),
        Err(Error::UnknownTable("missing_table".to_string()))
    );
    let query = parse_query("SELECT * FROM a, one, b, two").unwrap();
    assert_eq!(query.walk_projection(&schema), Err(Error::UnknownTable("one".to_string())));
    let query = parse_query("SELECT * FROM a AS missing, missing AS a").unwrap();
    assert_eq!(query.walk_projection(&schema), Err(Error::UnknownTable("missing".to_string())));
}

#[test]
fn wildcard_needs_a_from_clause() {
    let schema = Schema::parse(SCHEMA).unwrap();
    let query = parse_query("SELECT *").unwrap();
    assert_eq!(query.walk_projection(&schema), Err(Error::MissingFromForWildcard));
    let query = parse_query("SELECT DISTINCT * INTO a").unwrap();
    assert_eq!(query.walk_projection(&schema), Err(Error::MissingFromForWildcard));
}

#[test]
fn column_list_is_not_resolved() {
    let schema = Schema::parse(SCHEMA).unwrap();
    let query = parse_query("SELECT").unwrap();
    assert_eq!(
        query.walk_projection(&schema),
        Err(Error::UnsupportedConstruct(Construct::ExplicitColumnList))
    );
    let query = Query {
        select_clause: SelectClause {
            all_or_distinct: None,
            star_or_sublists: SelectList::Sublists(vec![SelectSublist]),
        },
        into_clause: None,
        from_clause: parse_query("SELECT * FROM a").unwrap().from_clause,
    };
    assert_eq!(
        query.walk_projection(&schema),
        Err(Error::UnsupportedConstruct(Construct::ExplicitColumnList))
    );
}

#[test]
fn from_clause_without_tables_has_no_columns() {
    let schema = Schema::parse(SCHEMA).unwrap();
    let query = Query {
        select_clause: SelectClause { all_or_distinct: None, star_or_sublists: SelectList::Star },
        into_clause: None,
        from_clause: Some(FromClause { table_references: vec![] }),
    };
    assert_eq!(query.walk_projection(&schema), Ok(vec![]));
}

#[test]
fn resolving_twice_gives_the_same_columns() {
    let schema = Schema::parse(SCHEMA).unwrap();
    let statement = SqlStatement::parse("-- \"s\" Both SELECT * FROM a, b, a").unwrap();
    let first = statement.walk_projection(&schema);
    let second = statement.walk_projection(&schema);
    assert_eq!(first, second);
    assert_eq!(names(&first.unwrap()), vec!["a.id", "a.name", "b.x", "a.id", "a.name"]);
    let statement = SqlStatement::parse("-- \"s\" Bad SELECT * FROM a, c").unwrap();
    assert_eq!(statement.walk_projection(&schema), statement.walk_projection(&schema));
    assert_eq!(statement.walk_projection(&schema), Err(Error::UnknownTable("c".to_string())));
}

#[test]
fn statement_resolves_as_its_query() {
    let schema = Schema::parse(SCHEMA).unwrap();
    let statement = SqlStatement::parse("-- \"s\" Both SELECT * FROM b AS c, a").unwrap();
    assert_eq!(statement.walk_projection(&schema), statement.query.walk_projection(&schema));
}
