use sql_mapper::error::{Construct, Expected, ParseError, ParseErrorKind};
use sql_mapper::parse::{
    keyword, optional, punct, punctuated, try_parse, Either, Identifier, MinCount, Parse,
};
use sql_mapper::sql::{
    complete, parse_query, All, Distinct, FromClause, IntoClause, Quantifier, Query,
    SelectClause, SelectList, SelectSublist, SqlStatement, TableReference,
};
use sql_mapper::token::tokenize;

fn id(name: &str) -> Identifier {
    Identifier { id: name.to_string() }
}

fn table(name: &str) -> TableReference {
    TableReference { table_name: id(name), alias: None }
}

fn aliased(name: &str, alias: &str) -> TableReference {
    TableReference { table_name: id(name), alias: Some(id(alias)) }
}

fn star(quantifier: Option<Quantifier>, tables: Option<Vec<TableReference>>) -> Query {
    Query {
        select_clause: SelectClause {
            all_or_distinct: quantifier,
            star_or_sublists: SelectList::Star,
        },
        into_clause: None,
        from_clause: tables.map(|table_references| FromClause { table_references }),
    }
}

fn expected(pos: usize, what: Expected) -> ParseError {
    ParseError { pos, kind: ParseErrorKind::Expected(what) }
}

#[test]
fn statement_holds_path_name_and_query() {
    let statement = SqlStatement::parse("-- \"schema.rs\" Pupil\nSELECT * FROM pupil").unwrap();
    assert_eq!(
        statement,
        SqlStatement {
            file: "schema.rs".to_string(),
            file_pos: 3,
            name: id("Pupil"),
            query: star(None, Some(vec![table("pupil")])),
        }
    );
}

#[test]
fn header_dashes_may_stand_apart() {
    let joined = SqlStatement::parse("--\"s\" A SELECT *").unwrap();
    let apart = SqlStatement::parse("- - \"s\" A SELECT *").unwrap();
    assert_eq!(joined.file_pos, 2);
    assert_eq!(apart.file_pos, 4);
    assert_eq!(SqlStatement { file_pos: 4, ..joined.clone() }, apart);
    assert_eq!(joined.query, star(None, None));
}

#[test]
fn header_parts_are_required_in_order() {
    assert_eq!(SqlStatement::parse("").unwrap_err(), expected(0, Expected::Punct('-')));
    assert_eq!(SqlStatement::parse("- \"s\" A").unwrap_err(), expected(2, Expected::Punct('-')));
    assert_eq!(SqlStatement::parse("-- A SELECT *").unwrap_err(), expected(3, Expected::Literal));
    assert_eq!(
        SqlStatement::parse("-- \"s\" \"t\" SELECT *").unwrap_err(),
        expected(7, Expected::Identifier)
    );
    assert_eq!(SqlStatement::parse("-- \"s\" A").unwrap_err(), expected(8, Expected::Select));
}

#[test]
fn keywords_are_case_sensitive() {
    assert_eq!(parse_query("select * from pupil").unwrap_err(), expected(0, Expected::Select));
}

#[test]
fn quantifier_is_read_where_it_stands() {
    assert_eq!(parse_query("SELECT ALL *").unwrap(), star(Some(Quantifier::All), None));
    assert_eq!(
        parse_query("SELECT DISTINCT * FROM a").unwrap(),
        star(Some(Quantifier::Distinct), Some(vec![table("a")]))
    );
    assert_eq!(parse_query("SELECT *").unwrap(), star(None, None));
}

#[test]
fn alias_is_read_with_and_without_as() {
    assert_eq!(
        parse_query("SELECT * FROM pupil AS p, teacher t, school").unwrap(),
        star(None, Some(vec![aliased("pupil", "p"), aliased("teacher", "t"), table("school")]))
    );
}

#[test]
fn as_may_be_a_name() {
    assert_eq!(
        parse_query("SELECT * FROM AS AS AS").unwrap(),
        star(None, Some(vec![aliased("AS", "AS")]))
    );
    assert_eq!(
        parse_query("SELECT * FROM a AS AS, AS").unwrap(),
        star(None, Some(vec![aliased("a", "AS"), table("AS")]))
    );
    assert_eq!(parse_query("SELECT * FROM a AS").unwrap_err(), expected(9, Expected::End));
}

#[test]
fn table_list_accepts_a_trailing_comma() {
    assert_eq!(
        parse_query("SELECT * FROM a, b,").unwrap(),
        star(None, Some(vec![table("a"), table("b")]))
    );
}

#[test]
fn into_clause_is_read() {
    let query = parse_query("SELECT * INTO target FROM pupil").unwrap();
    assert_eq!(query.into_clause, Some(IntoClause { identifier: id("target") }));
    assert_eq!(query.from_clause, Some(FromClause { table_references: vec![table("pupil")] }));
}

#[test]
fn clause_that_cannot_be_read_in_full_is_left_over() {
    assert_eq!(parse_query("SELECT * FROM").unwrap_err(), expected(9, Expected::End));
    assert_eq!(parse_query("SELECT * INTO").unwrap_err(), expected(9, Expected::End));
    assert_eq!(parse_query("SELECT * FROM a b c").unwrap_err(), expected(9, Expected::End));
    assert_eq!(parse_query("SELECT * FROM a, *").unwrap_err(), expected(9, Expected::End));
    assert_eq!(parse_query("SELECT * WHERE x").unwrap_err(), expected(9, Expected::End));
    assert_eq!(parse_query("SELECT * FROM a INTO b c").unwrap_err(), expected(9, Expected::End));
}

#[test]
fn column_list_is_recognised_and_unsupported() {
    let unsupported = |pos| ParseError {
        pos,
        kind: ParseErrorKind::Unsupported(Construct::ExplicitColumnList),
    };
    assert_eq!(parse_query("SELECT id FROM pupil").unwrap_err(), unsupported(7));
    assert_eq!(parse_query("SELECT ALL id, name").unwrap_err(), unsupported(11));
    assert_eq!(parse_query("SELECT FROM pupil").unwrap_err(), unsupported(7));
    assert_eq!(parse_query("SELECT ,").unwrap_err(), unsupported(7));
}

#[test]
fn empty_column_list_ends_the_query() {
    let query = parse_query("SELECT").unwrap();
    assert_eq!(query.select_clause.star_or_sublists, SelectList::Sublists(vec![]));
    assert_eq!(query.into_clause, None);
    assert_eq!(query.from_clause, None);
    let query = parse_query("SELECT DISTINCT").unwrap();
    assert_eq!(query.select_clause.all_or_distinct, Some(Quantifier::Distinct));
    assert_eq!(query.select_clause.star_or_sublists, SelectList::Sublists(vec![]));
    assert_eq!(parse_query("SELECT )").unwrap_err(), expected(7, Expected::End));
}

#[test]
fn lexical_error_in_statement_is_a_parse_error() {
    assert_eq!(
        SqlStatement::parse("-- \"schema.rs Pupil SELECT *").unwrap_err(),
        expected(3, Expected::ClosingQuote)
    );
    assert_eq!(parse_query("SELECT * FROM \u{2}").unwrap_err(), expected(14, Expected::Token));
    assert_eq!(parse_query("SELECT * /* FROM a").unwrap_err(), expected(9, Expected::CommentEnd));
}

#[test]
fn constant_is_no_table_name() {
    assert_eq!(parse_query("SELECT * FROM 1").unwrap_err(), expected(9, Expected::End));
    assert_eq!(parse_query("SELECT * FROM a, 'b'").unwrap_err(), expected(9, Expected::End));
    assert_eq!(
        SqlStatement::parse("-- 'a' A SELECT *").unwrap_err(),
        expected(3, Expected::Literal)
    );
}

#[test]
fn comments_add_nothing_to_a_statement() {
    let plain = SqlStatement::parse("-- \"s\" A SELECT * FROM a").unwrap();
    let commented = SqlStatement::parse(
        "-- \"s\" /* the record */ A // its name\nSELECT * /* all */ FROM a // the table",
    )
    .unwrap();
    assert_eq!(commented, plain);
}

#[test]
fn path_is_kept_as_it_is_written() {
    let statement = SqlStatement::parse("-- \"dir\\\\a \\\"b\\\".rs\" A SELECT *").unwrap();
    assert_eq!(statement.file, "dir\\\\a \\\"b\\\".rs");
}

#[test]
fn path_may_be_a_raw_literal() {
    let statement = SqlStatement::parse("-- r#\"dir\\schema \"one\".rs\"# A SELECT *").unwrap();
    assert_eq!(statement.file, "dir\\schema \"one\".rs");
    assert_eq!(statement.file_pos, 3);
    assert_eq!(
        SqlStatement::parse("-- br\"schema.rs\" A SELECT *").unwrap_err(),
        expected(3, Expected::Literal)
    );
}

#[test]
fn statement_from_tokens_is_statement_from_text() {
    let text = "-- \"schema.rs\" Pupil SELECT DISTINCT * FROM pupil AS p";
    let tokens = tokenize(text).unwrap();
    assert_eq!(SqlStatement::parse_tokens(&tokens), SqlStatement::parse(text));
    let text = "-- \"schema.rs\" Pupil SELECT * FROM";
    let tokens = tokenize(text).unwrap();
    assert_eq!(SqlStatement::parse_tokens(&tokens), SqlStatement::parse(text));
    assert_eq!(SqlStatement::parse(text).unwrap_err(), expected(30, Expected::End));
}

#[test]
fn either_takes_the_first_alternative_that_can_be_read() {
    let tokens = tokenize("ALL DISTINCT x").unwrap();
    assert_eq!(Either::<All, Distinct>::parse(&tokens, 0), Ok((Either::First(All), 1)));
    assert_eq!(Either::<All, Distinct>::parse(&tokens, 1), Ok((Either::Second(Distinct), 2)));
    assert_eq!(
        Either::<All, Distinct>::parse(&tokens, 2),
        Err(expected(13, Expected::Distinct))
    );
    assert_eq!(
        Either::<Identifier, All>::parse(&tokens, 0),
        Ok((Either::First(id("ALL")), 1))
    );
    assert_eq!(All::parse(&tokens, 1), Err(expected(4, Expected::All)));
    assert_eq!(Distinct::parse(&tokens, 0), Err(expected(0, Expected::Distinct)));
    assert_eq!(Quantifier::parse(&tokens, 0), Ok((Quantifier::All, 1)));
    assert_eq!(Quantifier::parse(&tokens, 1), Ok((Quantifier::Distinct, 2)));
    assert_eq!(Quantifier::parse(&tokens, 3), Err(expected(14, Expected::Distinct)));
}

#[test]
fn speculative_parse_commits_on_success_and_rolls_back_on_failure() {
    let tokens = tokenize("FROM a, b c d").unwrap();
    let mut pos = 0;
    assert_eq!(try_parse::<IntoClause>(&tokens, &mut pos), Err(expected(0, Expected::Into)));
    assert_eq!(pos, 0);
    assert_eq!(
        try_parse::<FromClause>(&tokens, &mut pos),
        Err(expected(12, Expected::Punct(',')))
    );
    assert_eq!(pos, 0);
    pos = 1;
    assert_eq!(try_parse::<TableReference>(&tokens, &mut pos), Ok(table("a")));
    assert_eq!(pos, 2);
    pos = 3;
    assert_eq!(try_parse::<TableReference>(&tokens, &mut pos), Ok(aliased("b", "c")));
    assert_eq!(pos, 5);
    assert_eq!(try_parse::<TableReference>(&tokens, &mut pos), Ok(table("d")));
    assert_eq!(pos, 6);
    assert_eq!(
        try_parse::<TableReference>(&tokens, &mut pos),
        Err(expected(13, Expected::Identifier))
    );
    assert_eq!(pos, 6);
}

#[test]
fn optional_reads_nothing_on_failure() {
    let tokens = tokenize("INTO a FROM").unwrap();
    assert_eq!(
        optional::<IntoClause>(&tokens, 0),
        (Some(IntoClause { identifier: id("a") }), 2)
    );
    assert_eq!(optional::<IntoClause>(&tokens, 1), (None, 1));
    assert_eq!(optional::<FromClause>(&tokens, 2), (None, 2));
    assert_eq!(optional::<FromClause>(&tokens, 3), (None, 3));
}

#[test]
fn punctuated_list_obeys_its_minimum() {
    let tokens = tokenize("a, b ) c , ,").unwrap();
    assert_eq!(
        punctuated::<Identifier>(&tokens, 0, MinCount::OneOrMany),
        Ok((vec![id("a"), id("b")], 3))
    );
    assert_eq!(punctuated::<Identifier>(&tokens, 3, MinCount::NoneOrMany), Ok((vec![], 3)));
    assert_eq!(
        punctuated::<Identifier>(&tokens, 3, MinCount::OneOrMany),
        Err(expected(5, Expected::Item))
    );
    assert_eq!(
        punctuated::<Identifier>(&tokens, 4, MinCount::NoneOrMany),
        Err(expected(11, Expected::Identifier))
    );
    assert_eq!(
        punctuated::<Identifier>(&tokens, 2, MinCount::NoneOrMany),
        Ok((vec![id("b")], 3))
    );
    assert_eq!(punctuated::<Identifier>(&tokens, 7, MinCount::NoneOrMany), Ok((vec![], 7)));
    assert_eq!(
        punctuated::<Identifier>(&tokens, 7, MinCount::OneOrMany),
        Err(expected(12, Expected::Item))
    );
    let tokens = tokenize("a b").unwrap();
    assert_eq!(
        punctuated::<Identifier>(&tokens, 0, MinCount::NoneOrMany),
        Err(expected(2, Expected::Punct(',')))
    );
    assert_eq!(
        punctuated::<SelectSublist>(&tokens, 0, MinCount::NoneOrMany),
        Err(ParseError { pos: 0, kind: ParseErrorKind::Unsupported(Construct::ExplicitColumnList) })
    );
}

#[test]
fn keyword_and_punct_step_over_one_token() {
    let tokens = tokenize("FROM - x").unwrap();
    assert_eq!(keyword(&tokens, 0, "FROM", Expected::From), Ok(1));
    assert_eq!(keyword(&tokens, 2, "FROM", Expected::From), Err(expected(7, Expected::From)));
    assert_eq!(keyword(&tokens, 3, "FROM", Expected::From), Err(expected(8, Expected::From)));
    assert_eq!(punct(&tokens, 1, '-'), Ok(2));
    assert_eq!(punct(&tokens, 1, '>'), Err(expected(5, Expected::Punct('>'))));
    assert_eq!(punct(&tokens, 0, '-'), Err(expected(0, Expected::Punct('-'))));
}

#[test]
fn complete_refuses_what_is_left_over() {
    let tokens = tokenize("a AS b c").unwrap();
    assert_eq!(complete::<TableReference>(&tokens, 0), Err(expected(7, Expected::End)));
    assert_eq!(complete::<TableReference>(&tokens, 2), Ok(aliased("b", "c")));
    assert_eq!(complete::<TableReference>(&tokens, 3), Ok(table("c")));
    assert_eq!(complete::<TableReference>(&tokens, 4), Err(expected(8, Expected::Identifier)));
}

#[test]
fn parse_error_has_a_message() {
    assert_eq!(expected(9, Expected::End).message(), "at 9: expected the end of the input");
    assert_eq!(expected(120, Expected::Punct(',')).message(), "at 120: expected `,`");
    assert_eq!(expected(0, Expected::Select).message(), "at 0: expected SELECT");
    assert_eq!(
        expected(4, Expected::CommentEnd).message(),
        "at 4: expected the end of a comment"
    );
    assert_eq!(
        ParseError { pos: 7, kind: ParseErrorKind::Unsupported(Construct::ExplicitColumnList) }
            .message(),
        "at 7: unsupported: explicit column lists"
    );
}
