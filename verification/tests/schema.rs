use sql_mapper::error::{Expected, ParseError, ParseErrorKind};
use sql_mapper::parse::{Identifier, Parse};
use sql_mapper::schema::{ColumnType, FieldDefinition, NullableType, Schema, TableDefinition};
use sql_mapper::token::tokenize;

fn id(name: &str) -> Identifier {
    Identifier { id: name.to_string() }
}

fn plain(name: &str, ty: &str) -> FieldDefinition {
    FieldDefinition { name: id(name), ty: ColumnType::Plain(id(ty)) }
}

fn nullable(name: &str, ty: &str) -> FieldDefinition {
    FieldDefinition { name: id(name), ty: ColumnType::Nullable(NullableType { ty: id(ty) }) }
}

fn expected(pos: usize, what: Expected) -> ParseError {
    ParseError { pos, kind: ParseErrorKind::Expected(what) }
}

#[test]
fn tables_come_in_source_order_and_other_declarations_are_skipped() {
    let text = "table! {\n    pupil (id) {\n        id -> Int4,\n        name -> Text,\n    }\n}\n\ntable! {\n    teacher (id) {\n        id -> Int4,\n        name -> Text,\n    }\n}\n\nallow_tables_to_appear_in_same_query!(\n    pupil,\n    teacher,\n);\n";
    let schema = Schema::parse(text).unwrap();
    assert_eq!(
        schema.tables,
        vec![
            TableDefinition {
                table: id("pupil"),
                keys: vec![id("id")],
                def: vec![plain("id", "Int4"), plain("name", "Text")],
            },
            TableDefinition {
                table: id("teacher"),
                keys: vec![id("id")],
                def: vec![plain("id", "Int4"), plain("name", "Text")],
            },
        ]
    );
}

#[test]
fn nullable_wrapper_is_told_from_a_bare_type() {
    let schema =
        Schema::parse("table! { t (a, b) { a -> Nullable<Int4>, b -> Nullable, c -> Int4 } }")
            .unwrap();
    assert_eq!(schema.tables.len(), 1);
    assert_eq!(schema.tables[0].keys, vec![id("a"), id("b")]);
    assert_eq!(
        schema.tables[0].def,
        vec![nullable("a", "Int4"), plain("b", "Nullable"), plain("c", "Int4")]
    );
    match &schema.tables[0].def[0].ty {
        ColumnType::Nullable(inner) => assert_eq!(inner.get_type_name(), "Int4"),
        ColumnType::Plain(_) => panic!("a nullable type was read as a bare one"),
    }
    assert!(schema.tables[0].def[0].ty.is_nullable());
    assert_eq!(schema.tables[0].def[0].ty.type_ident(), "Int4");
    assert!(!schema.tables[0].def[2].ty.is_nullable());
    assert_eq!(schema.tables[0].def[2].ty.type_ident(), "Int4");
}

#[test]
fn trailing_commas_are_accepted_and_not_required() {
    let with = Schema::parse("table! { t (a, b,) { a -> Int4, b -> Text, } }").unwrap();
    let without = Schema::parse("table! { t (a, b) { a -> Int4, b -> Text } }").unwrap();
    assert_eq!(with, without);
    assert_eq!(with.tables[0].def.len(), 2);
}

#[test]
fn empty_schema_has_no_tables() {
    assert_eq!(Schema::parse("").unwrap().tables, vec![]);
    assert_eq!(Schema::parse("joinable!(a -> b (c));").unwrap().tables, vec![]);
}

#[test]
fn key_list_must_not_be_empty() {
    assert_eq!(
        Schema::parse("table! { t () { a -> Int4 } }").unwrap_err(),
        expected(12, Expected::Item)
    );
}

#[test]
fn field_list_may_be_empty() {
    let schema = Schema::parse("table! { t (a) { } }").unwrap();
    assert_eq!(schema.tables[0].def, vec![]);
}

#[test]
fn declaration_group_may_use_any_bracket() {
    let round = Schema::parse("table!( t (a) { a -> Int4 } );").unwrap();
    let square = Schema::parse("table![ t (a) { a -> Int4 } ]").unwrap();
    let curly = Schema::parse("table!{ t (a) { a -> Int4 } }").unwrap();
    assert_eq!(round, curly);
    assert_eq!(square, curly);
}

#[test]
fn table_group_must_close_with_its_own_bracket() {
    assert_eq!(
        Schema::parse("table! { t (a) { a -> Int4 } )").unwrap_err(),
        expected(29, Expected::Punct('}'))
    );
    assert_eq!(
        Schema::parse("table! { t (a) { a -> Int4 }").unwrap_err(),
        expected(28, Expected::Punct('}'))
    );
}

#[test]
fn skipped_declaration_ends_at_the_bracket_that_closes_it() {
    let schema =
        Schema::parse("other!( a { b [ c ] } ( d ) ) table! { t (a) { a -> Int4 } }").unwrap();
    assert_eq!(schema.tables.len(), 1);
    assert_eq!(schema.tables[0].table, id("t"));
}

#[test]
fn skipped_declaration_must_be_closed() {
    assert_eq!(Schema::parse("other!( a ( b )").unwrap_err(), expected(15, Expected::CloseDelimiter));
}

#[test]
fn declaration_starts_with_identifier_bang_and_bracket() {
    assert_eq!(Schema::parse("! {}").unwrap_err(), expected(0, Expected::Identifier));
    assert_eq!(Schema::parse("table {}").unwrap_err(), expected(6, Expected::Punct('!')));
    assert_eq!(Schema::parse("table! t").unwrap_err(), expected(7, Expected::OpenDelimiter));
    assert_eq!(Schema::parse("table!").unwrap_err(), expected(6, Expected::OpenDelimiter));
    assert_eq!(Schema::parse("table! {}").unwrap_err(), expected(8, Expected::Identifier));
    assert_eq!(Schema::parse("other! {} ; ;").unwrap_err(), expected(12, Expected::Identifier));
}

#[test]
fn field_needs_arrow_and_type() {
    assert_eq!(
        Schema::parse("table! { t (a) { a Int4 } }").unwrap_err(),
        expected(19, Expected::Punct('-'))
    );
    assert_eq!(
        Schema::parse("table! { t (a) { a - Int4 } }").unwrap_err(),
        expected(21, Expected::Punct('>'))
    );
    assert_eq!(
        Schema::parse("table! { t (a) { a -> } }").unwrap_err(),
        expected(22, Expected::Identifier)
    );
    assert_eq!(
        Schema::parse("table! { t (a) { a -> Int4 b -> Text } }").unwrap_err(),
        expected(27, Expected::Punct(','))
    );
}

#[test]
fn unfinished_nullable_wrapper_falls_back_to_a_bare_type() {
    assert_eq!(
        Schema::parse("table! { t (a) { a -> Nullable<Int4 } }").unwrap_err(),
        expected(30, Expected::Punct(','))
    );
}

#[test]
fn lexical_error_in_schema_is_a_parse_error() {
    assert_eq!(
        Schema::parse("table! { t (a) { a -> Int4 \u{1} } }").unwrap_err(),
        expected(27, Expected::Token)
    );
    assert_eq!(
        Schema::parse("table! { t (a) { a -> Int4 } } \"open").unwrap_err(),
        expected(31, Expected::ClosingQuote)
    );
    assert_eq!(
        Schema::parse("table! { t (a) { a -> Int4 } } /* open").unwrap_err(),
        expected(31, Expected::CommentEnd)
    );
}

#[test]
fn declaration_that_is_no_table_is_skipped_whatever_it_holds() {
    assert_eq!(Schema::parse("foo!(1);").unwrap().tables, vec![]);
    assert_eq!(Schema::parse("foo!(1.5e3, 0xff, 'c', '\\'', \"s \\\" )\", b'x');").unwrap().tables, vec![]);
    assert_eq!(Schema::parse("foo! { '(' \")\" /* } */ // }\n }").unwrap().tables, vec![]);
    assert_eq!(Schema::parse("foo!(\u{e9}t\u{e9} => <'a>);").unwrap().tables, vec![]);
    assert_eq!(Schema::parse("foo!(r#\"\")\"#, br\"\\\", r#x);").unwrap().tables, vec![]);
    let schema = Schema::parse(
        "first!(1, 2);\ntable! { t (a) { a -> Int4 } }\nlast![ 'x' ; 3 ];",
    )
    .unwrap();
    assert_eq!(schema.tables.len(), 1);
    assert_eq!(schema.tables[0].table, id("t"));
}

#[test]
fn comments_add_nothing_to_a_schema() {
    assert_eq!(Schema::parse("// c\n").unwrap().tables, vec![]);
    assert_eq!(Schema::parse("/* c */").unwrap().tables, vec![]);
    let schema = Schema::parse(
        "// @generated\n\ntable! {\n    /// The pupils.\n    t (a) { // key\n        a -> Int4, /* the /* only */ field */\n    }\n}\n",
    )
    .unwrap();
    assert_eq!(
        schema.tables,
        vec![TableDefinition { table: id("t"), keys: vec![id("a")], def: vec![plain("a", "Int4")] }]
    );
}

#[test]
fn constant_is_no_name_in_a_table() {
    assert_eq!(
        Schema::parse("table! { 1 (a) { } }").unwrap_err(),
        expected(9, Expected::Identifier)
    );
    assert_eq!(
        Schema::parse("table! { t (a) { a -> 4 } }").unwrap_err(),
        expected(22, Expected::Identifier)
    );
    assert_eq!(Schema::parse("1!();").unwrap_err(), expected(0, Expected::Identifier));
}

#[test]
fn schema_from_tokens_is_schema_from_text() {
    let text = "table! { t (a) { a -> Int4 } } other!();";
    let tokens = tokenize(text).unwrap();
    assert_eq!(Schema::parse_tokens(&tokens), Schema::parse(text));
}

#[test]
fn schema_pieces_parse_on_their_own() {
    let tokens = tokenize("t (a) { x -> Nullable<Int4>, y -> Text } Nullable Int4").unwrap();
    assert_eq!(
        TableDefinition::parse(&tokens, 0),
        Ok((
            TableDefinition {
                table: id("t"),
                keys: vec![id("a")],
                def: vec![nullable("x", "Int4"), plain("y", "Text")],
            },
            18
        ))
    );
    assert_eq!(FieldDefinition::parse(&tokens, 5), Ok((nullable("x", "Int4"), 12)));
    assert_eq!(FieldDefinition::parse(&tokens, 13), Ok((plain("y", "Text"), 17)));
    assert_eq!(FieldDefinition::parse(&tokens, 4), Err(expected(6, Expected::Identifier)));
    assert_eq!(
        ColumnType::parse(&tokens, 8),
        Ok((ColumnType::Nullable(NullableType { ty: id("Int4") }), 12))
    );
    assert_eq!(ColumnType::parse(&tokens, 16), Ok((ColumnType::Plain(id("Text")), 17)));
    assert_eq!(ColumnType::parse(&tokens, 18), Ok((ColumnType::Plain(id("Nullable")), 19)));
    assert_eq!(ColumnType::parse(&tokens, 17), Err(expected(39, Expected::Identifier)));
    assert_eq!(NullableType::parse(&tokens, 8), Ok((NullableType { ty: id("Int4") }, 12)));
    assert_eq!(NullableType::parse(&tokens, 16), Err(expected(34, Expected::Nullable)));
    assert_eq!(NullableType::parse(&tokens, 18), Err(expected(50, Expected::Punct('<'))));
    assert_eq!(NullableType::parse(&tokens, 20), Err(expected(54, Expected::Nullable)));
}

#[test]
fn declaration_under_a_longer_path_is_skipped() {
    let schema = Schema::parse(
        "diesel::table! { t (a) { a -> Int4 } }\n\
         ::diesel::joinable!(a -> b (c));\n\
         table::other! { }\n\
         table! { u (a) { } }",
    )
    .unwrap();
    assert_eq!(schema.tables.len(), 1);
    assert_eq!(schema.tables[0].table, id("u"));
}

#[test]
fn path_needs_a_name_after_each_separator() {
    assert_eq!(Schema::parse(":: !{}").unwrap_err(), expected(3, Expected::Identifier));
    assert_eq!(Schema::parse("a:: !{}").unwrap_err(), expected(1, Expected::Punct('!')));
    assert_eq!(Schema::parse("a:b!{}").unwrap_err(), expected(1, Expected::Punct('!')));
    assert_eq!(Schema::parse("::table!{}").unwrap().tables, vec![]);
}
