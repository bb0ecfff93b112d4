use sql_mapper::error::{Construct, Error, Expected, ParseError, ParseErrorKind};
use sql_mapper::generate::{sql, Sql};
use sql_mapper::resolve::ProjectionWalker;
use sql_mapper::schema::{ColumnType, Schema};
use sql_mapper::sql::SqlStatement;

const SCHEMA: &str = "table! {\n    pupil (id) {\n        id -> Int4,\n        name -> Text,\n    }\n}\n\ntable! {\n    teacher (id) {\n        id -> Int4,\n        name -> Text,\n    }\n}\n\nallow_tables_to_appear_in_same_query!(\n    pupil,\n    teacher,\n);\n";

#[test]
fn pupil_example_resolves_and_generates() {
    let schema = Schema::parse("table! { pupil(id){ id -> Int4, name -> Text } }").unwrap();
    let statement = SqlStatement::parse("-- \"schema\" Pupil\nSELECT * FROM pupil").unwrap();
    assert_eq!(statement.file, "schema");
    assert_eq!(statement.name.id, "Pupil");

    let columns = statement.walk_projection(&schema).unwrap();
    assert_eq!(columns.len(), 2);
    assert_eq!(columns[0].name, "pupil.id");
    assert!(matches!(columns[0].diesel_type, ColumnType::Plain(t) if t.id == "Int4"));
    assert_eq!(columns[1].name, "pupil.name");
    assert!(matches!(columns[1].diesel_type, ColumnType::Plain(t) if t.id == "Text"));

    assert_eq!(statement.render().unwrap(), "SELECT\n    *\nFROM\n    pupil");

    let artifact = Sql { schema, statement }.artifact().unwrap();
    assert_eq!(artifact.name, "Pupil");
    assert_eq!(artifact.sql, "SELECT\n    *\nFROM\n    pupil");
    assert_eq!(artifact.fields.len(), 2);
    assert_eq!(artifact.fields[0].name, "pupil_id");
    assert_eq!(artifact.fields[0].ty, "i32");
    assert!(!artifact.fields[0].optional);
    assert_eq!(artifact.fields[1].name, "pupil_name");
    assert_eq!(artifact.fields[1].ty, "String");
    assert!(!artifact.fields[1].optional);
}

#[test]
fn pupil_example_text() {
    let text = sql("-- \"schema.rs\" Pupil\nSELECT\n    *\nFROM\n    pupil", SCHEMA).unwrap();
    let expected = "#[doc = \" SQL:\"]\n\
#[doc = \"\"]\n\
#[doc = \"```sql\"]\n\
#[doc = \"SELECT\\n    *\\nFROM\\n    pupil\"]\n\
#[doc = \"```\"]\n\
#[derive(Debug)]\n\
pub struct Pupil {\n    pub pupil_id: i32,\n    pub pupil_name: String,\n}\n\
\n\
impl Pupil {\n    pub fn query(client: &mut ::postgres::Client) -> ::std::result::Result<Vec<Pupil>, ::postgres::Error> {\n        let result = client.query(\"SELECT\\n    *\\nFROM\\n    pupil\", &[])?;\n        let items: Vec<_> = result.iter().map(|row| {\n            Pupil {\n                pupil_id: row.get(0usize),\n                pupil_name: row.get(1usize),\n            }\n        }).collect();\n\n        Ok(items)\n    }\n}\n";
    assert_eq!(text, expected);
}

#[test]
fn unknown_table_is_reported_by_name() {
    let err = sql("-- \"schema.rs\" Nobody\nSELECT * FROM missing_table", SCHEMA).unwrap_err();
    assert!(matches!(err, Error::UnknownTable(name) if name == "missing_table"));
}

#[test]
fn wildcard_without_from_is_refused() {
    let err = sql("-- \"schema.rs\" Nothing\nSELECT *", SCHEMA).unwrap_err();
    assert!(matches!(err, Error::MissingFromForWildcard));
}

#[test]
fn explicit_column_list_is_unsupported() {
    let err = SqlStatement::parse("-- \"schema.rs\" Pupil\nSELECT id FROM pupil").unwrap_err();
    assert_eq!(
        err,
        ParseError { pos: 28, kind: ParseErrorKind::Unsupported(Construct::ExplicitColumnList) }
    );
    let err = sql("-- \"schema.rs\" Pupil\nSELECT id FROM pupil", SCHEMA).unwrap_err();
    assert!(matches!(
        err,
        Error::SqlParse(ParseError {
            pos: 28,
            kind: ParseErrorKind::Unsupported(Construct::ExplicitColumnList)
        })
    ));
}

#[test]
fn header_is_required() {
    let err = SqlStatement::parse("SELECT * FROM pupil").unwrap_err();
    assert_eq!(err, ParseError { pos: 0, kind: ParseErrorKind::Expected(Expected::Punct('-')) });
}
