//! The artifact generator: from the resolved columns of a statement to the record type that
//! holds one result row and the function that runs the query.
//!
//! The generated function reads the columns of a row by position, in the order in which they
//! were resolved. So the order of the fields in the schema must be the order of the columns in
//! the database.

use crate::display::SqlDisplay;
use crate::error::{Error, ErrorView};
use crate::parse::views;
use crate::resolve::{resolve, Projection, ProjectionView, ProjectionWalker};
use crate::schema::{spec_schema, spec_tables, Schema, SchemaView};
use crate::sql::{spec_statement, Query, SqlStatement, SqlStatementView};
use crate::text::{chars_of, decimal, push_char, push_decimal, same_text};
use crate::token::{Tokens, TokensView};
use vstd::prelude::*;
use vstd::string::*;

verus! {

/// The name of the record field for the column `name`: every `.` becomes `_`.
pub open spec fn field_name(name: Seq<char>) -> Seq<char> {
    name.map_values(
        |c: char|
            if c == '.' {
                '_'
            } else {
                c
            },
    )
}

/// The type of the record field for a column of the schema type `name`, if that type is known.
pub open spec fn field_type(name: Seq<char>) -> Option<Seq<char>> {
    if name == "Int4"@ {
        Some("i32"@)
    } else if name == "Text"@ {
        Some("String"@)
    } else if name == "Float8"@ {
        Some("f32"@)
    } else {
        None
    }
}

/// Turns the qualified name of a column into the name of a record field.
pub fn sql_name_to_id(name: &String) -> (id: String)
    ensures
        id@ == field_name(name@),
{
    let chars = chars_of(name.as_str());
    let mut id = String::new();
    let mut i: usize = 0;
    while i < chars.len()
        invariant
            i <= chars.len(),
            chars@ == name@,
            id@ == field_name(name@.take(i as int)),
        decreases chars.len() - i,
    {
        let c = chars[i];
        push_char(
            &mut id,
            if c == '.' {
                '_'
            } else {
                c
            },
        );
        proof {
            assert(field_name(name@.take(i + 1)) =~= field_name(name@.take(i as int)).push(
                if c == '.' {
                    '_'
                } else {
                    c
                },
            ));
        }
        i += 1;
    }
    proof {
        assert(name@.take(chars.len() as int) =~= name@);
    }
    id
}

/// Maps the name of a schema type to the type of a record field; `UnknownType` for a name that
/// the mapping does not hold.
pub fn sql_type_to_ty(name: &String) -> (r: Result<String, Error>)
    ensures
        match field_type(name@) {
            Some(ty) => r matches Ok(got) && got@ == ty,
            None => r matches Err(e) && e@ == ErrorView::UnknownType(name@),
        },
{
    if same_text(name, "Int4") {
        Ok(String::from_str("i32"))
    } else if same_text(name, "Text") {
        Ok(String::from_str("String"))
    } else if same_text(name, "Float8") {
        Ok(String::from_str("f32"))
    } else {
        Err(Error::UnknownType(name.clone()))
    }
}

/// One field of the generated record.
#[derive(Clone, Debug, PartialEq, Eq)]
pub struct RecordField {
    pub name: String,
    /// The type of the value; for an optional field, the type inside the option.
    pub ty: String,
    /// Whether the field may hold no value.
    pub optional: bool,
}

/// A [`RecordField`] with its texts as sequences of characters.
pub struct RecordFieldView {
    pub name: Seq<char>,
    pub ty: Seq<char>,
    pub optional: bool,
}

impl View for RecordField {
    type V = RecordFieldView;

    open spec fn view(&self) -> RecordFieldView {
        RecordFieldView { name: self.name@, ty: self.ty@, optional: self.optional }
    }
}

/// What is generated for one statement: a record with one field for each column of the result,
/// in the order of the columns, and the SQL text that its query function runs.
#[derive(Clone, Debug, PartialEq, Eq)]
pub struct Artifact {
    pub name: String,
    pub sql: String,
    pub fields: Vec<RecordField>,
}

/// An [`Artifact`] with its texts as sequences of characters.
pub struct ArtifactView {
    pub name: Seq<char>,
    pub sql: Seq<char>,
    pub fields: Seq<RecordFieldView>,
}

impl View for Artifact {
    type V = ArtifactView;

    open spec fn view(&self) -> ArtifactView {
        ArtifactView { name: self.name@, sql: self.sql@, fields: views(self.fields@) }
    }
}

/// The record field for `column`: optional exactly where the column is nullable.
pub open spec fn field_of(column: ProjectionView) -> Result<RecordFieldView, ErrorView> {
    match field_type(column.diesel_type.type_ident()) {
        Some(ty) => Ok(
            RecordFieldView {
                name: field_name(column.name),
                ty,
                optional: column.diesel_type is Nullable,
            },
        ),
        None => Err(ErrorView::UnknownType(column.diesel_type.type_ident())),
    }
}

/// `first`, then the fields of `rest`; the failure of `rest` if it is one.
pub open spec fn fields_then(
    first: Seq<RecordFieldView>,
    rest: Result<Seq<RecordFieldView>, ErrorView>,
) -> Result<Seq<RecordFieldView>, ErrorView> {
    match rest {
        Ok(more) => Ok(first + more),
        Err(e) => Err(e),
    }
}

/// The record fields for `columns`, in order, or `UnknownType` for the first column whose type
/// is not known.
pub open spec fn fields_of(columns: Seq<ProjectionView>) -> Result<Seq<RecordFieldView>, ErrorView>
    decreases columns.len(),
{
    if columns.len() == 0 {
        Ok(Seq::empty())
    } else {
        match field_of(columns[0]) {
            Err(e) => Err(e),
            Ok(field) => fields_then(seq![field], fields_of(columns.drop_first())),
        }
    }
}

/// What is generated for a statement called `name` with the result columns `columns` and the
/// SQL text `sql`.
pub open spec fn spec_generate(name: Seq<char>, columns: Seq<ProjectionView>, sql: Seq<char>)
    -> Result<ArtifactView, ErrorView> {
    match fields_of(columns) {
        Ok(fields) => Ok(ArtifactView { name, sql, fields }),
        Err(e) => Err(e),
    }
}

/// Derives the record and the query of a statement from its resolved columns.
///
/// `columns` are the columns of the statement's result in resolution order and `rendered_sql`
/// is the text of its query. The record gets one field for each column, in the same order.
/// Fails with `UnknownType` on the first column whose schema type has no field type.
pub fn generate(statement: &SqlStatement, columns: &Vec<Projection<'_>>, rendered_sql: &str) -> (r:
    Result<Artifact, Error>)
    ensures
        match spec_generate(statement@.name, views(columns@), rendered_sql@) {
            Ok(artifact) => r matches Ok(got) && got@ == artifact,
            Err(e) => r matches Err(got) && got@ == e,
        },
{
    let ghost all = views(columns@);
    let mut fields: Vec<RecordField> = Vec::new();
    let mut i: usize = 0;
    proof {
        assert(all.skip(0) =~= all);
        assert(views(fields@) =~= Seq::<RecordFieldView>::empty());
        match fields_of(all) {
            Ok(more) => {
                assert(Seq::<RecordFieldView>::empty() + more =~= more);
            },
            Err(_) => {},
        }
    }
    while i < columns.len()
        invariant
            i <= columns.len(),
            all == views(columns@),
            fields_of(all) == fields_then(views(fields@), fields_of(all.skip(i as int))),
        decreases columns.len() - i,
    {
        proof {
            assert(all.skip(i as int).drop_first() =~= all.skip(i + 1));
            assert(all.skip(i as int)[0] == columns[i as int]@);
        }
        let column = &columns[i];
        let ty = sql_type_to_ty(&column.diesel_type.type_ident())?;
        let field = RecordField {
            name: sql_name_to_id(&column.name),
            ty,
            optional: column.diesel_type.is_nullable(),
        };
        proof {
            assert(views(fields@.push(field)) =~= views(fields@) + seq![field@]);
            match fields_of(all.skip(i + 1)) {
                Ok(more) => {
                    assert(views(fields@) + (seq![field@] + more) =~= (views(fields@)
                        + seq![field@]) + more);
                },
                Err(_) => {},
            }
        }
        fields.push(field);
        i += 1;
    }
    proof {
        assert(views(fields@) + Seq::<RecordFieldView>::empty() =~= views(fields@));
    }
    Ok(Artifact { name: statement.name.id.clone(), sql: String::from_str(rendered_sql), fields })
}

/// How `c` is written inside a string literal.
pub open spec fn escape(c: char) -> Seq<char> {
    if c == '\\' {
        "\\\\"@
    } else if c == '"' {
        "\\\""@
    } else if c == '\n' {
        "\\n"@
    } else if c == '\r' {
        "\\r"@
    } else if c == '\t' {
        "\\t"@
    } else {
        seq![c]
    }
}

/// How the characters of `s` are written inside a string literal.
pub open spec fn escaped(s: Seq<char>) -> Seq<char>
    decreases s.len(),
{
    if s.len() == 0 {
        Seq::empty()
    } else {
        escaped(s.drop_last()) + escape(s.last())
    }
}

/// The string literal for `s`: between double quotes, with backslash, double quote, line feed,
/// carriage return and tab escaped.
pub open spec fn literal(s: Seq<char>) -> Seq<char> {
    "\""@ + escaped(s) + "\""@
}

/// The type of a record field as it is written in the record.
pub open spec fn field_type_text(field: RecordFieldView) -> Seq<char> {
    if field.optional {
        "::std::option::Option<"@ + field.ty + ">"@
    } else {
        field.ty
    }
}

/// The line that declares `field` in the record.
pub open spec fn field_line(field: RecordFieldView) -> Seq<char> {
    "    pub "@ + field.name + ": "@ + field_type_text(field) + ",\n"@
}

/// The line that fills `field` from the column at `index` of a row.
pub open spec fn mapper_line(field: RecordFieldView, index: nat) -> Seq<char> {
    "                "@ + field.name + ": row.get("@ + decimal(index) + "usize),\n"@
}

/// The lines that declare `fields`, in order.
pub open spec fn field_lines(fields: Seq<RecordFieldView>) -> Seq<char>
    decreases fields.len(),
{
    if fields.len() == 0 {
        Seq::empty()
    } else {
        field_lines(fields.drop_last()) + field_line(fields.last())
    }
}

/// The lines that fill `fields` from a row, each from the column at its own position.
pub open spec fn mapper_lines(fields: Seq<RecordFieldView>) -> Seq<char>
    decreases fields.len(),
{
    if fields.len() == 0 {
        Seq::empty()
    } else {
        mapper_lines(fields.drop_last()) + mapper_line(fields.last(), (fields.len() - 1) as nat)
    }
}

/// The generated source text: the documentation that shows the SQL, the record, and the
/// function `query`, which runs the SQL without parameters and builds one record from each row.
pub open spec fn artifact_text(a: ArtifactView) -> Seq<char> {
    "#[doc = \" SQL:\"]\n#[doc = \"\"]\n#[doc = \"```sql\"]\n#[doc = "@ + literal(a.sql)
        + "]\n#[doc = \"```\"]\n#[derive(Debug)]\npub struct "@ + a.name + " {\n"@ + field_lines(
        a.fields,
    ) + "}\n\nimpl "@ + a.name
        + " {\n    pub fn query(client: &mut ::postgres::Client) -> ::std::result::Result<Vec<"@
        + a.name + ">, ::postgres::Error> {\n        let result = client.query("@ + literal(a.sql)
        + ", &[])?;\n        let items: Vec<_> = result.iter().map(|row| {\n            "@ + a.name
        + " {\n"@ + mapper_lines(a.fields)
        + "            }\n        }).collect();\n\n        Ok(items)\n    }\n}\n"@
}

/// Appends `c` to `f` as it is written inside a string literal.
fn push_escaped(f: &mut String, c: char)
    ensures
        final(f)@ == old(f)@ + escape(c),
{
    if c == '\\' {
        f.append("\\\\");
    } else if c == '"' {
        f.append("\\\"");
    } else if c == '\n' {
        f.append("\\n");
    } else if c == '\r' {
        f.append("\\r");
    } else if c == '\t' {
        f.append("\\t");
    } else {
        push_char(f, c);
        assert(f@ =~= old(f)@ + seq![c]);
    }
}

/// Appends the string literal for `s` to `f`.
fn push_literal(f: &mut String, s: &str)
    ensures
        final(f)@ == old(f)@ + literal(s@),
{
    let chars = chars_of(s);
    let mut text = String::from_str("\"");
    let mut i: usize = 0;
    proof {
        assert("\""@ + escaped(s@.take(0)) =~= "\""@);
    }
    while i < chars.len()
        invariant
            i <= chars.len(),
            chars@ == s@,
            text@ == "\""@ + escaped(s@.take(i as int)),
        decreases chars.len() - i,
    {
        push_escaped(&mut text, chars[i]);
        proof {
            assert(s@.take(i + 1).drop_last() =~= s@.take(i as int));
            assert(text@ =~= "\""@ + escaped(s@.take(i + 1)));
        }
        i += 1;
    }
    proof {
        assert(s@.take(chars.len() as int) =~= s@);
    }
    text.append("\"");
    f.append(text.as_str());
}

impl RecordField {
    /// Appends the line that declares the field in the record.
    fn push_field_line(&self, f: &mut String)
        ensures
            final(f)@ == old(f)@ + field_line(self@),
    {
        let mut text = String::from_str("    pub ");
        text.append(self.name.as_str());
        text.append(": ");
        if self.optional {
            let mut ty = String::from_str("::std::option::Option<");
            ty.append(self.ty.as_str());
            ty.append(">");
            text.append(ty.as_str());
        } else {
            text.append(self.ty.as_str());
        }
        text.append(",\n");
        f.append(text.as_str());
    }

    /// Appends the line that fills the field from the column at `index` of a row.
    fn push_mapper_line(&self, f: &mut String, index: usize)
        ensures
            final(f)@ == old(f)@ + mapper_line(self@, index as nat),
    {
        let mut text = String::from_str("                ");
        text.append(self.name.as_str());
        text.append(": row.get(");
        push_decimal(&mut text, index);
        text.append("usize),\n");
        f.append(text.as_str());
    }
}

impl Artifact {
    /// Appends the lines that declare the fields.
    fn push_field_lines(&self, f: &mut String)
        ensures
            final(f)@ == old(f)@ + field_lines(self@.fields),
    {
        let ghost all = self@.fields;
        let mut i: usize = 0;
        proof {
            assert(f@ =~= old(f)@ + field_lines(all.take(0)));
        }
        while i < self.fields.len()
            invariant
                i <= self.fields.len(),
                all == self@.fields,
                f@ == old(f)@ + field_lines(all.take(i as int)),
            decreases self.fields.len() - i,
        {
            self.fields[i].push_field_line(f);
            proof {
                assert(all.take(i + 1).drop_last() =~= all.take(i as int));
                assert(all.take(i + 1).last() == self.fields[i as int]@);
                assert(f@ =~= old(f)@ + field_lines(all.take(i + 1)));
            }
            i += 1;
        }
        proof {
            assert(all.take(self.fields.len() as int) =~= all);
        }
    }

    /// Appends the lines that fill the fields from a row.
    fn push_mapper_lines(&self, f: &mut String)
        ensures
            final(f)@ == old(f)@ + mapper_lines(self@.fields),
    {
        let ghost all = self@.fields;
        let mut i: usize = 0;
        proof {
            assert(f@ =~= old(f)@ + mapper_lines(all.take(0)));
        }
        while i < self.fields.len()
            invariant
                i <= self.fields.len(),
                all == self@.fields,
                f@ == old(f)@ + mapper_lines(all.take(i as int)),
            decreases self.fields.len() - i,
        {
            self.fields[i].push_mapper_line(f, i);
            proof {
                assert(all.take(i + 1).drop_last() =~= all.take(i as int));
                assert(all.take(i + 1).last() == self.fields[i as int]@);
                assert(f@ =~= old(f)@ + mapper_lines(all.take(i + 1)));
            }
            i += 1;
        }
        proof {
            assert(all.take(self.fields.len() as int) =~= all);
        }
    }

    /// The generated source text.
    pub fn text(&self) -> (text: String)
        ensures
            text@ == artifact_text(self@),
    {
        let mut text = String::from_str(
            "#[doc = \" SQL:\"]\n#[doc = \"\"]\n#[doc = \"```sql\"]\n#[doc = ",
        );
        push_literal(&mut text, self.sql.as_str());
        text.append("]\n#[doc = \"```\"]\n#[derive(Debug)]\npub struct ");
        text.append(self.name.as_str());
        text.append(" {\n");
        self.push_field_lines(&mut text);
        text.append("}\n\nimpl ");
        text.append(self.name.as_str());
        text.append(
            " {\n    pub fn query(client: &mut ::postgres::Client) -> ::std::result::Result<Vec<",
        );
        text.append(self.name.as_str());
        text.append(">, ::postgres::Error> {\n        let result = client.query(");
        push_literal(&mut text, self.sql.as_str());
        text.append(", &[])?;\n        let items: Vec<_> = result.iter().map(|row| {\n            ");
        text.append(self.name.as_str());
        text.append(" {\n");
        self.push_mapper_lines(&mut text);
        text.append("            }\n        }).collect();\n\n        Ok(items)\n    }\n}\n");
        text
    }
}

/// A statement together with the schema it is checked against: all that generation needs.
#[derive(Clone, Debug, PartialEq, Eq)]
pub struct Sql {
    pub schema: Schema,
    pub statement: SqlStatement,
}

/// The views of the schema and the statement of a [`Sql`].
pub struct SqlView {
    pub schema: SchemaView,
    pub statement: SqlStatementView,
}

impl View for Sql {
    type V = SqlView;

    open spec fn view(&self) -> SqlView {
        SqlView { schema: self.schema@, statement: self.statement@ }
    }
}

/// `statement` with the schema read from `source`, which is the text of the schema description
/// or the reason why it could not be loaded.
pub open spec fn spec_with_schema(
    statement: SqlStatementView,
    source: Result<Seq<char>, Seq<char>>,
) -> Result<SqlView, ErrorView> {
    match source {
        Err(reason) => Err(
            ErrorView::SchemaLoad { path: statement.file, pos: statement.file_pos, reason },
        ),
        Ok(text) => match spec_schema(text) {
            Err(e) => Err(ErrorView::SchemaParse(e)),
            Ok(schema) => Ok(SqlView { schema, statement }),
        },
    }
}

/// `statement` with the schema read from `source`, which holds the tokens of the schema
/// description or the reason why it could not be loaded.
pub open spec fn spec_with_schema_tokens(
    statement: SqlStatementView,
    source: Result<TokensView, Seq<char>>,
) -> Result<SqlView, ErrorView> {
    match source {
        Err(reason) => Err(
            ErrorView::SchemaLoad { path: statement.file, pos: statement.file_pos, reason },
        ),
        Ok(input) => match spec_tables(input, 0) {
            Err(e) => Err(ErrorView::SchemaParse(e)),
            Ok(tables) => Ok(SqlView { schema: SchemaView { tables }, statement }),
        },
    }
}

/// What is generated for `statement` under `schema`. The query is printed first, then
/// resolved, then the record is derived: the first of these that fails decides the failure.
pub open spec fn spec_artifact(statement: SqlStatementView, schema: SchemaView) -> Result<
    ArtifactView,
    ErrorView,
> {
    match Query::sql(statement.query, 0) {
        Err(c) => Err(ErrorView::UnsupportedConstruct(c)),
        Ok(sql) => match resolve(statement.query, schema) {
            Err(e) => Err(e),
            Ok(columns) => spec_generate(statement.name, columns, sql),
        },
    }
}

/// The source text generated for the statement `statement` under the schema description
/// `schema`, or the first failure on the way: in the statement, in the schema, in printing,
/// in resolving, in generating.
pub open spec fn spec_sql(statement: Seq<char>, schema: Seq<char>) -> Result<Seq<char>, ErrorView> {
    match spec_statement(statement) {
        Err(e) => Err(ErrorView::SqlParse(e)),
        Ok(parsed_statement) => match spec_schema(schema) {
            Err(e) => Err(ErrorView::SchemaParse(e)),
            Ok(parsed_schema) => match spec_artifact(parsed_statement, parsed_schema) {
                Err(e) => Err(e),
                Ok(artifact) => Ok(artifact_text(artifact)),
            },
        },
    }
}

impl Sql {
    /// Joins a parsed statement with its schema.
    ///
    /// `source` is what loading the file `statement.file` gave: the text of the schema
    /// description, or the reason why it could not be read. A reason comes back as
    /// `SchemaLoad` with the path and its place in the statement; a malformed description
    /// as `SchemaParse`.
    pub fn parse(statement: SqlStatement, source: Result<String, String>) -> (r: Result<Sql, Error>)
        ensures
            match spec_with_schema(
                statement@,
                match source {
                    Ok(text) => Ok(text@),
                    Err(reason) => Err(reason@),
                },
            ) {
                Ok(sql) => r matches Ok(got) && got@ == sql,
                Err(e) => r matches Err(got) && got@ == e,
            },
    {
        match source {
            Err(reason) => Err(
                Error::SchemaLoad { path: statement.file, pos: statement.file_pos, reason },
            ),
            Ok(text) => match Schema::parse(text.as_str()) {
                Err(e) => Err(Error::SchemaParse(e)),
                Ok(schema) => Ok(Sql { schema, statement }),
            },
        }
    }

    /// Joins a parsed statement with its schema, where the host has lexed the description.
    ///
    /// `source` is what loading the file `statement.file` gave: the tokens of the schema
    /// description, or the reason why it could not be read. The failures are those of
    /// [`Sql::parse`].
    pub fn parse_tokens(statement: SqlStatement, source: Result<Tokens, String>) -> (r: Result<
        Sql,
        Error,
    >)
        ensures
            match spec_with_schema_tokens(
                statement@,
                match source {
                    Ok(input) => Ok(input@),
                    Err(reason) => Err(reason@),
                },
            ) {
                Ok(sql) => r matches Ok(got) && got@ == sql,
                Err(e) => r matches Err(got) && got@ == e,
            },
    {
        match source {
            Err(reason) => Err(
                Error::SchemaLoad { path: statement.file, pos: statement.file_pos, reason },
            ),
            Ok(input) => match Schema::parse_tokens(&input) {
                Err(e) => Err(Error::SchemaParse(e)),
                Ok(schema) => Ok(Sql { schema, statement }),
            },
        }
    }

    /// Generates the record and the query of the statement.
    ///
    /// Fails with `UnsupportedConstruct` where the query cannot be printed or holds a list of
    /// columns, with `MissingFromForWildcard` or `UnknownTable` where it cannot be resolved, and
    /// with `UnknownType` where a column has a type without a field type. Nothing is generated
    /// in part.
    pub fn artifact(&self) -> (r: Result<Artifact, Error>)
        ensures
            match spec_artifact(self@.statement, self@.schema) {
                Ok(artifact) => r matches Ok(got) && got@ == artifact,
                Err(e) => r matches Err(got) && got@ == e,
            },
    {
        let rendered = self.statement.render()?;
        let columns = self.statement.walk_projection(&self.schema)?;
        generate(&self.statement, &columns, rendered.as_str())
    }
}

/// Compiles one statement against the description of its schema, both given as text, into the
/// source text of its record and query function.
pub fn sql(statement: &str, schema: &str) -> (r: Result<String, Error>)
    ensures
        match spec_sql(statement@, schema@) {
            Ok(text) => r matches Ok(got) && got@ == text,
            Err(e) => r matches Err(got) && got@ == e,
        },
{
    let parsed_statement = match SqlStatement::parse(statement) {
        Ok(s) => s,
        Err(e) => {
            return Err(Error::SqlParse(e));
        },
    };
    let parsed_schema = match Schema::parse(schema) {
        Ok(s) => s,
        Err(e) => {
            return Err(Error::SchemaParse(e));
        },
    };
    let compiled = Sql { schema: parsed_schema, statement: parsed_statement };
    let artifact = compiled.artifact()?;
    Ok(artifact.text())
}

} // verus!
