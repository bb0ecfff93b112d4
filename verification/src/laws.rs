//! What holds of the compiler as a whole, stated over the specifications of its parts and proved.

use crate::display::SqlDisplay;
use crate::error::{Error, ErrorView};
use crate::generate::{field_of, fields_of, spec_artifact, RecordFieldView};
use crate::parse::views;
use crate::resolve::{
    column_of, columns_then, find_table, resolve, resolve_tables, resolved, table_columns,
    Projection, ProjectionView,
};
use crate::roundtrip::{lemma_lex_query, lemma_parse_query};
use crate::schema::{
    group_end, lemma_declaration_advances, spec_declaration, spec_path, spec_tables, SchemaView,
    TableDefinitionView,
};
use crate::sql::{
    lemma_parsed_query_well_formed, spec_query, FromClauseView, Query, QueryView, SqlStatementView,
    TableReferenceView,
};
use crate::token::{lemma_lexer_is_lexical, lex, TokensView};
use vstd::prelude::*;

verus! {

/// Printing preserves meaning: the text printed for a parsed query, at any level of
/// indentation, parses again, to the same query. So both resolve alike under every schema: to
/// the same columns or with the same failure. This holds of every query that can be printed,
/// which is every one without an `INTO` clause.
pub proof fn law_printed_query_reads_back(text: Seq<char>, level: nat, schema: SchemaView)
    requires
        spec_query(text) is Ok,
        Query::sql(spec_query(text)->Ok_0, level) is Ok,
    ensures
        spec_query(Query::sql(spec_query(text)->Ok_0, level)->Ok_0) == spec_query(text),
        resolve(spec_query(Query::sql(spec_query(text)->Ok_0, level)->Ok_0)->Ok_0, schema)
            == resolve(spec_query(text)->Ok_0, schema),
{
    let query = spec_query(text)->Ok_0;
    let input = lex(text)->Ok_0;
    lemma_lexer_is_lexical(text, 0);
    lemma_parsed_query_well_formed(input, 0);
    lemma_lex_query(query, level);
    let printed = Query::sql(query, level)->Ok_0;
    let again = lex(printed)->Ok_0;
    lemma_parse_query(again, query);
}

/// A declaration that is no table is skipped, whatever its group holds: where a path other than
/// the name `table` is followed by `!` and a group that is closed, the tables of the schema are
/// those that are declared after the group and after the `;` that may follow it.
pub proof fn law_other_declarations_add_nothing(input: TokensView, pos: int)
    requires
        0 <= pos < input.items.len(),
        spec_path(input, pos) is Ok,
        !(input.word_at(pos, "table"@) && spec_path(input, pos)->Ok_0 == pos + 1),
        input.punct_at(spec_path(input, pos)->Ok_0, '!'),
        input.opener_at(spec_path(input, pos)->Ok_0 + 1),
        group_end(input, spec_path(input, pos)->Ok_0 + 2, 1) is Some,
    ensures
        spec_declaration(input, pos) is Ok,
        spec_declaration(input, pos)->Ok_0.0 is None,
        spec_declaration(input, pos)->Ok_0.1 == input.after_semicolon(
            group_end(input, spec_path(input, pos)->Ok_0 + 2, 1)->0,
        ),
        spec_tables(input, pos) == spec_tables(input, spec_declaration(input, pos)->Ok_0.1),
{
    lemma_declaration_advances(input, pos);
    let next = spec_declaration(input, pos)->Ok_0.1;
    match spec_tables(input, next) {
        Ok(more) => {},
        Err(_) => {},
    }
}

/// Resolution is deterministic: two runs on the same statement and schema end in the same way,
/// with the same columns in the same order or with the same failure.
pub proof fn law_resolution_is_deterministic(
    statement: SqlStatementView,
    schema: SchemaView,
    first: Result<Vec<Projection<'_>>, Error>,
    second: Result<Vec<Projection<'_>>, Error>,
)
    requires
        resolved(first, resolve(statement.query, schema)),
        resolved(second, resolve(statement.query, schema)),
    ensures
        match (first, second) {
            (Ok(a), Ok(b)) => views(a@) == views(b@),
            (Err(a), Err(b)) => a@ == b@,
            _ => false,
        },
{
}

/// The columns of `SELECT * FROM a, b` are the fields of `a` in the order of its declaration,
/// then those of `b` in the order of its declaration, each qualified by its table's name.
/// Aliases play no part: nothing is asked of them here.
pub proof fn law_wildcard_order(
    query: QueryView,
    schema: SchemaView,
    a: TableReferenceView,
    b: TableReferenceView,
    table_a: TableDefinitionView,
    table_b: TableDefinitionView,
)
    requires
        query.select_clause.star_or_sublists is Star,
        query.from_clause == Some(FromClauseView { table_references: seq![a, b] }),
        find_table(schema.tables, a.table_name) == Some(table_a),
        find_table(schema.tables, b.table_name) == Some(table_b),
    ensures
        resolve(query, schema) == Ok::<Seq<ProjectionView>, ErrorView>(
            table_columns(table_a) + table_columns(table_b),
        ),
        forall|i: int|
            0 <= i < table_a.def.len() ==> #[trigger] (table_columns(table_a) + table_columns(
                table_b,
            ))[i] == column_of(table_a.table, table_a.def[i]),
        forall|i: int|
            0 <= i < table_b.def.len() ==> #[trigger] (table_columns(table_a) + table_columns(
                table_b,
            ))[table_a.def.len() + i] == column_of(table_b.table, table_b.def[i]),
        table_a.table == a.table_name,
        table_b.table == b.table_name,
{
    let tables = seq![a, b];
    assert(tables.drop_first() =~= seq![b]);
    assert(seq![b].drop_first() =~= Seq::<TableReferenceView>::empty());
    assert(resolve_tables(seq![b].drop_first(), schema) == Ok::<Seq<ProjectionView>, ErrorView>(
        Seq::empty(),
    ));
    assert(table_columns(table_b) + Seq::<ProjectionView>::empty() =~= table_columns(table_b));
    assert(resolve_tables(seq![b], schema) == Ok::<Seq<ProjectionView>, ErrorView>(
        table_columns(table_b),
    ));
    lemma_found_table_has_name(schema.tables, a.table_name);
    lemma_found_table_has_name(schema.tables, b.table_name);
}

/// The columns of a list of tables are those of its first part followed by those of the rest,
/// however the list is split; and a table that is unknown in the first part decides the failure.
pub proof fn law_columns_follow_the_tables(
    first: Seq<TableReferenceView>,
    second: Seq<TableReferenceView>,
    schema: SchemaView,
)
    ensures
        resolve_tables(first + second, schema) == match resolve_tables(first, schema) {
            Ok(columns) => columns_then(columns, resolve_tables(second, schema)),
            Err(e) => Err(e),
        },
    decreases first.len(),
{
    if first.len() == 0 {
        assert(first + second =~= second);
        if let Ok(columns) = resolve_tables(second, schema) {
            assert(Seq::<ProjectionView>::empty() + columns =~= columns);
        }
    } else {
        assert((first + second).drop_first() =~= first.drop_first() + second);
        assert((first + second)[0] == first[0]);
        law_columns_follow_the_tables(first.drop_first(), second, schema);
        if let Some(table) = find_table(schema.tables, first[0].table_name) {
            if let Ok(head) = resolve_tables(first.drop_first(), schema) {
                if let Ok(tail) = resolve_tables(second, schema) {
                    assert(table_columns(table) + (head + tail) =~= (table_columns(table) + head)
                        + tail);
                }
            }
        }
    }
}

/// The record has one field for each column, in the order of the columns: the field at a
/// position is the one derived from the column at that position.
pub proof fn law_fields_follow_the_columns(columns: Seq<ProjectionView>)
    ensures
        fields_of(columns) matches Ok(fields) ==> fields.len() == columns.len() && forall|i: int|
            0 <= i < columns.len() ==> field_of(#[trigger] columns[i]) == Ok::<
                RecordFieldView,
                ErrorView,
            >(fields[i]),
    decreases columns.len(),
{
    if columns.len() > 0 {
        law_fields_follow_the_columns(columns.drop_first());
        if let Ok(fields) = fields_of(columns) {
            let rest = fields_of(columns.drop_first())->Ok_0;
            assert forall|i: int| 0 <= i < columns.len() implies field_of(#[trigger] columns[i])
                == Ok::<RecordFieldView, ErrorView>(fields[i]) by {
                if i > 0 {
                    assert(columns[i] == columns.drop_first()[i - 1]);
                    assert(fields[i] == rest[i - 1]);
                }
            }
        }
    }
}

/// Aliases play no part in resolution: two lists of tables that name the same tables in the
/// same order resolve alike, whatever aliases they give them.
pub proof fn law_aliases_play_no_part(
    first: QueryView,
    second: QueryView,
    schema: SchemaView,
)
    requires
        first.select_clause.star_or_sublists is Star,
        second.select_clause.star_or_sublists is Star,
        first.from_clause is Some,
        second.from_clause is Some,
        first.from_clause->0.table_references.len()
            == second.from_clause->0.table_references.len(),
        forall|i: int|
            0 <= i < first.from_clause->0.table_references.len() ==> (
            #[trigger] first.from_clause->0.table_references[i]).table_name
                == second.from_clause->0.table_references[i].table_name,
    ensures
        resolve(first, schema) == resolve(second, schema),
{
    lemma_same_names_resolve_alike(
        first.from_clause->0.table_references,
        second.from_clause->0.table_references,
        schema,
    );
}

proof fn lemma_same_names_resolve_alike(
    first: Seq<TableReferenceView>,
    second: Seq<TableReferenceView>,
    schema: SchemaView,
)
    requires
        first.len() == second.len(),
        forall|i: int|
            0 <= i < first.len() ==> (#[trigger] first[i]).table_name == second[i].table_name,
    ensures
        resolve_tables(first, schema) == resolve_tables(second, schema),
    decreases first.len(),
{
    if first.len() > 0 {
        assert(first[0].table_name == second[0].table_name);
        assert forall|i: int| 0 <= i < first.drop_first().len() implies (
        #[trigger] first.drop_first()[i]).table_name == second.drop_first()[i].table_name by {
            assert(first.drop_first()[i] == first[i + 1]);
            assert(second.drop_first()[i] == second[i + 1]);
        }
        lemma_same_names_resolve_alike(first.drop_first(), second.drop_first(), schema);
    }
}

/// A table that was found under a name has that name.
pub proof fn lemma_found_table_has_name(tables: Seq<TableDefinitionView>, name: Seq<char>)
    ensures
        find_table(tables, name) matches Some(table) ==> table.table == name && tables.contains(
            table,
        ),
        find_table(tables, name) is None ==> forall|i: int|
            0 <= i < tables.len() ==> (#[trigger] tables[i]).table != name,
    decreases tables.len(),
{
    if tables.len() > 0 {
        if tables[0].table != name {
            lemma_found_table_has_name(tables.drop_first(), name);
            if let Some(table) = find_table(tables.drop_first(), name) {
                let i = choose|i: int|
                    0 <= i < tables.drop_first().len() && tables.drop_first()[i] == table;
                assert(tables[i + 1] == table);
            } else {
                assert forall|i: int| 0 <= i < tables.len() implies (#[trigger] tables[i]).table
                    != name by {
                    if i > 0 {
                        assert(tables.drop_first()[i - 1] == tables[i]);
                    }
                }
            }
        }
    }
}

/// A wildcard query over a table that the schema does not declare fails with `UnknownTable` and
/// the name of the first such table of its `FROM` clause, and nothing is generated for it.
pub proof fn law_unknown_table(statement: SqlStatementView, schema: SchemaView, missing: int)
    requires
        statement.query.select_clause.star_or_sublists is Star,
        statement.query.from_clause is Some,
        0 <= missing < statement.query.from_clause->0.table_references.len(),
        forall|i: int|
            0 <= i < schema.tables.len() ==> (#[trigger] schema.tables[i]).table
                != statement.query.from_clause->0.table_references[missing].table_name,
        forall|j: int|
            0 <= j < missing ==> find_table(
                schema.tables,
                (#[trigger] statement.query.from_clause->0.table_references[j]).table_name,
            ) is Some,
    ensures
        resolve(statement.query, schema) == Err::<Seq<ProjectionView>, ErrorView>(
            ErrorView::UnknownTable(
                statement.query.from_clause->0.table_references[missing].table_name,
            ),
        ),
        spec_artifact(statement, schema) is Err,
{
    let tables = statement.query.from_clause->0.table_references;
    lemma_first_unknown_table(tables, schema, missing);
}

proof fn lemma_first_unknown_table(
    tables: Seq<TableReferenceView>,
    schema: SchemaView,
    missing: int,
)
    requires
        0 <= missing < tables.len(),
        forall|i: int|
            0 <= i < schema.tables.len() ==> (#[trigger] schema.tables[i]).table
                != tables[missing].table_name,
        forall|j: int|
            0 <= j < missing ==> find_table(schema.tables, (#[trigger] tables[j]).table_name)
                is Some,
    ensures
        resolve_tables(tables, schema) == Err::<Seq<ProjectionView>, ErrorView>(
            ErrorView::UnknownTable(tables[missing].table_name),
        ),
    decreases missing,
{
    if missing == 0 {
        lemma_found_table_has_name(schema.tables, tables[0].table_name);
    } else {
        let rest = tables.drop_first();
        assert(rest[missing - 1] == tables[missing]);
        assert forall|j: int| 0 <= j < missing - 1 implies find_table(
            schema.tables,
            (#[trigger] rest[j]).table_name,
        ) is Some by {
            assert(rest[j] == tables[j + 1]);
        }
        lemma_first_unknown_table(rest, schema, missing - 1);
        assert(find_table(schema.tables, tables[0].table_name) is Some);
    }
}

/// `SELECT *` without a `FROM` clause cannot be resolved, whatever the schema, and nothing is
/// generated for it.
pub proof fn law_wildcard_needs_from(statement: SqlStatementView, schema: SchemaView)
    requires
        statement.query.select_clause.star_or_sublists is Star,
        statement.query.from_clause is None,
    ensures
        resolve(statement.query, schema) == Err::<Seq<ProjectionView>, ErrorView>(
            ErrorView::MissingFromForWildcard,
        ),
        spec_artifact(statement, schema) is Err,
{
}

} // verus!
