//! Resolving a query against a schema: which columns its result has, and of which types.
//!
//! `SELECT *` expands to the fields of the tables of the `FROM` clause: the tables in the order
//! of the clause, the fields of each in the order of its declaration. That order is what the
//! generated code reads result rows by. A table is looked up by its name; aliases play no part.

use crate::error::{Construct, Error, ErrorView};
use crate::parse::{views, Identifier};
use crate::schema::{
    ColumnType, ColumnTypeView, FieldDefinitionView, Schema, SchemaView, TableDefinition,
    TableDefinitionView,
};
use crate::sql::{
    Query, QueryView, SelectList, SelectListView, SqlStatement, SqlStatementView, TableReference,
    TableReferenceView,
};
use vstd::prelude::*;
use vstd::string::*;

verus! {

/// One column of a query's result: its qualified name, `table.field`, and the type that the
/// schema declares for it.
#[derive(Clone, Debug, PartialEq, Eq)]
pub struct Projection<'a> {
    pub name: String,
    pub diesel_type: &'a ColumnType,
}

/// A [`Projection`] with its name as a sequence of characters and the view of its type.
pub struct ProjectionView {
    pub name: Seq<char>,
    pub diesel_type: ColumnTypeView,
}

impl<'a> View for Projection<'a> {
    type V = ProjectionView;

    open spec fn view(&self) -> ProjectionView {
        ProjectionView { name: self.name@, diesel_type: self.diesel_type@ }
    }
}

/// The first of `tables` that is called `name`.
pub open spec fn find_table(tables: Seq<TableDefinitionView>, name: Seq<char>) -> Option<
    TableDefinitionView,
>
    decreases tables.len(),
{
    if tables.len() == 0 {
        None
    } else if tables[0].table == name {
        Some(tables[0])
    } else {
        find_table(tables.drop_first(), name)
    }
}

/// The name of `field` qualified by its table.
pub open spec fn qualified(table: Seq<char>, field: Seq<char>) -> Seq<char> {
    table + "."@ + field
}

/// The column that a field of `table` contributes.
pub open spec fn column_of(table: Seq<char>, field: FieldDefinitionView) -> ProjectionView {
    ProjectionView { name: qualified(table, field.name), diesel_type: field.ty }
}

/// The columns that `table` contributes: one for each field, in the order of the declaration.
pub open spec fn table_columns(table: TableDefinitionView) -> Seq<ProjectionView> {
    table.def.map_values(|field: FieldDefinitionView| column_of(table.table, field))
}

/// `first`, then the columns of `rest`; the failure of `rest` if it is one.
pub open spec fn columns_then(
    first: Seq<ProjectionView>,
    rest: Result<Seq<ProjectionView>, ErrorView>,
) -> Result<Seq<ProjectionView>, ErrorView> {
    match rest {
        Ok(more) => Ok(first + more),
        Err(e) => Err(e),
    }
}

/// The columns of the tables `tables`, in order; `UnknownTable` with the name of the first one
/// that `schema` does not declare.
pub open spec fn resolve_tables(tables: Seq<TableReferenceView>, schema: SchemaView) -> Result<
    Seq<ProjectionView>,
    ErrorView,
>
    decreases tables.len(),
{
    if tables.len() == 0 {
        Ok(Seq::empty())
    } else {
        match find_table(schema.tables, tables[0].table_name) {
            None => Err(ErrorView::UnknownTable(tables[0].table_name)),
            Some(table) => columns_then(
                table_columns(table),
                resolve_tables(tables.drop_first(), schema),
            ),
        }
    }
}

/// The columns of the result of `query` under `schema`.
pub open spec fn resolve(query: QueryView, schema: SchemaView) -> Result<
    Seq<ProjectionView>,
    ErrorView,
> {
    match query.select_clause.star_or_sublists {
        SelectListView::Star => match query.from_clause {
            None => Err(ErrorView::MissingFromForWildcard),
            Some(from) => resolve_tables(from.table_references, schema),
        },
        SelectListView::Sublists(_) => Err(
            ErrorView::UnsupportedConstruct(Construct::ExplicitColumnList),
        ),
    }
}

/// Whether `r` is the outcome `prescribed`: the same columns in the same order, or the same
/// failure.
pub open spec fn resolved(
    r: Result<Vec<Projection<'_>>, Error>,
    prescribed: Result<Seq<ProjectionView>, ErrorView>,
) -> bool {
    match prescribed {
        Ok(columns) => r matches Ok(got) && views(got@) == columns,
        Err(e) => r matches Err(got) && got@ == e,
    }
}

/// Something whose result columns can be worked out against a schema.
pub trait ProjectionWalker: View {
    /// The columns of the result of `v` under `schema`, in order, or why there are none.
    spec fn projection(v: Self::V, schema: SchemaView) -> Result<Seq<ProjectionView>, ErrorView>;

    /// Works out the result columns against `schema`.
    fn walk_projection<'a>(&self, schema: &'a Schema) -> (r: Result<Vec<Projection<'a>>, Error>)
        ensures
            resolved(r, Self::projection(self@, schema@)),
    ;
}

/// Looks `name` up among the tables of `schema`.
fn lookup<'a>(schema: &'a Schema, name: &Identifier) -> (r: Option<&'a TableDefinition>)
    ensures
        match find_table(schema@.tables, name@) {
            Some(table) => r matches Some(got) && got@ == table,
            None => r is None,
        },
{
    let ghost all = schema@.tables;
    let mut i: usize = 0;
    proof {
        assert(all.skip(0) =~= all);
    }
    while i < schema.tables.len()
        invariant
            i <= schema.tables.len(),
            all == schema@.tables,
            find_table(all, name@) == find_table(all.skip(i as int), name@),
        decreases schema.tables.len() - i,
    {
        proof {
            assert(all.skip(i as int).drop_first() =~= all.skip(i + 1));
            assert(all.skip(i as int)[0] == schema.tables[i as int]@);
        }
        if schema.tables[i].table.id == name.id {
            return Some(&schema.tables[i]);
        }
        i += 1;
    }
    None
}

/// Appends the columns that `table` contributes to `out`.
fn push_columns<'a>(table: &'a TableDefinition, out: &mut Vec<Projection<'a>>)
    ensures
        views(final(out)@) == views(old(out)@) + table_columns(table@),
{
    let ghost before = views(out@);
    let ghost columns = table_columns(table@);
    let mut i: usize = 0;
    proof {
        assert(before + columns.take(0) =~= before);
    }
    while i < table.def.len()
        invariant
            i <= table.def.len(),
            columns == table_columns(table@),
            columns.len() == table.def.len(),
            views(out@) == before + columns.take(i as int),
        decreases table.def.len() - i,
    {
        let field = &table.def[i];
        let mut name = table.table.id.clone();
        name.append(".");
        name.append(field.name.id.as_str());
        let column = Projection { name, diesel_type: &field.ty };
        proof {
            assert(column@ == columns[i as int]);
            assert(views(out@.push(column)) =~= views(out@) + seq![column@]);
            assert(before + columns.take(i + 1) =~= (before + columns.take(i as int))
                + seq![columns[i as int]]);
        }
        out.push(column);
        i += 1;
    }
    proof {
        assert(columns.take(table.def.len() as int) =~= columns);
    }
}

/// Works out the columns of the tables of a `FROM` clause.
fn walk_tables<'a>(tables: &Vec<TableReference>, schema: &'a Schema) -> (r: Result<
    Vec<Projection<'a>>,
    Error,
>)
    ensures
        resolved(r, resolve_tables(views(tables@), schema@)),
{
    let ghost all = views(tables@);
    let mut out: Vec<Projection<'a>> = Vec::new();
    let mut i: usize = 0;
    proof {
        assert(all.skip(0) =~= all);
        assert(views(out@) =~= Seq::<ProjectionView>::empty());
        match resolve_tables(all, schema@) {
            Ok(more) => {
                assert(Seq::<ProjectionView>::empty() + more =~= more);
            },
            Err(_) => {},
        }
    }
    while i < tables.len()
        invariant
            i <= tables.len(),
            all == views(tables@),
            resolve_tables(all, schema@) == columns_then(
                views(out@),
                resolve_tables(all.skip(i as int), schema@),
            ),
        decreases tables.len() - i,
    {
        proof {
            assert(all.skip(i as int).drop_first() =~= all.skip(i + 1));
            assert(all.skip(i as int)[0] == tables[i as int]@);
        }
        let ghost before = views(out@);
        match lookup(schema, &tables[i].table_name) {
            None => {
                return Err(Error::UnknownTable(tables[i].table_name.id.clone()));
            },
            Some(table) => {
                push_columns(table, &mut out);
                proof {
                    match resolve_tables(all.skip(i + 1), schema@) {
                        Ok(more) => {
                            assert(before + (table_columns(table@) + more) =~= (before
                                + table_columns(table@)) + more);
                        },
                        Err(_) => {},
                    }
                }
            },
        }
        i += 1;
    }
    proof {
        assert(views(out@) + Seq::<ProjectionView>::empty() =~= views(out@));
    }
    Ok(out)
}

impl ProjectionWalker for Query {
    open spec fn projection(v: QueryView, schema: SchemaView) -> Result<
        Seq<ProjectionView>,
        ErrorView,
    > {
        resolve(v, schema)
    }

    fn walk_projection<'a>(&self, schema: &'a Schema) -> (r: Result<Vec<Projection<'a>>, Error>) {
        match &self.select_clause.star_or_sublists {
            SelectList::Star => match &self.from_clause {
                None => Err(Error::MissingFromForWildcard),
                Some(from) => walk_tables(&from.table_references, schema),
            },
            SelectList::Sublists(_) => Err(
                Error::UnsupportedConstruct(Construct::ExplicitColumnList),
            ),
        }
    }
}

impl ProjectionWalker for SqlStatement {
    open spec fn projection(v: SqlStatementView, schema: SchemaView) -> Result<
        Seq<ProjectionView>,
        ErrorView,
    > {
        resolve(v.query, schema)
    }

    fn walk_projection<'a>(&self, schema: &'a Schema) -> (r: Result<Vec<Projection<'a>>, Error>) {
        self.query.walk_projection(schema)
    }
}

} // verus!
