//! Printing a syntax tree as SQL text.
//!
//! Every clause starts on a line of its own, indented by four blanks per level; what a clause
//! holds stands on the next line, one level deeper. The items of a list are separated by a comma.
//!
//! ```text
//! SELECT DISTINCT
//!     *
//! FROM
//!     pupil AS p,teacher
//! ```
//!
//! The types of the schema print as nothing where they are nullable: they never reach the
//! database. An `INTO` clause has no rendering, and printing one is an error.

use crate::error::{Construct, Error};
use crate::parse::{Identifier, view_opt, views};
use crate::schema::{ColumnType, ColumnTypeView, NullableType};
use crate::sql::{
    FromClause, FromClauseView, IntoClause, IntoClauseView, Quantifier, Query, QueryView,
    SelectClause, SelectClauseView, SelectList, SelectListView, SelectSublist, SqlStatement,
    TableReference, TableReferenceView,
};
use crate::text::{indent, spaces};
use vstd::prelude::*;
use vstd::string::*;

verus! {

/// The blanks that a line of `level` starts with.
pub open spec fn indentation(level: nat) -> Seq<char> {
    spaces(4 * level)
}

/// `prefix`, then the text of `rest`; the failure of `rest` if it is one.
pub open spec fn text_then(prefix: Seq<char>, rest: Result<Seq<char>, Construct>) -> Result<
    Seq<char>,
    Construct,
> {
    match rest {
        Ok(text) => Ok(prefix + text),
        Err(c) => Err(c),
    }
}

/// A node of the syntax tree that prints as SQL.
pub trait SqlDisplay: View {
    /// How many levels of indentation the node opens below its own.
    spec fn depth() -> nat;

    /// The SQL text of the node `v` at `level`, or the construct in it that has no rendering.
    spec fn sql(v: Self::V, level: nat) -> Result<Seq<char>, Construct>;

    /// Appends the SQL text of the node to `f`. Where a part of the node has no rendering, `f`
    /// is left as it was.
    fn fmt_sql(&self, f: &mut String, level: usize) -> (r: Result<(), Construct>)
        requires
            level + Self::depth() <= usize::MAX,
        ensures
            match Self::sql(self@, level as nat) {
                Ok(text) => r is Ok && final(f)@ == old(f)@ + text,
                Err(c) => r == Err::<(), Construct>(c) && final(f)@ == old(f)@,
            },
    ;
}

/// The texts of `items` from the second on, each after a comma.
pub open spec fn sql_rest<T: SqlDisplay>(items: Seq<T::V>, level: nat) -> Result<
    Seq<char>,
    Construct,
>
    decreases items.len(),
{
    if items.len() == 0 {
        Ok(Seq::empty())
    } else {
        match T::sql(items[0], level) {
            Err(c) => Err(c),
            Ok(text) => text_then(","@ + text, sql_rest::<T>(items.drop_first(), level)),
        }
    }
}

/// The texts of `items`, separated by commas.
pub open spec fn sql_list<T: SqlDisplay>(items: Seq<T::V>, level: nat) -> Result<
    Seq<char>,
    Construct,
> {
    if items.len() == 0 {
        Ok(Seq::empty())
    } else {
        match T::sql(items[0], level) {
            Err(c) => Err(c),
            Ok(text) => text_then(text, sql_rest::<T>(items.drop_first(), level)),
        }
    }
}

/// Appends the items of a list to `f`, separated by commas.
pub fn fmt_list<T: SqlDisplay>(items: &Vec<T>, f: &mut String, level: usize) -> (r: Result<
    (),
    Construct,
>)
    requires
        level + T::depth() <= usize::MAX,
    ensures
        match sql_list::<T>(views(items@), level as nat) {
            Ok(text) => r is Ok && final(f)@ == old(f)@ + text,
            Err(c) => r == Err::<(), Construct>(c) && final(f)@ == old(f)@,
        },
{
    if items.len() == 0 {
        assert(f@ =~= old(f)@ + Seq::<char>::empty());
        return Ok(());
    }
    let mut text = String::new();
    items[0].fmt_sql(&mut text, level)?;
    let ghost all = views(items@);
    let mut i: usize = 1;
    proof {
        assert(all.drop_first() =~= all.skip(1));
        assert(Seq::<char>::empty() + text@ =~= text@);
    }
    while i < items.len()
        invariant
            1 <= i <= items.len(),
            all == views(items@),
            level + T::depth() <= usize::MAX,
            sql_list::<T>(all, level as nat) == text_then(
                text@,
                sql_rest::<T>(all.skip(i as int), level as nat),
            ),
        decreases items.len() - i,
    {
        let ghost before = text@;
        let mut item = String::new();
        items[i].fmt_sql(&mut item, level)?;
        text.append(",");
        text.append(item.as_str());
        proof {
            assert(all.skip(i as int).drop_first() =~= all.skip(i + 1));
            assert(all.skip(i as int)[0] == items[i as int]@);
            assert(Seq::<char>::empty() + item@ =~= item@);
            match sql_rest::<T>(all.skip(i + 1), level as nat) {
                Ok(more) => {
                    assert(before + ((","@ + item@) + more) =~= ((before + ","@) + item@) + more);
                },
                Err(_) => {},
            }
        }
        i += 1;
    }
    proof {
        assert(text@ + Seq::<char>::empty() =~= text@);
    }
    f.append(text.as_str());
    Ok(())
}

impl SqlDisplay for Identifier {
    open spec fn depth() -> nat {
        0
    }

    open spec fn sql(v: Seq<char>, level: nat) -> Result<Seq<char>, Construct> {
        Ok(v)
    }

    fn fmt_sql(&self, f: &mut String, level: usize) -> (r: Result<(), Construct>) {
        f.append(self.id.as_str());
        Ok(())
    }
}

impl SqlDisplay for NullableType {
    open spec fn depth() -> nat {
        0
    }

    open spec fn sql(v: Seq<char>, level: nat) -> Result<Seq<char>, Construct> {
        Ok(Seq::empty())
    }

    fn fmt_sql(&self, f: &mut String, level: usize) -> (r: Result<(), Construct>) {
        assert(f@ =~= old(f)@ + Seq::<char>::empty());
        Ok(())
    }
}

impl SqlDisplay for ColumnType {
    open spec fn depth() -> nat {
        0
    }

    open spec fn sql(v: ColumnTypeView, level: nat) -> Result<Seq<char>, Construct> {
        match v {
            ColumnTypeView::Plain(name) => Identifier::sql(name, level),
            ColumnTypeView::Nullable(inner) => NullableType::sql(inner, level),
        }
    }

    fn fmt_sql(&self, f: &mut String, level: usize) -> (r: Result<(), Construct>) {
        match self {
            ColumnType::Plain(name) => name.fmt_sql(f, level),
            ColumnType::Nullable(inner) => inner.fmt_sql(f, level),
        }
    }
}

impl SqlDisplay for Quantifier {
    open spec fn depth() -> nat {
        0
    }

    open spec fn sql(v: Quantifier, level: nat) -> Result<Seq<char>, Construct> {
        match v {
            Quantifier::All => Ok("ALL"@),
            Quantifier::Distinct => Ok("DISTINCT"@),
        }
    }

    fn fmt_sql(&self, f: &mut String, level: usize) -> (r: Result<(), Construct>) {
        match self {
            Quantifier::All => f.append("ALL"),
            Quantifier::Distinct => f.append("DISTINCT"),
        }
        Ok(())
    }
}

impl SqlDisplay for SelectSublist {
    open spec fn depth() -> nat {
        0
    }

    open spec fn sql(v: SelectSublist, level: nat) -> Result<Seq<char>, Construct> {
        Ok(Seq::empty())
    }

    fn fmt_sql(&self, f: &mut String, level: usize) -> (r: Result<(), Construct>) {
        assert(f@ =~= old(f)@ + Seq::<char>::empty());
        Ok(())
    }
}

impl SqlDisplay for SelectList {
    open spec fn depth() -> nat {
        0
    }

    open spec fn sql(v: SelectListView, level: nat) -> Result<Seq<char>, Construct> {
        match v {
            SelectListView::Star => Ok("*"@),
            SelectListView::Sublists(items) => sql_list::<SelectSublist>(items, level),
        }
    }

    fn fmt_sql(&self, f: &mut String, level: usize) -> (r: Result<(), Construct>) {
        match self {
            SelectList::Star => {
                f.append("*");
                Ok(())
            },
            SelectList::Sublists(items) => fmt_list::<SelectSublist>(items, f, level),
        }
    }
}

/// `SELECT`, the quantifier if there is one, and on the next line what is selected.
impl SqlDisplay for SelectClause {
    open spec fn depth() -> nat {
        1
    }

    open spec fn sql(v: SelectClauseView, level: nat) -> Result<Seq<char>, Construct> {
        let quantifier = match v.all_or_distinct {
            Some(q) => text_then(" "@, Quantifier::sql(q, level)),
            None => Ok(Seq::empty()),
        };
        match quantifier {
            Err(c) => Err(c),
            Ok(q) => text_then(
                "SELECT"@ + q + "\n"@ + indentation(level + 1),
                SelectList::sql(v.star_or_sublists, level + 1),
            ),
        }
    }

    fn fmt_sql(&self, f: &mut String, level: usize) -> (r: Result<(), Construct>) {
        let mut text = String::new();
        text.append("SELECT");
        match &self.all_or_distinct {
            Some(q) => {
                text.append(" ");
                q.fmt_sql(&mut text, level)?;
            },
            None => {},
        }
        text.append("\n");
        indent(&mut text, level + 1);
        let ghost head = text@;
        self.star_or_sublists.fmt_sql(&mut text, level + 1)?;
        proof {
            let q = match self@.all_or_distinct {
                Some(q) => " "@ + Quantifier::sql(q, level as nat).unwrap(),
                None => Seq::<char>::empty(),
            };
            assert(head =~= "SELECT"@ + q + "\n"@ + indentation((level + 1) as nat));
        }
        f.append(text.as_str());
        Ok(())
    }
}

/// Not printable yet.
impl SqlDisplay for IntoClause {
    open spec fn depth() -> nat {
        0
    }

    open spec fn sql(v: IntoClauseView, level: nat) -> Result<Seq<char>, Construct> {
        Err(Construct::IntoClause)
    }

    fn fmt_sql(&self, f: &mut String, level: usize) -> (r: Result<(), Construct>) {
        Err(Construct::IntoClause)
    }
}

/// The table's name, followed by ` AS ` and the alias where there is one.
impl SqlDisplay for TableReference {
    open spec fn depth() -> nat {
        0
    }

    open spec fn sql(v: TableReferenceView, level: nat) -> Result<Seq<char>, Construct> {
        match v.alias {
            Some(alias) => Ok(v.table_name + " AS "@ + alias),
            None => Ok(v.table_name),
        }
    }

    fn fmt_sql(&self, f: &mut String, level: usize) -> (r: Result<(), Construct>) {
        f.append(self.table_name.id.as_str());
        match &self.alias {
            Some(alias) => {
                f.append(" AS ");
                f.append(alias.id.as_str());
                assert(f@ =~= old(f)@ + (self@.table_name + " AS "@ + alias@));
            },
            None => {},
        }
        Ok(())
    }
}

/// `FROM`, and on the next line the tables.
impl SqlDisplay for FromClause {
    open spec fn depth() -> nat {
        1
    }

    open spec fn sql(v: FromClauseView, level: nat) -> Result<Seq<char>, Construct> {
        text_then(
            "FROM"@ + "\n"@ + indentation(level + 1),
            sql_list::<TableReference>(v.table_references, level + 1),
        )
    }

    fn fmt_sql(&self, f: &mut String, level: usize) -> (r: Result<(), Construct>) {
        let mut text = String::new();
        text.append("FROM");
        text.append("\n");
        indent(&mut text, level + 1);
        assert(text@ =~= "FROM"@ + "\n"@ + indentation((level + 1) as nat));
        fmt_list::<TableReference>(&self.table_references, &mut text, level + 1)?;
        f.append(text.as_str());
        Ok(())
    }
}

/// The text of a clause that may be absent: nothing, or a new line at `level` and the clause.
pub open spec fn sql_clause<T: SqlDisplay>(clause: Option<T::V>, level: nat) -> Result<
    Seq<char>,
    Construct,
> {
    match clause {
        Some(c) => text_then("\n"@ + indentation(level), T::sql(c, level)),
        None => Ok(Seq::empty()),
    }
}

/// Appends a clause that may be absent to `f`, on a new line at `level`.
fn fmt_clause<T: SqlDisplay>(clause: &Option<T>, f: &mut String, level: usize) -> (r: Result<
    (),
    Construct,
>)
    requires
        level + T::depth() <= usize::MAX,
    ensures
        match sql_clause::<T>(view_opt(*clause), level as nat) {
            Ok(text) => r is Ok && final(f)@ == old(f)@ + text,
            Err(c) => r == Err::<(), Construct>(c) && final(f)@ == old(f)@,
        },
{
    match clause {
        Some(c) => {
            let mut text = String::new();
            text.append("\n");
            indent(&mut text, level);
            assert(text@ =~= "\n"@ + indentation(level as nat));
            c.fmt_sql(&mut text, level)?;
            f.append(text.as_str());
            Ok(())
        },
        None => {
            assert(f@ =~= old(f)@ + Seq::<char>::empty());
            Ok(())
        },
    }
}

/// The clauses of the query, each on a line of its own at the query's level.
impl SqlDisplay for Query {
    open spec fn depth() -> nat {
        1
    }

    open spec fn sql(v: QueryView, level: nat) -> Result<Seq<char>, Construct> {
        match SelectClause::sql(v.select_clause, level) {
            Err(c) => Err(c),
            Ok(select) => match sql_clause::<IntoClause>(v.into_clause, level) {
                Err(c) => Err(c),
                Ok(into) => text_then(
                    indentation(level) + select + into,
                    sql_clause::<FromClause>(v.from_clause, level),
                ),
            },
        }
    }

    fn fmt_sql(&self, f: &mut String, level: usize) -> (r: Result<(), Construct>) {
        let mut text = String::new();
        indent(&mut text, level);
        self.select_clause.fmt_sql(&mut text, level)?;
        fmt_clause::<IntoClause>(&self.into_clause, &mut text, level)?;
        let ghost head = text@;
        fmt_clause::<FromClause>(&self.from_clause, &mut text, level)?;
        proof {
            let select = SelectClause::sql(self@.select_clause, level as nat).unwrap();
            let into = sql_clause::<IntoClause>(self@.into_clause, level as nat).unwrap();
            assert(head =~= indentation(level as nat) + select + into);
        }
        f.append(text.as_str());
        Ok(())
    }
}

impl Query {
    /// The SQL text of the query, starting at level 0.
    ///
    /// Fails with `UnsupportedConstruct` where the query holds an `INTO` clause, which has no
    /// rendering.
    pub fn render(&self) -> (r: Result<String, Error>)
        ensures
            match Query::sql(self@, 0) {
                Ok(text) => r matches Ok(got) && got@ == text,
                Err(c) => r matches Err(e) && e == Error::UnsupportedConstruct(c),
            },
    {
        let mut text = String::new();
        match self.fmt_sql(&mut text, 0) {
            Ok(()) => {
                assert(text@ =~= Query::sql(self@, 0).unwrap());
                Ok(text)
            },
            Err(c) => Err(Error::UnsupportedConstruct(c)),
        }
    }
}

impl SqlStatement {
    /// The SQL text of the statement's query: what is sent to the database.
    pub fn render(&self) -> (r: Result<String, Error>)
        ensures
            match Query::sql(self@.query, 0) {
                Ok(text) => r matches Ok(got) && got@ == text,
                Err(c) => r matches Err(e) && e == Error::UnsupportedConstruct(c),
            },
    {
        self.query.render()
    }
}

} // verus!
