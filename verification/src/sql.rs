//! The statement: its syntax tree and its parser.
//!
//! A statement is a header, `-- "<schema path>" <Name>`, followed by a query:
//!
//! ```text
//! SELECT [ALL | DISTINCT] * [INTO name] [FROM table [[AS] alias], ..]
//! ```
//!
//! A clause in square brackets is read where it can be read in full, and is otherwise absent.
//! A list of columns in place of `*` is recognised and refused as unsupported.

use crate::error::{Construct, Expected, ParseError};
use crate::parse::{
    keyword, lemma_items_end, lemma_items_satisfy, optional, punct, punctuated, spec_keyword,
    spec_optional, spec_punct, spec_punctuated, view_opt, views, Either, Identifier, MinCount,
    Parse,
};
use crate::text::is_identifier;
use crate::token::{lex, tokenize, Tokens, TokensView};
use vstd::prelude::*;
use vstd::string::*;

verus! {

/// The keyword `ALL`.
#[derive(Clone, Copy, Debug, PartialEq, Eq, Structural)]
pub struct All;

/// The keyword `DISTINCT`.
#[derive(Clone, Copy, Debug, PartialEq, Eq, Structural)]
pub struct Distinct;

impl View for All {
    type V = All;

    open spec fn view(&self) -> All {
        *self
    }
}

impl View for Distinct {
    type V = Distinct;

    open spec fn view(&self) -> Distinct {
        *self
    }
}

impl Parse for All {
    open spec fn spec_parse(input: TokensView, pos: int) -> Result<(All, int), ParseError> {
        match spec_keyword(input, pos, "ALL"@, Expected::All) {
            Ok(next) => Ok((All, next)),
            Err(e) => Err(e),
        }
    }

    proof fn lemma_advances(input: TokensView, pos: int) {
    }

    fn parse(input: &Tokens, pos: usize) -> (r: Result<(Self, usize), ParseError>) {
        let next = keyword(input, pos, "ALL", Expected::All)?;
        Ok((All, next))
    }
}

impl Parse for Distinct {
    open spec fn spec_parse(input: TokensView, pos: int) -> Result<(Distinct, int), ParseError> {
        match spec_keyword(input, pos, "DISTINCT"@, Expected::Distinct) {
            Ok(next) => Ok((Distinct, next)),
            Err(e) => Err(e),
        }
    }

    proof fn lemma_advances(input: TokensView, pos: int) {
    }

    fn parse(input: &Tokens, pos: usize) -> (r: Result<(Self, usize), ParseError>) {
        let next = keyword(input, pos, "DISTINCT", Expected::Distinct)?;
        Ok((Distinct, next))
    }
}

/// Whether duplicate rows are kept. It is read and printed; it changes nothing else.
#[derive(Clone, Copy, Debug, PartialEq, Eq, Structural)]
pub enum Quantifier {
    All,
    Distinct,
}

impl Quantifier {
    /// `ALL` or `DISTINCT`, whichever was read.
    pub open spec fn of(read: Either<All, Distinct>) -> Quantifier {
        match read {
            Either::First(_) => Quantifier::All,
            Either::Second(_) => Quantifier::Distinct,
        }
    }
}

impl View for Quantifier {
    type V = Quantifier;

    open spec fn view(&self) -> Quantifier {
        *self
    }
}

/// `ALL`, else `DISTINCT`.
impl Parse for Quantifier {
    open spec fn spec_parse(input: TokensView, pos: int) -> Result<(Quantifier, int), ParseError> {
        match Either::<All, Distinct>::spec_parse(input, pos) {
            Ok((read, next)) => Ok((Quantifier::of(read), next)),
            Err(e) => Err(e),
        }
    }

    proof fn lemma_advances(input: TokensView, pos: int) {
    }

    fn parse(input: &Tokens, pos: usize) -> (r: Result<(Self, usize), ParseError>) {
        match Either::<All, Distinct>::parse(input, pos) {
            Ok((Either::First(_), next)) => Ok((Quantifier::All, next)),
            Ok((Either::Second(_), next)) => Ok((Quantifier::Distinct, next)),
            Err(e) => Err(e),
        }
    }
}

/// One entry of a list of columns. None can be read yet: the grammar has a place for it, and
/// reading one fails as unsupported.
#[derive(Clone, Copy, Debug, PartialEq, Eq, Structural)]
pub struct SelectSublist;

impl View for SelectSublist {
    type V = SelectSublist;

    open spec fn view(&self) -> SelectSublist {
        *self
    }
}

impl Parse for SelectSublist {
    open spec fn spec_parse(input: TokensView, pos: int) -> Result<
        (SelectSublist, int),
        ParseError,
    > {
        Err(input.unsupported(pos, Construct::ExplicitColumnList))
    }

    proof fn lemma_advances(input: TokensView, pos: int) {
    }

    fn parse(input: &Tokens, pos: usize) -> (r: Result<(Self, usize), ParseError>) {
        Err(input.unsupported(pos, Construct::ExplicitColumnList))
    }
}

/// What a query selects: every column, or a list of columns.
#[derive(Clone, Debug, PartialEq, Eq)]
pub enum SelectList {
    Star,
    Sublists(Vec<SelectSublist>),
}

/// The view of a [`SelectList`].
pub enum SelectListView {
    Star,
    Sublists(Seq<SelectSublist>),
}

impl View for SelectList {
    type V = SelectListView;

    open spec fn view(&self) -> SelectListView {
        match self {
            SelectList::Star => SelectListView::Star,
            SelectList::Sublists(items) => SelectListView::Sublists(views(items@)),
        }
    }
}

/// `SELECT`, whether duplicate rows are kept, and what is selected.
#[derive(Clone, Debug, PartialEq, Eq)]
pub struct SelectClause {
    pub all_or_distinct: Option<Quantifier>,
    pub star_or_sublists: SelectList,
}

/// The view of a [`SelectClause`].
pub struct SelectClauseView {
    pub all_or_distinct: Option<Quantifier>,
    pub star_or_sublists: SelectListView,
}

impl View for SelectClause {
    type V = SelectClauseView;

    open spec fn view(&self) -> SelectClauseView {
        SelectClauseView {
            all_or_distinct: self.all_or_distinct,
            star_or_sublists: self.star_or_sublists@,
        }
    }
}

/// `SELECT [ALL | DISTINCT] *`, or a list of columns where no `*` stands.
impl Parse for SelectClause {
    open spec fn spec_parse(input: TokensView, pos: int) -> Result<
        (SelectClauseView, int),
        ParseError,
    > {
        match spec_keyword(input, pos, "SELECT"@, Expected::Select) {
            Err(e) => Err(e),
            Ok(after) => {
                let (all_or_distinct, at) = spec_optional::<Quantifier>(input, after);
                if input.punct_at(at, '*') {
                    Ok(
                        (
                            SelectClauseView {
                                all_or_distinct,
                                star_or_sublists: SelectListView::Star,
                            },
                            at + 1,
                        ),
                    )
                } else {
                    match spec_punctuated::<SelectSublist>(input, at, MinCount::NoneOrMany) {
                        Err(e) => Err(e),
                        Ok((items, next)) => Ok(
                            (
                                SelectClauseView {
                                    all_or_distinct,
                                    star_or_sublists: SelectListView::Sublists(items),
                                },
                                next,
                            ),
                        ),
                    }
                }
            },
        }
    }

    proof fn lemma_advances(input: TokensView, pos: int) {
        if let Ok(after) = spec_keyword(input, pos, "SELECT"@, Expected::Select) {
            let (all_or_distinct, at) = spec_optional::<Quantifier>(input, after);
            lemma_items_end::<SelectSublist>(input, at);
        }
    }

    fn parse(input: &Tokens, pos: usize) -> (r: Result<(Self, usize), ParseError>) {
        let after = keyword(input, pos, "SELECT", Expected::Select)?;
        let (all_or_distinct, at) = optional::<Quantifier>(input, after);
        assert(view_opt(all_or_distinct) == all_or_distinct);
        if input.punct_at(at, '*') {
            Ok((SelectClause { all_or_distinct, star_or_sublists: SelectList::Star }, at + 1))
        } else {
            let (items, next) = punctuated::<SelectSublist>(input, at, MinCount::NoneOrMany)?;
            Ok((SelectClause { all_or_distinct, star_or_sublists: SelectList::Sublists(items) }, next))
        }
    }
}

/// `INTO name`. It is read; nothing else is done with it yet.
#[derive(Clone, Debug, PartialEq, Eq)]
pub struct IntoClause {
    pub identifier: Identifier,
}

/// An [`IntoClause`] with its name as a sequence of characters.
pub struct IntoClauseView {
    pub identifier: Seq<char>,
}

impl View for IntoClause {
    type V = IntoClauseView;

    open spec fn view(&self) -> IntoClauseView {
        IntoClauseView { identifier: self.identifier@ }
    }
}

impl Parse for IntoClause {
    open spec fn spec_parse(input: TokensView, pos: int) -> Result<
        (IntoClauseView, int),
        ParseError,
    > {
        match spec_keyword(input, pos, "INTO"@, Expected::Into) {
            Err(e) => Err(e),
            Ok(at) => match Identifier::spec_parse(input, at) {
                Err(e) => Err(e),
                Ok((identifier, next)) => Ok((IntoClauseView { identifier }, next)),
            },
        }
    }

    proof fn lemma_advances(input: TokensView, pos: int) {
    }

    fn parse(input: &Tokens, pos: usize) -> (r: Result<(Self, usize), ParseError>) {
        let at = keyword(input, pos, "INTO", Expected::Into)?;
        let (identifier, next) = Identifier::parse(input, at)?;
        Ok((IntoClause { identifier }, next))
    }
}

/// A table of the `FROM` clause, and the alias it may be given.
#[derive(Clone, Debug, PartialEq, Eq)]
pub struct TableReference {
    pub table_name: Identifier,
    pub alias: Option<Identifier>,
}

/// A [`TableReference`] with its names as sequences of characters.
pub struct TableReferenceView {
    pub table_name: Seq<char>,
    pub alias: Option<Seq<char>>,
}

impl View for TableReference {
    type V = TableReferenceView;

    open spec fn view(&self) -> TableReferenceView {
        TableReferenceView { table_name: self.table_name@, alias: view_opt(self.alias) }
    }
}

impl TableReferenceView {
    /// Whether the names are identifiers.
    pub open spec fn well_formed(self) -> bool {
        &&& is_identifier(self.table_name)
        &&& self.alias matches Some(alias) ==> is_identifier(alias)
    }
}

/// The alias at `pos`, `[AS] name`, and the position after it; `None` where no name follows.
pub open spec fn spec_alias(input: TokensView, pos: int) -> Option<(Seq<char>, int)> {
    let at = if input.word_at(pos, "AS"@) {
        pos + 1
    } else {
        pos
    };
    match Identifier::spec_parse(input, at) {
        Ok(got) => Some(got),
        Err(_) => None,
    }
}

/// `name [[AS] alias]`.
impl Parse for TableReference {
    open spec fn spec_parse(input: TokensView, pos: int) -> Result<
        (TableReferenceView, int),
        ParseError,
    > {
        match Identifier::spec_parse(input, pos) {
            Err(e) => Err(e),
            Ok((table_name, after)) => match spec_alias(input, after) {
                Some((alias, next)) => Ok(
                    (TableReferenceView { table_name, alias: Some(alias) }, next),
                ),
                None => Ok((TableReferenceView { table_name, alias: None }, after)),
            },
        }
    }

    proof fn lemma_advances(input: TokensView, pos: int) {
    }

    fn parse(input: &Tokens, pos: usize) -> (r: Result<(Self, usize), ParseError>) {
        let (table_name, after) = Identifier::parse(input, pos)?;
        let at = if input.word_at(after, "AS") {
            after + 1
        } else {
            after
        };
        match Identifier::parse(input, at) {
            Ok((alias, next)) => Ok((TableReference { table_name, alias: Some(alias) }, next)),
            Err(_) => Ok((TableReference { table_name, alias: None }, after)),
        }
    }
}

/// The tables a query reads, in the order in which their columns are selected.
#[derive(Clone, Debug, PartialEq, Eq)]
pub struct FromClause {
    pub table_references: Vec<TableReference>,
}

/// The views of the tables of a [`FromClause`], in order.
pub struct FromClauseView {
    pub table_references: Seq<TableReferenceView>,
}

impl View for FromClause {
    type V = FromClauseView;

    open spec fn view(&self) -> FromClauseView {
        FromClauseView { table_references: views(self.table_references@) }
    }
}

impl FromClauseView {
    /// Whether the clause holds at least one table and every table is well formed.
    pub open spec fn well_formed(self) -> bool {
        &&& self.table_references.len() > 0
        &&& forall|i: int|
            0 <= i < self.table_references.len() ==> (
            #[trigger] self.table_references[i]).well_formed()
    }
}

/// `FROM table, ..` with at least one table, up to the end of the input.
impl Parse for FromClause {
    open spec fn spec_parse(input: TokensView, pos: int) -> Result<
        (FromClauseView, int),
        ParseError,
    > {
        match spec_keyword(input, pos, "FROM"@, Expected::From) {
            Err(e) => Err(e),
            Ok(at) => match spec_punctuated::<TableReference>(input, at, MinCount::OneOrMany) {
                Err(e) => Err(e),
                Ok((table_references, next)) => Ok((FromClauseView { table_references }, next)),
            },
        }
    }

    proof fn lemma_advances(input: TokensView, pos: int) {
        if let Ok(at) = spec_keyword(input, pos, "FROM"@, Expected::From) {
            lemma_items_end::<TableReference>(input, at);
        }
    }

    fn parse(input: &Tokens, pos: usize) -> (r: Result<(Self, usize), ParseError>) {
        let at = keyword(input, pos, "FROM", Expected::From)?;
        let (table_references, next) = punctuated::<TableReference>(
            input,
            at,
            MinCount::OneOrMany,
        )?;
        Ok((FromClause { table_references }, next))
    }
}

/// A query: what it selects, where the result goes, and which tables it reads.
#[derive(Clone, Debug, PartialEq, Eq)]
pub struct Query {
    pub select_clause: SelectClause,
    pub into_clause: Option<IntoClause>,
    pub from_clause: Option<FromClause>,
}

/// The views of the clauses of a [`Query`].
pub struct QueryView {
    pub select_clause: SelectClauseView,
    pub into_clause: Option<IntoClauseView>,
    pub from_clause: Option<FromClauseView>,
}

impl View for Query {
    type V = QueryView;

    open spec fn view(&self) -> QueryView {
        QueryView {
            select_clause: self.select_clause@,
            into_clause: view_opt(self.into_clause),
            from_clause: view_opt(self.from_clause),
        }
    }
}

impl QueryView {
    /// The form of every query that the parser returns: its names are identifiers, a `FROM`
    /// clause holds at least one table, and a list of columns is empty and ends the query.
    pub open spec fn well_formed(self) -> bool {
        &&& self.into_clause matches Some(into) ==> is_identifier(into.identifier)
        &&& self.from_clause matches Some(from) ==> from.well_formed()
        &&& self.select_clause.star_or_sublists matches SelectListView::Sublists(items) ==> {
            &&& items.len() == 0
            &&& self.into_clause is None
            &&& self.from_clause is None
        }
    }
}

/// A query that is read from lexed tokens is well formed.
pub proof fn lemma_parsed_query_well_formed(input: TokensView, pos: int)
    requires
        input.lexical(),
        0 <= pos <= input.items.len(),
    ensures
        Query::spec_parse(input, pos) matches Ok(got) ==> got.0.well_formed(),
{
    if let Ok((select, after_select)) = SelectClause::spec_parse(input, pos) {
        SelectClause::lemma_advances(input, pos);
        let (into, after_into) = spec_optional::<IntoClause>(input, after_select);
        IntoClause::lemma_advances(input, after_select);
        let (from, next) = spec_optional::<FromClause>(input, after_into);
        if from is Some {
            let at = spec_keyword(input, after_into, "FROM"@, Expected::From)->Ok_0;
            lemma_items_satisfy::<TableReference>(
                input,
                at,
                |t: TableReferenceView| t.well_formed(),
            );
        }
        match select.star_or_sublists {
            SelectListView::Star => {},
            SelectListView::Sublists(items) => {
                let after = spec_keyword(input, pos, "SELECT"@, Expected::Select)->Ok_0;
                let (all_or_distinct, at) = spec_optional::<Quantifier>(input, after);
                lemma_items_end::<SelectSublist>(input, at);
                assert(items.len() == 0);
                assert(input.list_end_at(after_select));
            },
        }
    }
}

/// A `SELECT` clause, then an `INTO` clause if one can be read, then a `FROM` clause if one can.
impl Parse for Query {
    open spec fn spec_parse(input: TokensView, pos: int) -> Result<(QueryView, int), ParseError> {
        match SelectClause::spec_parse(input, pos) {
            Err(e) => Err(e),
            Ok((select_clause, after_select)) => {
                let (into_clause, after_into) = spec_optional::<IntoClause>(input, after_select);
                let (from_clause, next) = spec_optional::<FromClause>(input, after_into);
                Ok((QueryView { select_clause, into_clause, from_clause }, next))
            },
        }
    }

    proof fn lemma_advances(input: TokensView, pos: int) {
        SelectClause::lemma_advances(input, pos);
        if let Ok((select_clause, after_select)) = SelectClause::spec_parse(input, pos) {
            IntoClause::lemma_advances(input, after_select);
            let (into_clause, after_into) = spec_optional::<IntoClause>(input, after_select);
            FromClause::lemma_advances(input, after_into);
        }
    }

    fn parse(input: &Tokens, pos: usize) -> (r: Result<(Self, usize), ParseError>) {
        let (select_clause, after_select) = SelectClause::parse(input, pos)?;
        let (into_clause, after_into) = optional::<IntoClause>(input, after_select);
        let (from_clause, next) = optional::<FromClause>(input, after_into);
        Ok((Query { select_clause, into_clause, from_clause }, next))
    }
}

/// A `T` at `pos` that takes up the rest of the input.
pub open spec fn spec_complete<T: Parse>(input: TokensView, pos: int) -> Result<T::V, ParseError> {
    match T::spec_parse(input, pos) {
        Err(e) => Err(e),
        Ok((v, next)) => if next >= input.items.len() {
            Ok(v)
        } else {
            Err(input.fail(next, Expected::End))
        },
    }
}

/// Reads a `T` at `pos` and checks that nothing follows it.
pub fn complete<T: Parse>(input: &Tokens, pos: usize) -> (r: Result<T, ParseError>)
    requires
        pos <= input.items.len(),
    ensures
        match spec_complete::<T>(input@, pos as int) {
            Ok(v) => r matches Ok(got) && got@ == v,
            Err(e) => r == Err::<T, ParseError>(e),
        },
{
    let (v, next) = T::parse(input, pos)?;
    if next >= input.items.len() {
        Ok(v)
    } else {
        Err(input.fail(next, Expected::End))
    }
}

/// The query that `text` holds, or the first failure in it.
pub open spec fn spec_query(text: Seq<char>) -> Result<QueryView, ParseError> {
    match lex(text) {
        Err(e) => Err(e),
        Ok(input) => spec_complete::<Query>(input, 0),
    }
}

/// Parses a query without a header, such as one that was printed from a syntax tree.
///
/// What is returned is well formed.
pub fn parse_query(text: &str) -> (r: Result<Query, ParseError>)
    ensures
        match spec_query(text@) {
            Ok(query) => r matches Ok(got) && got@ == query && query.well_formed(),
            Err(e) => r == Err::<Query, ParseError>(e),
        },
{
    let input = tokenize(text)?;
    proof {
        lemma_parsed_query_well_formed(input@, 0);
    }
    complete::<Query>(&input, 0)
}

/// One named query: the schema it is checked against, the name of the record that is generated
/// for it, and the query itself.
#[derive(Clone, Debug, PartialEq, Eq)]
pub struct SqlStatement {
    /// The path of the schema description, as written between the quotes of the header.
    pub file: String,
    /// Where the path stands in the source.
    pub file_pos: usize,
    pub name: Identifier,
    pub query: Query,
}

/// A [`SqlStatement`] with its texts as sequences of characters.
pub struct SqlStatementView {
    pub file: Seq<char>,
    pub file_pos: usize,
    pub name: Seq<char>,
    pub query: QueryView,
}

impl View for SqlStatement {
    type V = SqlStatementView;

    open spec fn view(&self) -> SqlStatementView {
        SqlStatementView {
            file: self.file@,
            file_pos: self.file_pos,
            name: self.name@,
            query: self.query@,
        }
    }
}

impl SqlStatementView {
    /// Whether the name of the record is an identifier and the query is well formed.
    pub open spec fn well_formed(self) -> bool {
        is_identifier(self.name) && self.query.well_formed()
    }
}

/// The statement that the tokens `input` hold: `- - "path" Name`, then a query to the end.
pub open spec fn spec_statement_tokens(input: TokensView) -> Result<SqlStatementView, ParseError> {
    match spec_punct(input, 0, '-') {
        Err(e) => Err(e),
        Ok(second) => match spec_punct(input, second, '-') {
            Err(e) => Err(e),
            Ok(path) => if !input.literal_at(path) {
                Err(input.fail(path, Expected::Literal))
            } else {
                match Identifier::spec_parse(input, path + 1) {
                    Err(e) => Err(e),
                    Ok((name, at)) => match spec_complete::<Query>(input, at) {
                        Err(e) => Err(e),
                        Ok(query) => Ok(
                            SqlStatementView {
                                file: input.items[path].text,
                                file_pos: input.items[path].pos,
                                name,
                                query,
                            },
                        ),
                    },
                }
            },
        },
    }
}

/// The statement that `text` holds, or the first failure in it.
pub open spec fn spec_statement(text: Seq<char>) -> Result<SqlStatementView, ParseError> {
    match lex(text) {
        Err(e) => Err(e),
        Ok(input) => spec_statement_tokens(input),
    }
}

impl SqlStatement {
    /// Parses one statement that was lexed before: the header and the query after it.
    ///
    /// The first failure ends the parse and is returned with its position. Tokens left over
    /// after the query are a failure too. Where the identifier tokens hold identifiers, as
    /// they do after lexing, the statement is well formed.
    pub fn parse_tokens(input: &Tokens) -> (r: Result<SqlStatement, ParseError>)
        ensures
            match spec_statement_tokens(input@) {
                Ok(statement) => r matches Ok(got) && got@ == statement && (input@.lexical()
                    ==> statement.well_formed()),
                Err(e) => r == Err::<SqlStatement, ParseError>(e),
            },
    {
        let second = punct(input, 0, '-')?;
        let path = punct(input, second, '-')?;
        if !input.literal_at(path) {
            return Err(input.fail(path, Expected::Literal));
        }
        let (name, at) = Identifier::parse(input, path + 1)?;
        proof {
            if input@.lexical() {
                lemma_parsed_query_well_formed(input@, at as int);
            }
        }
        let query = complete::<Query>(input, at)?;
        Ok(
            SqlStatement {
                file: input.items[path].text.clone(),
                file_pos: input.items[path].pos,
                name,
                query,
            },
        )
    }

    /// Parses one statement: the header and the query after it.
    ///
    /// The first lexical or syntactic failure ends the parse and is returned with its position.
    /// Tokens left over after the query are a failure too. What is returned is well formed.
    pub fn parse(text: &str) -> (r: Result<SqlStatement, ParseError>)
        ensures
            match spec_statement(text@) {
                Ok(statement) => r matches Ok(got) && got@ == statement
                    && statement.well_formed(),
                Err(e) => r == Err::<SqlStatement, ParseError>(e),
            },
    {
        let input = tokenize(text)?;
        SqlStatement::parse_tokens(&input)
    }
}

} // verus!
