//! The schema: the tables that queries are resolved against, and the parser of its description.
//!
//! A schema description is a sequence of declarations, each a path, `!` and a bracketed group,
//! optionally followed by `;`. A declaration whose path is the name `table` declares a table:
//!
//! ```text
//! table! {
//!     pupil (id) {
//!         id -> Int4,
//!         name -> Nullable<Text>,
//!     }
//! }
//! ```
//!
//! Its group holds the table's name, the key columns in parentheses (at least one), and the
//! fields in braces, each `name -> Type` or `name -> Nullable<Type>`. Any other declaration is
//! skipped up to the bracket that closes its group.

use crate::error::{Expected, ParseError};
use crate::parse::{
    keyword, lemma_items_end, lemma_items_satisfy, punct, punctuated, spec_keyword, spec_punct,
    spec_punctuated, stepped, view_opt, views, Either, Identifier, MinCount, Parse,
};
use crate::text::is_identifier;
use crate::token::{lex, tokenize, Tokens, TokensView};
use vstd::prelude::*;
use vstd::string::*;

verus! {

/// The type `Nullable<ty>` of a column that may hold no value.
#[derive(Clone, Debug, PartialEq, Eq)]
pub struct NullableType {
    pub ty: Identifier,
}

impl View for NullableType {
    type V = Seq<char>;

    open spec fn view(&self) -> Seq<char> {
        self.ty@
    }
}

impl NullableType {
    /// The name of the type inside the wrapper.
    pub fn get_type_name(&self) -> (name: String)
        ensures
            name@ == self@,
    {
        self.ty.id.clone()
    }
}

/// `Nullable < type >`.
impl Parse for NullableType {
    open spec fn spec_parse(input: TokensView, pos: int) -> Result<(Seq<char>, int), ParseError> {
        match spec_keyword(input, pos, "Nullable"@, Expected::Nullable) {
            Err(e) => Err(e),
            Ok(lt) => match spec_punct(input, lt, '<') {
                Err(e) => Err(e),
                Ok(inner) => match Identifier::spec_parse(input, inner) {
                    Err(e) => Err(e),
                    Ok((ty, gt)) => match spec_punct(input, gt, '>') {
                        Err(e) => Err(e),
                        Ok(next) => Ok((ty, next)),
                    },
                },
            },
        }
    }

    proof fn lemma_advances(input: TokensView, pos: int) {
    }

    fn parse(input: &Tokens, pos: usize) -> (r: Result<(Self, usize), ParseError>) {
        let lt = keyword(input, pos, "Nullable", Expected::Nullable)?;
        let inner = punct(input, lt, '<')?;
        let (ty, gt) = Identifier::parse(input, inner)?;
        let next = punct(input, gt, '>')?;
        Ok((NullableType { ty }, next))
    }
}

/// The declared type of a column.
#[derive(Clone, Debug, PartialEq, Eq)]
pub enum ColumnType {
    /// A type that always holds a value.
    Plain(Identifier),
    /// A type that may hold none.
    Nullable(NullableType),
}

/// A [`ColumnType`] with the name of the type as a sequence of characters.
pub enum ColumnTypeView {
    Plain(Seq<char>),
    Nullable(Seq<char>),
}

impl ColumnTypeView {
    /// The name of the type, without the wrapper if there is one.
    pub open spec fn type_ident(self) -> Seq<char> {
        match self {
            ColumnTypeView::Plain(name) => name,
            ColumnTypeView::Nullable(name) => name,
        }
    }

    /// Either a nullable type or a bare one, as a column type.
    pub open spec fn of(read: Either<Seq<char>, Seq<char>>) -> ColumnTypeView {
        match read {
            Either::First(name) => ColumnTypeView::Nullable(name),
            Either::Second(name) => ColumnTypeView::Plain(name),
        }
    }
}

impl View for ColumnType {
    type V = ColumnTypeView;

    open spec fn view(&self) -> ColumnTypeView {
        match self {
            ColumnType::Plain(name) => ColumnTypeView::Plain(name@),
            ColumnType::Nullable(inner) => ColumnTypeView::Nullable(inner@),
        }
    }
}

impl ColumnType {
    /// The name of the type, without the wrapper if there is one.
    pub fn type_ident(&self) -> (name: String)
        ensures
            name@ == self@.type_ident(),
    {
        match self {
            ColumnType::Plain(name) => name.id.clone(),
            ColumnType::Nullable(inner) => inner.get_type_name(),
        }
    }

    /// Whether a column of this type may hold no value.
    pub fn is_nullable(&self) -> (r: bool)
        ensures
            r == (self@ is Nullable),
    {
        match self {
            ColumnType::Plain(_) => false,
            ColumnType::Nullable(_) => true,
        }
    }
}

/// `Nullable<type>` where that can be read, else a bare type name.
impl Parse for ColumnType {
    open spec fn spec_parse(input: TokensView, pos: int) -> Result<
        (ColumnTypeView, int),
        ParseError,
    > {
        match Either::<NullableType, Identifier>::spec_parse(input, pos) {
            Ok((read, next)) => Ok((ColumnTypeView::of(read), next)),
            Err(e) => Err(e),
        }
    }

    proof fn lemma_advances(input: TokensView, pos: int) {
        Either::<NullableType, Identifier>::lemma_advances(input, pos);
    }

    fn parse(input: &Tokens, pos: usize) -> (r: Result<(Self, usize), ParseError>) {
        match Either::<NullableType, Identifier>::parse(input, pos) {
            Ok((Either::First(inner), next)) => Ok((ColumnType::Nullable(inner), next)),
            Ok((Either::Second(name), next)) => Ok((ColumnType::Plain(name), next)),
            Err(e) => Err(e),
        }
    }
}

/// One column of a table: its name and its declared type.
#[derive(Clone, Debug, PartialEq, Eq)]
pub struct FieldDefinition {
    pub name: Identifier,
    pub ty: ColumnType,
}

/// A [`FieldDefinition`] with its name as a sequence of characters.
pub struct FieldDefinitionView {
    pub name: Seq<char>,
    pub ty: ColumnTypeView,
}

impl View for FieldDefinition {
    type V = FieldDefinitionView;

    open spec fn view(&self) -> FieldDefinitionView {
        FieldDefinitionView { name: self.name@, ty: self.ty@ }
    }
}

impl FieldDefinitionView {
    /// Whether the name of the field and the name of its type are identifiers.
    pub open spec fn well_formed(self) -> bool {
        is_identifier(self.name) && is_identifier(self.ty.type_ident())
    }
}

/// `name -> type`.
impl Parse for FieldDefinition {
    open spec fn spec_parse(input: TokensView, pos: int) -> Result<
        (FieldDefinitionView, int),
        ParseError,
    > {
        match Identifier::spec_parse(input, pos) {
            Err(e) => Err(e),
            Ok((name, dash)) => match spec_punct(input, dash, '-') {
                Err(e) => Err(e),
                Ok(gt) => match spec_punct(input, gt, '>') {
                    Err(e) => Err(e),
                    Ok(at) => match ColumnType::spec_parse(input, at) {
                        Err(e) => Err(e),
                        Ok((ty, next)) => Ok((FieldDefinitionView { name, ty }, next)),
                    },
                },
            },
        }
    }

    proof fn lemma_advances(input: TokensView, pos: int) {
        if let Ok((name, dash)) = Identifier::spec_parse(input, pos) {
            if let Ok(gt) = spec_punct(input, dash, '-') {
                if let Ok(at) = spec_punct(input, gt, '>') {
                    ColumnType::lemma_advances(input, at);
                }
            }
        }
    }

    fn parse(input: &Tokens, pos: usize) -> (r: Result<(Self, usize), ParseError>) {
        let (name, dash) = Identifier::parse(input, pos)?;
        let gt = punct(input, dash, '-')?;
        let at = punct(input, gt, '>')?;
        let (ty, next) = ColumnType::parse(input, at)?;
        Ok((FieldDefinition { name, ty }, next))
    }
}

/// One table: its name, its key columns, and its fields in the order of the database's columns.
#[derive(Clone, Debug, PartialEq, Eq)]
pub struct TableDefinition {
    pub table: Identifier,
    pub keys: Vec<Identifier>,
    pub def: Vec<FieldDefinition>,
}

/// A [`TableDefinition`] with its names as sequences of characters.
pub struct TableDefinitionView {
    pub table: Seq<char>,
    pub keys: Seq<Seq<char>>,
    pub def: Seq<FieldDefinitionView>,
}

impl View for TableDefinition {
    type V = TableDefinitionView;

    open spec fn view(&self) -> TableDefinitionView {
        TableDefinitionView { table: self.table@, keys: views(self.keys@), def: views(self.def@) }
    }
}

impl TableDefinitionView {
    /// The form of every table that the parser returns: its names are identifiers, and it has
    /// at least one key column.
    pub open spec fn well_formed(self) -> bool {
        &&& is_identifier(self.table)
        &&& self.keys.len() > 0
        &&& forall|i: int| 0 <= i < self.keys.len() ==> is_identifier(#[trigger] self.keys[i])
        &&& forall|i: int| 0 <= i < self.def.len() ==> (#[trigger] self.def[i]).well_formed()
    }
}

/// A table that is read from lexed tokens is well formed.
pub proof fn lemma_parsed_table_well_formed(input: TokensView, pos: int)
    requires
        input.lexical(),
        0 <= pos <= input.items.len(),
    ensures
        TableDefinition::spec_parse(input, pos) matches Ok(got) ==> got.0.well_formed(),
{
    if let Ok((table, paren)) = Identifier::spec_parse(input, pos) {
        if let Ok(first_key) = spec_punct(input, paren, '(') {
            lemma_items_end::<Identifier>(input, first_key);
            lemma_items_satisfy::<Identifier>(input, first_key, |key: Seq<char>| is_identifier(key));
            if let Ok((keys, close_paren)) = spec_punctuated::<Identifier>(
                input,
                first_key,
                MinCount::OneOrMany,
            ) {
                if let Ok(brace) = spec_punct(input, close_paren, ')') {
                    if let Ok(first_field) = spec_punct(input, brace, '{') {
                        lemma_items_satisfy::<FieldDefinition>(
                            input,
                            first_field,
                            |field: FieldDefinitionView| field.well_formed(),
                        );
                    }
                }
            }
        }
    }
}

/// `name ( key, .. ) { field, .. }` with at least one key.
impl Parse for TableDefinition {
    open spec fn spec_parse(input: TokensView, pos: int) -> Result<
        (TableDefinitionView, int),
        ParseError,
    > {
        match Identifier::spec_parse(input, pos) {
            Err(e) => Err(e),
            Ok((table, paren)) => match spec_punct(input, paren, '(') {
                Err(e) => Err(e),
                Ok(first_key) => match spec_punctuated::<Identifier>(
                    input,
                    first_key,
                    MinCount::OneOrMany,
                ) {
                    Err(e) => Err(e),
                    Ok((keys, close_paren)) => match spec_punct(input, close_paren, ')') {
                        Err(e) => Err(e),
                        Ok(brace) => match spec_punct(input, brace, '{') {
                            Err(e) => Err(e),
                            Ok(first_field) => match spec_punctuated::<FieldDefinition>(
                                input,
                                first_field,
                                MinCount::NoneOrMany,
                            ) {
                                Err(e) => Err(e),
                                Ok((def, close_brace)) => match spec_punct(
                                    input,
                                    close_brace,
                                    '}',
                                ) {
                                    Err(e) => Err(e),
                                    Ok(next) => Ok((TableDefinitionView { table, keys, def }, next)),
                                },
                            },
                        },
                    },
                },
            },
        }
    }

    proof fn lemma_advances(input: TokensView, pos: int) {
        if let Ok((table, paren)) = Identifier::spec_parse(input, pos) {
            if let Ok(first_key) = spec_punct(input, paren, '(') {
                lemma_items_end::<Identifier>(input, first_key);
                if let Ok((keys, close_paren)) = spec_punctuated::<Identifier>(
                    input,
                    first_key,
                    MinCount::OneOrMany,
                ) {
                    if let Ok(brace) = spec_punct(input, close_paren, ')') {
                        if let Ok(first_field) = spec_punct(input, brace, '{') {
                            lemma_items_end::<FieldDefinition>(input, first_field);
                        }
                    }
                }
            }
        }
    }

    fn parse(input: &Tokens, pos: usize) -> (r: Result<(Self, usize), ParseError>) {
        let (table, paren) = Identifier::parse(input, pos)?;
        let first_key = punct(input, paren, '(')?;
        let (keys, close_paren) = punctuated::<Identifier>(input, first_key, MinCount::OneOrMany)?;
        let brace = punct(input, close_paren, ')')?;
        let first_field = punct(input, brace, '{')?;
        let (def, close_brace) = punctuated::<FieldDefinition>(
            input,
            first_field,
            MinCount::NoneOrMany,
        )?;
        let next = punct(input, close_brace, '}')?;
        Ok((TableDefinition { table, keys, def }, next))
    }
}

impl TokensView {
    /// Whether an opening parenthesis, bracket or brace stands at `pos`.
    pub open spec fn opener_at(self, pos: int) -> bool {
        self.punct_at(pos, '(') || self.punct_at(pos, '[') || self.punct_at(pos, '{')
    }

    /// Whether a closing parenthesis, bracket or brace stands at `pos`.
    pub open spec fn closer_at(self, pos: int) -> bool {
        self.punct_at(pos, ')') || self.punct_at(pos, ']') || self.punct_at(pos, '}')
    }

    /// The character that closes the group opened at `pos`, if one is opened there.
    pub open spec fn closer_of(self, pos: int) -> Option<char> {
        if self.punct_at(pos, '(') {
            Some(')')
        } else if self.punct_at(pos, '[') {
            Some(']')
        } else if self.punct_at(pos, '{') {
            Some('}')
        } else {
            None
        }
    }

    /// Whether `::` stands at `pos`.
    pub open spec fn separator_at(self, pos: int) -> bool {
        self.punct_at(pos, ':') && self.punct_at(pos + 1, ':')
    }

    /// The position after `;` if one stands at `pos`, else `pos`.
    pub open spec fn after_semicolon(self, pos: int) -> int {
        if self.punct_at(pos, ';') {
            pos + 1
        } else {
            pos
        }
    }
}

/// The position after the bracket that closes a group, seen from `pos` inside it, where `depth`
/// brackets are open. Brackets are counted, whatever their kind. `None` if the input ends first.
pub open spec fn group_end(input: TokensView, pos: int, depth: nat) -> Option<int>
    decreases input.items.len() - pos,
{
    if pos < 0 || pos >= input.items.len() {
        None
    } else if input.opener_at(pos) {
        group_end(input, pos + 1, depth + 1)
    } else if input.closer_at(pos) {
        if depth <= 1 {
            Some(pos + 1)
        } else {
            group_end(input, pos + 1, (depth - 1) as nat)
        }
    } else {
        group_end(input, pos + 1, depth)
    }
}

/// A group ends after the position it is seen from, and within the input.
pub proof fn lemma_group_end_bounds(input: TokensView, pos: int, depth: nat)
    requires
        0 <= pos,
    ensures
        group_end(input, pos, depth) matches Some(end) ==> pos < end <= input.items.len(),
    decreases input.items.len() - pos,
{
    if pos < input.items.len() {
        if input.opener_at(pos) {
            lemma_group_end_bounds(input, pos + 1, depth + 1);
        } else if input.closer_at(pos) {
            if depth > 1 {
                lemma_group_end_bounds(input, pos + 1, (depth - 1) as nat);
            }
        } else {
            lemma_group_end_bounds(input, pos + 1, depth);
        }
    }
}

/// The position after the path segments `:: name` that follow each other from `pos` on.
pub open spec fn segments_end(input: TokensView, pos: int) -> int
    decreases input.items.len() - pos,
{
    if input.separator_at(pos) && input.ident_at(pos + 2) {
        segments_end(input, pos + 3)
    } else {
        pos
    }
}

/// The position after the path at `pos`, which names what a declaration declares: identifiers
/// separated by `::`, after `::` or not.
pub open spec fn spec_path(input: TokensView, pos: int) -> Result<int, ParseError> {
    let first = if input.separator_at(pos) {
        pos + 2
    } else {
        pos
    };
    if input.ident_at(first) {
        Ok(segments_end(input, first + 1))
    } else {
        Err(input.fail(first, Expected::Identifier))
    }
}

/// A path ends after the position where it starts, and within the input.
pub proof fn lemma_segments_end_bounds(input: TokensView, pos: int)
    requires
        0 <= pos <= input.items.len(),
    ensures
        pos <= segments_end(input, pos) <= input.items.len(),
    decreases input.items.len() - pos,
{
    if input.separator_at(pos) && input.ident_at(pos + 2) {
        lemma_segments_end_bounds(input, pos + 3);
    }
}

/// The declaration at `pos`: the table it declares, or nothing for any other declaration, and
/// the position after it and after the `;` that may follow. A declaration is a path, `!` and a
/// group; it declares a table where the path is the single name `table`.
pub open spec fn spec_declaration(input: TokensView, pos: int) -> Result<
    (Option<TableDefinitionView>, int),
    ParseError,
> {
    match spec_path(input, pos) {
        Err(e) => Err(e),
        Ok(bang) => match spec_punct(input, bang, '!') {
            Err(e) => Err(e),
            Ok(open) => match input.closer_of(open) {
                None => Err(input.fail(open, Expected::OpenDelimiter)),
                Some(closer) => if input.word_at(pos, "table"@) && bang == pos + 1 {
                    match TableDefinition::spec_parse(input, open + 1) {
                        Err(e) => Err(e),
                        Ok((table, close)) => match spec_punct(input, close, closer) {
                            Err(e) => Err(e),
                            Ok(next) => Ok((Some(table), input.after_semicolon(next))),
                        },
                    }
                } else {
                    match group_end(input, open + 1, 1) {
                        None => Err(
                            input.fail(input.items.len() as int, Expected::CloseDelimiter),
                        ),
                        Some(next) => Ok((None, input.after_semicolon(next))),
                    }
                },
            },
        },
    }
}

/// A declaration takes up at least one token, and none beyond the end.
pub proof fn lemma_declaration_advances(input: TokensView, pos: int)
    requires
        0 <= pos <= input.items.len(),
    ensures
        spec_declaration(input, pos) matches Ok(got) ==> pos < got.1 <= input.items.len(),
{
    if let Ok(bang) = spec_path(input, pos) {
        let first = if input.separator_at(pos) {
            pos + 2
        } else {
            pos
        };
        lemma_segments_end_bounds(input, first + 1);
        if let Ok(open) = spec_punct(input, bang, '!') {
            if input.closer_of(open) is Some {
                TableDefinition::lemma_advances(input, open + 1);
                lemma_group_end_bounds(input, open + 1, 1);
            }
        }
    }
}

/// The tables declared from token `pos` to the end of the input, in order.
pub open spec fn spec_tables(input: TokensView, pos: int) -> Result<
    Seq<TableDefinitionView>,
    ParseError,
>
    decreases input.items.len() - pos,
    when 0 <= pos <= input.items.len()
    via spec_tables_terminates
{
    if pos >= input.items.len() {
        Ok(Seq::empty())
    } else {
        match spec_declaration(input, pos) {
            Err(e) => Err(e),
            Ok((table, next)) => tables_then(table, spec_tables(input, next)),
        }
    }
}

#[via_fn]
proof fn spec_tables_terminates(input: TokensView, pos: int) {
    lemma_declaration_advances(input, pos);
}

/// `first`, if it is a table, then the tables of `rest`; the failure of `rest` if it is one.
pub open spec fn tables_then(
    first: Option<TableDefinitionView>,
    rest: Result<Seq<TableDefinitionView>, ParseError>,
) -> Result<Seq<TableDefinitionView>, ParseError> {
    match rest {
        Ok(more) => Ok(
            match first {
                Some(table) => seq![table] + more,
                None => more,
            },
        ),
        Err(e) => Err(e),
    }
}

/// The tables that queries are resolved against, in the order of their declarations.
#[derive(Clone, Debug, PartialEq, Eq)]
pub struct Schema {
    pub tables: Vec<TableDefinition>,
}

/// The views of the tables of a [`Schema`], in order.
pub struct SchemaView {
    pub tables: Seq<TableDefinitionView>,
}

impl View for Schema {
    type V = SchemaView;

    open spec fn view(&self) -> SchemaView {
        SchemaView { tables: views(self.tables@) }
    }
}

impl SchemaView {
    /// Whether every table is well formed.
    pub open spec fn well_formed(self) -> bool {
        forall|i: int| 0 <= i < self.tables.len() ==> (#[trigger] self.tables[i]).well_formed()
    }
}

/// The tables that are read from lexed tokens are well formed.
pub proof fn lemma_parsed_tables_well_formed(input: TokensView, pos: int)
    requires
        input.lexical(),
        0 <= pos <= input.items.len(),
    ensures
        spec_tables(input, pos) matches Ok(tables) ==> (SchemaView { tables }).well_formed(),
    decreases input.items.len() - pos,
{
    if pos < input.items.len() {
        lemma_declaration_advances(input, pos);
        if let Ok((table, next)) = spec_declaration(input, pos) {
            if input.word_at(pos, "table"@) {
                lemma_parsed_table_well_formed(input, pos + 3);
            }
            lemma_parsed_tables_well_formed(input, next);
            if let Ok(more) = spec_tables(input, next) {
                if let Some(first) = table {
                    let tables = seq![first] + more;
                    let rest = SchemaView { tables: more };
                    assert forall|i: int| 0 <= i < tables.len() implies (
                    #[trigger] tables[i]).well_formed() by {
                        if i > 0 {
                            assert(tables[i] == rest.tables[i - 1]);
                        }
                    }
                }
            }
        }
    }
}

/// The schema that the description `text` declares, or the first failure in it.
pub open spec fn spec_schema(text: Seq<char>) -> Result<SchemaView, ParseError> {
    match lex(text) {
        Err(e) => Err(e),
        Ok(input) => match spec_tables(input, 0) {
            Err(e) => Err(e),
            Ok(tables) => Ok(SchemaView { tables }),
        },
    }
}

/// Steps over the rest of a group from `pos` inside it, up to and including its closing bracket.
fn skip_group(input: &Tokens, pos: usize) -> (r: Option<usize>)
    requires
        1 <= pos <= input.items.len(),
    ensures
        match group_end(input@, pos as int, 1) {
            Some(end) => r == Some(end as usize) && pos < end <= input.items.len(),
            None => r is None,
        },
{
    let mut at: usize = pos;
    let mut depth: usize = 1;
    while at < input.items.len()
        invariant
            pos <= at <= input.items.len(),
            1 <= depth <= 1 + (at - pos),
            1 <= pos,
            group_end(input@, pos as int, 1) == group_end(input@, at as int, depth as nat),
        decreases input.items.len() - at,
    {
        proof {
            lemma_group_end_bounds(input@, at as int, depth as nat);
        }
        if input.punct_at(at, '(') || input.punct_at(at, '[') || input.punct_at(at, '{') {
            depth += 1;
        } else if input.punct_at(at, ')') || input.punct_at(at, ']') || input.punct_at(at, '}') {
            if depth <= 1 {
                return Some(at + 1);
            }
            depth -= 1;
        }
        at += 1;
    }
    None
}

impl Tokens {
    /// The character that closes the group opened at `pos`, if one is opened there.
    fn closer_of(&self, pos: usize) -> (r: Option<char>)
        ensures
            r == self@.closer_of(pos as int),
    {
        if self.punct_at(pos, '(') {
            Some(')')
        } else if self.punct_at(pos, '[') {
            Some(']')
        } else if self.punct_at(pos, '{') {
            Some('}')
        } else {
            None
        }
    }

    /// The position after `;` if one stands at `pos`, else `pos`.
    fn after_semicolon(&self, pos: usize) -> (r: usize)
        requires
            pos <= self.items.len(),
        ensures
            r == self@.after_semicolon(pos as int),
            pos <= r <= self.items.len(),
    {
        if self.punct_at(pos, ';') {
            pos + 1
        } else {
            pos
        }
    }
}

/// Steps over the path at `pos`.
fn path(input: &Tokens, pos: usize) -> (r: Result<usize, ParseError>)
    requires
        pos <= input.items.len(),
    ensures
        stepped(r, spec_path(input@, pos as int)),
        r matches Ok(next) ==> pos < next <= input.items.len(),
{
    let first = if input.punct_at(pos, ':') && input.punct_at(pos + 1, ':') {
        pos + 2
    } else {
        pos
    };
    if !input.ident_at(first) {
        return Err(input.fail(first, Expected::Identifier));
    }
    let mut at: usize = first + 1;
    while input.punct_at(at, ':') && input.punct_at(at + 1, ':') && input.ident_at(at + 2)
        invariant
            first < at <= input.items.len(),
            segments_end(input@, first + 1) == segments_end(input@, at as int),
        decreases input.items.len() - at,
    {
        at += 3;
    }
    Ok(at)
}

/// Reads the declaration at `pos`.
fn declaration(input: &Tokens, pos: usize) -> (r: Result<
    (Option<TableDefinition>, usize),
    ParseError,
>)
    requires
        pos < input.items.len(),
    ensures
        match spec_declaration(input@, pos as int) {
            Ok((table, next)) => r matches Ok(got) && view_opt(got.0) == table
                && got.1 == next && pos < next <= input.items.len(),
            Err(e) => r == Err::<(Option<TableDefinition>, usize), ParseError>(e),
        },
{
    let bang = path(input, pos)?;
    let open = punct(input, bang, '!')?;
    let closer = match input.closer_of(open) {
        None => {
            return Err(input.fail(open, Expected::OpenDelimiter));
        },
        Some(c) => c,
    };
    if input.word_at(pos, "table") && bang == pos + 1 {
        let (table, close) = TableDefinition::parse(input, open + 1)?;
        let next = punct(input, close, closer)?;
        Ok((Some(table), input.after_semicolon(next)))
    } else {
        match skip_group(input, open + 1) {
            None => Err(input.fail(input.items.len(), Expected::CloseDelimiter)),
            Some(next) => Ok((None, input.after_semicolon(next))),
        }
    }
}

impl Schema {
    /// Parses a schema description that was lexed before.
    ///
    /// Returns the declared tables in source order. Declarations other than `table` are skipped.
    /// The first failure ends the parse and is returned with its position. Where the identifier
    /// tokens hold identifiers, as they do after lexing, the schema is well formed.
    pub fn parse_tokens(input: &Tokens) -> (r: Result<Schema, ParseError>)
        ensures
            match spec_tables(input@, 0) {
                Ok(tables) => r matches Ok(got) && got@ == (SchemaView { tables })
                    && (input@.lexical() ==> got@.well_formed()),
                Err(e) => r == Err::<Schema, ParseError>(e),
            },
    {
        let mut tables: Vec<TableDefinition> = Vec::new();
        let mut at: usize = 0;
        proof {
            if input@.lexical() {
                lemma_parsed_tables_well_formed(input@, 0);
            }
            assert(views(tables@) =~= Seq::<TableDefinitionView>::empty());
            match spec_tables(input@, 0) {
                Ok(more) => {
                    assert(Seq::<TableDefinitionView>::empty() + more =~= more);
                },
                Err(_) => {},
            }
        }
        while at < input.items.len()
            invariant
                at <= input.items.len(),
                spec_tables(input@, 0) == tables_after(
                    views(tables@),
                    spec_tables(input@, at as int),
                ),
            decreases input.items.len() - at,
        {
            match declaration(input, at) {
                Err(e) => {
                    return Err(e);
                },
                Ok((table, next)) => {
                    match table {
                        Some(t) => {
                            proof {
                                assert(views(tables@.push(t)) =~= views(tables@) + seq![t@]);
                                match spec_tables(input@, next as int) {
                                    Ok(more) => {
                                        assert(views(tables@) + (seq![t@] + more) =~= (views(
                                            tables@,
                                        ) + seq![t@]) + more);
                                    },
                                    Err(_) => {},
                                }
                            }
                            tables.push(t);
                        },
                        None => {},
                    }
                    at = next;
                },
            }
        }
        proof {
            assert(views(tables@) + Seq::<TableDefinitionView>::empty() =~= views(tables@));
        }
        Ok(Schema { tables })
    }

    /// Parses a schema description.
    ///
    /// Returns the declared tables in source order. Declarations other than `table` are skipped.
    /// The first lexical or syntactic failure ends the parse and is returned with its position.
    /// What is returned is well formed.
    pub fn parse(text: &str) -> (r: Result<Schema, ParseError>)
        ensures
            match spec_schema(text@) {
                Ok(schema) => r matches Ok(got) && got@ == schema && schema.well_formed(),
                Err(e) => r == Err::<Schema, ParseError>(e),
            },
    {
        let input = tokenize(text)?;
        Schema::parse_tokens(&input)
    }
}

/// `first`, then the tables of `rest`; the failure of `rest` if it is one.
pub open spec fn tables_after(
    first: Seq<TableDefinitionView>,
    rest: Result<Seq<TableDefinitionView>, ParseError>,
) -> Result<Seq<TableDefinitionView>, ParseError> {
    match rest {
        Ok(more) => Ok(first + more),
        Err(e) => Err(e),
    }
}

} // verus!
