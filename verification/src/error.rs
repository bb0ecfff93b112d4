//! What can go wrong, as values: nothing in this crate aborts.

use crate::text::{decimal, push_char, push_decimal};
use vstd::prelude::*;
use vstd::string::*;

verus! {

/// What a parser was looking for when it gave up.
#[derive(Clone, Copy, Debug, PartialEq, Eq, Structural)]
pub enum Expected {
    /// A character that can start a token.
    Token,
    /// The double quote that closes a string literal.
    ClosingQuote,
    /// The `*/` that closes a comment.
    CommentEnd,
    /// An identifier.
    Identifier,
    /// A string literal.
    Literal,
    /// The keyword `SELECT`.
    Select,
    /// The keyword `ALL`.
    All,
    /// The keyword `DISTINCT`.
    Distinct,
    /// The keyword `INTO`.
    Into,
    /// The keyword `FROM`.
    From,
    /// The keyword `Nullable`.
    Nullable,
    /// This punctuation character.
    Punct(char),
    /// An opening parenthesis, bracket or brace.
    OpenDelimiter,
    /// The delimiter that closes a group.
    CloseDelimiter,
    /// At least one item in a list.
    Item,
    /// The end of the input.
    End,
}

/// A construct that the grammar recognises and the compiler does not handle yet.
#[derive(Clone, Copy, Debug, PartialEq, Eq, Structural)]
pub enum Construct {
    /// A list of columns in place of `*`.
    ExplicitColumnList,
    /// An `INTO` clause, which has no rendering.
    IntoClause,
}

/// Why a parser gave up.
#[derive(Clone, Copy, Debug, PartialEq, Eq, Structural)]
pub enum ParseErrorKind {
    /// The input does not fit the grammar: something else was expected.
    Expected(Expected),
    /// The input fits the grammar, and uses something unsupported.
    Unsupported(Construct),
}

/// A parse failure: where in the source text, counted in characters, and why. At the end of the
/// input the position is the length of the text.
#[derive(Clone, Copy, Debug, PartialEq, Eq, Structural)]
pub struct ParseError {
    pub pos: usize,
    pub kind: ParseErrorKind,
}

/// Why a statement could not be compiled.
#[derive(Clone, Debug, PartialEq, Eq)]
pub enum Error {
    /// The schema source could not be read: the path as the statement names it, where the
    /// statement names it, and the loader's reason.
    SchemaLoad { path: String, pos: usize, reason: String },
    /// The schema source is malformed.
    SchemaParse(ParseError),
    /// The statement is malformed.
    SqlParse(ParseError),
    /// `SELECT *` without a `FROM` clause: there is no table to expand.
    MissingFromForWildcard,
    /// The `FROM` clause names a table that the schema does not declare.
    UnknownTable(String),
    /// A column has a type for which no record field type is known.
    UnknownType(String),
    /// The statement uses a construct that is not supported.
    UnsupportedConstruct(Construct),
}

/// An [`Error`] with its texts as sequences of characters.
pub enum ErrorView {
    SchemaLoad { path: Seq<char>, pos: usize, reason: Seq<char> },
    SchemaParse(ParseError),
    SqlParse(ParseError),
    MissingFromForWildcard,
    UnknownTable(Seq<char>),
    UnknownType(Seq<char>),
    UnsupportedConstruct(Construct),
}

impl View for Error {
    type V = ErrorView;

    open spec fn view(&self) -> ErrorView {
        match self {
            Error::SchemaLoad { path, pos, reason } => ErrorView::SchemaLoad {
                path: path@,
                pos: *pos,
                reason: reason@,
            },
            Error::SchemaParse(e) => ErrorView::SchemaParse(*e),
            Error::SqlParse(e) => ErrorView::SqlParse(*e),
            Error::MissingFromForWildcard => ErrorView::MissingFromForWildcard,
            Error::UnknownTable(name) => ErrorView::UnknownTable(name@),
            Error::UnknownType(name) => ErrorView::UnknownType(name@),
            Error::UnsupportedConstruct(c) => ErrorView::UnsupportedConstruct(*c),
        }
    }
}

impl Expected {
    /// What was expected, in words.
    pub open spec fn text(self) -> Seq<char> {
        match self {
            Expected::Token => "a token"@,
            Expected::ClosingQuote => "a closing quote"@,
            Expected::CommentEnd => "the end of a comment"@,
            Expected::Identifier => "an identifier"@,
            Expected::Literal => "a string literal"@,
            Expected::Select => "SELECT"@,
            Expected::All => "ALL"@,
            Expected::Distinct => "DISTINCT"@,
            Expected::Into => "INTO"@,
            Expected::From => "FROM"@,
            Expected::Nullable => "Nullable"@,
            Expected::Punct(c) => seq!['`', c, '`'],
            Expected::OpenDelimiter => "an opening delimiter"@,
            Expected::CloseDelimiter => "a closing delimiter"@,
            Expected::Item => "at least one item"@,
            Expected::End => "the end of the input"@,
        }
    }

    /// Appends what was expected, in words, to `f`.
    fn describe(&self, f: &mut String)
        ensures
            final(f)@ == old(f)@ + self.text(),
    {
        match self {
            Expected::Token => f.append("a token"),
            Expected::ClosingQuote => f.append("a closing quote"),
            Expected::CommentEnd => f.append("the end of a comment"),
            Expected::Identifier => f.append("an identifier"),
            Expected::Literal => f.append("a string literal"),
            Expected::Select => f.append("SELECT"),
            Expected::All => f.append("ALL"),
            Expected::Distinct => f.append("DISTINCT"),
            Expected::Into => f.append("INTO"),
            Expected::From => f.append("FROM"),
            Expected::Nullable => f.append("Nullable"),
            Expected::Punct(c) => {
                push_char(f, '`');
                push_char(f, *c);
                push_char(f, '`');
                assert(f@ =~= old(f)@ + seq!['`', *c, '`']);
            },
            Expected::OpenDelimiter => f.append("an opening delimiter"),
            Expected::CloseDelimiter => f.append("a closing delimiter"),
            Expected::Item => f.append("at least one item"),
            Expected::End => f.append("the end of the input"),
        }
    }
}

impl Construct {
    /// The construct, in words.
    pub open spec fn text(self) -> Seq<char> {
        match self {
            Construct::ExplicitColumnList => "explicit column lists"@,
            Construct::IntoClause => "INTO clauses"@,
        }
    }

    /// Appends the construct, in words, to `f`.
    fn describe(&self, f: &mut String)
        ensures
            final(f)@ == old(f)@ + self.text(),
    {
        match self {
            Construct::ExplicitColumnList => f.append("explicit column lists"),
            Construct::IntoClause => f.append("INTO clauses"),
        }
    }
}

impl ParseError {
    /// The message for the failure: `at <position>: expected <what>`, or `at <position>:
    /// unsupported: <what>`.
    pub open spec fn text(self) -> Seq<char> {
        "at "@ + decimal(self.pos as nat) + match self.kind {
            ParseErrorKind::Expected(e) => ": expected "@ + e.text(),
            ParseErrorKind::Unsupported(c) => ": unsupported: "@ + c.text(),
        }
    }

    /// Appends the message for the failure to `f`.
    fn describe(&self, f: &mut String)
        ensures
            final(f)@ == old(f)@ + self.text(),
    {
        let mut text = String::from_str("at ");
        push_decimal(&mut text, self.pos);
        let ghost head = text@;
        match self.kind {
            ParseErrorKind::Expected(e) => {
                text.append(": expected ");
                e.describe(&mut text);
                assert(text@ =~= head + (": expected "@ + e.text()));
            },
            ParseErrorKind::Unsupported(c) => {
                text.append(": unsupported: ");
                c.describe(&mut text);
                assert(text@ =~= head + (": unsupported: "@ + c.text()));
            },
        }
        f.append(text.as_str());
    }

    /// The message for the failure.
    pub fn message(&self) -> (text: String)
        ensures
            text@ == self.text(),
    {
        let mut text = String::new();
        self.describe(&mut text);
        assert(text@ =~= self.text());
        text
    }
}

impl ErrorView {
    /// The message for the failure.
    pub open spec fn text(self) -> Seq<char> {
        match self {
            ErrorView::SchemaLoad { path, pos, reason } => "at "@ + decimal(pos as nat)
                + ": cannot read file "@ + path + ": "@ + reason,
            ErrorView::SchemaParse(e) => "schema "@ + e.text(),
            ErrorView::SqlParse(e) => "statement "@ + e.text(),
            ErrorView::MissingFromForWildcard => "* without a table is not valid"@,
            ErrorView::UnknownTable(name) => "cannot find table "@ + name,
            ErrorView::UnknownType(name) => "unknown type: "@ + name,
            ErrorView::UnsupportedConstruct(c) => "unsupported: "@ + c.text(),
        }
    }
}

impl Error {
    /// The message for the failure, which names the offending table, type or path.
    pub fn message(&self) -> (text: String)
        ensures
            text@ == self@.text(),
    {
        match self {
            Error::SchemaLoad { path, pos, reason } => {
                let mut text = String::from_str("at ");
                push_decimal(&mut text, *pos);
                text.append(": cannot read file ");
                text.append(path.as_str());
                text.append(": ");
                text.append(reason.as_str());
                text
            },
            Error::SchemaParse(e) => {
                let mut text = String::from_str("schema ");
                e.describe(&mut text);
                text
            },
            Error::SqlParse(e) => {
                let mut text = String::from_str("statement ");
                e.describe(&mut text);
                text
            },
            Error::MissingFromForWildcard => String::from_str("* without a table is not valid"),
            Error::UnknownTable(name) => {
                let mut text = String::from_str("cannot find table ");
                text.append(name.as_str());
                text
            },
            Error::UnknownType(name) => {
                let mut text = String::from_str("unknown type: ");
                text.append(name.as_str());
                text
            },
            Error::UnsupportedConstruct(c) => {
                let mut text = String::from_str("unsupported: ");
                c.describe(&mut text);
                text
            },
        }
    }
}

} // verus!
