//! Why a printed query reads back as itself: the lemmas behind the round-trip law.
//!
//! The argument has three parts. What the parser returns has a certain form: its names are
//! identifiers, its `FROM` clause is not empty. The text printed for a query of that form lexes
//! to a known sequence of tokens. And that sequence parses to the query.

use crate::display::{indentation, sql_clause, sql_list, sql_rest, SqlDisplay};
use crate::error::{Construct, ParseError};
use crate::parse::{spec_items, spec_optional, Parse};
use crate::sql::{
    spec_complete, FromClause, FromClauseView, IntoClause, IntoClauseView, Quantifier, Query,
    QueryView, SelectClause, SelectClauseView, SelectListView, TableReference,
    TableReferenceView,
};
use crate::text::{is_ident_continue, is_ident_start, is_identifier, is_punct, is_space};
use crate::token::{
    block_comment_at, comment_run, hash_run, ident_run, lemma_comment_run_bound,
    lemma_hash_run_bound, lemma_ident_run_bound, lemma_line_run_bound, lemma_token_at_advances,
    lex_from, line_comment_at, line_run, quoted_run, raw_run, token_at, TokenKind, TokenView,
    TokensView,
};
use vstd::prelude::*;

verus! {

/// A token without its position.
pub struct Lexeme {
    pub kind: TokenKind,
    pub text: Seq<char>,
}

/// The identifier token `text`.
pub open spec fn word(text: Seq<char>) -> Lexeme {
    Lexeme { kind: TokenKind::Ident, text }
}

/// The punctuation token `c`.
pub open spec fn mark(c: char) -> Lexeme {
    Lexeme { kind: TokenKind::Punct, text: seq![c] }
}

/// `tokens` without their positions.
pub open spec fn shape(tokens: Seq<TokenView>) -> Seq<Lexeme> {
    tokens.map_values(|t: TokenView| Lexeme { kind: t.kind, text: t.text })
}

/// The tokens of `s` from `i` on, without their positions; `None` on a lexical error.
pub open spec fn lexemes_from(s: Seq<char>, i: int) -> Option<Seq<Lexeme>> {
    match lex_from(s, i) {
        Ok(tokens) => Some(shape(tokens)),
        Err(_) => None,
    }
}

/// The tokens of `s`, without their positions; `None` on a lexical error.
pub open spec fn lexemes(s: Seq<char>) -> Option<Seq<Lexeme>> {
    lexemes_from(s, 0)
}

/// `first`, then what `rest` holds, if it holds anything.
pub open spec fn prepend(first: Seq<Lexeme>, rest: Option<Seq<Lexeme>>) -> Option<Seq<Lexeme>> {
    match rest {
        Some(more) => Some(first + more),
        None => None,
    }
}

/// Whether an identifier that ends just before `tail` ends there and is a token of its own:
/// `tail` is empty, or starts with a character that no identifier goes on with and that opens
/// no raw literal.
pub open spec fn breaks(tail: Seq<char>) -> bool {
    tail.len() == 0 || (!is_ident_continue(tail[0]) && tail[0] != '#' && tail[0] != '"')
}

/// The shape of one token followed by others.
pub proof fn lemma_shape_push_front(first: TokenView, more: Seq<TokenView>)
    ensures
        shape(seq![first] + more) == seq![Lexeme { kind: first.kind, text: first.text }] + shape(
            more,
        ),
{
    assert(shape(seq![first] + more) =~= seq![Lexeme { kind: first.kind, text: first.text }]
        + shape(more));
}

/// Prepending twice is prepending both at once.
pub proof fn lemma_prepend_twice(a: Seq<Lexeme>, b: Seq<Lexeme>, rest: Option<Seq<Lexeme>>)
    ensures
        prepend(a, prepend(b, rest)) == prepend(a + b, rest),
{
    if let Some(more) = rest {
        assert(a + (b + more) =~= (a + b) + more);
    }
}

proof fn lemma_ident_run_suffix(s: Seq<char>, i: int, j: int)
    requires
        0 <= i,
        0 <= j,
        i + j <= s.len(),
    ensures
        ident_run(s, i + j) == ident_run(s.skip(i), j),
    decreases s.len() - (i + j),
{
    if i + j < s.len() && is_ident_continue(s[i + j]) {
        lemma_ident_run_suffix(s, i, j + 1);
    }
}

proof fn lemma_quoted_run_suffix(s: Seq<char>, i: int, j: int, quote: char)
    requires
        0 <= i,
        0 <= j,
        i + j <= s.len(),
    ensures
        quoted_run(s, i + j, quote) == quoted_run(s.skip(i), j, quote),
    decreases s.len() - (i + j),
{
    if i + j < s.len() && s[i + j] != quote {
        if s[i + j] == '\\' && i + j + 1 < s.len() {
            lemma_quoted_run_suffix(s, i, j + 2, quote);
        } else {
            lemma_quoted_run_suffix(s, i, j + 1, quote);
        }
    }
}

proof fn lemma_hash_run_suffix(s: Seq<char>, i: int, j: int)
    requires
        0 <= i,
        0 <= j,
        i + j <= s.len(),
    ensures
        hash_run(s, i + j) == hash_run(s.skip(i), j),
    decreases s.len() - (i + j),
{
    if i + j < s.len() && s[i + j] == '#' {
        lemma_hash_run_suffix(s, i, j + 1);
    }
}

proof fn lemma_raw_run_suffix(s: Seq<char>, i: int, j: int, hashes: nat)
    requires
        0 <= i,
        0 <= j,
        i + j <= s.len(),
    ensures
        raw_run(s, i + j, hashes) == raw_run(s.skip(i), j, hashes),
    decreases s.len() - (i + j),
{
    if i + j < s.len() {
        lemma_hash_run_suffix(s, i, j + 1);
        lemma_raw_run_suffix(s, i, j + 1, hashes);
    }
}

proof fn lemma_line_run_suffix(s: Seq<char>, i: int, j: int)
    requires
        0 <= i,
        0 <= j,
        i + j <= s.len(),
    ensures
        line_run(s, i + j) == line_run(s.skip(i), j),
    decreases s.len() - (i + j),
{
    if i + j < s.len() && s[i + j] != '\n' {
        lemma_line_run_suffix(s, i, j + 1);
    }
}

proof fn lemma_comment_run_suffix(s: Seq<char>, i: int, j: int, depth: nat)
    requires
        0 <= i,
        0 <= j,
        i + j <= s.len(),
    ensures
        comment_run(s, i + j, depth) == comment_run(s.skip(i), j, depth),
    decreases s.len() - (i + j),
{
    if i + j + 1 < s.len() {
        if s[i + j] == '*' && s[i + j + 1] == '/' {
            if depth > 1 {
                lemma_comment_run_suffix(s, i, j + 2, (depth - 1) as nat);
            }
        } else if s[i + j] == '/' && s[i + j + 1] == '*' {
            lemma_comment_run_suffix(s, i, j + 2, depth + 1);
        } else {
            lemma_comment_run_suffix(s, i, j + 1, depth);
        }
    }
}

/// The token at a position is, but for its position, the token at the same place of the
/// text without its first `i` characters.
proof fn lemma_token_at_suffix(s: Seq<char>, i: int, j: int)
    requires
        0 <= i,
        0 <= j,
        i + j < s.len(),
    ensures
        match token_at(s, i + j) {
            Ok((here, next)) => token_at(s.skip(i), j) matches Ok(there) && there.0.kind
                == here.kind && there.0.text == here.text && there.1 + i == next && i + j < next
                <= s.len(),
            Err(_) => token_at(s.skip(i), j) is Err,
        },
{
    let t = s.skip(i);
    lemma_ident_run_suffix(s, i, j + 1);
    lemma_quoted_run_suffix(s, i, j + 1, '"');
    lemma_quoted_run_suffix(s, i, j + 1, '\'');
    lemma_token_at_advances(s, i + j);
    assert(t[j] == s[i + j]);
    let end = i + j + 1 + ident_run(s, i + j + 1);
    lemma_ident_run_bound(s, i + j + 1);
    lemma_hash_run_bound(s, end);
    lemma_hash_run_suffix(s, i, end - i);
    let hashes = hash_run(s, end);
    if end + hashes + 1 <= s.len() {
        lemma_raw_run_suffix(s, i, end + hashes + 1 - i, hashes);
    }
    if let Ok((here, next)) = token_at(s, i + j) {
        let (there, next_there) = token_at(t, j)->Ok_0;
        assert(next == next_there + i);
        assert(here.text =~= there.text);
    }
}

/// Lexing looks only at what lies ahead: the tokens from `i + j` on are, but for their
/// positions, those of the text without its first `i` characters, from `j` on.
pub proof fn lemma_lex_suffix(s: Seq<char>, i: int, j: int)
    requires
        0 <= i,
        0 <= j,
        i + j <= s.len(),
    ensures
        lexemes_from(s, i + j) == lexemes_from(s.skip(i), j),
    decreases s.len() - (i + j),
{
    let t = s.skip(i);
    if i + j >= s.len() {
        assert(shape(Seq::<TokenView>::empty()) =~= Seq::<Lexeme>::empty());
    } else if is_space(s[i + j]) {
        lemma_lex_suffix(s, i, j + 1);
    } else if line_comment_at(s, i + j) {
        lemma_line_run_suffix(s, i, j + 2);
        lemma_line_run_bound(s, i + j + 2);
        lemma_lex_suffix(s, i, j + 2 + line_run(s, i + j + 2));
    } else if block_comment_at(s, i + j) {
        lemma_comment_run_suffix(s, i, j + 2, 1);
        lemma_comment_run_bound(s, i + j + 2, 1);
        if let Some(n) = comment_run(s, i + j + 2, 1) {
            lemma_lex_suffix(s, i, j + 2 + n);
        }
    } else {
        lemma_token_at_suffix(s, i, j);
        match token_at(s, i + j) {
            Ok((here, next)) => {
                let (there, next_there) = token_at(t, j)->Ok_0;
                lemma_lex_suffix(s, i, next - i);
                match lex_from(s, next) {
                    Ok(more) => {
                        let more_there = lex_from(t, next_there)->Ok_0;
                        lemma_shape_push_front(here, more);
                        lemma_shape_push_front(there, more_there);
                    },
                    Err(_) => {},
                }
            },
            Err(_) => {},
        }
    }
}

/// White space before a text adds no token.
pub proof fn lemma_lex_blank(blank: Seq<char>, tail: Seq<char>)
    requires
        forall|k: int| 0 <= k < blank.len() ==> is_space(#[trigger] blank[k]),
    ensures
        lexemes(blank + tail) == lexemes(tail),
    decreases blank.len(),
{
    let s = blank + tail;
    if blank.len() == 0 {
        assert(s =~= tail);
    } else {
        assert(s[0] == blank[0]);
        lemma_lex_suffix(s, 1, 0);
        assert(s.skip(1) =~= blank.drop_first() + tail);
        assert forall|k: int| 0 <= k < blank.drop_first().len() implies is_space(
            #[trigger] blank.drop_first()[k],
        ) by {
            assert(blank.drop_first()[k] == blank[k + 1]);
        }
        lemma_lex_blank(blank.drop_first(), tail);
    }
}

proof fn lemma_ident_run_of_word(s: Seq<char>, w: Seq<char>, k: int)
    requires
        0 <= k <= w.len() <= s.len(),
        s.subrange(0, w.len() as int) == w,
        forall|i: int| 0 <= i < w.len() ==> is_ident_continue(#[trigger] w[i]),
        w.len() == s.len() || !is_ident_continue(s[w.len() as int]),
    ensures
        ident_run(s, k) == w.len() - k,
    decreases w.len() - k,
{
    if k < w.len() {
        assert(s[k] == s.subrange(0, w.len() as int)[k]);
        lemma_ident_run_of_word(s, w, k + 1);
    }
}

/// An identifier before a text that it does not run into is one token.
pub proof fn lemma_lex_word(w: Seq<char>, tail: Seq<char>)
    requires
        is_identifier(w),
        breaks(tail),
    ensures
        lexemes(w + tail) == prepend(seq![word(w)], lexemes(tail)),
{
    let s = w + tail;
    assert(s.subrange(0, w.len() as int) =~= w);
    assert(s[0] == w[0]);
    if tail.len() > 0 {
        assert(s[w.len() as int] == tail[0]);
    }
    lemma_ident_run_of_word(s, w, 1);
    let (here, next) = token_at(s, 0)->Ok_0;
    assert(next == w.len());
    assert(here.text =~= w);
    lemma_lex_suffix(s, next, 0);
    assert(s.skip(next) =~= tail);
    match lex_from(s, next) {
        Ok(more) => {
            lemma_shape_push_front(here, more);
        },
        Err(_) => {},
    }
}

/// A punctuation character before a text is one token, where it can open neither a comment nor
/// a character literal.
pub proof fn lemma_lex_mark(c: char, tail: Seq<char>)
    requires
        is_punct(c),
        c != '/',
        c != '\'',
    ensures
        lexemes(seq![c] + tail) == prepend(seq![mark(c)], lexemes(tail)),
{
    let s = seq![c] + tail;
    assert(s[0] == c);
    let (here, next) = token_at(s, 0)->Ok_0;
    lemma_lex_suffix(s, 1, 0);
    assert(s.skip(1) =~= tail);
    match lex_from(s, 1) {
        Ok(more) => {
            lemma_shape_push_front(here, more);
        },
        Err(_) => {},
    }
}

impl QueryView {
    /// The form of a query that can be printed: well formed, and without an `INTO` clause.
    pub open spec fn printable_form(self) -> bool {
        self.well_formed() && self.into_clause is None
    }
}

/// The tokens of a table reference.
pub open spec fn table_lexemes(t: TableReferenceView) -> Seq<Lexeme> {
    match t.alias {
        Some(alias) => seq![word(t.table_name), word("AS"@), word(alias)],
        None => seq![word(t.table_name)],
    }
}

/// The tokens of the table references `tables`, each after a comma.
pub open spec fn rest_lexemes(tables: Seq<TableReferenceView>) -> Seq<Lexeme>
    decreases tables.len(),
{
    if tables.len() == 0 {
        Seq::empty()
    } else {
        seq![mark(',')] + table_lexemes(tables[0]) + rest_lexemes(tables.drop_first())
    }
}

/// The tokens of the table references `tables`, separated by commas.
pub open spec fn list_lexemes(tables: Seq<TableReferenceView>) -> Seq<Lexeme> {
    if tables.len() == 0 {
        Seq::empty()
    } else {
        table_lexemes(tables[0]) + rest_lexemes(tables.drop_first())
    }
}

/// The tokens of a quantifier that may be absent.
pub open spec fn quantifier_lexemes(q: Option<Quantifier>) -> Seq<Lexeme> {
    match q {
        Some(Quantifier::All) => seq![word("ALL"@)],
        Some(Quantifier::Distinct) => seq![word("DISTINCT"@)],
        None => Seq::empty(),
    }
}

/// The tokens of what is selected.
pub open spec fn select_list_lexemes(list: SelectListView) -> Seq<Lexeme> {
    match list {
        SelectListView::Star => seq![mark('*')],
        SelectListView::Sublists(_) => Seq::empty(),
    }
}

/// The tokens of a `FROM` clause that may be absent.
pub open spec fn from_lexemes(from: Option<FromClauseView>) -> Seq<Lexeme> {
    match from {
        Some(clause) => seq![word("FROM"@)] + list_lexemes(clause.table_references),
        None => Seq::empty(),
    }
}

/// The tokens of a query without an `INTO` clause.
pub open spec fn query_lexemes(q: QueryView) -> Seq<Lexeme> {
    seq![word("SELECT"@)] + quantifier_lexemes(q.select_clause.all_or_distinct)
        + select_list_lexemes(q.select_clause.star_or_sublists) + from_lexemes(q.from_clause)
}

/// What the texts that the printer writes consist of.
pub proof fn lemma_literals()
    ensures
        is_identifier("SELECT"@),
        is_identifier("ALL"@),
        is_identifier("DISTINCT"@),
        is_identifier("FROM"@),
        is_identifier("AS"@),
        "ALL"@ != "DISTINCT"@,
        "FROM"@ != "INTO"@,
        " "@ == seq![' '],
        "\n"@ == seq!['\n'],
        ","@ == seq![','],
        "*"@ == seq!['*'],
        " AS "@ == seq![' '] + "AS"@ + seq![' '],
{
    reveal_strlit("SELECT");
    reveal_strlit("ALL");
    reveal_strlit("DISTINCT");
    reveal_strlit("FROM");
    reveal_strlit("INTO");
    reveal_strlit("AS");
    reveal_strlit(" ");
    reveal_strlit("\n");
    reveal_strlit(",");
    reveal_strlit("*");
    reveal_strlit(" AS ");
    assert(" "@ =~= seq![' ']);
    assert("\n"@ =~= seq!['\n']);
    assert(","@ =~= seq![',']);
    assert("*"@ =~= seq!['*']);
    assert(" AS "@ =~= seq![' '] + "AS"@ + seq![' ']);
    assert("ALL"@.len() != "DISTINCT"@.len());
    assert("FROM"@[0] != "INTO"@[0]);
}

/// The text of a table reference lexes to its tokens.
pub proof fn lemma_lex_table(t: TableReferenceView, level: nat, tail: Seq<char>)
    requires
        t.well_formed(),
        breaks(tail),
    ensures
        TableReference::sql(t, level) is Ok,
        lexemes(TableReference::sql(t, level)->Ok_0 + tail) == prepend(
            table_lexemes(t),
            lexemes(tail),
        ),
{
    lemma_literals();
    let text = TableReference::sql(t, level)->Ok_0;
    match t.alias {
        Some(alias) => {
            let after_as = seq![' '] + (alias + tail);
            let from_as = "AS"@ + after_as;
            let after_name = seq![' '] + from_as;
            assert(text + tail =~= t.table_name + after_name);
            lemma_lex_word(alias, tail);
            lemma_lex_blank(seq![' '], alias + tail);
            assert(after_as[0] == ' ');
            lemma_lex_word("AS"@, after_as);
            lemma_lex_blank(seq![' '], from_as);
            assert(after_name[0] == ' ');
            lemma_lex_word(t.table_name, after_name);
            lemma_prepend_twice(seq![word("AS"@)], seq![word(alias)], lexemes(tail));
            lemma_prepend_twice(
                seq![word(t.table_name)],
                seq![word("AS"@)] + seq![word(alias)],
                lexemes(tail),
            );
            assert(seq![word(t.table_name)] + (seq![word("AS"@)] + seq![word(alias)])
                =~= table_lexemes(t));
        },
        None => {
            lemma_lex_word(t.table_name, tail);
        },
    }
}

/// The text of a table reference starts with a character of its name.
proof fn lemma_table_text_starts(t: TableReferenceView, level: nat)
    requires
        t.well_formed(),
    ensures
        TableReference::sql(t, level) matches Ok(text) && text.len() > 0 && text[0]
            == t.table_name[0],
{
}

/// The text of the further items of a list lexes to their tokens.
pub proof fn lemma_lex_rest(tables: Seq<TableReferenceView>, level: nat)
    requires
        forall|i: int| 0 <= i < tables.len() ==> (#[trigger] tables[i]).well_formed(),
    ensures
        sql_rest::<TableReference>(tables, level) matches Ok(text) && lexemes(text) == Some(
            rest_lexemes(tables),
        ) && breaks(text),
    decreases tables.len(),
{
    lemma_literals();
    if tables.len() == 0 {
        assert(shape(Seq::<TokenView>::empty()) =~= Seq::<Lexeme>::empty());
    } else {
        let rest = tables.drop_first();
        assert forall|i: int| 0 <= i < rest.len() implies (#[trigger] rest[i]).well_formed() by {
            assert(rest[i] == tables[i + 1]);
        }
        lemma_lex_rest(rest, level);
        let first = TableReference::sql(tables[0], level)->Ok_0;
        let more = sql_rest::<TableReference>(rest, level)->Ok_0;
        let text = sql_rest::<TableReference>(tables, level)->Ok_0;
        assert(text =~= seq![','] + (first + more));
        lemma_lex_table(tables[0], level, more);
        lemma_lex_mark(',', first + more);
        assert(seq![mark(',')] + (table_lexemes(tables[0]) + rest_lexemes(rest)) =~= rest_lexemes(
            tables,
        ));
        assert(text[0] == ',');
    }
}

/// The text of a list of table references lexes to its tokens.
pub proof fn lemma_lex_list(tables: Seq<TableReferenceView>, level: nat)
    requires
        tables.len() > 0,
        forall|i: int| 0 <= i < tables.len() ==> (#[trigger] tables[i]).well_formed(),
    ensures
        sql_list::<TableReference>(tables, level) matches Ok(text) && lexemes(text) == Some(
            list_lexemes(tables),
        ) && text.len() > 0 && is_ident_start(text[0]),
{
    let rest = tables.drop_first();
    assert forall|i: int| 0 <= i < rest.len() implies (#[trigger] rest[i]).well_formed() by {
        assert(rest[i] == tables[i + 1]);
    }
    lemma_lex_rest(rest, level);
    let more = sql_rest::<TableReference>(rest, level)->Ok_0;
    lemma_lex_table(tables[0], level, more);
    lemma_table_text_starts(tables[0], level);
}

/// A line end and the indentation after it add no token.
proof fn lemma_lex_new_line(level: nat, tail: Seq<char>)
    ensures
        lexemes(seq!['\n'] + indentation(level) + tail) == lexemes(tail),
{
    lemma_lex_blank(seq!['\n'] + indentation(level), tail);
}

/// The text of a `FROM` clause that may be absent, as it stands in a query, lexes to its tokens.
proof fn lemma_lex_from(from: Option<FromClauseView>, level: nat)
    requires
        from matches Some(clause) ==> {
            &&& clause.table_references.len() > 0
            &&& forall|i: int|
                0 <= i < clause.table_references.len() ==> (
                #[trigger] clause.table_references[i]).well_formed()
        },
    ensures
        sql_clause::<FromClause>(from, level) matches Ok(text) && lexemes(text)
            == Some(from_lexemes(from)) && breaks(text),
{
    lemma_literals();
    match from {
        Some(clause) => {
            lemma_lex_list(clause.table_references, level + 1);
            let list = sql_list::<TableReference>(clause.table_references, level + 1)->Ok_0;
            let text = sql_clause::<FromClause>(from, level)->Ok_0;
            let after_from = seq!['\n'] + indentation(level + 1) + list;
            let from_on = "FROM"@ + after_from;
            assert(text =~= seq!['\n'] + indentation(level) + from_on);
            lemma_lex_new_line(level + 1, list);
            assert(after_from[0] == '\n');
            lemma_lex_word("FROM"@, after_from);
            lemma_lex_new_line(level, from_on);
            assert(text[0] == '\n');
        },
        None => {
            assert(shape(Seq::<TokenView>::empty()) =~= Seq::<Lexeme>::empty());
        },
    }
}

/// The text of a quantifier that may be absent, as it stands after `SELECT`.
pub open spec fn quantifier_text(q: Option<Quantifier>) -> Seq<char> {
    match q {
        Some(Quantifier::All) => " "@ + "ALL"@,
        Some(Quantifier::Distinct) => " "@ + "DISTINCT"@,
        None => Seq::empty(),
    }
}

/// The text of what is selected, where a list of columns is empty.
pub open spec fn select_list_text(list: SelectListView) -> Seq<char> {
    match list {
        SelectListView::Star => "*"@,
        SelectListView::Sublists(_) => Seq::empty(),
    }
}

/// The text of a quantifier before a line end lexes to its token.
proof fn lemma_lex_quantifier(q: Option<Quantifier>, tail: Seq<char>)
    requires
        tail.len() > 0,
        tail[0] == '\n',
    ensures
        lexemes(quantifier_text(q) + tail) == prepend(quantifier_lexemes(q), lexemes(tail)),
        breaks(quantifier_text(q) + tail),
{
    lemma_literals();
    match q {
        Some(Quantifier::All) => {
            lemma_lex_word("ALL"@, tail);
            lemma_lex_blank(seq![' '], "ALL"@ + tail);
            assert(quantifier_text(q) + tail =~= seq![' '] + ("ALL"@ + tail));
            assert((quantifier_text(q) + tail)[0] == ' ');
        },
        Some(Quantifier::Distinct) => {
            lemma_lex_word("DISTINCT"@, tail);
            lemma_lex_blank(seq![' '], "DISTINCT"@ + tail);
            assert(quantifier_text(q) + tail =~= seq![' '] + ("DISTINCT"@ + tail));
            assert((quantifier_text(q) + tail)[0] == ' ');
        },
        None => {
            assert(quantifier_text(q) + tail =~= tail);
            if let Some(more) = lexemes(tail) {
                assert(Seq::<Lexeme>::empty() + more =~= more);
            }
        },
    }
}

/// The text of what is selected lexes to its token.
proof fn lemma_lex_select_list(list: SelectListView, tail: Seq<char>)
    ensures
        lexemes(select_list_text(list) + tail) == prepend(
            select_list_lexemes(list),
            lexemes(tail),
        ),
{
    lemma_literals();
    match list {
        SelectListView::Star => {
            lemma_lex_mark('*', tail);
        },
        SelectListView::Sublists(_) => {
            assert(select_list_text(list) + tail =~= tail);
            if let Some(more) = lexemes(tail) {
                assert(Seq::<Lexeme>::empty() + more =~= more);
            }
        },
    }
}

/// The text of a `SELECT` clause is its keyword, quantifier, a new line and what is selected.
proof fn lemma_select_text(select: SelectClauseView, level: nat)
    requires
        select.star_or_sublists matches SelectListView::Sublists(items) ==> items.len() == 0,
    ensures
        SelectClause::sql(select, level) == Ok::<Seq<char>, Construct>(
            "SELECT"@ + (quantifier_text(select.all_or_distinct) + (seq!['\n'] + indentation(
                level + 1,
            ) + select_list_text(select.star_or_sublists))),
        ),
{
    lemma_literals();
    match select.star_or_sublists {
        SelectListView::Star => {},
        SelectListView::Sublists(items) => {
            assert(items =~= Seq::empty());
        },
    }
    let text = SelectClause::sql(select, level)->Ok_0;
    assert(text =~= "SELECT"@ + (quantifier_text(select.all_or_distinct) + (seq!['\n']
        + indentation(level + 1) + select_list_text(select.star_or_sublists))));
}

/// The text of a `SELECT` clause before that of a `FROM` clause lexes to the tokens of both.
proof fn lemma_lex_select(
    select: SelectClauseView,
    level: nat,
    tail: Seq<char>,
    tail_tokens: Seq<Lexeme>,
)
    requires
        select.star_or_sublists matches SelectListView::Sublists(items) ==> items.len() == 0,
        lexemes(tail) == Some(tail_tokens),
    ensures
        SelectClause::sql(select, level) matches Ok(text) && lexemes(text + tail) == Some(
            seq![word("SELECT"@)] + quantifier_lexemes(select.all_or_distinct)
                + select_list_lexemes(select.star_or_sublists) + tail_tokens,
        ),
{
    lemma_select_text(select, level);
    let text = SelectClause::sql(select, level)->Ok_0;
    let list = select_list_text(select.star_or_sublists);
    let from_list = list + tail;
    let from_line = seq!['\n'] + indentation(level + 1) + from_list;
    let from_quantifier = quantifier_text(select.all_or_distinct) + from_line;
    assert(text + tail =~= "SELECT"@ + from_quantifier);
    lemma_lex_select_list(select.star_or_sublists, tail);
    lemma_lex_new_line(level + 1, from_list);
    assert(from_line[0] == '\n');
    lemma_lex_quantifier(select.all_or_distinct, from_line);
    assert(is_identifier("SELECT"@)) by {
        lemma_literals();
    }
    lemma_lex_word("SELECT"@, from_quantifier);
    let a = seq![word("SELECT"@)];
    let b = quantifier_lexemes(select.all_or_distinct);
    let c = select_list_lexemes(select.star_or_sublists);
    assert(a + (b + (c + tail_tokens)) =~= a + b + c + tail_tokens);
}

/// The text printed for a query in printable form lexes to the query's tokens.
pub proof fn lemma_lex_query(q: QueryView, level: nat)
    requires
        q.printable_form(),
    ensures
        Query::sql(q, level) matches Ok(text) && lexemes(text) == Some(query_lexemes(q)),
{
    lemma_lex_from(q.from_clause, level);
    let from = sql_clause::<FromClause>(q.from_clause, level)->Ok_0;
    lemma_lex_select(q.select_clause, level, from, from_lexemes(q.from_clause));
    let select = SelectClause::sql(q.select_clause, level)->Ok_0;
    let text = Query::sql(q, level)->Ok_0;
    assert(text =~= indentation(level) + (select + from));
    lemma_lex_blank(indentation(level), select + from);
}

/// Whether the tokens `expected` stand in `input` from `pos` on, whatever their positions in
/// the source.
pub open spec fn reads(input: TokensView, pos: int, expected: Seq<Lexeme>) -> bool {
    &&& 0 <= pos
    &&& pos + expected.len() <= input.items.len()
    &&& forall|k: int|
        0 <= k < expected.len() ==> (#[trigger] input.items[pos + k]).kind == expected[k].kind
            && input.items[pos + k].text == expected[k].text
}

/// Tokens that read as `first + second` read as `first` and, after it, as `second`.
proof fn lemma_reads_split(input: TokensView, pos: int, first: Seq<Lexeme>, second: Seq<Lexeme>)
    requires
        reads(input, pos, first + second),
    ensures
        reads(input, pos, first),
        reads(input, pos + first.len(), second),
{
    assert forall|k: int| 0 <= k < first.len() implies (#[trigger] input.items[pos + k]).kind
        == first[k].kind && input.items[pos + k].text == first[k].text by {
        assert((first + second)[k] == first[k]);
    }
    assert forall|k: int| 0 <= k < second.len() implies (#[trigger] input.items[pos + first.len()
        + k]).kind == second[k].kind && input.items[pos + first.len() + k].text
        == second[k].text by {
        assert((first + second)[first.len() + k] == second[k]);
        assert(input.items[pos + (first.len() + k)].kind == (first + second)[first.len()
            + k].kind);
    }
}

/// The tokens of a table reference parse to it, where no identifier follows a reference
/// without an alias.
proof fn lemma_parse_table(input: TokensView, pos: int, t: TableReferenceView)
    requires
        reads(input, pos, table_lexemes(t)),
        t.alias is None ==> !input.ident_at(pos + 1),
    ensures
        TableReference::spec_parse(input, pos) == Ok::<(TableReferenceView, int), ParseError>(
            (t, pos + table_lexemes(t).len()),
        ),
{
    assert(input.items[pos + 0].text == t.table_name);
    match t.alias {
        Some(alias) => {
            assert(input.items[pos + 1].text == "AS"@);
            assert(input.items[pos + 2].text == alias);
            assert(input.word_at(pos + 1, "AS"@));
        },
        None => {},
    }
}

/// The tokens of a list of table references that runs to the end of the input parse to it.
proof fn lemma_parse_list(input: TokensView, pos: int, tables: Seq<TableReferenceView>)
    requires
        tables.len() > 0,
        reads(input, pos, list_lexemes(tables)),
        pos + list_lexemes(tables).len() == input.items.len(),
    ensures
        spec_items::<TableReference>(input, pos) == Ok::<
            (Seq<TableReferenceView>, int),
            ParseError,
        >((tables, input.items.len() as int)),
    decreases tables.len(),
{
    let first = table_lexemes(tables[0]);
    let rest = tables.drop_first();
    lemma_reads_split(input, pos, first, rest_lexemes(rest));
    let next = pos + first.len();
    assert(input.items[pos + 0].kind == TokenKind::Ident);
    assert(!input.list_end_at(pos));
    if rest.len() == 0 {
        lemma_parse_table(input, pos, tables[0]);
        assert(tables =~= seq![tables[0]]);
    } else {
        let tail = table_lexemes(rest[0]) + rest_lexemes(rest.drop_first());
        assert(rest_lexemes(rest) =~= seq![mark(',')] + tail);
        lemma_reads_split(input, next, seq![mark(',')], tail);
        assert(input.items[next + 0].kind == TokenKind::Punct);
        assert(input.items[next + 0].text == seq![',']);
        assert(seq![','][0] == ',');
        assert(!input.list_end_at(next));
        assert(input.punct_at(next, ','));
        lemma_parse_table(input, pos, tables[0]);
        lemma_parse_list(input, next + 1, rest);
        assert(seq![tables[0]] + rest =~= tables);
    }
}

/// The tokens of a `FROM` clause that may be absent, at the end of the input, parse to it,
/// and no `INTO` clause is read before it.
proof fn lemma_parse_from(input: TokensView, pos: int, from: Option<FromClauseView>)
    requires
        from matches Some(clause) ==> clause.table_references.len() > 0,
        reads(input, pos, from_lexemes(from)),
        pos + from_lexemes(from).len() == input.items.len(),
    ensures
        spec_optional::<IntoClause>(input, pos) == (None::<IntoClauseView>, pos),
        spec_optional::<FromClause>(input, pos) == (from, input.items.len() as int),
{
    lemma_literals();
    match from {
        Some(clause) => {
            lemma_reads_split(
                input,
                pos,
                seq![word("FROM"@)],
                list_lexemes(clause.table_references),
            );
            assert(input.items[pos + 0].text == "FROM"@);
            lemma_parse_list(input, pos + 1, clause.table_references);
        },
        None => {},
    }
}

/// The tokens of a `SELECT` clause parse to it, where a list of columns ends the input.
proof fn lemma_parse_select(input: TokensView, select: SelectClauseView, tail: Seq<Lexeme>)
    requires
        reads(
            input,
            0,
            seq![word("SELECT"@)] + quantifier_lexemes(select.all_or_distinct)
                + select_list_lexemes(select.star_or_sublists) + tail,
        ),
        input.items.len() == 1 + quantifier_lexemes(select.all_or_distinct).len()
            + select_list_lexemes(select.star_or_sublists).len() + tail.len(),
        select.star_or_sublists matches SelectListView::Sublists(items) ==> items.len() == 0
            && tail.len() == 0,
    ensures
        SelectClause::spec_parse(input, 0) == Ok::<(SelectClauseView, int), ParseError>(
            (select, input.items.len() - tail.len()),
        ),
{
    lemma_literals();
    let quantifier = quantifier_lexemes(select.all_or_distinct);
    let list = select_list_lexemes(select.star_or_sublists);
    lemma_reads_split(input, 0, seq![word("SELECT"@)] + quantifier + list, tail);
    lemma_reads_split(input, 0, seq![word("SELECT"@)] + quantifier, list);
    lemma_reads_split(input, 0, seq![word("SELECT"@)], quantifier);
    assert(input.items[0int + 0].text == "SELECT"@);
    let at: int = 1 + quantifier.len() as int;
    assert(spec_optional::<Quantifier>(input, 1) == (select.all_or_distinct, at)) by {
        match select.all_or_distinct {
            Some(_) => {
                assert(input.items[1int + 0].kind == TokenKind::Ident);
            },
            None => {
                match select.star_or_sublists {
                    SelectListView::Star => {
                        assert(input.items[1int + 0].kind == TokenKind::Punct);
                    },
                    SelectListView::Sublists(_) => {},
                }
            },
        }
    }
    match select.star_or_sublists {
        SelectListView::Star => {
            assert(input.items[at + 0].kind == TokenKind::Punct);
            assert(input.items[at + 0].text == seq!['*']);
        },
        SelectListView::Sublists(items) => {
            assert(items =~= Seq::empty());
            assert(input.list_end_at(at));
        },
    }
}

/// The tokens of a query in printable form parse to it.
pub proof fn lemma_parse_query(input: TokensView, q: QueryView)
    requires
        q.printable_form(),
        shape(input.items) == query_lexemes(q),
    ensures
        spec_complete::<Query>(input, 0) == Ok::<QueryView, ParseError>(q),
{
    let tokens = query_lexemes(q);
    assert(reads(input, 0, tokens)) by {
        assert forall|k: int| 0 <= k < tokens.len() implies (#[trigger] input.items[0int + k]).kind
            == tokens[k].kind && input.items[0int + k].text == tokens[k].text by {
            assert(shape(input.items)[k] == tokens[k]);
        }
    }
    let from = from_lexemes(q.from_clause);
    lemma_parse_select(input, q.select_clause, from);
    let at = input.items.len() - from.len();
    lemma_reads_split(
        input,
        0,
        seq![word("SELECT"@)] + quantifier_lexemes(q.select_clause.all_or_distinct)
            + select_list_lexemes(q.select_clause.star_or_sublists),
        from,
    );
    lemma_parse_from(input, at, q.from_clause);
}

} // verus!
