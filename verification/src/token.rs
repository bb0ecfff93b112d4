//! The lexer: source text to a flat sequence of tokens.
//!
//! There are four kinds of token. An identifier is a maximal run of letters, digits and
//! underscores that does not start with a digit, where every character outside ASCII counts as a
//! letter; such a run that starts with a digit is a constant, and so is a character between
//! single quotes. A string literal is the text between
//! one double quote and the next that no backslash escapes; its text is taken as it is written.
//! After `r` and any number of `#`, a string literal is raw: it runs to the next double quote
//! that as many `#` follow, and a backslash escapes nothing in it. After `br` or `cr` such a
//! literal is a constant.
//! Every other ASCII punctuation character is a token of its own, brackets included.
//!
//! Blanks, tabs, line ends and form feeds separate tokens and are otherwise ignored. So are comments: from
//! `//` to the end of the line, and from `/*` to the `*/` that closes it, with comments inside
//! it closed first. Any other character is an error, and so is a string literal or a comment
//! that is not closed.

use crate::error::{Construct, Expected, ParseError, ParseErrorKind};
use crate::text::{
    chars_of, digit_start, ident_continue, ident_start, is_digit, is_ident_continue,
    is_ident_start, is_identifier, is_punct, is_space, punct, same_text, space, string_of,
};
use vstd::prelude::*;
use vstd::string::*;

verus! {

/// What a token is.
#[derive(Clone, Copy, Debug, PartialEq, Eq, Structural)]
pub enum TokenKind {
    /// A name.
    Ident,
    /// One punctuation character.
    Punct,
    /// A string literal.
    Literal,
    /// A literal that is no string: a number or a character, as it is written.
    Constant,
}

/// One token: its kind, its text (for a string literal, what stands between the quotes, as it
/// is written) and the position of its first character in the source, counted in characters.
#[derive(Clone, Debug, PartialEq, Eq)]
pub struct Token {
    pub kind: TokenKind,
    pub text: String,
    pub pos: usize,
}

/// A [`Token`] with its text as a sequence of characters.
pub struct TokenView {
    pub kind: TokenKind,
    pub text: Seq<char>,
    pub pos: usize,
}

impl View for Token {
    type V = TokenView;

    open spec fn view(&self) -> TokenView {
        TokenView { kind: self.kind, text: self.text@, pos: self.pos }
    }
}

/// A lexed source: its tokens, and the length of the text they came from, which is where a
/// parser reports a failure at the end of the input.
#[derive(Clone, Debug, PartialEq, Eq)]
pub struct Tokens {
    pub items: Vec<Token>,
    pub end: usize,
}

/// The views of the tokens of a [`Tokens`], in order, and the end of the source.
pub struct TokensView {
    pub items: Seq<TokenView>,
    pub end: usize,
}

impl View for Tokens {
    type V = TokensView;

    open spec fn view(&self) -> TokensView {
        TokensView { items: self.items@.map_values(|t: Token| t@), end: self.end }
    }
}

impl TokensView {
    /// Whether the token at `i` is the identifier `word`.
    pub open spec fn word_at(self, i: int, word: Seq<char>) -> bool {
        &&& 0 <= i < self.items.len()
        &&& self.items[i].kind == TokenKind::Ident
        &&& self.items[i].text == word
    }

    /// Whether the token at `i` is an identifier.
    pub open spec fn ident_at(self, i: int) -> bool {
        0 <= i < self.items.len() && self.items[i].kind == TokenKind::Ident
    }

    /// Whether the token at `i` is a string literal.
    pub open spec fn literal_at(self, i: int) -> bool {
        0 <= i < self.items.len() && self.items[i].kind == TokenKind::Literal
    }

    /// Whether the token at `i` is the punctuation character `c`.
    pub open spec fn punct_at(self, i: int, c: char) -> bool {
        &&& 0 <= i < self.items.len()
        &&& self.items[i].kind == TokenKind::Punct
        &&& self.items[i].text == seq![c]
    }

    /// Whether every identifier token holds an identifier, as every token that was lexed does.
    pub open spec fn lexical(self) -> bool {
        lexical(self.items)
    }

    /// The source position of the token at `i`, or the end of the source where there is none.
    pub open spec fn offset(self, i: int) -> usize {
        if 0 <= i < self.items.len() {
            self.items[i].pos
        } else {
            self.end
        }
    }

    /// The failure to find `expected` at token `i`.
    pub open spec fn fail(self, i: int, expected: Expected) -> ParseError {
        ParseError { pos: self.offset(i), kind: ParseErrorKind::Expected(expected) }
    }

    /// The failure on an unsupported construct at token `i`.
    pub open spec fn unsupported(self, i: int, construct: Construct) -> ParseError {
        ParseError { pos: self.offset(i), kind: ParseErrorKind::Unsupported(construct) }
    }
}

impl Tokens {
    /// The source position of the token at `pos`, or the end of the source where there is none.
    pub fn offset(&self, pos: usize) -> (r: usize)
        ensures
            r == self@.offset(pos as int),
    {
        if pos < self.items.len() {
            self.items[pos].pos
        } else {
            self.end
        }
    }

    /// The failure to find `expected` at token `pos`.
    pub fn fail(&self, pos: usize, expected: Expected) -> (e: ParseError)
        ensures
            e == self@.fail(pos as int, expected),
    {
        ParseError { pos: self.offset(pos), kind: ParseErrorKind::Expected(expected) }
    }

    /// The failure on an unsupported construct at token `pos`.
    pub fn unsupported(&self, pos: usize, construct: Construct) -> (e: ParseError)
        ensures
            e == self@.unsupported(pos as int, construct),
    {
        ParseError { pos: self.offset(pos), kind: ParseErrorKind::Unsupported(construct) }
    }

    /// Whether the token at `pos` is the identifier `word`.
    pub fn word_at(&self, pos: usize, word: &str) -> (r: bool)
        ensures
            r == self@.word_at(pos as int, word@),
    {
        pos < self.items.len() && self.items[pos].kind == TokenKind::Ident && same_text(
            &self.items[pos].text,
            word,
        )
    }

    /// Whether the token at `pos` is an identifier.
    pub fn ident_at(&self, pos: usize) -> (r: bool)
        ensures
            r == self@.ident_at(pos as int),
    {
        pos < self.items.len() && self.items[pos].kind == TokenKind::Ident
    }

    /// Whether the token at `pos` is a string literal.
    pub fn literal_at(&self, pos: usize) -> (r: bool)
        ensures
            r == self@.literal_at(pos as int),
    {
        pos < self.items.len() && self.items[pos].kind == TokenKind::Literal
    }

    /// Whether the token at `pos` is the punctuation character `c`.
    pub fn punct_at(&self, pos: usize, c: char) -> (r: bool)
        ensures
            r == self@.punct_at(pos as int, c),
    {
        if pos < self.items.len() && self.items[pos].kind == TokenKind::Punct {
            let text = self.items[pos].text.as_str();
            if text.unicode_len() == 1 {
                let found = text.get_char(0);
                assert(found == c ==> text@ =~= seq![c]);
                found == c
            } else {
                false
            }
        } else {
            false
        }
    }
}

/// How many identifier characters stand at `i` and directly after it.
pub open spec fn ident_run(s: Seq<char>, i: int) -> nat
    decreases s.len() - i,
{
    if 0 <= i < s.len() && is_ident_continue(s[i]) {
        1 + ident_run(s, i + 1)
    } else {
        0
    }
}

/// `count` more than what `rest` holds.
pub open spec fn and_then_some(count: nat, rest: Option<nat>) -> Option<nat> {
    match rest {
        Some(n) => Some(n + count),
        None => None,
    }
}

/// How many characters stand between `i` and the quote `quote` that closes a literal. A
/// backslash takes the character after it along, so a quote after a backslash closes nothing.
/// `None` if no quote closes the literal.
pub open spec fn quoted_run(s: Seq<char>, i: int, quote: char) -> Option<nat>
    decreases s.len() - i,
{
    if i < 0 || i >= s.len() {
        None
    } else if s[i] == quote {
        Some(0)
    } else if s[i] == '\\' && i + 1 < s.len() {
        and_then_some(2, quoted_run(s, i + 2, quote))
    } else {
        and_then_some(1, quoted_run(s, i + 1, quote))
    }
}

/// How many characters stand between the single quote at `i` and the one that closes a
/// character literal: one character, or a backslash and what it takes up to the closing quote.
/// `None` where the quote at `i` opens no character literal.
pub open spec fn character_run(s: Seq<char>, i: int) -> Option<nat> {
    if i + 1 < s.len() && s[i + 1] == '\\' {
        quoted_run(s, i + 1, '\'')
    } else if i + 2 < s.len() && s[i + 1] != '\'' && s[i + 2] == '\'' {
        Some(1)
    } else {
        None
    }
}

/// How many `#` stand at `i` and directly after it.
pub open spec fn hash_run(s: Seq<char>, i: int) -> nat
    decreases s.len() - i,
{
    if 0 <= i < s.len() && s[i] == '#' {
        1 + hash_run(s, i + 1)
    } else {
        0
    }
}

/// Whether the identifier `s[i..end]` is one after which a raw literal can start: `r`, `br` or
/// `cr`.
pub open spec fn raw_prefix(s: Seq<char>, i: int, end: int) -> bool {
    ||| end == i + 1 && s[i] == 'r'
    ||| end == i + 2 && (s[i] == 'b' || s[i] == 'c') && s[i + 1] == 'r'
}

/// How many `#` stand between `end` and the double quote that opens a raw literal; `None` where
/// none opens there.
pub open spec fn raw_open(s: Seq<char>, end: int) -> Option<nat> {
    let hashes = hash_run(s, end);
    if 0 <= end && end + hashes < s.len() && s[end + hashes] == '"' {
        Some(hashes)
    } else {
        None
    }
}

/// How many characters stand between `i` and the double quote that closes a raw literal: the
/// next one that at least `hashes` `#` follow. `None` if there is none.
pub open spec fn raw_run(s: Seq<char>, i: int, hashes: nat) -> Option<nat>
    decreases s.len() - i,
{
    if i < 0 || i >= s.len() {
        None
    } else if s[i] == '"' && hash_run(s, i + 1) >= hashes {
        Some(0)
    } else {
        and_then_some(1, raw_run(s, i + 1, hashes))
    }
}

/// The raw literal that the identifier `s[i..end]` opens, with `hashes` `#` before its quote,
/// and the position after it.
pub open spec fn raw_token(s: Seq<char>, i: int, end: int, hashes: nat) -> Result<
    (TokenView, int),
    ParseError,
> {
    let from = end + hashes + 1;
    match raw_run(s, from, hashes) {
        Some(n) => {
            let next = from + n + 1 + hashes;
            if s[i] == 'r' {
                Ok((token_of(s, TokenKind::Literal, i, from, from + n), next))
            } else {
                Ok((token_of(s, TokenKind::Constant, i, i, next), next))
            }
        },
        None => Err(lex_error(i, Expected::ClosingQuote)),
    }
}

/// The raw literal that the identifier `s[i..end]` opens, if it opens one.
pub open spec fn raw_at(s: Seq<char>, i: int, end: int) -> Option<
    Result<(TokenView, int), ParseError>,
> {
    if raw_prefix(s, i, end) && raw_open(s, end) is Some {
        Some(raw_token(s, i, end, raw_open(s, end)->0))
    } else {
        None
    }
}

/// How many characters stand at `i` and after it on the same line.
pub open spec fn line_run(s: Seq<char>, i: int) -> nat
    decreases s.len() - i,
{
    if 0 <= i < s.len() && s[i] != '\n' {
        1 + line_run(s, i + 1)
    } else {
        0
    }
}

/// How many characters stand from `i` to the end of the `*/` that closes a comment, seen from
/// inside it, where `depth` comments are open. `None` if the text ends first.
pub open spec fn comment_run(s: Seq<char>, i: int, depth: nat) -> Option<nat>
    decreases s.len() - i,
{
    if i < 0 || i + 1 >= s.len() {
        None
    } else if s[i] == '*' && s[i + 1] == '/' {
        if depth <= 1 {
            Some(2)
        } else {
            and_then_some(2, comment_run(s, i + 2, (depth - 1) as nat))
        }
    } else if s[i] == '/' && s[i + 1] == '*' {
        and_then_some(2, comment_run(s, i + 2, depth + 1))
    } else {
        and_then_some(1, comment_run(s, i + 1, depth))
    }
}

/// Whether `//` stands at `i`.
pub open spec fn line_comment_at(s: Seq<char>, i: int) -> bool {
    0 <= i && i + 1 < s.len() && s[i] == '/' && s[i + 1] == '/'
}

/// Whether `/*` stands at `i`.
pub open spec fn block_comment_at(s: Seq<char>, i: int) -> bool {
    0 <= i && i + 1 < s.len() && s[i] == '/' && s[i + 1] == '*'
}

/// The failure to find `expected` at character `i`.
pub open spec fn lex_error(i: int, expected: Expected) -> ParseError {
    ParseError { pos: i as usize, kind: ParseErrorKind::Expected(expected) }
}

/// The token of `kind` whose text is `s[from..to]` and which starts at `i`.
pub open spec fn token_of(s: Seq<char>, kind: TokenKind, i: int, from: int, to: int)
    -> TokenView {
    TokenView { kind, text: s.subrange(from, to), pos: i as usize }
}

/// The token that starts at `i`, where neither white space nor a comment stands, and the
/// position after it.
pub open spec fn token_at(s: Seq<char>, i: int) -> Result<(TokenView, int), ParseError>
    recommends
        0 <= i < s.len(),
{
    if is_ident_start(s[i]) {
        let next = i + 1 + ident_run(s, i + 1);
        match raw_at(s, i, next) {
            Some(raw) => raw,
            None => Ok((token_of(s, TokenKind::Ident, i, i, next), next)),
        }
    } else if is_digit(s[i]) {
        let next = i + 1 + ident_run(s, i + 1);
        Ok((token_of(s, TokenKind::Constant, i, i, next), next))
    } else if s[i] == '"' {
        match quoted_run(s, i + 1, '"') {
            Some(n) => Ok((token_of(s, TokenKind::Literal, i, i + 1, i + 1 + n), i + 1 + n + 1)),
            None => Err(lex_error(i, Expected::ClosingQuote)),
        }
    } else if s[i] == '\'' && character_run(s, i) is Some {
        let next = i + 1 + character_run(s, i)->0 + 1;
        Ok((token_of(s, TokenKind::Constant, i, i, next), next))
    } else if is_punct(s[i]) {
        Ok((TokenView { kind: TokenKind::Punct, text: seq![s[i]], pos: i as usize }, i + 1))
    } else {
        Err(lex_error(i, Expected::Token))
    }
}

/// `first`, then what `rest` holds; the failure of `rest` if it is one.
pub open spec fn followed_by(first: Seq<TokenView>, rest: Result<Seq<TokenView>, ParseError>)
    -> Result<Seq<TokenView>, ParseError> {
    match rest {
        Ok(more) => Ok(first + more),
        Err(e) => Err(e),
    }
}

/// The tokens of `s` from position `i` on, or the first lexical error.
pub open spec fn lex_from(s: Seq<char>, i: int) -> Result<Seq<TokenView>, ParseError>
    decreases s.len() - i,
    via lex_from_terminates
{
    if i < 0 || i >= s.len() {
        Ok(Seq::empty())
    } else if is_space(s[i]) {
        lex_from(s, i + 1)
    } else if line_comment_at(s, i) {
        lex_from(s, i + 2 + line_run(s, i + 2))
    } else if block_comment_at(s, i) {
        match comment_run(s, i + 2, 1) {
            Some(n) => lex_from(s, i + 2 + n),
            None => Err(lex_error(i, Expected::CommentEnd)),
        }
    } else {
        match token_at(s, i) {
            Ok((t, next)) => followed_by(seq![t], lex_from(s, next)),
            Err(e) => Err(e),
        }
    }
}

#[via_fn]
proof fn lex_from_terminates(s: Seq<char>, i: int) {
    if 0 <= i < s.len() {
        lemma_token_at_advances(s, i);
        if i + 1 < s.len() {
            lemma_line_run_bound(s, i + 2);
            lemma_comment_run_bound(s, i + 2, 1);
        }
    }
}

/// The tokens of the text `s`, or the first lexical error.
pub open spec fn lex(s: Seq<char>) -> Result<TokensView, ParseError> {
    match lex_from(s, 0) {
        Ok(items) => Ok(TokensView { items, end: s.len() as usize }),
        Err(e) => Err(e),
    }
}

/// Whether every identifier token among `tokens` holds an identifier.
pub open spec fn lexical(tokens: Seq<TokenView>) -> bool {
    forall|i: int|
        0 <= i < tokens.len() && (#[trigger] tokens[i]).kind == TokenKind::Ident
            ==> is_identifier(tokens[i].text)
}

proof fn lemma_ident_run_chars(s: Seq<char>, i: int)
    requires
        0 <= i,
    ensures
        forall|k: int| i <= k < i + ident_run(s, i) ==> is_ident_continue(#[trigger] s[k]),
    decreases s.len() - i,
{
    if i < s.len() && is_ident_continue(s[i]) {
        lemma_ident_run_chars(s, i + 1);
    }
}

/// The lexer makes identifier tokens of identifiers only.
pub proof fn lemma_lexer_is_lexical(s: Seq<char>, i: int)
    requires
        0 <= i,
    ensures
        lex_from(s, i) matches Ok(tokens) ==> lexical(tokens),
    decreases s.len() - i,
{
    if i < s.len() {
        lemma_token_at_advances(s, i);
        if is_space(s[i]) {
            lemma_lexer_is_lexical(s, i + 1);
        } else if line_comment_at(s, i) {
            lemma_line_run_bound(s, i + 2);
            lemma_lexer_is_lexical(s, i + 2 + line_run(s, i + 2));
        } else if block_comment_at(s, i) {
            lemma_comment_run_bound(s, i + 2, 1);
            if let Some(n) = comment_run(s, i + 2, 1) {
                lemma_lexer_is_lexical(s, i + 2 + n);
            }
        } else {
            lemma_ident_run_chars(s, i + 1);
            if let Ok((here, next)) = token_at(s, i) {
                lemma_lexer_is_lexical(s, next);
                if let Ok(more) = lex_from(s, next) {
                    let tokens = seq![here] + more;
                    assert forall|k: int|
                        0 <= k < tokens.len() && (#[trigger] tokens[k]).kind
                            == TokenKind::Ident implies is_identifier(tokens[k].text) by {
                        if k > 0 {
                            assert(tokens[k] == more[k - 1]);
                        }
                    }
                }
            }
        }
    }
}

/// A run of identifier characters ends within the text.
pub proof fn lemma_ident_run_bound(s: Seq<char>, i: int)
    requires
        0 <= i <= s.len(),
    ensures
        i + ident_run(s, i) <= s.len(),
    decreases s.len() - i,
{
    if i < s.len() && is_ident_continue(s[i]) {
        lemma_ident_run_bound(s, i + 1);
    }
}

/// The quote that a literal runs up to stands within the text.
pub proof fn lemma_quoted_run_bound(s: Seq<char>, i: int, quote: char)
    requires
        0 <= i,
    ensures
        quoted_run(s, i, quote) matches Some(n) ==> i + n < s.len() && s[i + n] == quote,
    decreases s.len() - i,
{
    if i < s.len() && s[i] != quote {
        if s[i] == '\\' && i + 1 < s.len() {
            lemma_quoted_run_bound(s, i + 2, quote);
        } else {
            lemma_quoted_run_bound(s, i + 1, quote);
        }
    }
}

/// A run of `#` ends within the text.
pub proof fn lemma_hash_run_bound(s: Seq<char>, i: int)
    requires
        0 <= i <= s.len(),
    ensures
        i + hash_run(s, i) <= s.len(),
    decreases s.len() - i,
{
    if i < s.len() && s[i] == '#' {
        lemma_hash_run_bound(s, i + 1);
    }
}

/// The quote that a raw literal runs up to stands within the text, and so do the `#` after it.
pub proof fn lemma_raw_run_bound(s: Seq<char>, i: int, hashes: nat)
    requires
        0 <= i,
    ensures
        raw_run(s, i, hashes) matches Some(n) ==> i + n + 1 + hashes <= s.len() && s[i + n]
            == '"',
    decreases s.len() - i,
{
    if i < s.len() {
        if s[i] == '"' && hash_run(s, i + 1) >= hashes {
            lemma_hash_run_bound(s, i + 1);
        } else {
            lemma_raw_run_bound(s, i + 1, hashes);
        }
    }
}

/// A line ends within the text.
pub proof fn lemma_line_run_bound(s: Seq<char>, i: int)
    requires
        0 <= i <= s.len(),
    ensures
        i + line_run(s, i) <= s.len(),
    decreases s.len() - i,
{
    if i < s.len() && s[i] != '\n' {
        lemma_line_run_bound(s, i + 1);
    }
}

/// A comment that is closed is closed within the text.
pub proof fn lemma_comment_run_bound(s: Seq<char>, i: int, depth: nat)
    requires
        0 <= i,
    ensures
        comment_run(s, i, depth) matches Some(n) ==> 2 <= n && i + n <= s.len(),
    decreases s.len() - i,
{
    if i + 1 < s.len() {
        if s[i] == '*' && s[i + 1] == '/' {
            if depth > 1 {
                lemma_comment_run_bound(s, i + 2, (depth - 1) as nat);
            }
        } else if s[i] == '/' && s[i + 1] == '*' {
            lemma_comment_run_bound(s, i + 2, depth + 1);
        } else {
            lemma_comment_run_bound(s, i + 1, depth);
        }
    }
}

/// A token takes up at least one character, and none beyond the end of the text.
pub proof fn lemma_token_at_advances(s: Seq<char>, i: int)
    requires
        0 <= i < s.len(),
    ensures
        token_at(s, i) matches Ok(got) ==> i < got.1 <= s.len(),
{
    lemma_ident_run_bound(s, i + 1);
    lemma_quoted_run_bound(s, i + 1, '"');
    lemma_quoted_run_bound(s, i + 1, '\'');
    let end = i + 1 + ident_run(s, i + 1);
    lemma_hash_run_bound(s, end);
    lemma_raw_run_bound(s, end + hash_run(s, end) + 1, hash_run(s, end));
}

/// Scans the identifier characters from `i` on and returns the position after the last.
fn scan_ident(chars: &Vec<char>, i: usize) -> (j: usize)
    requires
        i <= chars.len(),
    ensures
        j == i + ident_run(chars@, i as int),
        j <= chars.len(),
{
    let mut j: usize = i;
    while j < chars.len() && ident_continue(chars[j])
        invariant
            i <= j <= chars.len(),
            ident_run(chars@, i as int) == (j - i) + ident_run(chars@, j as int),
        decreases chars.len() - j,
    {
        j += 1;
    }
    j
}

/// Looks for the quote that closes a literal from `i` on and returns its position.
fn scan_quote(chars: &Vec<char>, i: usize, quote: char) -> (r: Option<usize>)
    requires
        i <= chars.len(),
    ensures
        match quoted_run(chars@, i as int, quote) {
            Some(n) => r == Some((i + n) as usize) && i + n < chars.len(),
            None => r is None,
        },
{
    let mut j: usize = i;
    while j < chars.len() && chars[j] != quote
        invariant
            i <= j <= chars.len(),
            match quoted_run(chars@, j as int, quote) {
                Some(n) => quoted_run(chars@, i as int, quote) == Some((n + (j - i)) as nat),
                None => quoted_run(chars@, i as int, quote) is None,
            },
        decreases chars.len() - j,
    {
        if chars[j] == '\\' && j + 1 < chars.len() {
            j += 2;
        } else {
            j += 1;
        }
    }
    if j < chars.len() {
        Some(j)
    } else {
        None
    }
}

/// Returns the position after the `#` that stand at `i` and directly after it.
fn scan_hashes(chars: &Vec<char>, i: usize) -> (j: usize)
    requires
        i <= chars.len(),
    ensures
        j == i + hash_run(chars@, i as int),
        j <= chars.len(),
{
    let mut j: usize = i;
    while j < chars.len() && chars[j] == '#'
        invariant
            i <= j <= chars.len(),
            hash_run(chars@, i as int) == (j - i) + hash_run(chars@, j as int),
        decreases chars.len() - j,
    {
        j += 1;
    }
    j
}

/// Whether at least `hashes` `#` stand at `i` and directly after it.
fn hashes_at(chars: &Vec<char>, i: usize, hashes: usize) -> (r: bool)
    requires
        i <= chars.len(),
    ensures
        r == (hash_run(chars@, i as int) >= hashes),
{
    let mut k: usize = 0;
    while k < hashes
        invariant
            k <= hashes,
            i + k <= chars.len(),
            hash_run(chars@, i as int) == k + hash_run(chars@, i + k),
        decreases hashes - k,
    {
        if i + k < chars.len() && chars[i + k] == '#' {
            k += 1;
        } else {
            return false;
        }
    }
    true
}

/// Looks for the double quote that closes a raw literal from `i` on and returns its position.
fn scan_raw(chars: &Vec<char>, i: usize, hashes: usize) -> (r: Option<usize>)
    requires
        i <= chars.len(),
    ensures
        match raw_run(chars@, i as int, hashes as nat) {
            Some(n) => r == Some((i + n) as usize) && i + n + 1 + hashes <= chars.len(),
            None => r is None,
        },
{
    let mut j: usize = i;
    while j < chars.len()
        invariant
            i <= j <= chars.len(),
            match raw_run(chars@, j as int, hashes as nat) {
                Some(n) => raw_run(chars@, i as int, hashes as nat) == Some((n + (j - i)) as nat),
                None => raw_run(chars@, i as int, hashes as nat) is None,
            },
        decreases chars.len() - j,
    {
        if chars[j] == '"' && hashes_at(chars, j + 1, hashes) {
            proof {
                lemma_raw_run_bound(chars@, j as int, hashes as nat);
            }
            return Some(j);
        }
        j += 1;
    }
    None
}

/// Reads the raw literal that the identifier `chars[i..end]` opens, if it opens one.
fn read_raw(chars: &Vec<char>, i: usize, end: usize) -> (r: Option<
    Result<(Token, usize), ParseError>,
>)
    requires
        i < end <= chars.len(),
        end == i + 1 + ident_run(chars@, i + 1),
    ensures
        match raw_at(chars@, i as int, end as int) {
            Some(Ok((t, next))) => r matches Some(Ok(got)) && got.0@ == t && got.1 == next && i
                < next <= chars.len(),
            Some(Err(e)) => r == Some(Err::<(Token, usize), ParseError>(e)),
            None => r is None,
        },
{
    let prefix = (end - i == 1 && chars[i] == 'r') || (end - i == 2 && (chars[i] == 'b'
        || chars[i] == 'c') && chars[i + 1] == 'r');
    if !prefix {
        return None;
    }
    let quote = scan_hashes(chars, end);
    if quote >= chars.len() || chars[quote] != '"' {
        return None;
    }
    let hashes = quote - end;
    match scan_raw(chars, quote + 1, hashes) {
        Some(close) => {
            let next = close + 1 + hashes;
            if chars[i] == 'r' {
                Some(
                    Ok(
                        (
                            Token {
                                kind: TokenKind::Literal,
                                text: string_of(chars, quote + 1, close),
                                pos: i,
                            },
                            next,
                        ),
                    ),
                )
            } else {
                Some(
                    Ok(
                        (
                            Token {
                                kind: TokenKind::Constant,
                                text: string_of(chars, i, next),
                                pos: i,
                            },
                            next,
                        ),
                    ),
                )
            }
        },
        None => Some(
            Err(ParseError { pos: i, kind: ParseErrorKind::Expected(Expected::ClosingQuote) }),
        ),
    }
}

/// Looks for the quote that closes the character literal opened at `i` and returns its position.
fn scan_character(chars: &Vec<char>, i: usize) -> (r: Option<usize>)
    requires
        i < chars.len(),
    ensures
        match character_run(chars@, i as int) {
            Some(n) => r == Some((i + 1 + n) as usize) && i + 1 + n < chars.len(),
            None => r is None,
        },
{
    if i + 1 < chars.len() && chars[i + 1] == '\\' {
        scan_quote(chars, i + 1, '\'')
    } else if i + 1 < chars.len() && i + 2 < chars.len() && chars[i + 1] != '\'' && chars[i + 2]
        == '\'' {
        Some(i + 2)
    } else {
        None
    }
}

/// Returns the position of the end of the line on which `i` stands.
fn scan_line(chars: &Vec<char>, i: usize) -> (j: usize)
    requires
        i <= chars.len(),
    ensures
        j == i + line_run(chars@, i as int),
        j <= chars.len(),
{
    let mut j: usize = i;
    while j < chars.len() && chars[j] != '\n'
        invariant
            i <= j <= chars.len(),
            line_run(chars@, i as int) == (j - i) + line_run(chars@, j as int),
        decreases chars.len() - j,
    {
        j += 1;
    }
    j
}

/// Looks for the end of the comment inside which `i` stands and returns the position after it.
fn scan_comment(chars: &Vec<char>, i: usize) -> (r: Option<usize>)
    requires
        i <= chars.len(),
    ensures
        match comment_run(chars@, i as int, 1) {
            Some(n) => r == Some((i + n) as usize) && i < i + n <= chars.len(),
            None => r is None,
        },
{
    let mut j: usize = i;
    let mut depth: usize = 1;
    while j < chars.len() && j + 1 < chars.len()
        invariant
            i <= j <= chars.len(),
            1 <= depth <= 1 + (j - i),
            match comment_run(chars@, j as int, depth as nat) {
                Some(n) => comment_run(chars@, i as int, 1) == Some((n + (j - i)) as nat),
                None => comment_run(chars@, i as int, 1) is None,
            },
        decreases chars.len() - j,
    {
        proof {
            lemma_comment_run_bound(chars@, j as int, depth as nat);
        }
        if chars[j] == '*' && chars[j + 1] == '/' {
            if depth <= 1 {
                return Some(j + 2);
            }
            depth -= 1;
            j += 2;
        } else if chars[j] == '/' && chars[j + 1] == '*' {
            depth += 1;
            j += 2;
        } else {
            j += 1;
        }
    }
    None
}

/// Reads the token that starts at `i`.
fn read_token(chars: &Vec<char>, i: usize) -> (r: Result<(Token, usize), ParseError>)
    requires
        i < chars.len(),
    ensures
        match token_at(chars@, i as int) {
            Ok((t, next)) => r matches Ok(got) && got.0@ == t && got.1 == next && i < next
                <= chars.len(),
            Err(e) => r == Err::<(Token, usize), ParseError>(e),
        },
{
    let c = chars[i];
    if ident_start(c) {
        let next = scan_ident(chars, i + 1);
        match read_raw(chars, i, next) {
            Some(read) => read,
            None => Ok(
                (Token { kind: TokenKind::Ident, text: string_of(chars, i, next), pos: i }, next),
            ),
        }
    } else if digit_start(c) {
        let next = scan_ident(chars, i + 1);
        Ok((Token { kind: TokenKind::Constant, text: string_of(chars, i, next), pos: i }, next))
    } else if c == '"' {
        match scan_quote(chars, i + 1, '"') {
            Some(close) => Ok(
                (
                    Token { kind: TokenKind::Literal, text: string_of(chars, i + 1, close), pos: i },
                    close + 1,
                ),
            ),
            None => Err(ParseError { pos: i, kind: ParseErrorKind::Expected(Expected::ClosingQuote) }),
        }
    } else {
        let close = if c == '\'' {
            scan_character(chars, i)
        } else {
            None
        };
        match close {
            Some(close) => Ok(
                (
                    Token {
                        kind: TokenKind::Constant,
                        text: string_of(chars, i, close + 1),
                        pos: i,
                    },
                    close + 1,
                ),
            ),
            None => if punct(c) {
                let text = string_of(chars, i, i + 1);
                assert(text@ =~= seq![c]);
                Ok((Token { kind: TokenKind::Punct, text, pos: i }, i + 1))
            } else {
                Err(ParseError { pos: i, kind: ParseErrorKind::Expected(Expected::Token) })
            },
        }
    }
}

/// Splits `text` into its tokens.
///
/// Returns the tokens in source order, each with the position of its first character, or the
/// first lexical error: a character that starts no token, a string literal that is not closed,
/// or a comment that is not closed.
pub fn tokenize(text: &str) -> (r: Result<Tokens, ParseError>)
    ensures
        match lex(text@) {
            Ok(tokens) => r matches Ok(got) && got@ == tokens && got@.lexical(),
            Err(e) => r == Err::<Tokens, ParseError>(e),
        },
{
    proof {
        lemma_lexer_is_lexical(text@, 0);
    }
    let chars = chars_of(text);
    let ghost s = chars@;
    let mut items: Vec<Token> = Vec::new();
    let mut i: usize = 0;
    while i < chars.len()
        invariant
            s == chars@,
            s == text@,
            i <= chars.len(),
            lex_from(s, 0) == followed_by(items@.map_values(|t: Token| t@), lex_from(s, i as int)),
        decreases chars.len() - i,
    {
        let c = chars[i];
        if space(c) {
            i += 1;
        } else if c == '/' && i + 1 < chars.len() && chars[i + 1] == '/' {
            i = scan_line(&chars, i + 2);
        } else if c == '/' && i + 1 < chars.len() && chars[i + 1] == '*' {
            match scan_comment(&chars, i + 2) {
                Some(next) => {
                    i = next;
                },
                None => {
                    return Err(
                        ParseError { pos: i, kind: ParseErrorKind::Expected(Expected::CommentEnd) },
                    );
                },
            }
        } else {
            match read_token(&chars, i) {
                Ok((token, next)) => {
                    proof {
                        let before = items@.map_values(|t: Token| t@);
                        let after = items@.push(token).map_values(|t: Token| t@);
                        assert(after =~= before + seq![token@]);
                        match lex_from(s, next as int) {
                            Ok(more) => {
                                assert(before + (seq![token@] + more) =~= after + more);
                            },
                            Err(_) => {},
                        }
                    }
                    items.push(token);
                    i = next;
                },
                Err(e) => {
                    return Err(e);
                },
            }
        }
    }
    proof {
        assert(items@.map_values(|t: Token| t@) + Seq::<TokenView>::empty()
            =~= items@.map_values(|t: Token| t@));
    }
    Ok(Tokens { items, end: chars.len() })
}

} // verus!
