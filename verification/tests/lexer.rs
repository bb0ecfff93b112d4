use sql_mapper::error::{Expected, ParseError, ParseErrorKind};
use sql_mapper::text::{chars_of, indent, same_text, string_of};
use sql_mapper::token::{tokenize, Token, TokenKind};

fn token(kind: TokenKind, text: &str, pos: usize) -> Token {
    Token { kind, text: text.to_string(), pos }
}

fn expected(pos: usize, what: Expected) -> ParseError {
    ParseError { pos, kind: ParseErrorKind::Expected(what) }
}

#[test]
fn tokens_carry_kind_text_and_position() {
    let tokens = tokenize("id -> Nullable<Int4>,").unwrap();
    assert_eq!(
        tokens.items,
        vec![
            token(TokenKind::Ident, "id", 0),
            token(TokenKind::Punct, "-", 3),
            token(TokenKind::Punct, ">", 4),
            token(TokenKind::Ident, "Nullable", 6),
            token(TokenKind::Punct, "<", 14),
            token(TokenKind::Ident, "Int4", 15),
            token(TokenKind::Punct, ">", 19),
            token(TokenKind::Punct, ",", 20),
        ]
    );
    assert_eq!(tokens.end, 21);
}

#[test]
fn empty_text_has_no_tokens() {
    let tokens = tokenize("").unwrap();
    assert!(tokens.items.is_empty());
    assert_eq!(tokens.end, 0);
    let tokens = tokenize(" \t\r\n").unwrap();
    assert!(tokens.items.is_empty());
    assert_eq!(tokens.end, 4);
}

#[test]
fn literal_is_taken_without_its_quotes() {
    let tokens = tokenize("-- \"dir/schema file.rs\" Pupil").unwrap();
    assert_eq!(
        tokens.items,
        vec![
            token(TokenKind::Punct, "-", 0),
            token(TokenKind::Punct, "-", 1),
            token(TokenKind::Literal, "dir/schema file.rs", 3),
            token(TokenKind::Ident, "Pupil", 24),
        ]
    );
}

#[test]
fn backslash_takes_the_next_character_into_the_literal() {
    let tokens = tokenize("\"a\\\" b\" c").unwrap();
    assert_eq!(
        tokens.items,
        vec![token(TokenKind::Literal, "a\\\" b", 0), token(TokenKind::Ident, "c", 8)]
    );
    let tokens = tokenize("\"a\\\\\" b").unwrap();
    assert_eq!(
        tokens.items,
        vec![token(TokenKind::Literal, "a\\\\", 0), token(TokenKind::Ident, "b", 6)]
    );
    let tokens = tokenize("\"a\\b\"").unwrap();
    assert_eq!(tokens.items, vec![token(TokenKind::Literal, "a\\b", 0)]);
    assert_eq!(tokenize("\"a\\\" b").unwrap_err(), expected(0, Expected::ClosingQuote));
    assert_eq!(tokenize("x \"a\\").unwrap_err(), expected(2, Expected::ClosingQuote));
}

#[test]
fn raw_literal_runs_to_the_quote_that_its_hashes_follow() {
    let tokens = tokenize("r\"a\\\" b r#\"c \"d\" e\"# f r##\"g\"#h\"## i r\"\"").unwrap();
    assert_eq!(
        tokens.items,
        vec![
            token(TokenKind::Literal, "a\\", 0),
            token(TokenKind::Ident, "b", 6),
            token(TokenKind::Literal, "c \"d\" e", 8),
            token(TokenKind::Ident, "f", 21),
            token(TokenKind::Literal, "g\"#h", 23),
            token(TokenKind::Ident, "i", 35),
            token(TokenKind::Literal, "", 37),
        ]
    );
    assert_eq!(tokens.end, 40);
}

#[test]
fn raw_literal_of_bytes_is_a_constant() {
    let tokens = tokenize("br\"a\\\" cr#\"b\"c\"# b\"d\"").unwrap();
    assert_eq!(
        tokens.items,
        vec![
            token(TokenKind::Constant, "br\"a\\\"", 0),
            token(TokenKind::Constant, "cr#\"b\"c\"#", 7),
            token(TokenKind::Ident, "b", 17),
            token(TokenKind::Literal, "d", 18),
        ]
    );
}

#[test]
fn only_r_br_and_cr_open_a_raw_literal() {
    let tokens = tokenize("r#type rr\"a\" r #\"b\" xr\"c\" r").unwrap();
    assert_eq!(
        tokens.items,
        vec![
            token(TokenKind::Ident, "r", 0),
            token(TokenKind::Punct, "#", 1),
            token(TokenKind::Ident, "type", 2),
            token(TokenKind::Ident, "rr", 7),
            token(TokenKind::Literal, "a", 9),
            token(TokenKind::Ident, "r", 13),
            token(TokenKind::Punct, "#", 15),
            token(TokenKind::Literal, "b", 16),
            token(TokenKind::Ident, "xr", 20),
            token(TokenKind::Literal, "c", 22),
            token(TokenKind::Ident, "r", 26),
        ]
    );
}

#[test]
fn raw_literal_must_be_closed() {
    assert_eq!(tokenize("a r#\"bc\"").unwrap_err(), expected(2, Expected::ClosingQuote));
    assert_eq!(tokenize("r##\"bc\"# ").unwrap_err(), expected(0, Expected::ClosingQuote));
    assert_eq!(tokenize("br\"").unwrap_err(), expected(0, Expected::ClosingQuote));
}

#[test]
fn empty_literal_is_a_token() {
    let tokens = tokenize("\"\"").unwrap();
    assert_eq!(tokens.items, vec![token(TokenKind::Literal, "", 0)]);
}

#[test]
fn unterminated_literal_is_reported_at_its_start() {
    assert_eq!(tokenize("a \"bc").unwrap_err(), expected(2, Expected::ClosingQuote));
}

#[test]
fn run_of_letters_and_digits_is_an_identifier_or_a_constant_by_its_first_character() {
    let tokens = tokenize("_a1_ b2 1b 0x1F 1_000 12.5").unwrap();
    assert_eq!(
        tokens.items,
        vec![
            token(TokenKind::Ident, "_a1_", 0),
            token(TokenKind::Ident, "b2", 5),
            token(TokenKind::Constant, "1b", 8),
            token(TokenKind::Constant, "0x1F", 11),
            token(TokenKind::Constant, "1_000", 16),
            token(TokenKind::Constant, "12", 22),
            token(TokenKind::Punct, ".", 24),
            token(TokenKind::Constant, "5", 25),
        ]
    );
}

#[test]
fn character_between_single_quotes_is_a_constant() {
    let tokens = tokenize("'a' '\\n' '\\'' '(' '\\u{e9}' '\u{e9}'").unwrap();
    assert_eq!(
        tokens.items,
        vec![
            token(TokenKind::Constant, "'a'", 0),
            token(TokenKind::Constant, "'\\n'", 4),
            token(TokenKind::Constant, "'\\''", 9),
            token(TokenKind::Constant, "'('", 14),
            token(TokenKind::Constant, "'\\u{e9}'", 18),
            token(TokenKind::Constant, "'\u{e9}'", 27),
        ]
    );
}

#[test]
fn single_quote_that_opens_no_character_is_punctuation() {
    let tokens = tokenize("<'a, 'b> ''x 'ab'y '\\").unwrap();
    assert_eq!(
        tokens.items,
        vec![
            token(TokenKind::Punct, "<", 0),
            token(TokenKind::Punct, "'", 1),
            token(TokenKind::Ident, "a", 2),
            token(TokenKind::Punct, ",", 3),
            token(TokenKind::Punct, "'", 5),
            token(TokenKind::Ident, "b", 6),
            token(TokenKind::Punct, ">", 7),
            token(TokenKind::Punct, "'", 9),
            token(TokenKind::Punct, "'", 10),
            token(TokenKind::Ident, "x", 11),
            token(TokenKind::Punct, "'", 13),
            token(TokenKind::Ident, "ab", 14),
            token(TokenKind::Punct, "'", 16),
            token(TokenKind::Ident, "y", 17),
            token(TokenKind::Punct, "'", 19),
            token(TokenKind::Punct, "\\", 20),
        ]
    );
}

#[test]
fn line_comment_runs_to_the_end_of_its_line() {
    let tokens = tokenize("a // b \"c\n d /// e\n//\n/ f //").unwrap();
    assert_eq!(
        tokens.items,
        vec![
            token(TokenKind::Ident, "a", 0),
            token(TokenKind::Ident, "d", 11),
            token(TokenKind::Punct, "/", 22),
            token(TokenKind::Ident, "f", 24),
        ]
    );
    assert_eq!(tokens.end, 28);
    assert!(tokenize("// only a comment").unwrap().items.is_empty());
    assert!(tokenize("//").unwrap().items.is_empty());
}

#[test]
fn block_comment_runs_to_the_end_that_closes_it() {
    let tokens = tokenize("a /* b \n \"c */ d /**/ e /* f /* g */ h */ i */").unwrap();
    assert_eq!(
        tokens.items,
        vec![
            token(TokenKind::Ident, "a", 0),
            token(TokenKind::Ident, "d", 15),
            token(TokenKind::Ident, "e", 22),
            token(TokenKind::Ident, "i", 42),
            token(TokenKind::Punct, "*", 44),
            token(TokenKind::Punct, "/", 45),
        ]
    );
    assert!(tokenize("/* // */").unwrap().items.is_empty());
    assert!(tokenize("// /*\n").unwrap().items.is_empty());
}

#[test]
fn block_comment_must_be_closed() {
    assert_eq!(tokenize("a /* b").unwrap_err(), expected(2, Expected::CommentEnd));
    assert_eq!(tokenize("/*").unwrap_err(), expected(0, Expected::CommentEnd));
    assert_eq!(tokenize("/*/").unwrap_err(), expected(0, Expected::CommentEnd));
    assert_eq!(tokenize("/* /* */").unwrap_err(), expected(0, Expected::CommentEnd));
    assert_eq!(tokenize("x /* a */ /* b *").unwrap_err(), expected(10, Expected::CommentEnd));
}

#[test]
fn character_outside_ascii_counts_as_a_letter() {
    let tokens = tokenize("ab \u{e9}t\u{e9}1 \u{3b1}").unwrap();
    assert_eq!(
        tokens.items,
        vec![
            token(TokenKind::Ident, "ab", 0),
            token(TokenKind::Ident, "\u{e9}t\u{e9}1", 3),
            token(TokenKind::Ident, "\u{3b1}", 8),
        ]
    );
}

#[test]
fn control_character_starts_no_token() {
    assert_eq!(tokenize("ab \u{7}").unwrap_err(), expected(3, Expected::Token));
    assert_eq!(tokenize("\u{7f}").unwrap_err(), expected(0, Expected::Token));
    assert_eq!(tokenize("a\u{0}").unwrap_err(), expected(1, Expected::Token));
}

#[test]
fn positions_count_characters_not_bytes() {
    let tokens = tokenize("\"\u{e9}\u{e9}\" x").unwrap();
    assert_eq!(
        tokens.items,
        vec![token(TokenKind::Literal, "\u{e9}\u{e9}", 0), token(TokenKind::Ident, "x", 5)]
    );
    assert_eq!(tokens.end, 6);
}

#[test]
fn brackets_and_other_punctuation_are_single_tokens() {
    let tokens = tokenize("({[]})!;*,").unwrap();
    let texts: Vec<&str> = tokens.items.iter().map(|t| t.text.as_str()).collect();
    assert_eq!(texts, vec!["(", "{", "[", "]", "}", ")", "!", ";", "*", ","]);
    assert!(tokens.items.iter().all(|t| t.kind == TokenKind::Punct));
}

#[test]
fn token_queries_answer_out_of_range_with_false() {
    let tokens = tokenize("a , \"s\"").unwrap();
    assert!(tokens.ident_at(0));
    assert!(tokens.word_at(0, "a"));
    assert!(!tokens.word_at(0, "b"));
    assert!(tokens.punct_at(1, ','));
    assert!(!tokens.punct_at(1, ';'));
    assert!(tokens.literal_at(2));
    assert!(!tokens.ident_at(3));
    assert!(!tokens.punct_at(3, ','));
    assert!(!tokens.literal_at(3));
    assert_eq!(tokens.offset(1), 2);
    assert_eq!(tokens.offset(3), 7);
    assert_eq!(tokens.fail(3, Expected::End), expected(7, Expected::End));
}

#[test]
fn characters_and_strings_convert_both_ways() {
    let chars = chars_of("a\u{e9}b");
    assert_eq!(chars, vec!['a', '\u{e9}', 'b']);
    assert_eq!(string_of(&chars, 1, 3), "\u{e9}b");
    assert_eq!(string_of(&chars, 2, 2), "");
    assert!(same_text(&"FROM".to_string(), "FROM"));
    assert!(!same_text(&"from".to_string(), "FROM"));
}

#[test]
fn indent_is_four_blanks_per_level() {
    let mut text = String::from("x");
    indent(&mut text, 0);
    assert_eq!(text, "x");
    indent(&mut text, 2);
    assert_eq!(text, "x        ");
}
