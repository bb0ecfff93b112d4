//! Characters and strings: the character classes of the lexer and the few string operations the
//! other modules are built from.

use vstd::prelude::*;
use vstd::string::*;

verus! {

/// What an identifier starts with: a letter or an underscore. Every character outside ASCII
/// counts as a letter.
pub open spec fn is_ident_start(c: char) -> bool {
    ('a' <= c && c <= 'z') || ('A' <= c && c <= 'Z') || c == '_' || c > '\u{7f}'
}

/// A decimal digit: what a number starts with.
pub open spec fn is_digit(c: char) -> bool {
    '0' <= c && c <= '9'
}

/// What an identifier goes on with: a letter, a digit or an underscore.
pub open spec fn is_ident_continue(c: char) -> bool {
    is_ident_start(c) || is_digit(c)
}

/// Blank, tab, line feed, carriage return, vertical tab or form feed.
pub open spec fn is_space(c: char) -> bool {
    c == ' ' || c == '\t' || c == '\n' || c == '\r' || c == '\u{b}' || c == '\u{c}'
}

/// An ASCII punctuation character other than the double quote and the underscore.
pub open spec fn is_punct(c: char) -> bool {
    &&& ('!' <= c && c <= '/') || (':' <= c && c <= '@') || ('[' <= c && c <= '`') || ('{' <= c
        && c <= '~')
    &&& c != '"'
    &&& c != '_'
}

/// A non-empty run of letters, digits and underscores that does not start with a digit.
pub open spec fn is_identifier(s: Seq<char>) -> bool {
    &&& s.len() > 0
    &&& is_ident_start(s[0])
    &&& forall|i: int| 0 <= i < s.len() ==> is_ident_continue(#[trigger] s[i])
}

/// `n` blanks.
pub open spec fn spaces(n: nat) -> Seq<char> {
    Seq::new(n, |i: int| ' ')
}

/// Whether an identifier can start with `c`.
pub fn ident_start(c: char) -> (r: bool)
    ensures
        r == is_ident_start(c),
{
    (c >= 'a' && c <= 'z') || (c >= 'A' && c <= 'Z') || c == '_' || c > '\u{7f}'
}

/// Whether a number can start with `c`.
pub fn digit_start(c: char) -> (r: bool)
    ensures
        r == is_digit(c),
{
    c >= '0' && c <= '9'
}

/// Whether an identifier can go on with `c`.
pub fn ident_continue(c: char) -> (r: bool)
    ensures
        r == is_ident_continue(c),
{
    ident_start(c) || digit_start(c)
}

/// Whether `c` is white space.
pub fn space(c: char) -> (r: bool)
    ensures
        r == is_space(c),
{
    c == ' ' || c == '\t' || c == '\n' || c == '\r' || c == '\u{b}' || c == '\u{c}'
}

/// Whether `c` is a punctuation character that makes a token.
pub fn punct(c: char) -> (r: bool)
    ensures
        r == is_punct(c),
{
    ((c >= '!' && c <= '/') || (c >= ':' && c <= '@') || (c >= '[' && c <= '`') || (c >= '{' && c
        <= '~')) && c != '"' && c != '_'
}

/// Appends one character with `String::push`: the text grows by exactly that character.
#[verifier::external_body]
pub(crate) fn push_char(s: &mut String, c: char)
    ensures
        final(s)@ == old(s)@.push(c),
{
    s.push(c)
}

/// The characters of `s`, in order.
pub fn chars_of(s: &str) -> (v: Vec<char>)
    ensures
        v@ == s@,
{
    let mut v: Vec<char> = Vec::new();
    let chars = s.chars();
    for c in it: chars
        invariant
            v@ == it.seq().take(it.index@ as int),
    {
        v.push(c);
    }
    v
}

/// The text made of the characters `v[from..to]`.
pub fn string_of(v: &Vec<char>, from: usize, to: usize) -> (s: String)
    requires
        from <= to <= v.len(),
    ensures
        s@ == v@.subrange(from as int, to as int),
{
    let mut s = String::new();
    let mut i: usize = from;
    while i < to
        invariant
            from <= i <= to <= v.len(),
            s@ == v@.subrange(from as int, i as int),
        decreases to - i,
    {
        push_char(&mut s, v[i]);
        i += 1;
        assert(v@.subrange(from as int, i as int) =~= v@.subrange(from as int, i - 1).push(
            v[i - 1],
        ));
    }
    s
}

/// Whether `s` reads exactly `word`.
pub fn same_text(s: &String, word: &str) -> (r: bool)
    ensures
        r == (s@ == word@),
{
    let w = String::from_str(word);
    *s == w
}

/// Appends the indentation of `level`: four blanks per level.
pub fn indent(f: &mut String, level: usize)
    ensures
        final(f)@ == old(f)@ + spaces(4 * level as nat),
{
    let mut i: usize = 0;
    assert(f@ =~= old(f)@ + spaces(0));
    while i < level
        invariant
            i <= level,
            f@ == old(f)@ + spaces(4 * i as nat),
        decreases level - i,
    {
        f.append("    ");
        proof {
            reveal_strlit("    ");
            assert(f@ =~= old(f)@ + spaces(4 * (i + 1) as nat));
        }
        i += 1;
    }
}

/// The decimal digit for `d`.
pub open spec fn digit(d: nat) -> char
    recommends
        d < 10,
{
    (('0' as u8) + d) as u8 as char
}

/// `n` in decimal digits, without leading zeros.
pub open spec fn decimal(n: nat) -> Seq<char>
    decreases n,
{
    if n < 10 {
        seq![digit(n)]
    } else {
        decimal(n / 10) + seq![digit(n % 10)]
    }
}

/// The decimal digit for `d`.
fn digit_of(d: usize) -> (c: char)
    requires
        d < 10,
    ensures
        c == digit(d as nat),
{
    (('0' as u8) + (d as u8)) as char
}

/// Appends `n` in decimal digits to `f`.
pub fn push_decimal(f: &mut String, n: usize)
    ensures
        final(f)@ == old(f)@ + decimal(n as nat),
    decreases n,
{
    if n < 10 {
        push_char(f, digit_of(n));
        assert(f@ =~= old(f)@ + seq![digit(n as nat)]);
    } else {
        push_decimal(f, n / 10);
        push_char(f, digit_of(n % 10));
        assert(f@ =~= old(f)@ + (decimal((n / 10) as nat) + seq![digit((n % 10) as nat)]));
    }
}

} // verus!
