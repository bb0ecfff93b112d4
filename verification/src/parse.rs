//! The building blocks of both parsers.
//!
//! A parser reads tokens from a position and returns what it read together with the position
//! after it. It never changes anything, so trying an alternative and going back is free: the
//! caller keeps its own position, and adopts the returned one only on success. [`Either`] takes
//! the first of two alternatives that succeeds, [`optional`] turns a failure into an absence, and
//! [`punctuated`] reads a comma-separated list under a minimum-count policy.

use crate::error::{Expected, ParseError};
use crate::token::{Tokens, TokensView};
use vstd::prelude::*;
use vstd::string::*;

verus! {

/// The views of the elements of `s`, in order.
pub open spec fn views<T: View>(s: Seq<T>) -> Seq<T::V> {
    s.map_values(|t: T| t@)
}

/// The view of what `o` holds, if anything.
pub open spec fn view_opt<T: View>(o: Option<T>) -> Option<T::V> {
    match o {
        Some(t) => Some(t@),
        None => None,
    }
}

/// Whether the outcome `r` of a parser is the one that the grammar `prescribed`: the same value
/// and next position, or the same failure.
pub open spec fn parsed<T: View>(
    r: Result<(T, usize), ParseError>,
    prescribed: Result<(T::V, int), ParseError>,
) -> bool {
    match prescribed {
        Ok((v, next)) => r matches Ok(got) && got.0@ == v && got.1 == next,
        Err(e) => r == Err::<(T, usize), ParseError>(e),
    }
}

/// A piece of syntax that can be read from tokens.
pub trait Parse: View + Sized {
    /// What the grammar prescribes at token `pos`: the value read and the position after it, or
    /// the failure.
    spec fn spec_parse(input: TokensView, pos: int) -> Result<(Self::V, int), ParseError>;

    /// A successful parse consumes at least one token, and none beyond the end.
    proof fn lemma_advances(input: TokensView, pos: int)
        requires
            0 <= pos <= input.items.len(),
        ensures
            Self::spec_parse(input, pos) matches Ok(got) ==> pos < got.1 <= input.items.len(),
    ;

    /// Reads `Self` at token `pos`.
    fn parse(input: &Tokens, pos: usize) -> (r: Result<(Self, usize), ParseError>)
        requires
            pos <= input.items.len(),
        ensures
            parsed(r, Self::spec_parse(input@, pos as int)),
            r matches Ok(got) ==> pos < got.1 <= input.items.len(),
    ;
}

/// The position after the identifier `word`, which must stand at `pos`; else the failure to find
/// `expected`.
pub open spec fn spec_keyword(input: TokensView, pos: int, word: Seq<char>, expected: Expected)
    -> Result<int, ParseError> {
    if input.word_at(pos, word) {
        Ok(pos + 1)
    } else {
        Err(input.fail(pos, expected))
    }
}

/// The position after the punctuation character `c`, which must stand at `pos`.
pub open spec fn spec_punct(input: TokensView, pos: int, c: char) -> Result<int, ParseError> {
    if input.punct_at(pos, c) {
        Ok(pos + 1)
    } else {
        Err(input.fail(pos, Expected::Punct(c)))
    }
}

/// Whether `r` is the position, or the failure, that the grammar `prescribed`.
pub open spec fn stepped(r: Result<usize, ParseError>, prescribed: Result<int, ParseError>)
    -> bool {
    match prescribed {
        Ok(next) => r matches Ok(got) && got == next,
        Err(e) => r == Err::<usize, ParseError>(e),
    }
}

/// Steps over the identifier `word` at `pos`.
pub fn keyword(input: &Tokens, pos: usize, word: &str, expected: Expected) -> (r: Result<
    usize,
    ParseError,
>)
    requires
        pos <= input.items.len(),
    ensures
        stepped(r, spec_keyword(input@, pos as int, word@, expected)),
        r matches Ok(next) ==> pos < next <= input.items.len(),
{
    if input.word_at(pos, word) {
        Ok(pos + 1)
    } else {
        Err(input.fail(pos, expected))
    }
}

/// Steps over the punctuation character `c` at `pos`.
pub fn punct(input: &Tokens, pos: usize, c: char) -> (r: Result<usize, ParseError>)
    requires
        pos <= input.items.len(),
    ensures
        stepped(r, spec_punct(input@, pos as int, c)),
        r matches Ok(next) ==> pos < next <= input.items.len(),
{
    if input.punct_at(pos, c) {
        Ok(pos + 1)
    } else {
        Err(input.fail(pos, Expected::Punct(c)))
    }
}

/// A name: of a table, a column, a type or a record.
#[derive(Clone, Debug, PartialEq, Eq)]
pub struct Identifier {
    pub id: String,
}

impl View for Identifier {
    type V = Seq<char>;

    open spec fn view(&self) -> Seq<char> {
        self.id@
    }
}

/// Any identifier token; keywords are not set apart.
impl Parse for Identifier {
    open spec fn spec_parse(input: TokensView, pos: int) -> Result<(Seq<char>, int), ParseError> {
        if input.ident_at(pos) {
            Ok((input.items[pos].text, pos + 1))
        } else {
            Err(input.fail(pos, Expected::Identifier))
        }
    }

    proof fn lemma_advances(input: TokensView, pos: int) {
    }

    fn parse(input: &Tokens, pos: usize) -> (r: Result<(Self, usize), ParseError>) {
        if input.ident_at(pos) {
            Ok((Identifier { id: input.items[pos].text.clone() }, pos + 1))
        } else {
            Err(input.fail(pos, Expected::Identifier))
        }
    }
}

/// One of two alternatives.
#[derive(Clone, Debug, PartialEq, Eq)]
pub enum Either<A, B> {
    First(A),
    Second(B),
}

impl<A: View, B: View> View for Either<A, B> {
    type V = Either<A::V, B::V>;

    open spec fn view(&self) -> Either<A::V, B::V> {
        match self {
            Either::First(a) => Either::First(a@),
            Either::Second(b) => Either::Second(b@),
        }
    }
}

/// Ordered choice: `A` if it can be read, else `B` from the same position. Where neither can,
/// the failure is that of `B`.
impl<A: Parse, B: Parse> Parse for Either<A, B> {
    open spec fn spec_parse(input: TokensView, pos: int) -> Result<
        (Either<A::V, B::V>, int),
        ParseError,
    > {
        match A::spec_parse(input, pos) {
            Ok((a, next)) => Ok((Either::First(a), next)),
            Err(_) => match B::spec_parse(input, pos) {
                Ok((b, next)) => Ok((Either::Second(b), next)),
                Err(e) => Err(e),
            },
        }
    }

    proof fn lemma_advances(input: TokensView, pos: int) {
        A::lemma_advances(input, pos);
        B::lemma_advances(input, pos);
    }

    fn parse(input: &Tokens, pos: usize) -> (r: Result<(Self, usize), ParseError>) {
        match A::parse(input, pos) {
            Ok((a, next)) => Ok((Either::First(a), next)),
            Err(_) => match B::parse(input, pos) {
                Ok((b, next)) => Ok((Either::Second(b), next)),
                Err(e) => Err(e),
            },
        }
    }
}

/// Speculative parse: reads a `T` at `*pos` and commits, moving `*pos` past what was read; on
/// failure rolls back, so that `*pos` is where it was.
pub fn try_parse<T: Parse>(input: &Tokens, pos: &mut usize) -> (r: Result<T, ParseError>)
    requires
        *old(pos) <= input.items.len(),
    ensures
        match T::spec_parse(input@, *old(pos) as int) {
            Ok((v, next)) => r matches Ok(got) && got@ == v && *final(pos) == next,
            Err(e) => r == Err::<T, ParseError>(e) && *final(pos) == *old(pos),
        },
        *old(pos) <= *final(pos) <= input.items.len(),
{
    let (v, next) = T::parse(input, *pos)?;
    *pos = next;
    Ok(v)
}

/// `T` if it can be read at `pos`, else nothing, from the same position.
pub open spec fn spec_optional<T: Parse>(input: TokensView, pos: int) -> (Option<T::V>, int) {
    match T::spec_parse(input, pos) {
        Ok((v, next)) => (Some(v), next),
        Err(_) => (None, pos),
    }
}

/// Reads a `T` at `pos` if there is one; otherwise reads nothing and stays at `pos`.
pub fn optional<T: Parse>(input: &Tokens, pos: usize) -> (r: (Option<T>, usize))
    requires
        pos <= input.items.len(),
    ensures
        (view_opt(r.0), r.1 as int) == spec_optional::<T>(input@, pos as int),
        pos <= r.1 <= input.items.len(),
{
    let mut at = pos;
    match try_parse::<T>(input, &mut at) {
        Ok(v) => (Some(v), at),
        Err(_) => (None, at),
    }
}

/// How many items a list must hold.
#[derive(Clone, Copy, Debug, PartialEq, Eq, Structural)]
pub enum MinCount {
    NoneOrMany,
    OneOrMany,
}

impl TokensView {
    /// Whether a list that has got to token `pos` is over: the input ends there, or a closing
    /// parenthesis, bracket or brace stands there.
    pub open spec fn list_end_at(self, pos: int) -> bool {
        ||| pos >= self.items.len()
        ||| self.punct_at(pos, ')')
        ||| self.punct_at(pos, ']')
        ||| self.punct_at(pos, '}')
    }
}

impl Tokens {
    /// Whether a list that has got to token `pos` is over.
    pub fn list_end_at(&self, pos: usize) -> (r: bool)
        ensures
            r == self@.list_end_at(pos as int),
    {
        pos >= self.items.len() || self.punct_at(pos, ')') || self.punct_at(pos, ']')
            || self.punct_at(pos, '}')
    }
}

/// `first`, then the items of `rest`; the failure of `rest` if it is one.
pub open spec fn items_then<V>(first: Seq<V>, rest: Result<(Seq<V>, int), ParseError>) -> Result<
    (Seq<V>, int),
    ParseError,
> {
    match rest {
        Ok((more, end)) => Ok((first + more, end)),
        Err(e) => Err(e),
    }
}

/// The items of a comma-separated list that starts at `pos`, and the position where it ends.
///
/// The list goes on to the end of the input or to a closing delimiter. A comma after the last
/// item is accepted. An item that cannot be read, or anything but a comma after an item, is a
/// failure.
pub open spec fn spec_items<T: Parse>(input: TokensView, pos: int) -> Result<
    (Seq<T::V>, int),
    ParseError,
>
    decreases input.items.len() - pos,
    when 0 <= pos <= input.items.len()
    via spec_items_terminates::<T>
{
    if input.list_end_at(pos) {
        Ok((Seq::empty(), pos))
    } else {
        match T::spec_parse(input, pos) {
            Err(e) => Err(e),
            Ok((v, next)) => if input.list_end_at(next) {
                Ok((seq![v], next))
            } else if input.punct_at(next, ',') {
                items_then(seq![v], spec_items::<T>(input, next + 1))
            } else {
                Err(input.fail(next, Expected::Punct(',')))
            },
        }
    }
}

#[via_fn]
proof fn spec_items_terminates<T: Parse>(input: TokensView, pos: int) {
    T::lemma_advances(input, pos);
}

/// A comma-separated list at `pos` that holds at least `min` items.
pub open spec fn spec_punctuated<T: Parse>(input: TokensView, pos: int, min: MinCount) -> Result<
    (Seq<T::V>, int),
    ParseError,
> {
    match spec_items::<T>(input, pos) {
        Ok((items, end)) => if min == MinCount::OneOrMany && items.len() == 0 {
            Err(input.fail(end, Expected::Item))
        } else {
            Ok((items, end))
        },
        Err(e) => Err(e),
    }
}

/// A list ends within the input, at or after the position where it starts.
pub proof fn lemma_items_end<T: Parse>(input: TokensView, pos: int)
    requires
        0 <= pos <= input.items.len(),
    ensures
        spec_items::<T>(input, pos) matches Ok(got) ==> pos <= got.1 <= input.items.len()
            && input.list_end_at(got.1) && (got.0.len() > 0 ==> pos < got.1),
    decreases input.items.len() - pos,
{
    if !input.list_end_at(pos) {
        T::lemma_advances(input, pos);
        if let Ok((v, next)) = T::spec_parse(input, pos) {
            if !input.list_end_at(next) && input.punct_at(next, ',') {
                lemma_items_end::<T>(input, next + 1);
            }
        }
    }
}

/// What holds of every `T` that can be read holds of every item of a list of `T`.
pub proof fn lemma_items_satisfy<T: Parse>(
    input: TokensView,
    pos: int,
    holds: spec_fn(T::V) -> bool,
)
    requires
        0 <= pos <= input.items.len(),
        forall|at: int|
            0 <= at <= input.items.len() && (#[trigger] T::spec_parse(input, at)) is Ok ==> holds(
                T::spec_parse(input, at)->Ok_0.0,
            ),
    ensures
        spec_items::<T>(input, pos) matches Ok(got) ==> forall|i: int|
            0 <= i < got.0.len() ==> holds(#[trigger] got.0[i]),
    decreases input.items.len() - pos,
{
    if !input.list_end_at(pos) {
        T::lemma_advances(input, pos);
        if let Ok((first, next)) = T::spec_parse(input, pos) {
            if !input.list_end_at(next) && input.punct_at(next, ',') {
                lemma_items_satisfy::<T>(input, next + 1, holds);
                if let Ok((more, end)) = spec_items::<T>(input, next + 1) {
                    let items = seq![first] + more;
                    assert forall|i: int| 0 <= i < items.len() implies holds(
                        #[trigger] items[i],
                    ) by {
                        if i > 0 {
                            assert(items[i] == more[i - 1]);
                        }
                    }
                }
            }
        }
    }
}

/// Reads the items of a comma-separated list of `T` at `pos`.
fn items<T: Parse>(input: &Tokens, pos: usize) -> (r: Result<(Vec<T>, usize), ParseError>)
    requires
        pos <= input.items.len(),
    ensures
        match spec_items::<T>(input@, pos as int) {
            Ok((items, end)) => r matches Ok(got) && views(got.0@) == items && got.1 == end,
            Err(e) => r == Err::<(Vec<T>, usize), ParseError>(e),
        },
        r matches Ok(got) ==> pos <= got.1 <= input.items.len(),
{
    let mut out: Vec<T> = Vec::new();
    let mut at: usize = pos;
    proof {
        assert(views(out@) =~= Seq::<T::V>::empty());
        lemma_items_prepend_empty::<T::V>(spec_items::<T>(input@, pos as int));
    }
    loop
        invariant
            pos <= at <= input.items.len(),
            spec_items::<T>(input@, pos as int) == items_then(
                views(out@),
                spec_items::<T>(input@, at as int),
            ),
        decreases input.items.len() - at,
    {
        if input.list_end_at(at) {
            proof {
                assert(views(out@) + Seq::<T::V>::empty() =~= views(out@));
            }
            return Ok((out, at));
        }
        match T::parse(input, at) {
            Err(e) => {
                return Err(e);
            },
            Ok((v, next)) => {
                proof {
                    assert(views(out@.push(v)) =~= views(out@) + seq![v@]);
                    if !input@.list_end_at(next as int) && input@.punct_at(next as int, ',') {
                        match spec_items::<T>(input@, next + 1) {
                            Ok((more, end)) => {
                                assert(views(out@) + (seq![v@] + more) =~= (views(out@)
                                    + seq![v@]) + more);
                            },
                            Err(_) => {},
                        }
                    }
                }
                out.push(v);
                if input.list_end_at(next) {
                    return Ok((out, next));
                } else if input.punct_at(next, ',') {
                    at = next + 1;
                } else {
                    return Err(input.fail(next, Expected::Punct(',')));
                }
            },
        }
    }
}

/// Reads a comma-separated list of `T` at `pos`, which must hold at least `min` items.
pub fn punctuated<T: Parse>(input: &Tokens, pos: usize, min: MinCount) -> (r: Result<
    (Vec<T>, usize),
    ParseError,
>)
    requires
        pos <= input.items.len(),
    ensures
        match spec_punctuated::<T>(input@, pos as int, min) {
            Ok((items, end)) => r matches Ok(got) && views(got.0@) == items && got.1 == end,
            Err(e) => r == Err::<(Vec<T>, usize), ParseError>(e),
        },
        r matches Ok(got) ==> pos <= got.1 <= input.items.len(),
{
    match items::<T>(input, pos) {
        Ok((out, end)) => {
            if out.len() == 0 {
                match min {
                    MinCount::OneOrMany => Err(input.fail(end, Expected::Item)),
                    MinCount::NoneOrMany => Ok((out, end)),
                }
            } else {
                Ok((out, end))
            }
        },
        Err(e) => Err(e),
    }
}

proof fn lemma_items_prepend_empty<V>(rest: Result<(Seq<V>, int), ParseError>)
    ensures
        items_then(Seq::<V>::empty(), rest) == rest,
{
    match rest {
        Ok((more, end)) => {
            assert(Seq::<V>::empty() + more =~= more);
        },
        Err(_) => {},
    }
}

} // verus!
