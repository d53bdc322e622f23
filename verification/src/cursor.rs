//! Finding the token under the cursor and choosing how to complete it.

use vstd::prelude::*;
use vstd::slice::slice_subrange;
use crate::candidate::Span;

verus! {

/// What kind of token occupies a span, as the parser's classifier tells it.
#[derive(Clone, Copy, Debug, PartialEq, Eq, Structural)]
pub enum Shape {
    /// A reference to a variable.
    Variable,
    /// An argument whose completions a provider computes; the number is the
    /// declaration of the provider.
    Provider(usize),
    /// The name of an external command.
    External,
    /// The name of an internal command.
    InternalCall,
    /// A bare or quoted string.
    BareString,
    /// A file system path.
    Filepath,
    /// A glob pattern.
    GlobPattern,
    /// An argument of an external command.
    ExternalArg,
    /// Anything else; nothing completes it.
    Other,
}

/// A token of the parsed line: its span in the coordinates of the parser's
/// working set, and its shape.
#[derive(Clone, Copy, Debug, PartialEq, Eq, Structural)]
pub struct Token {
    pub span: Span,
    pub shape: Shape,
}

/// How a token is completed.
#[derive(Clone, Copy, Debug, PartialEq, Eq, Structural)]
pub enum Strategy {
    /// With the names of the visible variables.
    Variables,
    /// With what the provider of this declaration yields.
    Provider(usize),
    /// With file system paths, the names of known commands, and the
    /// executable files of the search path.
    PathsAndCommands,
    /// With file system paths.
    Paths,
    /// Not at all.
    Nothing,
}

/// The token under the cursor.
#[derive(Clone, Copy, Debug, PartialEq, Eq, Structural)]
pub struct Located {
    /// The token's span in the parser's coordinates.
    pub origin: Span,
    /// The same span counted from the start of the line.
    pub span: Span,
    /// How to complete the token.
    pub strategy: Strategy,
}

/// The sigil that opens the name of a variable, `$`.
pub open spec fn sigil() -> u8 {
    0x24u8
}

/// The cursor at `pos` is inside the span or at one of its two ends.
pub open spec fn touches(span: Span, pos: int) -> bool {
    span.start <= pos && pos <= span.end
}

/// The index of the first token that the cursor touches.
pub open spec fn first_touching(tokens: Seq<Token>, pos: int) -> Option<int>
    decreases tokens.len(),
{
    if tokens.len() == 0 {
        None
    } else {
        match first_touching(tokens.drop_last(), pos) {
            Some(i) => Some(i),
            None => if touches(tokens.last().span, pos) {
                Some(tokens.len() - 1)
            } else {
                None
            },
        }
    }
}

/// The span lies in a line of `len` bytes that starts at `offset`.
pub open spec fn within_line(span: Span, offset: usize, len: nat) -> bool {
    offset <= span.start && span.start <= span.end && span.end - offset <= len
}

/// The strategy for a token with the text `text` and the shape `shape`. A
/// text that starts with the sigil is a variable whatever its shape.
pub open spec fn strategy_for(text: Seq<u8>, shape: Shape) -> Strategy {
    if text.len() > 0 && text[0] == sigil() {
        Strategy::Variables
    } else {
        match shape {
            Shape::Provider(id) => Strategy::Provider(id),
            Shape::External | Shape::InternalCall | Shape::BareString => Strategy::PathsAndCommands,
            Shape::Filepath | Shape::GlobPattern | Shape::ExternalArg => Strategy::Paths,
            Shape::Variable | Shape::Other => Strategy::Nothing,
        }
    }
}

/// The token under the cursor of a line that starts at `offset` in the
/// parser's coordinates: the first token that the cursor touches, if it lies
/// in the line.
pub open spec fn located(line: Seq<u8>, cursor: usize, offset: usize, tokens: Seq<Token>) -> Option<
    Located,
> {
    match first_touching(tokens, offset + cursor) {
        None => None,
        Some(i) => {
            let span = tokens[i].span;
            if within_line(span, offset, line.len()) {
                let there = span.spec_relative_to(offset);
                Some(
                    Located {
                        origin: span,
                        span: there,
                        strategy: strategy_for(
                            line.subrange(there.start as int, there.end as int),
                            tokens[i].shape,
                        ),
                    },
                )
            } else {
                None
            }
        },
    }
}

/// What `first_touching` finds is the first token that the cursor touches;
/// it finds none only where the cursor touches none.
pub proof fn lemma_first_touching(tokens: Seq<Token>, pos: int)
    ensures
        match first_touching(tokens, pos) {
            Some(i) => 0 <= i < tokens.len() && touches(tokens[i].span, pos) && forall|j: int|
                0 <= j < i ==> !touches(#[trigger] tokens[j].span, pos),
            None => forall|j: int| 0 <= j < tokens.len() ==> !touches(#[trigger] tokens[j].span, pos),
        },
    decreases tokens.len(),
{
    if tokens.len() > 0 {
        lemma_first_touching(tokens.drop_last(), pos);
        match first_touching(tokens.drop_last(), pos) {
            Some(i) => {
                assert(tokens.drop_last()[i] == tokens[i]);
                assert forall|j: int| 0 <= j < i implies !touches(#[trigger] tokens[j].span, pos) by {
                    assert(tokens.drop_last()[j] == tokens[j]);
                }
            },
            None => {
                assert forall|j: int| 0 <= j < tokens.len() - 1 implies !touches(
                    #[trigger] tokens[j].span,
                    pos,
                ) by {
                    assert(tokens.drop_last()[j] == tokens[j]);
                }
            },
        }
    }
}

/// A token that the cursor touches, with none before it that the cursor
/// touches, is the one that `first_touching` finds.
pub proof fn lemma_first_touching_is(tokens: Seq<Token>, pos: int, i: int)
    requires
        0 <= i < tokens.len(),
        touches(tokens[i].span, pos),
        forall|j: int| 0 <= j < i ==> !touches(#[trigger] tokens[j].span, pos),
    ensures
        first_touching(tokens, pos) == Some(i),
{
    lemma_first_touching(tokens, pos);
}

/// Span fidelity: the span of the located token, counted from the start of
/// the line, lies in the line; the cursor touches it; and the bytes of the
/// line that it covers are the token's text, by which the strategy was
/// chosen.
pub proof fn lemma_located_span(line: Seq<u8>, cursor: usize, offset: usize, tokens: Seq<Token>)
    ensures
        match located(line, cursor, offset, tokens) {
            Some(l) => exists|i: int|
                0 <= i < tokens.len() && first_touching(tokens, offset + cursor) == Some(i)
                    && l.origin == tokens[i].span && l.span.start == (#[trigger] tokens[i]).span.start - offset && l.span.end
                    == tokens[i].span.end - offset && l.span.start <= cursor <= l.span.end
                    && l.span.end <= line.len() && l.strategy == strategy_for(
                    line.subrange(l.span.start as int, l.span.end as int),
                    tokens[i].shape,
                ),
            None => true,
        },
{
    lemma_first_touching(tokens, offset + cursor);
}

/// The index of the first token that the cursor at `offset + cursor`
/// touches: inside it or at one of its two ends.
pub fn locate(tokens: &Vec<Token>, offset: usize, cursor: usize) -> (r: Option<usize>)
    ensures
        match r {
            Some(i) => first_touching(tokens@, offset + cursor) == Some(i as int) && i < tokens.len(),
            None => first_touching(tokens@, offset + cursor) is None,
        },
{
    proof {
        lemma_first_touching(tokens@, offset + cursor);
    }
    if cursor > usize::MAX - offset {
        return None;
    }
    let pos: usize = offset + cursor;
    let mut i: usize = 0;
    while i < tokens.len()
        invariant
            i <= tokens.len(),
            pos == offset + cursor,
            forall|j: int| 0 <= j < i ==> !touches(#[trigger] tokens@[j].span, pos as int),
        decreases tokens.len() - i,
    {
        if tokens[i].span.touches(pos) {
            proof {
                lemma_first_touching_is(tokens@, pos as int, i as int);
            }
            return Some(i);
        }
        i += 1;
    }
    None
}

/// The strategy for a token with the text `text` and the shape `shape`.
pub fn choose_strategy(text: &[u8], shape: Shape) -> (s: Strategy)
    ensures
        s == strategy_for(text@, shape),
{
    if text.len() > 0 && text[0] == 0x24u8 {
        Strategy::Variables
    } else {
        match shape {
            Shape::Provider(id) => Strategy::Provider(id),
            Shape::External | Shape::InternalCall | Shape::BareString => Strategy::PathsAndCommands,
            Shape::Filepath | Shape::GlobPattern | Shape::ExternalArg => Strategy::Paths,
            Shape::Variable | Shape::Other => Strategy::Nothing,
        }
    }
}

/// The bytes of `line` that `span` covers.
pub fn token_text<'a>(line: &'a [u8], span: Span) -> (text: &'a [u8])
    requires
        span.wf(),
        span.end <= line@.len(),
    ensures
        text@ == line@.subrange(span.start as int, span.end as int),
{
    slice_subrange(line, span.start, span.end)
}

/// Finds the token under the cursor of `line` among the tokens that the
/// parser gave for it, and chooses how to complete it. `offset` is where the
/// line starts in the parser's coordinates, `cursor` the cursor's place in
/// the line. The first token that the cursor touches decides; a token that
/// does not lie in the line cannot be completed.
pub fn resolve_cursor(line: &[u8], cursor: usize, offset: usize, tokens: &Vec<Token>) -> (r: Option<
    Located,
>)
    ensures
        r == located(line@, cursor, offset, tokens@),
        r is Some ==> r->0.span.wf() && r->0.span.end <= line@.len() && r->0.origin.starts_from(
            offset,
        ) && r->0.span == r->0.origin.spec_relative_to(offset),
{
    match locate(tokens, offset, cursor) {
        None => None,
        Some(i) => {
            let span = tokens[i].span;
            if offset <= span.start && span.start <= span.end && span.end - offset <= line.len() {
                let there = span.relative_to(offset);
                let text = token_text(line, there);
                Some(
                    Located {
                        origin: span,
                        span: there,
                        strategy: choose_strategy(text, tokens[i].shape),
                    },
                )
            } else {
                None
            }
        },
    }
}

} // verus!
