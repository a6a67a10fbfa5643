//! The token stream as a whole: what repeated pulls give, and which bytes
//! they consume.

use super::bytes::{ends_comment, is_space, BACKTICK};
use super::grammar::{next_step, skip_blank};
use super::laws::lemma_step_progress;
use super::token::{Lexeme, Token};
use vstd::prelude::*;

verus! {

/// The tokens that repeated pulls give from `pos` on, in source order, up to
/// the end of the input.
pub open spec fn token_stream(src: Seq<u8>, pos: int) -> Seq<Lexeme>
    decreases src.len() - pos,
    when 0 <= pos <= src.len()
{
    let step = next_step(src, pos);
    if step.token is Some {
        proof {
            lemma_step_progress(src, pos);
        }
        seq![step.token->0] + token_stream(src, step.end)
    } else {
        Seq::empty()
    }
}

/// The spans of the source that repeated pulls consume from `pos` on, one
/// for each pull, the pull that reports the end of the input included.
pub open spec fn consumed_spans(src: Seq<u8>, pos: int) -> Seq<Seq<u8>>
    decreases src.len() - pos,
    when 0 <= pos <= src.len()
{
    let step = next_step(src, pos);
    if step.token is Some {
        proof {
            lemma_step_progress(src, pos);
        }
        seq![src.subrange(pos, step.end)] + consumed_spans(src, step.end)
    } else {
        seq![src.subrange(pos, step.end)]
    }
}

/// What a sequence of tokens says, token by token.
pub open spec fn lexemes(tokens: Seq<Token>) -> Seq<Lexeme> {
    tokens.map_values(|tok: Token| tok@)
}

/// Where only whitespace follows, the blanks reach the end of the input.
pub proof fn lemma_whitespace_is_blank(src: Seq<u8>, pos: int)
    requires
        0 <= pos <= src.len(),
        forall|i: int| pos <= i < src.len() ==> is_space(#[trigger] src[i]),
    ensures
        skip_blank(src, pos, false) == src.len(),
    decreases src.len() - pos,
{
    if pos < src.len() {
        lemma_whitespace_is_blank(src, pos + 1);
    }
}

/// Inside a comment, the bytes up to `body_end` that do not end it are
/// passed over.
pub proof fn lemma_comment_body_is_blank(src: Seq<u8>, pos: int, body_end: int)
    requires
        0 <= pos <= body_end <= src.len(),
        forall|i: int| pos <= i < body_end ==> !ends_comment(#[trigger] src[i]),
    ensures
        skip_blank(src, pos, true) == skip_blank(src, body_end, true),
    decreases body_end - pos,
{
    if pos < body_end {
        lemma_comment_body_is_blank(src, pos + 1, body_end);
    }
}

/// An input that holds nothing but whitespace gives no token.
pub proof fn lemma_whitespace_gives_no_token(src: Seq<u8>)
    requires
        forall|i: int| 0 <= i < src.len() ==> is_space(#[trigger] src[i]),
    ensures
        next_step(src, 0).token is None,
        token_stream(src, 0) == Seq::<Lexeme>::empty(),
{
    lemma_whitespace_is_blank(src, 0);
}

/// An input that holds nothing but one comment gives no token: a backtick,
/// then a body without backtick or line feed, up to a last byte which may be
/// the backtick or the line feed that closes the comment.
pub proof fn lemma_comment_gives_no_token(src: Seq<u8>)
    requires
        src.len() >= 1,
        src[0] == BACKTICK,
        forall|i: int| 0 < i < src.len() - 1 ==> !ends_comment(#[trigger] src[i]),
    ensures
        next_step(src, 0).token is None,
        token_stream(src, 0) == Seq::<Lexeme>::empty(),
{
    let last = src.len() - 1;
    assert(skip_blank(src, 0, false) == skip_blank(src, 1, true));
    if last >= 1 {
        lemma_comment_body_is_blank(src, 1, last);
        assert(skip_blank(src, last, true) == skip_blank(src, last + 1, !ends_comment(src[last])));
    }
}

/// Once the end of the input has been reported, every further pull reports
/// it again.
pub proof fn lemma_end_is_final(src: Seq<u8>, pos: int)
    requires
        0 <= pos <= src.len(),
        next_step(src, pos).token is None,
    ensures
        next_step(src, next_step(src, pos).end).token is None,
        next_step(src, next_step(src, pos).end).end == next_step(src, pos).end,
{
}

/// The spans that the pulls consume, put together in order, are the input
/// from `pos` on: no byte is passed twice and none is left out.
pub proof fn lemma_spans_make_the_input(src: Seq<u8>, pos: int)
    requires
        0 <= pos <= src.len(),
    ensures
        consumed_spans(src, pos).flatten() == src.subrange(pos, src.len() as int),
    decreases src.len() - pos,
{
    lemma_step_progress(src, pos);
    let step = next_step(src, pos);
    let span = src.subrange(pos, step.end);
    let rest = if step.token is Some {
        consumed_spans(src, step.end)
    } else {
        Seq::empty()
    };
    let spans = seq![span] + rest;
    assert(consumed_spans(src, pos) =~= spans);
    assert(spans.first() == span);
    assert(spans.drop_first() =~= rest);
    assert(spans.flatten() == span + rest.flatten());
    if step.token is Some {
        lemma_spans_make_the_input(src, step.end);
        assert(span + src.subrange(step.end, src.len() as int) =~= src.subrange(
            pos,
            src.len() as int,
        ));
    } else {
        assert(span + Seq::<u8>::empty() =~= span);
    }
}

/// The spans that the pulls consume from the start, put together in order,
/// are the whole input.
pub proof fn lemma_spans_make_the_whole_input(src: Seq<u8>)
    ensures
        consumed_spans(src, 0).flatten() == src,
{
    lemma_spans_make_the_input(src, 0);
    assert(src.subrange(0, src.len() as int) =~= src);
}

} // verus!
