//! The token stream: an iterator over the tokens that takes tokens back at its front.
//!
//! The stream is `itertools::PutBackN`. Verus does not look inside it; the functions of this
//! module state what its methods do to the sequence of tokens that it has yet to yield.

use crate::token::{lemma_views_drop_first, lemma_views_push_front, token_views, SpecToken, Token};
use itertools::PutBackN;
use vstd::prelude::*;

verus! {

#[verifier::external_type_specification]
#[verifier::external_body]
#[verifier::reject_recursive_types(I)]
pub struct ExPutBackN<I: Iterator>(PutBackN<I>);

/// The stream that the parser reads.
pub type TokenStream = PutBackN<std::vec::IntoIter<Token>>;

/// The tokens that a stream has yet to yield, in the order in which it yields them: those
/// put back, the last one put back first, and then those left in the underlying iterator.
pub uninterp spec fn pending(t: PutBackN<std::vec::IntoIter<Token>>) -> Seq<Token>;

/// Calls `itertools::put_back_n` on the vector. The new stream has nothing put back, so it
/// yields the vector's tokens in the vector's order.
#[verifier::external_body]
pub(crate) fn stream_of(tokens: Vec<Token>) -> (t: TokenStream)
    ensures
        pending(t) == tokens@,
{
    itertools::put_back_n(tokens)
}

/// Calls `PutBackN::next`: it yields the token put back last, or else the next one of the
/// underlying iterator, and `None` once both are exhausted.
#[verifier::external_body]
pub(crate) fn next_token(t: &mut TokenStream) -> (r: Option<Token>)
    ensures
        pending(*old(t)).len() == 0 ==> r is None && pending(*final(t)) == pending(*old(t)),
        pending(*old(t)).len() > 0 ==> r == Some(pending(*old(t))[0]) && pending(*final(t))
            == pending(*old(t)).drop_first(),
{
    t.next()
}

/// Calls `PutBackN::put_back`: the token becomes the next one that the stream yields.
#[verifier::external_body]
pub(crate) fn put_back(t: &mut TokenStream, tok: Token)
    ensures
        pending(*final(t)) == seq![tok] + pending(*old(t)),
{
    t.put_back(tok)
}

/// The views of the tokens that a stream has yet to yield.
pub open spec fn remaining(t: TokenStream) -> Seq<SpecToken> {
    token_views(pending(t))
}

/// A stream over the tokens of a vector.
pub fn token_stream(tokens: Vec<Token>) -> (t: TokenStream)
    ensures
        remaining(t) == token_views(tokens@),
{
    stream_of(tokens)
}

/// Takes the next token out of the stream, if there is one.
pub fn advance(t: &mut TokenStream) -> (r: Option<Token>)
    ensures
        match r {
            Some(tok) => remaining(*old(t)).len() > 0 && tok@ == remaining(*old(t))[0]
                && remaining(*final(t)) == remaining(*old(t)).drop_first(),
            None => remaining(*old(t)) == Seq::<SpecToken>::empty() && remaining(*final(t))
                == Seq::<SpecToken>::empty(),
        },
{
    let r = next_token(t);
    proof {
        if pending(*old(t)).len() > 0 {
            lemma_views_drop_first(pending(*old(t)));
        } else {
            assert(remaining(*old(t)) =~= Seq::<SpecToken>::empty());
        }
    }
    r
}

/// Puts a token in front of the stream.
pub fn restore(t: &mut TokenStream, tok: Token)
    ensures
        remaining(*final(t)) == seq![tok@] + remaining(*old(t)),
{
    put_back(t, tok);
    proof {
        lemma_views_push_front(tok, pending(*old(t)));
    }
}

/// Takes every token that is left out of the stream, in order.
pub fn take_rest(t: &mut TokenStream) -> (rest: Vec<Token>)
    ensures
        token_views(rest@) == remaining(*old(t)),
        remaining(*final(t)) == Seq::<SpecToken>::empty(),
{
    let mut rest: Vec<Token> = Vec::new();
    loop
        invariant
            rest@ + pending(*t) == pending(*old(t)),
        decreases pending(*t).len(),
    {
        let ghost before = pending(*t);
        let ghost taken = rest@;
        match next_token(t) {
            None => {
                assert(rest@ =~= pending(*old(t)));
                assert(remaining(*t) =~= Seq::<SpecToken>::empty());
                return rest;
            },
            Some(tok) => {
                rest.push(tok);
                assert(rest@ + pending(*t) =~= taken + before);
            },
        }
    }
}

} // verus!
