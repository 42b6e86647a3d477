//! Tokens produced by the variable-reference parser, and their
//! mathematical models.

use vstd::prelude::*;

verus! {

/// Which existence test gates an operator: merely defined, or defined
/// and not the empty string.
#[derive(Clone, Copy, PartialEq, Eq, Debug)]
pub enum Presence {
    Defined,
    DefinedNonEmpty,
}

/// The operator attached to a braced variable reference. The nested
/// text of an operator is itself a full token sequence.
#[derive(PartialEq, Debug)]
pub enum Op {
    /// `${NAME-fallback}` / `${NAME:-fallback}`: use the fallback when
    /// the variable misses the presence test.
    Fallback(Presence, Vec<Token>),
    /// `${NAME?message}` / `${NAME:?message}`: fail with the evaluated
    /// message when the variable misses the presence test.
    Require(Presence, Vec<Token>),
    /// `${NAME+replacement}` / `${NAME:+replacement}`: use the evaluated
    /// replacement when the variable passes the presence test, else the
    /// empty string.
    Replace(Presence, Vec<Token>),
}

/// One token of a parsed scalar: a literal run of text, or a variable
/// reference with an optional operator.
#[derive(PartialEq, Debug)]
pub enum Token {
    Lit(String),
    Ref(String, Option<Op>),
}

/// Model of an operator, over sequences of characters.
pub enum OpModel {
    Fallback(Presence, Seq<TokenModel>),
    Require(Presence, Seq<TokenModel>),
    Replace(Presence, Seq<TokenModel>),
}

/// Model of a token, over sequences of characters.
pub enum TokenModel {
    Lit(Seq<char>),
    Ref(Seq<char>, Option<OpModel>),
}

pub open spec fn op_model(op: Op) -> OpModel
    decreases op,
{
    match op {
        Op::Fallback(p, ts) => OpModel::Fallback(p, tokens_model(ts@)),
        Op::Require(p, ts) => OpModel::Require(p, tokens_model(ts@)),
        Op::Replace(p, ts) => OpModel::Replace(p, tokens_model(ts@)),
    }
}

pub open spec fn token_model(t: Token) -> TokenModel
    decreases t,
{
    match t {
        Token::Lit(s) => TokenModel::Lit(s@),
        Token::Ref(name, None) => TokenModel::Ref(name@, None),
        Token::Ref(name, Some(op)) => TokenModel::Ref(name@, Some(op_model(op))),
    }
}

pub open spec fn tokens_model(ts: Seq<Token>) -> Seq<TokenModel>
    decreases ts,
{
    if ts.len() == 0 {
        Seq::empty()
    } else {
        tokens_model(ts.drop_last()).push(token_model(ts.last()))
    }
}

/// The model of a token vector indexes pointwise into the models of its
/// elements.
pub proof fn lemma_tokens_model_index(ts: Seq<Token>, i: int)
    requires
        0 <= i < ts.len(),
    ensures
        tokens_model(ts).len() == ts.len(),
        tokens_model(ts)[i] == token_model(ts[i]),
    decreases ts.len(),
{
    lemma_tokens_model_len(ts);
    if i < ts.len() - 1 {
        assert(ts.drop_last()[i] == ts[i]);
        lemma_tokens_model_index(ts.drop_last(), i);
    }
}

pub proof fn lemma_tokens_model_len(ts: Seq<Token>)
    ensures
        tokens_model(ts).len() == ts.len(),
    decreases ts.len(),
{
    if ts.len() > 0 {
        lemma_tokens_model_len(ts.drop_last());
    }
}

} // verus!
