//! The evaluator: resolves a token sequence against an environment,
//! applying operator semantics and recursing into nested fallback,
//! message and replacement token sequences.

use vstd::prelude::*;

use crate::env::{env_lookup, env_model, Env};
use crate::tokens::{
    lemma_tokens_model_index, lemma_tokens_model_len, tokens_model, token_model, Op, OpModel,
    Presence, Token, TokenModel,
};

verus! {

/// The outcome of evaluating tokens: the produced text or the failure
/// message, and the names warned about (unset plain references), in
/// the order the warnings arise.
pub struct EvalOut {
    pub res: Result<Seq<char>, Seq<char>>,
    pub warns: Seq<Seq<char>>,
}

/// Whether a looked-up value passes a presence test.
pub open spec fn presence_ok(p: Presence, v: Option<Seq<char>>) -> bool {
    match v {
        Option::None => false,
        Option::Some(s) => p is Defined || s.len() > 0,
    }
}

pub open spec fn opt_val(v: Option<Seq<char>>) -> Seq<char> {
    match v {
        Option::None => Seq::empty(),
        Option::Some(s) => s,
    }
}

/// The failure message of a required variable, with the evaluated
/// message text appended when it is not empty.
pub open spec fn required_msg(name: Seq<char>, m: Seq<char>) -> Seq<char> {
    if m.len() == 0 {
        "Required variable \""@ + name + "\" is missing a value"@
    } else {
        "Required variable \""@ + name + "\" is missing a value: "@ + m
    }
}

/// The warning text emitted for an unset plain reference.
pub open spec fn warn_msg(name: Seq<char>) -> Seq<char> {
    "The \""@ + name + "\" variable is not set, defaulting to a blank string"@
}

/// What one token contributes.
pub open spec fn eval_token_m(t: TokenModel, env: Seq<(Seq<char>, Seq<char>)>) -> EvalOut
    decreases t, 0nat,
{
    match t {
        TokenModel::Lit(s) => EvalOut { res: Ok(s), warns: Seq::empty() },
        TokenModel::Ref(name, op) => {
            let v = env_lookup(env, name);
            match op {
                Option::None => match v {
                    Option::Some(val) => EvalOut { res: Ok(val), warns: Seq::empty() },
                    Option::None => EvalOut { res: Ok(Seq::empty()), warns: seq![name] },
                },
                Option::Some(OpModel::Fallback(p, ts)) => if presence_ok(p, v) {
                    EvalOut { res: Ok(opt_val(v)), warns: Seq::empty() }
                } else {
                    eval_from_m(ts, env, 0)
                },
                Option::Some(OpModel::Require(p, ts)) => if presence_ok(p, v) {
                    EvalOut { res: Ok(opt_val(v)), warns: Seq::empty() }
                } else {
                    let m = eval_from_m(ts, env, 0);
                    match m.res {
                        Ok(text) => EvalOut {
                            res: Err(required_msg(name, text)),
                            warns: m.warns,
                        },
                        Err(_) => m,
                    }
                },
                Option::Some(OpModel::Replace(p, ts)) => if presence_ok(p, v) {
                    eval_from_m(ts, env, 0)
                } else {
                    EvalOut { res: Ok(Seq::empty()), warns: Seq::empty() }
                },
            }
        },
    }
}

/// What the tokens from position `i` on contribute: left to right,
/// stopping at the first failure, concatenating text and warnings.
pub open spec fn eval_from_m(ts: Seq<TokenModel>, env: Seq<(Seq<char>, Seq<char>)>, i: int) -> EvalOut
    decreases ts, ts.len() - i,
{
    if i < 0 || i >= ts.len() {
        EvalOut { res: Ok(Seq::empty()), warns: Seq::empty() }
    } else {
        let cur = eval_token_m(ts[i], env);
        match cur.res {
            Err(_) => cur,
            Ok(text) => {
                let rest = eval_from_m(ts, env, i + 1);
                match rest.res {
                    Ok(rt) => EvalOut { res: Ok(text + rt), warns: cur.warns + rest.warns },
                    Err(e) => EvalOut { res: Err(e), warns: cur.warns + rest.warns },
                }
            },
        }
    }
}

/// What a whole token sequence evaluates to.
pub open spec fn eval_tokens_m(ts: Seq<TokenModel>, env: Seq<(Seq<char>, Seq<char>)>) -> EvalOut {
    eval_from_m(ts, env, 0)
}

pub open spec fn res_model(r: Result<String, String>) -> Result<Seq<char>, Seq<char>> {
    match r {
        Ok(s) => Ok(s@),
        Err(e) => Err(e@),
    }
}

pub open spec fn strs_model(v: Seq<String>) -> Seq<Seq<char>> {
    v.map_values(|s: String| s@)
}

/// Build the failure message of a required variable.
fn required_message(name: &String, m: &String) -> (r: String)
    ensures
        r@ == required_msg(name@, m@),
{
    let mut s = String::from_str("Required variable \"");
    s.append(name.as_str());
    if m.as_str().is_empty() {
        s.append("\" is missing a value");
        proof {
            assert(s@ =~= required_msg(name@, m@));
        }
    } else {
        s.append("\" is missing a value: ");
        s.append(m.as_str());
        proof {
            assert(s@ =~= required_msg(name@, m@));
        }
    }
    s
}

/// Render the warning for an unset plain reference, as the caller
/// would print it.
pub fn warning_message(name: &String) -> (r: String)
    ensures
        r@ == warn_msg(name@),
{
    let mut s = String::from_str("The \"");
    s.append(name.as_str());
    s.append("\" variable is not set, defaulting to a blank string");
    proof {
        assert(s@ =~= warn_msg(name@));
    }
    s
}

fn presence_pass(p: Presence, v: &Option<String>) -> (b: bool)
    ensures
        b == presence_ok(p, opt_string_model(v)),
{
    match v {
        Option::None => false,
        Option::Some(s) => match p {
            Presence::Defined => true,
            Presence::DefinedNonEmpty => !s.as_str().is_empty(),
        },
    }
}

pub open spec fn opt_string_model(v: &Option<String>) -> Option<Seq<char>> {
    match v {
        Option::None => Option::None,
        Option::Some(s) => Option::Some(s@),
    }
}

fn eval_token(t: &Token, env: &Env, warns: &mut Vec<String>) -> (r: Result<String, String>)
    ensures
        ({
            let out = eval_token_m(token_model(*t), env_model(*env));
            &&& res_model(r) == out.res
            &&& strs_model(final(warns)@) == strs_model(old(warns)@) + out.warns
        }),
    decreases *t, 0nat,
{
    let ghost out = eval_token_m(token_model(*t), env_model(*env));
    match t {
        Token::Lit(s) => {
            proof {
                assert(strs_model(warns@) =~= strs_model(old(warns)@) + out.warns);
            }
            Ok(s.clone())
        },
        Token::Ref(name, op) => {
            let v = env.lookup(name);
            match op {
                Option::None => match v {
                    Option::Some(val) => {
                        proof {
                            assert(strs_model(warns@) =~= strs_model(old(warns)@) + out.warns);
                        }
                        Ok(val)
                    },
                    Option::None => {
                        warns.push(name.clone());
                        proof {
                            assert(strs_model(warns@) =~= strs_model(old(warns)@) + out.warns);
                        }
                        Ok(String::new())
                    },
                },
                Option::Some(Op::Fallback(p, ts)) => {
                    if presence_pass(*p, &v) {
                        proof {
                            assert(strs_model(warns@) =~= strs_model(old(warns)@) + out.warns);
                        }
                        Ok(v.unwrap())
                    } else {
                        eval_from(ts, 0, env, warns)
                    }
                },
                Option::Some(Op::Require(p, ts)) => {
                    if presence_pass(*p, &v) {
                        proof {
                            assert(strs_model(warns@) =~= strs_model(old(warns)@) + out.warns);
                        }
                        Ok(v.unwrap())
                    } else {
                        match eval_from(ts, 0, env, warns) {
                            Ok(text) => Err(required_message(name, &text)),
                            Err(e) => Err(e),
                        }
                    }
                },
                Option::Some(Op::Replace(p, ts)) => {
                    if presence_pass(*p, &v) {
                        eval_from(ts, 0, env, warns)
                    } else {
                        proof {
                            assert(strs_model(warns@) =~= strs_model(old(warns)@) + out.warns);
                        }
                        Ok(String::new())
                    }
                },
            }
        },
    }
}

fn eval_from(tokens: &Vec<Token>, i: usize, env: &Env, warns: &mut Vec<String>) -> (r: Result<
    String,
    String,
>)
    requires
        i <= tokens@.len(),
    ensures
        ({
            let out = eval_from_m(tokens_model(tokens@), env_model(*env), i as int);
            &&& res_model(r) == out.res
            &&& strs_model(final(warns)@) == strs_model(old(warns)@) + out.warns
        }),
    decreases tokens@, tokens@.len() - i,
{
    proof {
        lemma_tokens_model_len(tokens@);
    }
    if i == tokens.len() {
        proof {
            assert(strs_model(warns@) =~= strs_model(old(warns)@) + Seq::<Seq<char>>::empty());
        }
        return Ok(String::new());
    }
    proof {
        lemma_tokens_model_index(tokens@, i as int);
    }
    let ghost cur_m = eval_token_m(tokens_model(tokens@)[i as int], env_model(*env));
    let cur = eval_token(&tokens[i], env, warns);
    let ghost mid = warns@;
    match cur {
        Err(e) => Err(e),
        Ok(text) => {
            let ghost rest_m = eval_from_m(tokens_model(tokens@), env_model(*env), i + 1);
            let rest = eval_from(tokens, i + 1, env, warns);
            proof {
                assert(strs_model(warns@) =~= strs_model(old(warns)@) + (cur_m.warns
                    + rest_m.warns));
            }
            match rest {
                Ok(rt) => Ok(text.concat(rt.as_str())),
                Err(e) => Err(e),
            }
        },
    }
}

/// Resolve a token sequence against the environment. Returns the
/// substituted text, or the failure message of the first failing
/// token; appends to `warns` the names of the unset plain references
/// met along the way, in order.
pub fn evaluate(tokens: &Vec<Token>, env: &Env, warns: &mut Vec<String>) -> (r: Result<
    String,
    String,
>)
    ensures
        ({
            let out = eval_tokens_m(tokens_model(tokens@), env_model(*env));
            &&& res_model(r) == out.res
            &&& strs_model(final(warns)@) == strs_model(old(warns)@) + out.warns
        }),
{
    eval_from(tokens, 0, env, warns)
}

} // verus!
