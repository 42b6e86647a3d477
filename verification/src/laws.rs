//! Laws of the interpolation engine: when evaluation is owed success,
//! and the round trip of text that holds no variable reference.

use vstd::prelude::*;

use crate::env::env_lookup;
use crate::eval::{eval_from_m, eval_token_m, eval_tokens_m, presence_ok};
use crate::parser::{lemma_next_dollar_bounds, next_dollar, parse_from};
use crate::tokens::{OpModel, TokenModel};

verus! {

/// Whether one token is sure to contribute text: a plain reference
/// always does (warning aside); a fallback needs the variable or a
/// satisfiable fallback text; a required variable must pass its
/// presence test; a replacement needs a satisfiable replacement text
/// only when the variable is present.
pub open spec fn sat_token(t: TokenModel, env: Seq<(Seq<char>, Seq<char>)>) -> bool
    decreases t, 0nat,
{
    match t {
        TokenModel::Lit(_) => true,
        TokenModel::Ref(name, op) => {
            let v = env_lookup(env, name);
            match op {
                Option::None => true,
                Option::Some(OpModel::Fallback(p, ts)) => presence_ok(p, v) || sat_from(
                    ts,
                    env,
                    0,
                ),
                Option::Some(OpModel::Require(p, _)) => presence_ok(p, v),
                Option::Some(OpModel::Replace(p, ts)) => !presence_ok(p, v) || sat_from(
                    ts,
                    env,
                    0,
                ),
            }
        },
    }
}

pub open spec fn sat_from(ts: Seq<TokenModel>, env: Seq<(Seq<char>, Seq<char>)>, i: int) -> bool
    decreases ts, ts.len() - i,
{
    if i < 0 || i >= ts.len() {
        true
    } else {
        sat_token(ts[i], env) && sat_from(ts, env, i + 1)
    }
}

/// Evaluation of one token succeeds exactly when the token is
/// satisfiable in the environment.
pub proof fn lemma_eval_token_ok_iff_sat(t: TokenModel, env: Seq<(Seq<char>, Seq<char>)>)
    ensures
        eval_token_m(t, env).res is Ok <==> sat_token(t, env),
    decreases t, 0nat,
{
    match t {
        TokenModel::Lit(_) => {},
        TokenModel::Ref(name, op) => {
            let v = env_lookup(env, name);
            match op {
                Option::None => {},
                Option::Some(OpModel::Fallback(p, ts)) => {
                    if !presence_ok(p, v) {
                        lemma_eval_ok_iff_sat(ts, env, 0);
                    }
                },
                Option::Some(OpModel::Require(p, ts)) => {},
                Option::Some(OpModel::Replace(p, ts)) => {
                    if presence_ok(p, v) {
                        lemma_eval_ok_iff_sat(ts, env, 0);
                    }
                },
            }
        },
    }
}

/// Evaluation succeeds exactly when every token from `i` on is
/// satisfiable: failures come only from a required variable whose
/// presence test fails, or from such a failure inside nested text that
/// is reached.
pub proof fn lemma_eval_ok_iff_sat(ts: Seq<TokenModel>, env: Seq<(Seq<char>, Seq<char>)>, i: int)
    ensures
        eval_from_m(ts, env, i).res is Ok <==> sat_from(ts, env, i),
    decreases ts, ts.len() - i,
{
    if 0 <= i && i < ts.len() {
        lemma_eval_token_ok_iff_sat(ts[i], env);
        if eval_token_m(ts[i], env).res is Ok {
            lemma_eval_ok_iff_sat(ts, env, i + 1);
        }
    }
}

/// Text with no `$` in it parses to itself and evaluates to itself in
/// every environment, with no warnings: the tokens partition their
/// source and re-joining reproduces it.
pub proof fn lemma_plain_text_round_trip(s: Seq<char>, env: Seq<(Seq<char>, Seq<char>)>)
    requires
        forall|k: int| 0 <= k < s.len() ==> s[k] != '$',
    ensures
        parse_from(s, 0) is Ok,
        eval_tokens_m(parse_from(s, 0)->Ok_0, env).res == Ok::<Seq<char>, Seq<char>>(s),
        eval_tokens_m(parse_from(s, 0)->Ok_0, env).warns == Seq::<Seq<char>>::empty(),
{
    if s.len() == 0 {
        assert(parse_from(s, 0) == Ok::<Seq<TokenModel>, Seq<char>>(Seq::empty()));
        let toks = parse_from(s, 0)->Ok_0;
        assert(eval_from_m(toks, env, 0).res == Ok::<Seq<char>, Seq<char>>(Seq::empty()));
        assert(Seq::<char>::empty() =~= s);
    } else {
        lemma_next_dollar_bounds(s, 0);
        let j = next_dollar(s, 0);
        assert(j == s.len());
        assert(parse_from(s, s.len() as int) == Ok::<Seq<TokenModel>, Seq<char>>(Seq::empty()));
        let lit = TokenModel::Lit(s.subrange(0, s.len() as int));
        assert(parse_from(s, 0) == Ok::<Seq<TokenModel>, Seq<char>>(
            seq![lit] + Seq::<TokenModel>::empty(),
        ));
        let toks = parse_from(s, 0)->Ok_0;
        assert(toks =~= seq![lit]);
        assert(toks.len() == 1);
        assert(toks[0] == lit);
        assert(eval_from_m(toks, env, 1).res == Ok::<Seq<char>, Seq<char>>(Seq::empty()));
        assert(eval_token_m(lit, env).res == Ok::<Seq<char>, Seq<char>>(
            s.subrange(0, s.len() as int),
        ));
        assert(s.subrange(0, s.len() as int) + Seq::<char>::empty() =~= s);
        assert(eval_from_m(toks, env, 0).warns =~= Seq::<Seq<char>>::empty());
    }
}

} // verus!
