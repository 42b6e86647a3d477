//! The value walker: applies the token parser and the evaluator to
//! every string scalar of a structured-value tree, preserving the
//! tree's shape and attributing errors to the mapping keys on the way
//! down.

use vstd::prelude::*;

use crate::env::{env_model, Env};
use crate::eval::{eval_tokens_m, evaluate, res_model, strs_model};
use crate::parser::{parse, parse_from};
use crate::value::{
    entries_model, lemma_entries_model_index, lemma_entries_model_len, lemma_entries_model_prepend,
    lemma_values_model_index, lemma_values_model_len, lemma_values_model_prepend, value_model,
    values_model, Value, ValueModel,
};

verus! {

/// An evaluation or parse failure inside a tree: the mapping keys from
/// the root down to the failing scalar, and the failure message.
#[derive(PartialEq, Debug)]
pub struct PathError {
    pub path: Vec<String>,
    pub message: String,
}

/// What interpolating one subtree yields: the rewritten subtree or a
/// path-qualified failure, and the warned-about names, in order.
pub struct WalkOut {
    pub res: Result<ValueModel, (Seq<Seq<char>>, Seq<char>)>,
    pub warns: Seq<Seq<char>>,
}

/// What one string scalar becomes: parse, then evaluate.
pub open spec fn interp_str_m(s: Seq<char>, env: Seq<(Seq<char>, Seq<char>)>) -> (Result<
    Seq<char>,
    Seq<char>,
>, Seq<Seq<char>>) {
    match parse_from(s, 0) {
        Err(e) => (Err(e), Seq::empty()),
        Ok(ts) => {
            let out = eval_tokens_m(ts, env);
            (out.res, out.warns)
        },
    }
}

pub open spec fn interp_value_m(v: ValueModel, env: Seq<(Seq<char>, Seq<char>)>) -> WalkOut
    decreases v, 0nat,
{
    match v {
        ValueModel::Str(s) => {
            let r = interp_str_m(s, env);
            match r.0 {
                Ok(t) => WalkOut { res: Ok(ValueModel::Str(t)), warns: r.1 },
                Err(m) => WalkOut { res: Err((Seq::empty(), m)), warns: r.1 },
            }
        },
        ValueModel::Sequence(items) => {
            let r = interp_list_m(items, env, 0);
            match r.0 {
                Ok(new_items) => WalkOut { res: Ok(ValueModel::Sequence(new_items)), warns: r.1 },
                Err(e) => WalkOut { res: Err(e), warns: r.1 },
            }
        },
        ValueModel::Mapping(entries) => {
            let r = interp_entries_m(entries, env, 0);
            match r.0 {
                Ok(new_entries) => WalkOut {
                    res: Ok(ValueModel::Mapping(new_entries)),
                    warns: r.1,
                },
                Err(e) => WalkOut { res: Err(e), warns: r.1 },
            }
        },
        _ => WalkOut { res: Ok(v), warns: Seq::empty() },
    }
}

/// Elements of a sequence, from `i` on; an element's failure keeps the
/// parent's path.
pub open spec fn interp_list_m(
    items: Seq<ValueModel>,
    env: Seq<(Seq<char>, Seq<char>)>,
    i: int,
) -> (Result<Seq<ValueModel>, (Seq<Seq<char>>, Seq<char>)>, Seq<Seq<char>>)
    decreases items, items.len() - i,
{
    if i < 0 || i >= items.len() {
        (Ok(Seq::empty()), Seq::empty())
    } else {
        let cur = interp_value_m(items[i], env);
        match cur.res {
            Err(e) => (Err(e), cur.warns),
            Ok(cv) => {
                let rest = interp_list_m(items, env, i + 1);
                match rest.0 {
                    Ok(rv) => (Ok(seq![cv] + rv), cur.warns + rest.1),
                    Err(e) => (Err(e), cur.warns + rest.1),
                }
            },
        }
    }
}

/// Entries of a mapping, from `i` on; a value's failure gets its key
/// put in front of the path. Keys are never interpolated.
pub open spec fn interp_entries_m(
    entries: Seq<(Seq<char>, ValueModel)>,
    env: Seq<(Seq<char>, Seq<char>)>,
    i: int,
) -> (Result<Seq<(Seq<char>, ValueModel)>, (Seq<Seq<char>>, Seq<char>)>, Seq<Seq<char>>)
    decreases entries, entries.len() - i,
{
    if i < 0 || i >= entries.len() {
        (Ok(Seq::empty()), Seq::empty())
    } else {
        let cur = interp_value_m(entries[i].1, env);
        match cur.res {
            Err(e) => (Err((seq![entries[i].0] + e.0, e.1)), cur.warns),
            Ok(cv) => {
                let rest = interp_entries_m(entries, env, i + 1);
                match rest.0 {
                    Ok(rv) => (Ok(seq![(entries[i].0, cv)] + rv), cur.warns + rest.1),
                    Err(e) => (Err(e), cur.warns + rest.1),
                }
            },
        }
    }
}

pub open spec fn walk_res_model(r: Result<Value, PathError>) -> Result<
    ValueModel,
    (Seq<Seq<char>>, Seq<char>),
> {
    match r {
        Ok(v) => Ok(value_model(v)),
        Err(e) => Err((strs_model(e.path@), e.message@)),
    }
}

pub open spec fn list_res_model(r: Result<Vec<Value>, PathError>) -> Result<
    Seq<ValueModel>,
    (Seq<Seq<char>>, Seq<char>),
> {
    match r {
        Ok(v) => Ok(values_model(v@)),
        Err(e) => Err((strs_model(e.path@), e.message@)),
    }
}

pub open spec fn entries_res_model(r: Result<Vec<(String, Value)>, PathError>) -> Result<
    Seq<(Seq<char>, ValueModel)>,
    (Seq<Seq<char>>, Seq<char>),
> {
    match r {
        Ok(v) => Ok(entries_model(v@)),
        Err(e) => Err((strs_model(e.path@), e.message@)),
    }
}

/// Interpolate one string scalar: parse it, then evaluate the tokens.
pub fn interp_str(s: &String, env: &Env, warns: &mut Vec<String>) -> (r: Result<String, String>)
    ensures
        ({
            let out = interp_str_m(s@, env_model(*env));
            &&& res_model(r) == out.0
            &&& strs_model(final(warns)@) == strs_model(old(warns)@) + out.1
        }),
{
    match parse(s.as_str()) {
        Err(e) => {
            proof {
                assert(strs_model(warns@) =~= strs_model(old(warns)@) + Seq::<Seq<char>>::empty());
            }
            Err(e.message)
        },
        Ok(ts) => evaluate(&ts, env, warns),
    }
}

/// Rewrite every string scalar of the tree through the evaluator,
/// keeping the tree's shape; a failure names the mapping keys on the
/// way to the failing scalar.
pub fn interpolate(v: &Value, env: &Env, warns: &mut Vec<String>) -> (r: Result<Value, PathError>)
    ensures
        ({
            let out = interp_value_m(value_model(*v), env_model(*env));
            &&& walk_res_model(r) == out.res
            &&& strs_model(final(warns)@) == strs_model(old(warns)@) + out.warns
        }),
    decreases *v, 0nat,
{
    match v {
        Value::Str(s) => match interp_str(s, env, warns) {
            Ok(t) => Ok(Value::Str(t)),
            Err(m) => {
                let e = PathError { path: Vec::new(), message: m };
                proof {
                    assert(strs_model(e.path@) =~= Seq::<Seq<char>>::empty());
                }
                Err(e)
            },
        },
        Value::Sequence(items) => match interp_list(items, 0, env, warns) {
            Ok(new_items) => Ok(Value::Sequence(new_items)),
            Err(e) => Err(e),
        },
        Value::Mapping(entries) => match interp_entries(entries, 0, env, warns) {
            Ok(new_entries) => Ok(Value::Mapping(new_entries)),
            Err(e) => Err(e),
        },
        Value::Null => {
            proof {
                assert(strs_model(warns@) =~= strs_model(old(warns)@) + Seq::<Seq<char>>::empty());
            }
            Ok(Value::Null)
        },
        Value::Bool(b) => {
            proof {
                assert(strs_model(warns@) =~= strs_model(old(warns)@) + Seq::<Seq<char>>::empty());
            }
            Ok(Value::Bool(*b))
        },
        Value::Int(n) => {
            proof {
                assert(strs_model(warns@) =~= strs_model(old(warns)@) + Seq::<Seq<char>>::empty());
            }
            Ok(Value::Int(*n))
        },
        Value::Float(t) => {
            proof {
                assert(strs_model(warns@) =~= strs_model(old(warns)@) + Seq::<Seq<char>>::empty());
            }
            Ok(Value::Float(t.clone()))
        },
    }
}

fn interp_list(items: &Vec<Value>, i: usize, env: &Env, warns: &mut Vec<String>) -> (r: Result<
    Vec<Value>,
    PathError,
>)
    requires
        i <= items@.len(),
    ensures
        ({
            let out = interp_list_m(values_model(items@), env_model(*env), i as int);
            &&& list_res_model(r) == out.0
            &&& strs_model(final(warns)@) == strs_model(old(warns)@) + out.1
        }),
    decreases items@, items@.len() - i,
{
    proof {
        lemma_values_model_len(items@);
    }
    if i == items.len() {
        let empty: Vec<Value> = Vec::new();
        proof {
            assert(values_model(empty@) =~= Seq::<ValueModel>::empty());
            assert(strs_model(warns@) =~= strs_model(old(warns)@) + Seq::<Seq<char>>::empty());
        }
        return Ok(empty);
    }
    proof {
        lemma_values_model_index(items@, i as int);
    }
    let ghost cur_m = interp_value_m(values_model(items@)[i as int], env_model(*env));
    let cur = match interpolate(&items[i], env, warns) {
        Err(e) => {
            return Err(e);
        },
        Ok(cv) => cv,
    };
    let ghost rest_m = interp_list_m(values_model(items@), env_model(*env), i + 1);
    match interp_list(items, i + 1, env, warns) {
        Err(e) => {
            proof {
                assert(strs_model(warns@) =~= strs_model(old(warns)@) + (cur_m.warns + rest_m.1));
            }
            Err(e)
        },
        Ok(mut rest) => {
            let ghost rest_pre = rest@;
            rest.insert(0, cur);
            proof {
                assert(rest@ =~= seq![cur] + rest_pre);
                lemma_values_model_prepend(cur, rest_pre);
                assert(strs_model(warns@) =~= strs_model(old(warns)@) + (cur_m.warns + rest_m.1));
            }
            Ok(rest)
        },
    }
}

fn interp_entries(entries: &Vec<(String, Value)>, i: usize, env: &Env, warns: &mut Vec<String>) -> (r:
    Result<Vec<(String, Value)>, PathError>)
    requires
        i <= entries@.len(),
    ensures
        ({
            let out = interp_entries_m(entries_model(entries@), env_model(*env), i as int);
            &&& entries_res_model(r) == out.0
            &&& strs_model(final(warns)@) == strs_model(old(warns)@) + out.1
        }),
    decreases entries@, entries@.len() - i,
{
    proof {
        lemma_entries_model_len(entries@);
    }
    if i == entries.len() {
        let empty: Vec<(String, Value)> = Vec::new();
        proof {
            assert(entries_model(empty@) =~= Seq::<(Seq<char>, ValueModel)>::empty());
            assert(strs_model(warns@) =~= strs_model(old(warns)@) + Seq::<Seq<char>>::empty());
        }
        return Ok(empty);
    }
    proof {
        lemma_entries_model_index(entries@, i as int);
    }
    let ghost cur_m = interp_value_m(entries_model(entries@)[i as int].1, env_model(*env));
    let cur = match interpolate(&entries[i].1, env, warns) {
        Err(e) => {
            let mut e = e;
            let ghost path_pre = e.path@;
            e.path.insert(0, entries[i].0.clone());
            proof {
                assert(e.path@ =~= seq![entries[i as int].0] + path_pre);
                assert(strs_model(e.path@) =~= seq![entries[i as int].0@] + strs_model(path_pre));
            }
            return Err(e);
        },
        Ok(cv) => cv,
    };
    let key = entries[i].0.clone();
    let ghost rest_m = interp_entries_m(entries_model(entries@), env_model(*env), i + 1);
    match interp_entries(entries, i + 1, env, warns) {
        Err(e) => {
            proof {
                assert(strs_model(warns@) =~= strs_model(old(warns)@) + (cur_m.warns + rest_m.1));
            }
            Err(e)
        },
        Ok(mut rest) => {
            let ghost rest_pre = rest@;
            rest.insert(0, (key, cur));
            proof {
                assert(rest@ =~= seq![(key, cur)] + rest_pre);
                lemma_entries_model_prepend((key, cur), rest_pre);
                assert(strs_model(warns@) =~= strs_model(old(warns)@) + (cur_m.warns + rest_m.1));
            }
            Ok(rest)
        },
    }
}

} // verus!
