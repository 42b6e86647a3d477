//! The document loader: resolves the project name with its three-tier
//! precedence, publishes it to the environment, interpolates the tree,
//! and projects it onto the typed schema.

use vstd::prelude::*;

use crate::env::{env_model, Env};
use crate::eval::{opt_string_model, strs_model};
use crate::project::project_document;
use crate::schema::{compose_model, project_doc_m, Compose, ComposeModel};
use crate::text::{bool_dec, bool_str, i64_dec, int_str, join, join_m};
use crate::value::{
    clone_value, entries_model, lemma_entries_model_index, lemma_entries_model_len, value_model,
    Value, ValueModel,
};
use crate::walker::{interp_str, interp_str_m, interp_value_m, interpolate};

verus! {

/// The environment variable the resolved project name is published
/// under.
pub open spec fn project_name_var() -> Seq<char> {
    "COMPOSE_PROJECT_NAME"@
}

/// The first position at or after `j` whose key reads `k`, or the
/// length.
pub open spec fn key_index_m(entries: Seq<(Seq<char>, ValueModel)>, k: Seq<char>, j: int) -> int
    decreases entries.len() - j,
{
    if j < 0 || j >= entries.len() {
        entries.len() as int
    } else if entries[j].0 == k {
        j
    } else {
        key_index_m(entries, k, j + 1)
    }
}

pub open spec fn assoc_get_m(entries: Seq<(Seq<char>, ValueModel)>, k: Seq<char>) -> Option<
    ValueModel,
> {
    let i = key_index_m(entries, k, 0);
    if i < entries.len() {
        Option::Some(entries[i].1)
    } else {
        Option::None
    }
}

/// Bind a key in a mapping: replace the value in place (keeping the
/// key and its position), else append.
pub open spec fn assoc_set_m(
    entries: Seq<(Seq<char>, ValueModel)>,
    k: Seq<char>,
    v: ValueModel,
) -> Seq<(Seq<char>, ValueModel)> {
    let i = key_index_m(entries, k, 0);
    if i < entries.len() {
        entries.update(i, (entries[i].0, v))
    } else {
        entries.push((k, v))
    }
}

/// The project name resolved on a tree root: an explicit override is
/// written into the tree; else a `name` field is coerced to text and
/// published; else the fallback is written and published.
pub open spec fn resolve_name_m(
    root: ValueModel,
    explicit: Option<Seq<char>>,
    fallback: Seq<char>,
    env: Seq<(Seq<char>, Seq<char>)>,
) -> (Result<(ValueModel, Seq<(Seq<char>, Seq<char>)>), Seq<char>>, Seq<Seq<char>>) {
    match root {
        ValueModel::Mapping(entries) => match explicit {
            Option::Some(n) => (
                Ok((ValueModel::Mapping(assoc_set_m(entries, "name"@, ValueModel::Str(n))), env)),
                Seq::empty(),
            ),
            Option::None => match assoc_get_m(entries, "name"@) {
                Option::Some(ValueModel::Str(s)) => {
                    let r = interp_str_m(s, env);
                    match r.0 {
                        Err(e) => (Err(e), r.1),
                        Ok(t) => (
                            Ok(
                                (
                                    ValueModel::Mapping(
                                        assoc_set_m(entries, "name"@, ValueModel::Str(t)),
                                    ),
                                    env.push((project_name_var(), t)),
                                ),
                            ),
                            r.1,
                        ),
                    }
                },
                Option::Some(ValueModel::Bool(b)) => (
                    Ok((root, env.push((project_name_var(), bool_str(b))))),
                    Seq::empty(),
                ),
                Option::Some(ValueModel::Int(n)) => (
                    Ok((root, env.push((project_name_var(), int_str(n))))),
                    Seq::empty(),
                ),
                Option::Some(ValueModel::Float(t)) => (
                    Ok((root, env.push((project_name_var(), t)))),
                    Seq::empty(),
                ),
                Option::Some(_) => (Ok((root, env)), Seq::empty()),
                Option::None => (
                    Ok(
                        (
                            ValueModel::Mapping(
                                assoc_set_m(entries, "name"@, ValueModel::Str(fallback)),
                            ),
                            env.push((project_name_var(), fallback)),
                        ),
                    ),
                    Seq::empty(),
                ),
            },
        },
        _ => (Ok((root, env)), Seq::empty()),
    }
}

fn find_name_position(entries: &Vec<(String, Value)>) -> (r: usize)
    ensures
        r as int == key_index_m(entries_model(entries@), "name"@, 0),
        r <= entries@.len(),
{
    proof {
        lemma_entries_model_len(entries@);
    }
    let mut j: usize = 0;
    while j < entries.len()
        invariant
            j <= entries@.len(),
            entries_model(entries@).len() == entries@.len(),
            key_index_m(entries_model(entries@), "name"@, 0) == key_index_m(
                entries_model(entries@),
                "name"@,
                j as int,
            ),
        decreases entries@.len() - j,
    {
        proof {
            lemma_entries_model_index(entries@, j as int);
        }
        if entries[j].0.eq(&String::from_str("name")) {
            return j;
        }
        j = j + 1;
    }
    j
}

/// Bind the `name` key of a root mapping.
fn set_name_entry(entries: &mut Vec<(String, Value)>, v: Value)
    ensures
        entries_model(final(entries)@) == assoc_set_m(
            entries_model(old(entries)@),
            "name"@,
            value_model(v),
        ),
{
    proof {
        lemma_entries_model_len(entries@);
    }
    let p = find_name_position(entries);
    if p < entries.len() {
        proof {
            lemma_entries_model_index(entries@, p as int);
        }
        let ghost pre = entries@;
        let old_pair = entries.remove(p);
        entries.insert(p, (old_pair.0, v));
        proof {
            assert(entries@ =~= pre.update(p as int, (pre[p as int].0, v)));
            lemma_entries_model_update(pre, p as int, v);
        }
    } else {
        let ghost pre = entries@;
        entries.push((String::from_str("name"), v));
        proof {
            assert(entries@.drop_last() =~= pre);
            assert(entries_model(entries@) =~= entries_model(pre).push(("name"@, value_model(v))));
        }
    }
}

proof fn lemma_entries_model_update(s: Seq<(String, Value)>, p: int, v: Value)
    requires
        0 <= p < s.len(),
    ensures
        entries_model(s.update(p, (s[p].0, v))) == entries_model(s).update(
            p,
            (entries_model(s)[p].0, value_model(v)),
        ),
{
    let a = s.update(p, (s[p].0, v));
    lemma_entries_model_len(a);
    lemma_entries_model_len(s);
    assert forall|i: int| 0 <= i < a.len() implies entries_model(a)[i] == entries_model(s).update(
        p,
        (entries_model(s)[p].0, value_model(v)),
    )[i] by {
        lemma_entries_model_index(a, i);
        lemma_entries_model_index(s, i);
        if i == p {
            lemma_entries_model_index(s, p);
        } else {
            assert(a[i] == s[i]);
        }
    }
    assert(entries_model(a) =~= entries_model(s).update(
        p,
        (entries_model(s)[p].0, value_model(v)),
    ));
}

/// Resolve the project name on a source tree, publishing it to the
/// environment as the precedence rules say.
pub fn resolve_project_name(
    root: Value,
    explicit: &Option<String>,
    fallback: &String,
    env: &mut Env,
    warns: &mut Vec<String>,
) -> (r: Result<Value, String>)
    ensures
        ({
            let out = resolve_name_m(
                value_model(root),
                opt_string_model(explicit),
                fallback@,
                env_model(*old(env)),
            );
            &&& match r {
                Ok(v) => out.0 == Ok::<(ValueModel, Seq<(Seq<char>, Seq<char>)>), Seq<char>>(
                    (value_model(v), env_model(*final(env))),
                ),
                Err(e) => out.0 is Err && out.0->Err_0 == e@,
            }
            &&& strs_model(final(warns)@) == strs_model(old(warns)@) + out.1
        }),
{
    let mut entries = match root {
        Value::Mapping(entries) => entries,
        other => {
            proof {
                assert(strs_model(warns@) =~= strs_model(old(warns)@) + Seq::<Seq<char>>::empty());
            }
            return Ok(other);
        },
    };
    match explicit {
        Some(n) => {
            set_name_entry(&mut entries, Value::Str(n.clone()));
            proof {
                assert(strs_model(warns@) =~= strs_model(old(warns)@) + Seq::<Seq<char>>::empty());
            }
            Ok(Value::Mapping(entries))
        },
        None => {
            proof {
                lemma_entries_model_len(entries@);
            }
            let p = find_name_position(&entries);
            if p < entries.len() {
                proof {
                    lemma_entries_model_index(entries@, p as int);
                }
                match &entries[p].1 {
                    Value::Str(s) => {
                        let s = s.clone();
                        match interp_str(&s, env, warns) {
                            Err(m) => Err(m),
                            Ok(t) => {
                                env.set(
                                    String::from_str("COMPOSE_PROJECT_NAME"),
                                    t.clone(),
                                );
                                set_name_entry(&mut entries, Value::Str(t));
                                Ok(Value::Mapping(entries))
                            },
                        }
                    },
                    Value::Bool(b) => {
                        env.set(String::from_str("COMPOSE_PROJECT_NAME"), bool_dec(*b));
                        proof {
                            assert(strs_model(warns@) =~= strs_model(old(warns)@) + Seq::<
                                Seq<char>,
                            >::empty());
                        }
                        Ok(Value::Mapping(entries))
                    },
                    Value::Int(n) => {
                        env.set(String::from_str("COMPOSE_PROJECT_NAME"), i64_dec(*n));
                        proof {
                            assert(strs_model(warns@) =~= strs_model(old(warns)@) + Seq::<
                                Seq<char>,
                            >::empty());
                        }
                        Ok(Value::Mapping(entries))
                    },
                    Value::Float(t) => {
                        env.set(String::from_str("COMPOSE_PROJECT_NAME"), t.clone());
                        proof {
                            assert(strs_model(warns@) =~= strs_model(old(warns)@) + Seq::<
                                Seq<char>,
                            >::empty());
                        }
                        Ok(Value::Mapping(entries))
                    },
                    _ => {
                        proof {
                            assert(strs_model(warns@) =~= strs_model(old(warns)@) + Seq::<
                                Seq<char>,
                            >::empty());
                        }
                        Ok(Value::Mapping(entries))
                    },
                }
            } else {
                env.set(String::from_str("COMPOSE_PROJECT_NAME"), fallback.clone());
                set_name_entry(&mut entries, Value::Str(fallback.clone()));
                proof {
                    assert(strs_model(warns@) =~= strs_model(old(warns)@) + Seq::<
                        Seq<char>,
                    >::empty());
                }
                Ok(Value::Mapping(entries))
            }
        },
    }
}

/// A walker failure, qualified by the dotted field path.
pub open spec fn path_msg(path: Seq<Seq<char>>, msg: Seq<char>) -> Seq<char> {
    join_m(path, "."@) + ": "@ + msg
}

/// The message of a source whose tree does not fit the schema.
pub open spec fn schema_ctx_msg(id: Seq<char>) -> Seq<char> {
    id + " does not follow the Compose specification"@
}

/// What loading one source yields: name resolution, interpolation
/// (unless suppressed), projection.
pub open spec fn load_source_m(
    id: Seq<char>,
    root: ValueModel,
    explicit: Option<Seq<char>>,
    fallback: Seq<char>,
    interp: bool,
    env: Seq<(Seq<char>, Seq<char>)>,
) -> (Result<(ComposeModel, Seq<Seq<char>>, Seq<(Seq<char>, Seq<char>)>), Seq<char>>, Seq<
    Seq<char>,
>) {
    let step1 = resolve_name_m(root, explicit, fallback, env);
    match step1.0 {
        Err(e) => (Err(e), step1.1),
        Ok((root2, env2)) => {
            let step2 = if interp {
                interp_value_m(root2, env2)
            } else {
                crate::walker::WalkOut { res: Ok(root2), warns: Seq::empty() }
            };
            match step2.res {
                Err((path, m)) => (Err(path_msg(path, m)), step1.1 + step2.warns),
                Ok(root3) => match project_doc_m(root3) {
                    Err(_) => (Err(schema_ctx_msg(id)), step1.1 + step2.warns),
                    Ok((doc, unknown)) => (Ok((doc, unknown, env2)), step1.1 + step2.warns),
                },
            }
        },
    }
}

/// Load one source: resolve and publish the project name, interpolate
/// every string scalar (unless suppressed), and project the tree onto
/// the schema, returning the document and the unrecognized field
/// paths.
pub fn load_source(
    id: &String,
    root: Value,
    explicit: &Option<String>,
    fallback: &String,
    interp: bool,
    env: &mut Env,
    warns: &mut Vec<String>,
) -> (r: Result<(Compose, Vec<String>), String>)
    ensures
        ({
            let out = load_source_m(
                id@,
                value_model(root),
                opt_string_model(explicit),
                fallback@,
                interp,
                env_model(*old(env)),
            );
            &&& match r {
                Ok(p) => out.0 == Ok::<
                    (ComposeModel, Seq<Seq<char>>, Seq<(Seq<char>, Seq<char>)>),
                    Seq<char>,
                >((compose_model(p.0), strs_model(p.1@), env_model(*final(env)))),
                Err(e) => out.0 is Err && out.0->Err_0 == e@,
            }
            &&& strs_model(final(warns)@) == strs_model(old(warns)@) + out.1
        }),
{
    let ghost root0 = value_model(root);
    let ghost step1 = resolve_name_m(
        root0,
        opt_string_model(explicit),
        fallback@,
        env_model(*old(env)),
    );
    let root2 = match resolve_project_name(root, explicit, fallback, env, warns) {
        Ok(v) => v,
        Err(e) => {
            return Err(e);
        },
    };
    let ghost env2 = env_model(*env);
    let ghost step2 = if interp {
        interp_value_m(value_model(root2), env2)
    } else {
        crate::walker::WalkOut { res: Ok(value_model(root2)), warns: Seq::empty() }
    };
    let root3 = if interp {
        match interpolate(&root2, env, warns) {
            Ok(v) => v,
            Err(e) => {
                let mut m = join(&e.path, ".");
                m.append(": ");
                m.append(e.message.as_str());
                proof {
                    assert(m@ =~= path_msg(strs_model(e.path@), e.message@));
                    assert(strs_model(warns@) =~= strs_model(old(warns)@) + (step1.1
                        + step2.warns));
                }
                return Err(m);
            },
        }
    } else {
        root2
    };
    proof {
        assert(strs_model(warns@) =~= strs_model(old(warns)@) + (step1.1 + step2.warns));
    }
    match project_document(&root3) {
        Ok(p) => Ok(p),
        Err(_detail) => {
            let mut m = id.clone();
            m.append(" does not follow the Compose specification");
            proof {
                assert(m@ =~= schema_ctx_msg(id@));
            }
            Err(m)
        },
    }
}


/// One loaded source: its identifier, its typed document, and the
/// unrecognized field paths.
pub struct LoadedDoc {
    pub id: Seq<char>,
    pub doc: ComposeModel,
    pub unknown: Seq<Seq<char>>,
}

pub open spec fn loaded_model(v: Seq<(String, Compose, Vec<String>)>) -> Seq<LoadedDoc> {
    v.map_values(
        |t: (String, Compose, Vec<String>)|
            LoadedDoc { id: t.0@, doc: compose_model(t.1), unknown: strs_model(t.2@) },
    )
}

/// The sources from `i` on, loaded in order; the environment of each
/// load is the one the one before it left behind.
pub open spec fn load_docs_m(
    srcs: Seq<(String, Value)>,
    i: int,
    explicit: Option<Seq<char>>,
    fallback: Seq<char>,
    interp: bool,
    env: Seq<(Seq<char>, Seq<char>)>,
) -> (Result<(Seq<LoadedDoc>, Seq<(Seq<char>, Seq<char>)>), Seq<char>>, Seq<Seq<char>>)
    decreases srcs.len() - i,
{
    if i < 0 || i >= srcs.len() {
        (Ok((Seq::empty(), env)), Seq::empty())
    } else {
        let s1 = load_source_m(
            srcs[i].0@,
            value_model(srcs[i].1),
            explicit,
            fallback,
            interp,
            env,
        );
        match s1.0 {
            Err(e) => (Err(e), s1.1),
            Ok((doc, unk, env2)) => {
                let rest = load_docs_m(srcs, i + 1, explicit, fallback, interp, env2);
                match rest.0 {
                    Ok((list, envf)) => (
                        Ok(
                            (
                                seq![LoadedDoc { id: srcs[i].0@, doc, unknown: unk }] + list,
                                envf,
                            ),
                        ),
                        s1.1 + rest.1,
                    ),
                    Err(e) => (Err(e), s1.1 + rest.1),
                }
            },
        }
    }
}

fn load_from(
    sources: &Vec<(String, Value)>,
    i: usize,
    explicit: &Option<String>,
    fallback: &String,
    interp: bool,
    env: &mut Env,
    warns: &mut Vec<String>,
) -> (r: Result<Vec<(String, Compose, Vec<String>)>, String>)
    requires
        i <= sources@.len(),
    ensures
        ({
            let out = load_docs_m(
                sources@,
                i as int,
                opt_string_model(explicit),
                fallback@,
                interp,
                env_model(*old(env)),
            );
            &&& match r {
                Ok(v) => out.0 == Ok::<
                    (Seq<LoadedDoc>, Seq<(Seq<char>, Seq<char>)>),
                    Seq<char>,
                >((loaded_model(v@), env_model(*final(env)))),
                Err(e) => out.0 is Err && out.0->Err_0 == e@,
            }
            &&& strs_model(final(warns)@) == strs_model(old(warns)@) + out.1
        }),
    decreases sources@.len() - i,
{
    if i == sources.len() {
        let empty: Vec<(String, Compose, Vec<String>)> = Vec::new();
        proof {
            assert(loaded_model(empty@) =~= Seq::<LoadedDoc>::empty());
            assert(strs_model(warns@) =~= strs_model(old(warns)@) + Seq::<Seq<char>>::empty());
        }
        return Ok(empty);
    }
    let ghost s1 = load_source_m(
        sources@[i as int].0@,
        value_model(sources@[i as int].1),
        opt_string_model(explicit),
        fallback@,
        interp,
        env_model(*env),
    );
    let id = sources[i].0.clone();
    let root = clone_value(&sources[i].1);
    let (doc, unknown) = match load_source(&id, root, explicit, fallback, interp, env, warns) {
        Ok(p) => p,
        Err(e) => {
            return Err(e);
        },
    };
    let ghost rest_m = load_docs_m(
        sources@,
        i + 1,
        opt_string_model(explicit),
        fallback@,
        interp,
        env_model(*env),
    );
    match load_from(sources, i + 1, explicit, fallback, interp, env, warns) {
        Err(e) => {
            proof {
                assert(strs_model(warns@) =~= strs_model(old(warns)@) + (s1.1 + rest_m.1));
            }
            Err(e)
        },
        Ok(mut rest) => {
            let ghost rest_pre = rest@;
            rest.insert(0, (id, doc, unknown));
            proof {
                assert(rest@ =~= seq![(id, doc, unknown)] + rest_pre);
                assert(loaded_model(rest@) =~= seq![
                    LoadedDoc {
                        id: id@,
                        doc: compose_model(doc),
                        unknown: strs_model(unknown@),
                    },
                ] + loaded_model(rest_pre));
                assert(strs_model(warns@) =~= strs_model(old(warns)@) + (s1.1 + rest_m.1));
            }
            Ok(rest)
        },
    }
}

/// Load every source in order. Later sources evaluate against the
/// environment earlier ones published into; the first failure aborts
/// the run with its message.
pub fn load_documents(
    sources: &Vec<(String, Value)>,
    explicit: &Option<String>,
    fallback: &String,
    interp: bool,
    env: &mut Env,
    warns: &mut Vec<String>,
) -> (r: Result<Vec<(String, Compose, Vec<String>)>, String>)
    ensures
        ({
            let out = load_docs_m(
                sources@,
                0,
                opt_string_model(explicit),
                fallback@,
                interp,
                env_model(*old(env)),
            );
            &&& match r {
                Ok(v) => out.0 == Ok::<
                    (Seq<LoadedDoc>, Seq<(Seq<char>, Seq<char>)>),
                    Seq<char>,
                >((loaded_model(v@), env_model(*final(env)))),
                Err(e) => out.0 is Err && out.0->Err_0 == e@,
            }
            &&& strs_model(final(warns)@) == strs_model(old(warns)@) + out.1
        }),
{
    load_from(sources, 0, explicit, fallback, interp, env, warns)
}

} // verus!
