//! The structured-value tree: scalars, sequences and insertion-ordered
//! mappings, and its mathematical model. Floating-point scalars are
//! carried as their decimal text, which is all the pipeline reads of
//! them.

use vstd::prelude::*;

verus! {

/// One node of a structured document tree.
#[derive(PartialEq, Debug)]
pub enum Value {
    Null,
    Bool(bool),
    Int(i64),
    /// A floating-point scalar, carried as its decimal text.
    Float(String),
    Str(String),
    Sequence(Vec<Value>),
    /// Insertion-ordered mapping with string keys.
    Mapping(Vec<(String, Value)>),
}

/// Model of a tree node, over sequences of characters.
pub enum ValueModel {
    Null,
    Bool(bool),
    Int(int),
    Float(Seq<char>),
    Str(Seq<char>),
    Sequence(Seq<ValueModel>),
    Mapping(Seq<(Seq<char>, ValueModel)>),
}

pub open spec fn value_model(v: Value) -> ValueModel
    decreases v,
{
    match v {
        Value::Null => ValueModel::Null,
        Value::Bool(b) => ValueModel::Bool(b),
        Value::Int(n) => ValueModel::Int(n as int),
        Value::Float(t) => ValueModel::Float(t@),
        Value::Str(s) => ValueModel::Str(s@),
        Value::Sequence(items) => ValueModel::Sequence(values_model(items@)),
        Value::Mapping(entries) => ValueModel::Mapping(entries_model(entries@)),
    }
}

pub open spec fn values_model(s: Seq<Value>) -> Seq<ValueModel>
    decreases s,
{
    if s.len() == 0 {
        Seq::empty()
    } else {
        values_model(s.drop_last()).push(value_model(s.last()))
    }
}

pub open spec fn entries_model(s: Seq<(String, Value)>) -> Seq<(Seq<char>, ValueModel)>
    decreases s,
{
    if s.len() == 0 {
        Seq::empty()
    } else {
        entries_model(s.drop_last()).push((s.last().0@, value_model(s.last().1)))
    }
}

pub proof fn lemma_values_model_len(s: Seq<Value>)
    ensures
        values_model(s).len() == s.len(),
    decreases s.len(),
{
    if s.len() > 0 {
        lemma_values_model_len(s.drop_last());
    }
}

pub proof fn lemma_values_model_index(s: Seq<Value>, i: int)
    requires
        0 <= i < s.len(),
    ensures
        values_model(s).len() == s.len(),
        values_model(s)[i] == value_model(s[i]),
    decreases s.len(),
{
    lemma_values_model_len(s);
    if i < s.len() - 1 {
        assert(s.drop_last()[i] == s[i]);
        lemma_values_model_index(s.drop_last(), i);
    }
}

pub proof fn lemma_entries_model_len(s: Seq<(String, Value)>)
    ensures
        entries_model(s).len() == s.len(),
    decreases s.len(),
{
    if s.len() > 0 {
        lemma_entries_model_len(s.drop_last());
    }
}

pub proof fn lemma_entries_model_index(s: Seq<(String, Value)>, i: int)
    requires
        0 <= i < s.len(),
    ensures
        entries_model(s).len() == s.len(),
        entries_model(s)[i] == (s[i].0@, value_model(s[i].1)),
    decreases s.len(),
{
    lemma_entries_model_len(s);
    if i < s.len() - 1 {
        assert(s.drop_last()[i] == s[i]);
        lemma_entries_model_index(s.drop_last(), i);
    }
}

/// The model of a prepended element stands in front of the model of
/// the rest.
pub proof fn lemma_values_model_prepend(x: Value, s: Seq<Value>)
    ensures
        values_model(seq![x] + s) == seq![value_model(x)] + values_model(s),
{
    let a = seq![x] + s;
    lemma_values_model_len(a);
    lemma_values_model_len(s);
    assert forall|i: int| 0 <= i < a.len() implies values_model(a)[i] == (seq![value_model(x)]
        + values_model(s))[i] by {
        lemma_values_model_index(a, i);
        if i > 0 {
            assert(a[i] == s[i - 1]);
            lemma_values_model_index(s, i - 1);
        } else {
            assert(a[0] == x);
        }
    }
    assert(values_model(a) =~= seq![value_model(x)] + values_model(s));
}

pub proof fn lemma_entries_model_prepend(x: (String, Value), s: Seq<(String, Value)>)
    ensures
        entries_model(seq![x] + s) == seq![(x.0@, value_model(x.1))] + entries_model(s),
{
    let a = seq![x] + s;
    lemma_entries_model_len(a);
    lemma_entries_model_len(s);
    assert forall|i: int| 0 <= i < a.len() implies entries_model(a)[i] == (seq![
        (x.0@, value_model(x.1)),
    ] + entries_model(s))[i] by {
        lemma_entries_model_index(a, i);
        if i > 0 {
            assert(a[i] == s[i - 1]);
            lemma_entries_model_index(s, i - 1);
        } else {
            assert(a[0] == x);
        }
    }
    assert(entries_model(a) =~= seq![(x.0@, value_model(x.1))] + entries_model(s));
}

/// A structural copy of a subtree, with the same model.
pub fn clone_value(v: &Value) -> (r: Value)
    ensures
        value_model(r) == value_model(*v),
    decreases *v, 0nat,
{
    match v {
        Value::Null => Value::Null,
        Value::Bool(b) => Value::Bool(*b),
        Value::Int(n) => Value::Int(*n),
        Value::Float(t) => Value::Float(t.clone()),
        Value::Str(s) => Value::Str(s.clone()),
        Value::Sequence(items) => {
            let out = clone_values(items, 0);
            proof {
                assert(items@.subrange(0, items@.len() as int) =~= items@);
            }
            Value::Sequence(out)
        },
        Value::Mapping(entries) => {
            let out = clone_entries(entries, 0);
            proof {
                assert(entries@.subrange(0, entries@.len() as int) =~= entries@);
            }
            Value::Mapping(out)
        },
    }
}

fn clone_values(items: &Vec<Value>, i: usize) -> (r: Vec<Value>)
    requires
        i <= items@.len(),
    ensures
        values_model(r@) == values_model(items@.subrange(i as int, items@.len() as int)),
    decreases items@, items@.len() - i,
{
    if i == items.len() {
        let r: Vec<Value> = Vec::new();
        proof {
            assert(items@.subrange(i as int, items@.len() as int) =~= Seq::<Value>::empty());
            assert(values_model(r@) =~= Seq::<ValueModel>::empty());
        }
        return r;
    }
    let c = clone_value(&items[i]);
    let mut rest = clone_values(items, i + 1);
    let ghost rest_pre = rest@;
    rest.insert(0, c);
    proof {
        let tail = items@.subrange(i + 1, items@.len() as int);
        assert(rest@ =~= seq![c] + rest_pre);
        lemma_values_model_prepend(c, rest_pre);
        assert(items@.subrange(i as int, items@.len() as int) =~= seq![items@[i as int]] + tail);
        lemma_values_model_prepend(items@[i as int], tail);
    }
    rest
}

fn clone_entries(entries: &Vec<(String, Value)>, i: usize) -> (r: Vec<(String, Value)>)
    requires
        i <= entries@.len(),
    ensures
        entries_model(r@) == entries_model(entries@.subrange(i as int, entries@.len() as int)),
    decreases entries@, entries@.len() - i,
{
    if i == entries.len() {
        let r: Vec<(String, Value)> = Vec::new();
        proof {
            assert(entries@.subrange(i as int, entries@.len() as int) =~= Seq::<
                (String, Value),
            >::empty());
            assert(entries_model(r@) =~= Seq::<(Seq<char>, ValueModel)>::empty());
        }
        return r;
    }
    let k = entries[i].0.clone();
    let c = clone_value(&entries[i].1);
    let mut rest = clone_entries(entries, i + 1);
    let ghost rest_pre = rest@;
    rest.insert(0, (k, c));
    proof {
        let tail = entries@.subrange(i + 1, entries@.len() as int);
        assert(rest@ =~= seq![(k, c)] + rest_pre);
        lemma_entries_model_prepend((k, c), rest_pre);
        assert(entries@.subrange(i as int, entries@.len() as int) =~= seq![entries@[i as int]]
            + tail);
        lemma_entries_model_prepend(entries@[i as int], tail);
    }
    rest
}

} // verus!
