//! Structured values held by a session's data container: null, booleans,
//! integers, strings, sequences, and nested string-keyed mappings.

use vstd::prelude::*;

verus! {

broadcast use vstd::std_specs::vec::group_vec_axioms, vstd::seq::group_seq_axioms;

/// The mathematical model of a [`Value`]: strings become sequences of
/// characters, vectors become sequences, machine integers become `int`.
pub enum ValueModel {
    /// Model of [`Value::Null`].
    Null,
    /// Model of [`Value::Bool`].
    Bool(bool),
    /// Model of [`Value::Int`].
    Int(int),
    /// Model of [`Value::Str`].
    Str(Seq<char>),
    /// Model of [`Value::Arr`].
    Arr(Seq<ValueModel>),
    /// Model of [`Value::Obj`]: the pairs in the order they are held.
    Obj(Seq<(Seq<char>, ValueModel)>),
}

/// A structured value: null, a boolean, an integer, a string, an ordered
/// sequence of values, or a mapping held as key/value pairs. Numbers are
/// held as 64-bit signed integers.
#[derive(Debug, PartialEq, Eq)]
pub enum Value {
    /// The absent/null value.
    Null,
    /// A boolean.
    Bool(bool),
    /// An integer number.
    Int(i64),
    /// A string.
    Str(String),
    /// An ordered sequence of values.
    Arr(Vec<Value>),
    /// A mapping held as key/value pairs.
    Obj(Vec<(String, Value)>),
}

/// The model of a single value.
pub open spec fn value_model(v: Value) -> ValueModel
    decreases v,
    via value_model_decreases
{
    match v {
        Value::Null => ValueModel::Null,
        Value::Bool(b) => ValueModel::Bool(b),
        Value::Int(i) => ValueModel::Int(i as int),
        Value::Str(s) => ValueModel::Str(s@),
        Value::Arr(items) => ValueModel::Arr(arr_model(items@)),
        Value::Obj(pairs) => ValueModel::Obj(pairs_model(pairs@)),
    }
}

/// The models of a sequence of values, element by element.
pub open spec fn arr_model(s: Seq<Value>) -> Seq<ValueModel>
    decreases s,
    via arr_model_decreases
{
    if s.len() == 0 {
        Seq::empty()
    } else {
        arr_model(s.drop_last()).push(value_model(s.last()))
    }
}

/// The models of a sequence of key/value pairs, pair by pair.
pub open spec fn pairs_model(s: Seq<(String, Value)>) -> Seq<(Seq<char>, ValueModel)>
    decreases s,
    via pairs_model_decreases
{
    if s.len() == 0 {
        Seq::empty()
    } else {
        pairs_model(s.drop_last()).push((s.last().0@, value_model(s.last().1)))
    }
}

#[via_fn]
proof fn value_model_decreases(v: Value) {
    match v {
        Value::Arr(items) => {
            assert(decreases_to!(items => items@));
        },
        Value::Obj(pairs) => {
            assert(decreases_to!(pairs => pairs@));
        },
        _ => {},
    }
}

#[via_fn]
proof fn arr_model_decreases(s: Seq<Value>) {
    if s.len() != 0 {
        assert(decreases_to!(s => s.drop_last()));
        assert(decreases_to!(s => s[s.len() - 1]));
    }
}

#[via_fn]
proof fn pairs_model_decreases(s: Seq<(String, Value)>) {
    if s.len() != 0 {
        assert(decreases_to!(s => s.drop_last()));
        assert(decreases_to!(s => s[s.len() - 1]));
    }
}

/// `arr_model` maps the sequence element by element.
pub broadcast proof fn lemma_arr_model_len(s: Seq<Value>)
    ensures
        (#[trigger] arr_model(s)).len() == s.len(),
    decreases s.len(),
{
    if s.len() != 0 {
        lemma_arr_model_len(s.drop_last());
    }
}

/// The model of the `i`-th element is the `i`-th entry of `arr_model`.
pub broadcast proof fn lemma_arr_model_index(s: Seq<Value>, i: int)
    requires
        0 <= i < s.len(),
    ensures
        (#[trigger] arr_model(s)[i]) == value_model(s[i]),
    decreases s.len(),
{
    lemma_arr_model_len(s.drop_last());
    if i < s.len() - 1 {
        lemma_arr_model_index(s.drop_last(), i);
    }
}

/// `pairs_model` maps the sequence pair by pair.
pub broadcast proof fn lemma_pairs_model_len(s: Seq<(String, Value)>)
    ensures
        (#[trigger] pairs_model(s)).len() == s.len(),
    decreases s.len(),
{
    if s.len() != 0 {
        lemma_pairs_model_len(s.drop_last());
    }
}

/// The model of the `i`-th pair is the `i`-th entry of `pairs_model`.
pub broadcast proof fn lemma_pairs_model_index(s: Seq<(String, Value)>, i: int)
    requires
        0 <= i < s.len(),
    ensures
        (#[trigger] pairs_model(s)[i]) == (s[i].0@, value_model(s[i].1)),
    decreases s.len(),
{
    lemma_pairs_model_len(s.drop_last());
    if i < s.len() - 1 {
        lemma_pairs_model_index(s.drop_last(), i);
    }
}

impl Value {
    /// The integer behind the value, or nothing when the value is not an
    /// integer: a failed typed read surfaces as absence, never as an error.
    pub fn as_i64(&self) -> (r: Option<i64>)
        ensures
            r matches Some(i) ==> value_model(*self) == ValueModel::Int(i as int),
            r is None ==> !(value_model(*self) is Int),
            value_model(*self) is Int ==> r is Some,
    {
        match self {
            Value::Int(i) => Some(*i),
            _ => None,
        }
    }

    /// The boolean behind the value, or nothing when it is not a boolean.
    pub fn as_bool(&self) -> (r: Option<bool>)
        ensures
            r matches Some(b) ==> value_model(*self) == ValueModel::Bool(b),
            r is None ==> !(value_model(*self) is Bool),
            value_model(*self) is Bool ==> r is Some,
    {
        match self {
            Value::Bool(b) => Some(*b),
            _ => None,
        }
    }

    /// The string behind the value, or nothing when it is not a string.
    pub fn as_str(&self) -> (r: Option<&str>)
        ensures
            r matches Some(s) ==> value_model(*self) == ValueModel::Str(s@),
            r is None ==> !(value_model(*self) is Str),
            value_model(*self) is Str ==> r is Some,
    {
        match self {
            Value::Str(s) => Some(s.as_str()),
            _ => None,
        }
    }
}

/// A copy of `v` that models the same value.
#[verifier::loop_isolation(false)]
pub fn clone_value(v: &Value) -> (r: Value)
    ensures
        value_model(r) == value_model(*v),
    decreases v,
{
    broadcast use lemma_arr_model_len, lemma_arr_model_index, lemma_pairs_model_len, lemma_pairs_model_index;

    match v {
        Value::Null => Value::Null,
        Value::Bool(b) => Value::Bool(*b),
        Value::Int(i) => Value::Int(*i),
        Value::Str(s) => Value::Str(s.clone()),
        Value::Arr(items) => {
            let mut out: Vec<Value> = Vec::new();
            let mut i: usize = 0;
            while i < items.len()
                invariant
                    i <= items.len(),
                    out@.len() == i,
                    forall|j: int|
                        0 <= j < i ==> value_model(#[trigger] out@[j]) == value_model(items@[j]),
                decreases items.len() - i,
            {
                let c = clone_value(&items[i]);
                out.push(c);
                i = i + 1;
            }
            proof {
                assert(arr_model(out@) =~= arr_model(items@));
            }
            Value::Arr(out)
        },
        Value::Obj(pairs) => {
            let mut out: Vec<(String, Value)> = Vec::new();
            let mut i: usize = 0;
            while i < pairs.len()
                invariant
                    i <= pairs.len(),
                    out@.len() == i,
                    forall|j: int|
                        0 <= j < i ==> (#[trigger] out@[j]).0@ == pairs@[j].0@ && value_model(
                            out@[j].1,
                        ) == value_model(pairs@[j].1),
                decreases pairs.len() - i,
            {
                let k = pairs[i].0.clone();
                let c = clone_value(&pairs[i].1);
                out.push((k, c));
                i = i + 1;
            }
            proof {
                assert(pairs_model(out@) =~= pairs_model(pairs@));
            }
            Value::Obj(out)
        },
    }
}

} // verus!
