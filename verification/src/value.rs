use vstd::prelude::*;

verus! {

broadcast use vstd::seq::axiom_seq_index_decreases, vstd::std_specs::vec::axiom_vec_index_decreases, vstd::std_specs::vec::axiom_vec_decreases_to_view;

/// A timestamp composite of whole seconds and a sub-second nanosecond part.
///
/// It is a distinguished scalar of the dynamic value model: conversion
/// carries it as one opaque value and never decomposes it into a generic
/// mapping.
#[derive(Clone, Copy, Debug, PartialEq, Eq, Structural)]
pub struct Time {
    pub seconds: i64,
    pub nanos: i32,
}

/// The tagged dynamic value model: a closed union able to hold any
/// convertible scalar or composite.
///
/// All integer widths normalize into `Integer` (64-bit signed). The
/// `Double` variant carries a 64-bit IEEE 754 value by its bit pattern,
/// so the verified core stays free of floating-point arithmetic; reading
/// or producing an actual float happens outside the library. `Mapping`
/// keeps its entries as an ordered list of key/value pairs whose keys
/// must be unique (see [`FieldValue::wf`]); entry order carries no
/// meaning.
#[derive(Debug)]
pub enum FieldValue {
    Null,
    Boolean(bool),
    Integer(i64),
    Double(u64),
    Text(String),
    Time(Time),
    Array(Vec<FieldValue>),
    Mapping(Vec<(String, FieldValue)>),
}

/// The mathematical model of a dynamic value: the same tree with text as
/// character sequences and lists as mathematical sequences.
pub enum ValModel {
    Null,
    Boolean(bool),
    Integer(i64),
    Double(u64),
    Text(Seq<char>),
    Time(Time),
    Array(Seq<ValModel>),
    Mapping(Seq<(Seq<char>, ValModel)>),
}

/// The model a dynamic value denotes: the same tree, with every list
/// read as a mathematical sequence and every text as its characters.
pub open spec fn model_of(fv: FieldValue) -> ValModel
    decreases fv,
{
    match fv {
        FieldValue::Null => ValModel::Null,
        FieldValue::Boolean(b) => ValModel::Boolean(b),
        FieldValue::Integer(i) => ValModel::Integer(i),
        FieldValue::Double(bits) => ValModel::Double(bits),
        FieldValue::Text(s) => ValModel::Text(s@),
        FieldValue::Time(t) => ValModel::Time(t),
        FieldValue::Array(items) => ValModel::Array(models_of(items@)),
        FieldValue::Mapping(entries) => ValModel::Mapping(entry_models_of(entries@)),
    }
}

/// Element-wise [`model_of`] over a sequence of dynamic values.
pub open spec fn models_of(s: Seq<FieldValue>) -> Seq<ValModel>
    decreases s,
{
    if s.len() == 0 {
        Seq::empty()
    } else {
        seq![model_of(s[0])] + models_of(s.drop_first())
    }
}

/// Element-wise key view and [`model_of`] over a sequence of entries.
pub open spec fn entry_models_of(s: Seq<(String, FieldValue)>) -> Seq<(Seq<char>, ValModel)>
    decreases s,
{
    if s.len() == 0 {
        Seq::empty()
    } else {
        seq![(s[0].0@, model_of(s[0].1))] + entry_models_of(s.drop_first())
    }
}

impl View for FieldValue {
    type V = ValModel;

    open spec fn view(&self) -> ValModel {
        model_of(*self)
    }
}

pub broadcast proof fn lemma_models_of(s: Seq<FieldValue>)
    ensures
        (#[trigger] models_of(s)).len() == s.len(),
        forall|i: int| 0 <= i < s.len() ==> models_of(s)[i] == model_of(s[i]),
    decreases s,
{
    if s.len() > 0 {
        lemma_models_of(s.drop_first());
    }
}

pub broadcast proof fn lemma_entry_models_of(s: Seq<(String, FieldValue)>)
    ensures
        (#[trigger] entry_models_of(s)).len() == s.len(),
        forall|i: int| 0 <= i < s.len() ==> entry_models_of(s)[i] == (s[i].0@, model_of(s[i].1)),
    decreases s,
{
    if s.len() > 0 {
        lemma_entry_models_of(s.drop_first());
    }
}

/// No two entries of a mapping share a key.
pub open spec fn unique_keys(es: Seq<(Seq<char>, ValModel)>) -> bool {
    forall|i: int, j: int| 0 <= i < j < es.len() ==> es[i].0 != es[j].0
}

/// Well-formedness of a dynamic value: every mapping anywhere in the
/// tree has unique keys. Decoding is specified for well-formed values
/// only; encoding always produces them.
pub open spec fn model_wf(m: ValModel) -> bool
    decreases m,
{
    match m {
        ValModel::Array(s) => array_models_wf(s),
        ValModel::Mapping(es) => unique_keys(es) && entry_values_wf(es),
        _ => true,
    }
}

/// Every element of the sequence is well-formed.
pub open spec fn array_models_wf(s: Seq<ValModel>) -> bool
    decreases s,
{
    s.len() == 0 || (model_wf(s[0]) && array_models_wf(s.drop_first()))
}

/// Every value of the entry sequence is well-formed.
pub open spec fn entry_values_wf(es: Seq<(Seq<char>, ValModel)>) -> bool
    decreases es,
{
    es.len() == 0 || (model_wf(es[0].1) && entry_values_wf(es.drop_first()))
}

pub broadcast proof fn lemma_array_models_wf(s: Seq<ValModel>)
    ensures
        #[trigger] array_models_wf(s) <==> (forall|i: int|
            0 <= i < s.len() ==> model_wf(#[trigger] s[i])),
    decreases s,
{
    if s.len() > 0 {
        lemma_array_models_wf(s.drop_first());
        if array_models_wf(s) {
            assert forall|i: int| 0 <= i < s.len() implies model_wf(#[trigger] s[i]) by {
                if i > 0 {
                    assert(s.drop_first()[i - 1] == s[i]);
                }
            }
        }
        if forall|i: int| 0 <= i < s.len() ==> model_wf(#[trigger] s[i]) {
            assert forall|j: int| 0 <= j < s.drop_first().len() implies model_wf(
                #[trigger] s.drop_first()[j],
            ) by {
                assert(s.drop_first()[j] == s[j + 1]);
            }
        }
    }
}

pub broadcast proof fn lemma_entry_values_wf(es: Seq<(Seq<char>, ValModel)>)
    ensures
        #[trigger] entry_values_wf(es) <==> (forall|i: int|
            0 <= i < es.len() ==> model_wf((#[trigger] es[i]).1)),
    decreases es,
{
    if es.len() > 0 {
        lemma_entry_values_wf(es.drop_first());
        if entry_values_wf(es) {
            assert forall|i: int| 0 <= i < es.len() implies model_wf((#[trigger] es[i]).1) by {
                if i > 0 {
                    assert(es.drop_first()[i - 1] == es[i]);
                }
            }
        }
        if forall|i: int| 0 <= i < es.len() ==> model_wf((#[trigger] es[i]).1) {
            assert forall|j: int| 0 <= j < es.drop_first().len() implies model_wf(
                (#[trigger] es.drop_first()[j]).1,
            ) by {
                assert(es.drop_first()[j] == es[j + 1]);
            }
        }
    }
}

/// The value found under a key: the first entry that carries it, if any.
pub open spec fn lookup(es: Seq<(Seq<char>, ValModel)>, k: Seq<char>) -> Option<ValModel>
    decreases es,
{
    if es.len() == 0 {
        Option::None
    } else if es[0].0 == k {
        Option::Some(es[0].1)
    } else {
        lookup(es.drop_first(), k)
    }
}

/// Characterizes `lookup` by position: a first match at index `i` is what
/// lookup finds, and a key matching no entry is absent.
pub proof fn lemma_lookup_index(es: Seq<(Seq<char>, ValModel)>, k: Seq<char>, i: int)
    requires
        0 <= i < es.len(),
        es[i].0 == k,
        forall|j: int| 0 <= j < i ==> es[j].0 != k,
    ensures
        lookup(es, k) == Option::Some(es[i].1),
    decreases es,
{
    if i > 0 {
        lemma_lookup_index(es.drop_first(), k, i - 1);
    }
}

pub proof fn lemma_lookup_absent(es: Seq<(Seq<char>, ValModel)>, k: Seq<char>)
    requires
        forall|j: int| 0 <= j < es.len() ==> es[j].0 != k,
    ensures
        lookup(es, k) is None,
    decreases es,
{
    if es.len() > 0 {
        lemma_lookup_absent(es.drop_first(), k);
    }
}

/// Appending an entry under a fresh key leaves the lookup of every
/// other key unchanged.
pub proof fn lemma_lookup_push(es: Seq<(Seq<char>, ValModel)>, e: (Seq<char>, ValModel), k: Seq<char>)
    requires
        e.0 != k,
    ensures
        lookup(es.push(e), k) == lookup(es, k),
    decreases es,
{
    if es.len() == 0 {
        assert(es.push(e)[0] == e);
        assert(es.push(e).drop_first() =~= Seq::<(Seq<char>, ValModel)>::empty());
    } else {
        assert(es.push(e)[0] == es[0]);
        assert(es.push(e).drop_first() =~= es.drop_first().push(e));
        lemma_lookup_push(es.drop_first(), e, k);
    }
}

/// Removing one entry of a mapping with unique keys leaves the lookup of
/// every other key unchanged, and keeps the keys unique.
pub proof fn lemma_lookup_remove(es: Seq<(Seq<char>, ValModel)>, i: int, k: Seq<char>)
    requires
        unique_keys(es),
        0 <= i < es.len(),
        es[i].0 != k,
    ensures
        lookup(es.remove(i), k) == lookup(es, k),
        unique_keys(es.remove(i)),
        entry_values_wf(es) ==> entry_values_wf(es.remove(i)),
    decreases es,
{
    broadcast use lemma_entry_values_wf;

    assert(unique_keys(es.remove(i))) by {
        assert forall|p: int, q: int| 0 <= p < q < es.remove(i).len() implies es.remove(i)[p].0
            != es.remove(i)[q].0 by {
            let p1: int = if p < i { p } else { p + 1 };
            let q1: int = if q < i { q } else { q + 1 };
            assert(es.remove(i)[p] == es[p1]);
            assert(es.remove(i)[q] == es[q1]);
        }
    }
    if i == 0 {
        assert(es.remove(0) =~= es.drop_first());
    } else {
        if es.len() > 0 && es[0].0 == k {
            assert(es.remove(i)[0] == es[0]);
        } else {
            assert(es.remove(i).drop_first() =~= es.drop_first().remove(i - 1));
            assert(forall|p: int, q: int|
                0 <= p < q < es.drop_first().len() ==> es.drop_first()[p].0
                    != es.drop_first()[q].0);
            lemma_lookup_remove(es.drop_first(), i - 1, k);
        }
    }
}

} // verus!
