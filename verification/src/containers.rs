use vstd::prelude::*;

use crate::convert::Converter;
use crate::error::{BaseErr, ConversionError, ErrModel, plain_err};
use crate::value::{
    FieldValue, ValModel, array_models_wf, entry_models_of, entry_values_wf,
    lemma_array_models_wf, lemma_entry_models_of, lemma_entry_values_wf, lemma_models_of,
    model_wf, models_of, unique_keys,
};

verus! {

impl<T: Converter> Converter for Option<T> {
    open spec fn valid(&self) -> bool {
        match self {
            Option::Some(v) => v.valid(),
            Option::None => true,
        }
    }

    open spec fn encoding(&self) -> ValModel {
        match self {
            Option::Some(v) => v.encoding(),
            Option::None => ValModel::Null,
        }
    }

    open spec fn accepts(m: ValModel) -> bool {
        m is Null || T::accepts(m)
    }

    open spec fn is_decoding_of(&self, m: ValModel) -> bool {
        if m is Null {
            self is None
        } else {
            self matches Option::Some(v) && v.is_decoding_of(m)
        }
    }

    open spec fn decode_err(m: ValModel) -> ErrModel {
        T::decode_err(m)
    }

    fn to_field_value(&self) -> (r: FieldValue) {
        match self {
            Option::Some(v) => v.to_field_value(),
            Option::None => FieldValue::Null,
        }
    }

    fn to_primitive(fv: FieldValue) -> (r: Result<Self, ConversionError>) {
        match fv {
            FieldValue::Null => Ok(Option::None),
            other => match T::to_primitive(other) {
                Ok(v) => Ok(Option::Some(v)),
                Err(e) => Err(e),
            },
        }
    }

    proof fn lemma_encoding_wf(&self) {
        match self {
            Option::Some(v) => v.lemma_encoding_wf(),
            Option::None => {},
        }
    }

    proof fn lemma_encoding_accepted(&self) {
        match self {
            Option::Some(v) => v.lemma_encoding_accepted(),
            Option::None => {},
        }
    }
}

/// The position of the first element the type `T` rejects; the length if
/// there is none. Sequence decoding fails fast: exactly this element's
/// error surfaces.
pub open spec fn first_rejected<T: Converter>(s: Seq<ValModel>) -> int
    decreases s,
{
    if s.len() == 0 {
        0
    } else if !T::accepts(s[0]) {
        0
    } else {
        1 + first_rejected::<T>(s.drop_first())
    }
}

pub proof fn lemma_first_rejected<T: Converter>(s: Seq<ValModel>, i: int)
    requires
        0 <= i < s.len(),
        !T::accepts(s[i]),
        forall|j: int| 0 <= j < i ==> T::accepts(#[trigger] s[j]),
    ensures
        first_rejected::<T>(s) == i,
    decreases s,
{
    if i > 0 {
        assert forall|j: int| 0 <= j < i - 1 implies T::accepts(#[trigger] s.drop_first()[j]) by {
            assert(s.drop_first()[j] == s[j + 1]);
        }
        assert(s.drop_first()[i - 1] == s[i]);
        lemma_first_rejected::<T>(s.drop_first(), i - 1);
    }
}

impl<T: Converter> Converter for Vec<T> {
    open spec fn valid(&self) -> bool {
        forall|i: int| 0 <= i < self@.len() ==> (#[trigger] self@[i]).valid()
    }

    open spec fn encoding(&self) -> ValModel {
        ValModel::Array(Seq::new(self@.len(), |i: int| self@[i].encoding()))
    }

    open spec fn accepts(m: ValModel) -> bool {
        match m {
            ValModel::Array(s) => forall|i: int| 0 <= i < s.len() ==> T::accepts(#[trigger] s[i]),
            _ => false,
        }
    }

    open spec fn is_decoding_of(&self, m: ValModel) -> bool {
        match m {
            ValModel::Array(s) => self@.len() == s.len() && forall|i: int|
                0 <= i < s.len() ==> (#[trigger] self@[i]).is_decoding_of(s[i]),
            _ => false,
        }
    }

    open spec fn decode_err(m: ValModel) -> ErrModel {
        match m {
            ValModel::Array(s) => T::decode_err(s[first_rejected::<T>(s)]),
            _ => plain_err(BaseErr::TypeMismatch),
        }
    }

    fn to_field_value(&self) -> (r: FieldValue) {
        let mut items: Vec<FieldValue> = Vec::new();
        let mut i: usize = 0;
        while i < self.len()
            invariant
                self.valid(),
                i <= self@.len(),
                items@.len() == i,
                forall|j: int| 0 <= j < i ==> (#[trigger] items@[j])@ == self@[j].encoding(),
            decreases self@.len() - i,
        {
            let fv = self[i].to_field_value();
            items.push(fv);
            i += 1;
        }
        proof {
            broadcast use lemma_models_of;

            assert(models_of(items@) =~= Seq::new(self@.len(), |k: int| self@[k].encoding()));
        }
        FieldValue::Array(items)
    }

    fn to_primitive(fv: FieldValue) -> (r: Result<Self, ConversionError>) {
        match fv {
            FieldValue::Array(items) => {
                let ghost s = models_of(items@);
                let ghost n = items@.len() as int;
                proof {
                    broadcast use lemma_models_of, lemma_array_models_wf;

                    assert(forall|i: int| 0 <= i < n ==> #[trigger] s[i] == items@[i]@);
                    assert(fv@ == ValModel::Array(s));
                    assert(array_models_wf(s));
                    assert(forall|i: int| 0 <= i < n ==> model_wf(#[trigger] s[i]));
                }
                let mut work = items;
                let mut out: Vec<T> = Vec::new();
                while work.len() > 0
                    invariant
                        s == models_of(items@),
                        n == items@.len(),
                        s.len() == n,
                        fv@ == ValModel::Array(s),
                        out@.len() + work@.len() == n,
                        work@ == items@.subrange(out@.len() as int, n),
                        forall|i: int| 0 <= i < n ==> model_wf(#[trigger] s[i]),
                        forall|i: int| 0 <= i < n ==> #[trigger] s[i] == items@[i]@,
                        forall|j: int|
                            0 <= j < out@.len() ==> T::accepts(#[trigger] s[j]) && out@[j]
                                .is_decoding_of(s[j]) && out@[j].valid(),
                    decreases work@.len(),
                {
                    let ghost k = out@.len() as int;
                    let x = work.remove(0);
                    proof {
                        assert(x == items@[k]);
                        assert(x@ == s[k]);
                        assert(work@ =~= items@.subrange(k + 1, n));
                    }
                    match T::to_primitive(x) {
                        Ok(v) => out.push(v),
                        Err(e) => {
                            proof {
                                lemma_first_rejected::<T>(s, k);
                                if Self::accepts(fv@) {
                                    let s3 = fv@->Array_0;
                                    assert(T::accepts(s3[k]));
                                    assert(false);
                                }
                            }
                            return Err(e);
                        },
                    }
                }
                Ok(out)
            },
            _ => Err(ConversionError::TypeMismatch),
        }
    }

    proof fn lemma_encoding_wf(&self) {
        broadcast use lemma_array_models_wf;

        let s = Seq::new(self@.len(), |i: int| self@[i].encoding());
        assert forall|i: int| 0 <= i < s.len() implies model_wf(#[trigger] s[i]) by {
            self@[i].lemma_encoding_wf();
        }
        assert(array_models_wf(s));
        assert(self.encoding() == ValModel::Array(s));
    }

    proof fn lemma_encoding_accepted(&self) {
        let s = Seq::new(self@.len(), |i: int| self@[i].encoding());
        assert forall|i: int| 0 <= i < s.len() implies T::accepts(#[trigger] s[i]) by {
            self@[i].lemma_encoding_accepted();
        }
    }
}

/// A string-keyed mapping with unique keys: the convertible container
/// standing between typed values and the `Mapping` variant. Entries keep
/// their insertion order, though the order carries no meaning for the
/// dynamic value model.
pub struct StrMap<V> {
    entries: Vec<(String, V)>,
}

impl<V> View for StrMap<V> {
    type V = Seq<(Seq<char>, V)>;

    closed spec fn view(&self) -> Seq<(Seq<char>, V)> {
        Seq::new(self.entries@.len(), |i: int| (self.entries@[i].0@, self.entries@[i].1))
    }
}

impl<V> StrMap<V> {
    /// Keys are unique: the invariant every constructor establishes.
    pub open spec fn wf(&self) -> bool {
        forall|i: int, j: int| 0 <= i < j < self@.len() ==> self@[i].0 != self@[j].0
    }

    /// Whether some entry carries this key.
    pub open spec fn has_key(&self, k: Seq<char>) -> bool {
        exists|i: int| 0 <= i < self@.len() && self@[i].0 == k
    }

    pub fn new() -> (r: Self)
        ensures
            r@ == Seq::<(Seq<char>, V)>::empty(),
            r.wf(),
    {
        let r = StrMap { entries: Vec::new() };
        proof {
            assert(r@ =~= Seq::<(Seq<char>, V)>::empty());
        }
        r
    }

    pub fn len(&self) -> (r: usize)
        ensures
            r == self@.len(),
    {
        self.entries.len()
    }

    /// Add a binding under a key not yet present.
    pub fn insert(&mut self, key: String, value: V)
        requires
            old(self).wf(),
            !old(self).has_key(key@),
        ensures
            final(self)@ == old(self)@.push((key@, value)),
            final(self).wf(),
    {
        let ghost k = key@;
        self.entries.push((key, value));
        proof {
            assert(self@ =~= old(self)@.push((k, value)));
        }
    }

    /// The value bound to a key, if any.
    pub fn get(&self, key: &String) -> (r: Option<&V>)
        ensures
            match r {
                Some(v) => exists|i: int|
                    0 <= i < self@.len() && (#[trigger] self@[i]).0 == key@ && *v == self@[i].1,
                None => forall|i: int| 0 <= i < self@.len() ==> (#[trigger] self@[i]).0 != key@,
            },
    {
        let mut i: usize = 0;
        while i < self.entries.len()
            invariant
                self.entries@.len() == self@.len(),
                forall|j: int| 0 <= j < self@.len() ==> #[trigger] self@[j] == (
                    self.entries@[j].0@,
                    self.entries@[j].1,
                ),
                i <= self@.len(),
                forall|j: int| 0 <= j < i ==> (#[trigger] self@[j]).0 != key@,
            decreases self@.len() - i,
        {
            if self.entries[i].0.eq(key) {
                proof {
                    assert(self@[i as int].0 == key@ && self@[i as int].1 == self.entries@[
                        i as int].1);
                }
                return Some(&self.entries[i].1);
            }
            i += 1;
        }
        None
    }
}

/// The position of the first entry whose value the type `V` rejects; the
/// length if there is none. Mapping decoding fails fast, entry by entry.
pub open spec fn first_rejected_entry<V: Converter>(es: Seq<(Seq<char>, ValModel)>) -> int
    decreases es,
{
    if es.len() == 0 {
        0
    } else if !V::accepts(es[0].1) {
        0
    } else {
        1 + first_rejected_entry::<V>(es.drop_first())
    }
}

pub proof fn lemma_first_rejected_entry<V: Converter>(es: Seq<(Seq<char>, ValModel)>, i: int)
    requires
        0 <= i < es.len(),
        !V::accepts(es[i].1),
        forall|j: int| 0 <= j < i ==> V::accepts((#[trigger] es[j]).1),
    ensures
        first_rejected_entry::<V>(es) == i,
    decreases es,
{
    if i > 0 {
        assert forall|j: int| 0 <= j < i - 1 implies V::accepts(
            (#[trigger] es.drop_first()[j]).1,
        ) by {
            assert(es.drop_first()[j] == es[j + 1]);
        }
        assert(es.drop_first()[i - 1] == es[i]);
        lemma_first_rejected_entry::<V>(es.drop_first(), i - 1);
    }
}

impl<V: Converter> Converter for StrMap<V> {
    open spec fn valid(&self) -> bool {
        self.wf() && forall|i: int| 0 <= i < self@.len() ==> (#[trigger] self@[i]).1.valid()
    }

    open spec fn encoding(&self) -> ValModel {
        ValModel::Mapping(Seq::new(self@.len(), |i: int| (self@[i].0, self@[i].1.encoding())))
    }

    open spec fn accepts(m: ValModel) -> bool {
        match m {
            ValModel::Mapping(es) => forall|i: int|
                0 <= i < es.len() ==> V::accepts((#[trigger] es[i]).1),
            _ => false,
        }
    }

    open spec fn is_decoding_of(&self, m: ValModel) -> bool {
        match m {
            ValModel::Mapping(es) => self@.len() == es.len() && forall|i: int|
                0 <= i < es.len() ==> (#[trigger] self@[i]).0 == es[i].0
                    && self@[i].1.is_decoding_of(es[i].1),
            _ => false,
        }
    }

    open spec fn decode_err(m: ValModel) -> ErrModel {
        match m {
            ValModel::Mapping(es) => V::decode_err(es[first_rejected_entry::<V>(es)].1),
            _ => plain_err(BaseErr::TypeMismatch),
        }
    }

    fn to_field_value(&self) -> (r: FieldValue) {
        let mut out: Vec<(String, FieldValue)> = Vec::new();
        let mut i: usize = 0;
        while i < self.entries.len()
            invariant
                self.valid(),
                self.entries@.len() == self@.len(),
                forall|j: int| 0 <= j < self@.len() ==> #[trigger] self@[j] == (
                    self.entries@[j].0@,
                    self.entries@[j].1,
                ),
                i <= self@.len(),
                out@.len() == i,
                forall|j: int| 0 <= j < i ==> (#[trigger] out@[j]).0@ == self@[j].0 && out@[j].1@
                    == self@[j].1.encoding(),
            decreases self@.len() - i,
        {
            proof {
                assert(self@[i as int] == (self.entries@[i as int].0@, self.entries@[
                    i as int].1));
            }
            let key = self.entries[i].0.clone();
            let fv = self.entries[i].1.to_field_value();
            out.push((key, fv));
            i += 1;
        }
        proof {
            broadcast use lemma_entry_models_of;

            assert(entry_models_of(out@) =~= Seq::new(
                self@.len(),
                |k: int| (self@[k].0, self@[k].1.encoding()),
            ));
        }
        FieldValue::Mapping(out)
    }

    fn to_primitive(fv: FieldValue) -> (r: Result<Self, ConversionError>) {
        match fv {
            FieldValue::Mapping(entries) => {
                let ghost es = entry_models_of(entries@);
                let ghost n = entries@.len() as int;
                proof {
                    broadcast use lemma_entry_models_of, lemma_entry_values_wf;

                    assert(forall|i: int|
                        0 <= i < n ==> #[trigger] es[i] == (entries@[i].0@, entries@[i].1@));
                    assert(fv@ == ValModel::Mapping(es));
                    assert(entry_values_wf(es));
                    assert(forall|i: int| 0 <= i < n ==> model_wf((#[trigger] es[i]).1));
                }
                let mut work = entries;
                let mut out: Vec<(String, V)> = Vec::new();
                while work.len() > 0
                    invariant
                        es == entry_models_of(entries@),
                        n == entries@.len(),
                        es.len() == n,
                        fv@ == ValModel::Mapping(es),
                        out@.len() + work@.len() == n,
                        work@ == entries@.subrange(out@.len() as int, n),
                        unique_keys(es),
                        forall|i: int| 0 <= i < n ==> model_wf((#[trigger] es[i]).1),
                        forall|i: int| 0 <= i < n ==> #[trigger] es[i] == (
                            entries@[i].0@,
                            entries@[i].1@,
                        ),
                        forall|j: int|
                            0 <= j < out@.len() ==> V::accepts((#[trigger] es[j]).1) && out@[j].0@
                                == es[j].0 && out@[j].1.is_decoding_of(es[j].1)
                                && out@[j].1.valid(),
                    decreases work@.len(),
                {
                    let ghost k = out@.len() as int;
                    let pair = work.remove(0);
                    proof {
                        assert(pair == entries@[k]);
                        assert(work@ =~= entries@.subrange(k + 1, n));
                    }
                    let (key, value) = pair;
                    proof {
                        assert(key@ == es[k].0 && value@ == es[k].1);
                    }
                    match V::to_primitive(value) {
                        Ok(v) => out.push((key, v)),
                        Err(e) => {
                            proof {
                                lemma_first_rejected_entry::<V>(es, k);
                                if Self::accepts(fv@) {
                                    let es3 = fv@->Mapping_0;
                                    assert(V::accepts(es3[k].1));
                                    assert(false);
                                }
                            }
                            return Err(e);
                        },
                    }
                }
                let r = StrMap { entries: out };
                proof {
                    assert(r@ =~= Seq::new(out@.len(), |i: int| (out@[i].0@, out@[i].1)));
                    assert forall|i: int, j: int| 0 <= i < j < r@.len() implies r@[i].0
                        != r@[j].0 by {
                        assert(es[i].0 == r@[i].0 && es[j].0 == r@[j].0);
                    }
                }
                Ok(r)
            },
            _ => Err(ConversionError::TypeMismatch),
        }
    }

    proof fn lemma_encoding_wf(&self) {
        broadcast use lemma_entry_values_wf;

        let es = Seq::new(self@.len(), |i: int| (self@[i].0, self@[i].1.encoding()));
        assert forall|i: int| 0 <= i < es.len() implies model_wf((#[trigger] es[i]).1) by {
            self@[i].1.lemma_encoding_wf();
        }
        assert(entry_values_wf(es));
        assert forall|i: int, j: int| 0 <= i < j < es.len() implies es[i].0 != es[j].0 by {
            assert(self@[i].0 != self@[j].0);
        }
        assert(unique_keys(es));
        assert(self.encoding() == ValModel::Mapping(es));
    }

    proof fn lemma_encoding_accepted(&self) {
        let es = Seq::new(self@.len(), |i: int| (self@[i].0, self@[i].1.encoding()));
        assert forall|i: int| 0 <= i < es.len() implies V::accepts((#[trigger] es[i]).1) by {
            self@[i].1.lemma_encoding_accepted();
        }
    }
}

} // verus!


