use vstd::prelude::*;

use crate::containers::StrMap;
use crate::convert::Converter;
use crate::error::{BaseErr, ConversionError, ErrModel, in_field, plain_err};
use crate::value::{
    FieldValue, ValModel, entry_models_of, entry_values_wf, lemma_entry_models_of,
    lemma_entry_values_wf, lemma_lookup_absent, lemma_lookup_index, lemma_lookup_remove, lookup,
    model_wf, unique_keys,
};
use vstd::string::StringExecFns;

verus! {

/// The per-record conversion capability: a bidirectional mapping
/// between a record's typed fields and a string-keyed mapping of
/// dynamic values.
///
/// Encoding inserts one entry per declared field, keyed by the literal
/// field name, in declaration order, and always succeeds. Decoding
/// resolves each declared field by name, in declaration order: an
/// absent name fails with `MissingField`, a field whose value its type
/// rejects fails with `FieldError` wrapping that type's error — first
/// failure wins. Each entry is consumed when used, so no entry can
/// satisfy two fields; entries matching no declared field are ignored.
pub trait Mapper: Sized {
    /// Structural well-formedness of the record's fields.
    spec fn record_valid(&self) -> bool;

    /// The entries encoding produces, in declaration order.
    spec fn record_map(&self) -> Seq<(Seq<char>, ValModel)>;

    /// The exact set of entry sequences this record decodes from.
    spec fn map_accepts(m: Seq<(Seq<char>, ValModel)>) -> bool;

    /// Relates a decoded record to the entries it was decoded from.
    spec fn is_record_decoding_of(&self, m: Seq<(Seq<char>, ValModel)>) -> bool;

    /// The error decoding yields on rejected entries.
    spec fn map_err(m: Seq<(Seq<char>, ValModel)>) -> ErrModel;

    fn to_map(&self) -> (r: Vec<(String, FieldValue)>)
        requires
            self.record_valid(),
        ensures
            entry_models_of(r@) == self.record_map(),
    ;

    fn from_map(m: Vec<(String, FieldValue)>) -> (r: Result<Self, ConversionError>)
        requires
            model_wf(ValModel::Mapping(entry_models_of(m@))),
        ensures
            match r {
                Ok(v) => Self::map_accepts(entry_models_of(m@)) && v.is_record_decoding_of(
                    entry_models_of(m@),
                ) && v.record_valid(),
                Err(e) => !Self::map_accepts(entry_models_of(m@)) && e@ == Self::map_err(
                    entry_models_of(m@),
                ),
            },
    ;

    /// Encoding a valid record yields a well-formed mapping.
    proof fn lemma_record_map_wf(&self)
        requires
            self.record_valid(),
        ensures
            model_wf(ValModel::Mapping(self.record_map())),
    ;

    /// Decoding accepts every encoded record.
    proof fn lemma_record_map_accepted(&self)
        requires
            self.record_valid(),
        ensures
            Self::map_accepts(self.record_map()),
    ;
}

/// Every record is convertible through its mapper: its dynamic value is
/// the `Mapping` of its fields. This is what lets records nest inside
/// options, sequences and mapping values with no special-casing.
impl<T: Mapper> Converter for T {
    open spec fn valid(&self) -> bool {
        self.record_valid()
    }

    open spec fn encoding(&self) -> ValModel {
        ValModel::Mapping(self.record_map())
    }

    open spec fn accepts(m: ValModel) -> bool {
        match m {
            ValModel::Mapping(es) => T::map_accepts(es),
            _ => false,
        }
    }

    open spec fn is_decoding_of(&self, m: ValModel) -> bool {
        match m {
            ValModel::Mapping(es) => self.is_record_decoding_of(es),
            _ => false,
        }
    }

    open spec fn decode_err(m: ValModel) -> ErrModel {
        match m {
            ValModel::Mapping(es) => T::map_err(es),
            _ => plain_err(BaseErr::TypeMismatch),
        }
    }

    fn to_field_value(&self) -> (r: FieldValue) {
        FieldValue::Mapping(self.to_map())
    }

    fn to_primitive(fv: FieldValue) -> (r: Result<Self, ConversionError>) {
        match fv {
            FieldValue::Mapping(entries) => {
                proof {
                    assert(fv@ == ValModel::Mapping(entry_models_of(entries@)));
                }
                match T::from_map(entries) {
                    Ok(v) => Ok(v),
                    Err(e) => Err(e),
                }
            },
            _ => Err(ConversionError::TypeMismatch),
        }
    }

    proof fn lemma_encoding_wf(&self) {
        self.lemma_record_map_wf();
    }

    proof fn lemma_encoding_accepted(&self) {
        self.lemma_record_map_accepted();
    }
}

/// Take the entry carrying this key out of the mapping, if one exists:
/// the single-consumption step of record decoding. The remaining
/// mapping is the old one with that entry removed; nothing else moves.
pub fn take_entry(m: &mut Vec<(String, FieldValue)>, key: &String) -> (r: Option<FieldValue>)
    ensures
        match r {
            Some(fv) => (exists|i: int|
                {
                    &&& 0 <= i < entry_models_of(old(m)@).len()
                    &&& #[trigger] entry_models_of(old(m)@)[i] == (key@, fv@)
                    &&& (forall|j: int|
                        0 <= j < i ==> (#[trigger] entry_models_of(old(m)@)[j]).0 != key@)
                    &&& entry_models_of(final(m)@) == entry_models_of(old(m)@).remove(i)
                    &&& lookup(entry_models_of(old(m)@), key@) == Some(fv@)
                }),
            None => final(m)@ == old(m)@ && lookup(entry_models_of(old(m)@), key@) is None,
        },
{
    let ghost es = entry_models_of(old(m)@);
    proof {
        broadcast use lemma_entry_models_of;

    }
    let mut i: usize = 0;
    while i < m.len()
        invariant
            m@ == old(m)@,
            es == entry_models_of(m@),
            es.len() == m@.len(),
            i <= m@.len(),
            forall|j: int| 0 <= j < m@.len() ==> #[trigger] es[j] == (m@[j].0@, m@[j].1@),
            forall|j: int| 0 <= j < i ==> (#[trigger] es[j]).0 != key@,
        decreases m@.len() - i,
    {
        if m[i].0.eq(key) {
            proof {
                lemma_lookup_index(es, key@, i as int);
            }
            let pair = m.remove(i);
            proof {
                broadcast use lemma_entry_models_of;

                assert(entry_models_of(m@) =~= es.remove(i as int));
                assert(es[i as int] == (key@, pair.1@));
            }
            return Some(pair.1);
        }
        i += 1;
    }
    proof {
        lemma_lookup_absent(es, key@);
    }
    None
}

/// A sample record of a numeric identifier and a name, with the mapper
/// a binding generator would emit for it.
pub struct Item {
    pub id: i64,
    pub name: String,
}

impl Mapper for Item {
    open spec fn record_valid(&self) -> bool {
        true
    }

    open spec fn record_map(&self) -> Seq<(Seq<char>, ValModel)> {
        seq![("id"@, ValModel::Integer(self.id)), ("name"@, ValModel::Text(self.name@))]
    }

    open spec fn map_accepts(m: Seq<(Seq<char>, ValModel)>) -> bool {
        match (lookup(m, "id"@), lookup(m, "name"@)) {
            (Some(v), Some(w)) => <i64 as Converter>::accepts(v) && <String as Converter>::accepts(
                w,
            ),
            _ => false,
        }
    }

    open spec fn is_record_decoding_of(&self, m: Seq<(Seq<char>, ValModel)>) -> bool {
        match (lookup(m, "id"@), lookup(m, "name"@)) {
            (Some(v), Some(w)) => self.id.is_decoding_of(v) && self.name.is_decoding_of(w),
            _ => false,
        }
    }

    open spec fn map_err(m: Seq<(Seq<char>, ValModel)>) -> ErrModel {
        match lookup(m, "id"@) {
            None => plain_err(BaseErr::MissingField("id"@)),
            Some(v) => if !<i64 as Converter>::accepts(v) {
                in_field("id"@, <i64 as Converter>::decode_err(v))
            } else {
                match lookup(m, "name"@) {
                    None => plain_err(BaseErr::MissingField("name"@)),
                    Some(w) => in_field("name"@, <String as Converter>::decode_err(w)),
                }
            },
        }
    }

    fn to_map(&self) -> (r: Vec<(String, FieldValue)>) {
        let mut r: Vec<(String, FieldValue)> = Vec::new();
        r.push((String::from_str("id"), self.id.to_field_value()));
        r.push((String::from_str("name"), self.name.to_field_value()));
        proof {
            broadcast use lemma_entry_models_of;

            assert(entry_models_of(r@) =~= self.record_map());
        }
        r
    }

    fn from_map(m: Vec<(String, FieldValue)>) -> (r: Result<Self, ConversionError>) {
        let ghost es = entry_models_of(m@);
        let mut m = m;
        let key_id = String::from_str("id");
        let id = match take_entry(&mut m, &key_id) {
            Some(fv) => {
                proof {
                    broadcast use lemma_entry_values_wf;

                    lemma_distinct_item_keys();
                    let i = choose|i: int|
                        {
                            &&& 0 <= i < es.len()
                            &&& #[trigger] es[i] == (key_id@, fv@)
                            &&& (forall|j: int| 0 <= j < i ==> (#[trigger] es[j]).0 != key_id@)
                            &&& entry_models_of(m@) == es.remove(i)
                            &&& lookup(es, key_id@) == Some(fv@)
                        };
                    assert(es[i].0 == key_id@);
                    lemma_lookup_remove(es, i, "name"@);
                    assert(unique_keys(es) && entry_values_wf(es));
                    assert(model_wf(es[i].1));
                    assert(model_wf(fv@));
                }
                match i64::to_primitive(fv) {
                    Ok(v) => v,
                    Err(e) => {
                        return Err(ConversionError::FieldError(key_id, Box::new(e)));
                    },
                }
            },
            None => {
                return Err(ConversionError::MissingField(key_id));
            },
        };
        let key_name = String::from_str("name");
        let name = match take_entry(&mut m, &key_name) {
            Some(fv) => {
                proof {
                    broadcast use lemma_entry_values_wf;

                    assert(model_wf(fv@));
                }
                match String::to_primitive(fv) {
                    Ok(v) => v,
                    Err(e) => {
                        return Err(ConversionError::FieldError(key_name, Box::new(e)));
                    },
                }
            },
            None => {
                return Err(ConversionError::MissingField(key_name));
            },
        };
        Ok(Item { id, name })
    }

    proof fn lemma_record_map_wf(&self) {
        broadcast use lemma_entry_values_wf;

        lemma_distinct_item_keys();
        let es = self.record_map();
        assert(forall|i: int| 0 <= i < es.len() ==> model_wf((#[trigger] es[i]).1));
        assert(entry_values_wf(es));
        assert(es[0].0 == "id"@ && es[1].0 == "name"@);
        assert(unique_keys(es));
    }

    proof fn lemma_record_map_accepted(&self) {
        lemma_distinct_item_keys();
        let es = self.record_map();
        assert(es[0].0 == "id"@ && es[1].0 == "name"@);
        lemma_lookup_index(es, "id"@, 0);
        lemma_lookup_index(es, "name"@, 1);
    }
}

/// A sample record of one optional sequence of string-keyed integer
/// mappings, with the mapper a binding generator would emit for it.
pub struct Profile {
    pub data: Option<Vec<StrMap<i64>>>,
}

impl Mapper for Profile {
    open spec fn record_valid(&self) -> bool {
        self.data.valid()
    }

    open spec fn record_map(&self) -> Seq<(Seq<char>, ValModel)> {
        seq![("data"@, self.data.encoding())]
    }

    open spec fn map_accepts(m: Seq<(Seq<char>, ValModel)>) -> bool {
        match lookup(m, "data"@) {
            Some(v) => <Option<Vec<StrMap<i64>>> as Converter>::accepts(v),
            None => false,
        }
    }

    open spec fn is_record_decoding_of(&self, m: Seq<(Seq<char>, ValModel)>) -> bool {
        match lookup(m, "data"@) {
            Some(v) => self.data.is_decoding_of(v),
            None => false,
        }
    }

    open spec fn map_err(m: Seq<(Seq<char>, ValModel)>) -> ErrModel {
        match lookup(m, "data"@) {
            None => plain_err(BaseErr::MissingField("data"@)),
            Some(v) => in_field("data"@, <Option<Vec<StrMap<i64>>> as Converter>::decode_err(v)),
        }
    }

    fn to_map(&self) -> (r: Vec<(String, FieldValue)>) {
        let mut r: Vec<(String, FieldValue)> = Vec::new();
        r.push((String::from_str("data"), self.data.to_field_value()));
        proof {
            broadcast use lemma_entry_models_of;

            assert(entry_models_of(r@) =~= self.record_map());
        }
        r
    }

    fn from_map(m: Vec<(String, FieldValue)>) -> (r: Result<Self, ConversionError>) {
        let ghost es = entry_models_of(m@);
        let mut m = m;
        let key_data = String::from_str("data");
        match take_entry(&mut m, &key_data) {
            Some(fv) => {
                proof {
                    broadcast use lemma_entry_values_wf;

                    let i = choose|i: int|
                        {
                            &&& 0 <= i < es.len()
                            &&& #[trigger] es[i] == (key_data@, fv@)
                            &&& (forall|j: int| 0 <= j < i ==> (#[trigger] es[j]).0 != key_data@)
                            &&& entry_models_of(m@) == es.remove(i)
                            &&& lookup(es, key_data@) == Some(fv@)
                        };
                    assert(unique_keys(es) && entry_values_wf(es));
                    assert(model_wf(es[i].1));
                    assert(model_wf(fv@));
                }
                match <Option<Vec<StrMap<i64>>> as Converter>::to_primitive(fv) {
                    Ok(v) => Ok(Profile { data: v }),
                    Err(e) => Err(ConversionError::FieldError(key_data, Box::new(e))),
                }
            },
            None => Err(ConversionError::MissingField(key_data)),
        }
    }

    proof fn lemma_record_map_wf(&self) {
        broadcast use lemma_entry_values_wf;

        let es = self.record_map();
        self.data.lemma_encoding_wf();
        assert(forall|i: int| 0 <= i < es.len() ==> model_wf((#[trigger] es[i]).1));
        assert(entry_values_wf(es));
        assert(unique_keys(es));
    }

    proof fn lemma_record_map_accepted(&self) {
        let es = self.record_map();
        self.data.lemma_encoding_accepted();
        assert(es[0].0 == "data"@);
        lemma_lookup_index(es, "data"@, 0);
    }
}

/// A sample record holding another record, converted through that
/// record's own mapper: records are first-class wherever a converter is
/// expected.
pub struct Wrapper {
    pub item: Item,
}

impl Mapper for Wrapper {
    open spec fn record_valid(&self) -> bool {
        self.item.record_valid()
    }

    open spec fn record_map(&self) -> Seq<(Seq<char>, ValModel)> {
        seq![("item"@, self.item.encoding())]
    }

    open spec fn map_accepts(m: Seq<(Seq<char>, ValModel)>) -> bool {
        match lookup(m, "item"@) {
            Some(v) => <Item as Converter>::accepts(v),
            None => false,
        }
    }

    open spec fn is_record_decoding_of(&self, m: Seq<(Seq<char>, ValModel)>) -> bool {
        match lookup(m, "item"@) {
            Some(v) => self.item.is_decoding_of(v),
            None => false,
        }
    }

    open spec fn map_err(m: Seq<(Seq<char>, ValModel)>) -> ErrModel {
        match lookup(m, "item"@) {
            None => plain_err(BaseErr::MissingField("item"@)),
            Some(v) => in_field("item"@, <Item as Converter>::decode_err(v)),
        }
    }

    fn to_map(&self) -> (r: Vec<(String, FieldValue)>) {
        let mut r: Vec<(String, FieldValue)> = Vec::new();
        r.push((String::from_str("item"), self.item.to_field_value()));
        proof {
            broadcast use lemma_entry_models_of;

            assert(entry_models_of(r@) =~= self.record_map());
        }
        r
    }

    fn from_map(m: Vec<(String, FieldValue)>) -> (r: Result<Self, ConversionError>) {
        let ghost es = entry_models_of(m@);
        let mut m = m;
        let key_item = String::from_str("item");
        match take_entry(&mut m, &key_item) {
            Some(fv) => {
                proof {
                    broadcast use lemma_entry_values_wf;

                    let i = choose|i: int|
                        {
                            &&& 0 <= i < es.len()
                            &&& #[trigger] es[i] == (key_item@, fv@)
                            &&& (forall|j: int| 0 <= j < i ==> (#[trigger] es[j]).0 != key_item@)
                            &&& entry_models_of(m@) == es.remove(i)
                            &&& lookup(es, key_item@) == Some(fv@)
                        };
                    assert(unique_keys(es) && entry_values_wf(es));
                    assert(model_wf(es[i].1));
                    assert(model_wf(fv@));
                }
                match <Item as Converter>::to_primitive(fv) {
                    Ok(v) => Ok(Wrapper { item: v }),
                    Err(e) => Err(ConversionError::FieldError(key_item, Box::new(e))),
                }
            },
            None => Err(ConversionError::MissingField(key_item)),
        }
    }

    proof fn lemma_record_map_wf(&self) {
        broadcast use lemma_entry_values_wf;

        let es = self.record_map();
        self.item.lemma_encoding_wf();
        assert(forall|i: int| 0 <= i < es.len() ==> model_wf((#[trigger] es[i]).1));
        assert(entry_values_wf(es));
        assert(unique_keys(es));
    }

    proof fn lemma_record_map_accepted(&self) {
        let es = self.record_map();
        self.item.lemma_encoding_accepted();
        assert(es[0].0 == "item"@);
        lemma_lookup_index(es, "item"@, 0);
    }
}

/// The two field names of [`Item`] are distinct.
proof fn lemma_distinct_item_keys()
    ensures
        "id"@ != "name"@,
{
    reveal_strlit("id");
    reveal_strlit("name");
    assert("id"@.len() == 2);
    assert("name"@.len() == 4);
}

} // verus!
