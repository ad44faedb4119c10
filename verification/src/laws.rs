use vstd::prelude::*;

use crate::containers::StrMap;
use crate::convert::Converter;
use crate::record::{Item, Mapper};
use crate::value::{ValModel, lemma_lookup_index, lemma_lookup_push, model_wf};

verus! {

/// Round-trip law for booleans: decoding accepts every encoded value,
/// and the only decoding of an encoded value is the value itself.
pub proof fn lemma_round_trip_bool(v: bool)
    ensures
        <bool as Converter>::accepts(v.encoding()),
        forall|w: bool| #[trigger] w.is_decoding_of(v.encoding()) ==> w == v,
{
}

/// Round-trip law for text: the only decoding of an encoded string
/// holds the same characters.
pub proof fn lemma_round_trip_string(v: &String)
    ensures
        <String as Converter>::accepts(v.encoding()),
        forall|w: String| #[trigger] w.is_decoding_of(v.encoding()) ==> w@ == v@,
{
}

/// Round-trip law for single characters, which travel as one-character
/// strings.
pub proof fn lemma_round_trip_char(v: char)
    ensures
        <char as Converter>::accepts(v.encoding()),
        forall|w: char| #[trigger] w.is_decoding_of(v.encoding()) ==> w == v,
{
    assert forall|w: char| #[trigger] w.is_decoding_of(v.encoding()) implies w == v by {
        assert(seq![w] == seq![v]);
        assert(seq![w][0] == seq![v][0]);
    }
}

/// Round-trip law for the time composite.
pub proof fn lemma_round_trip_time(v: crate::value::Time)
    ensures
        <crate::value::Time as Converter>::accepts(v.encoding()),
        forall|w: crate::value::Time| #[trigger] w.is_decoding_of(v.encoding()) ==> w == v,
{
}

/// Round-trip law for 8-bit signed integers, which travel widened to
/// 64 bits.
pub proof fn lemma_round_trip_i8(v: i8)
    ensures
        <i8 as Converter>::accepts(v.encoding()),
        forall|w: i8| #[trigger] w.is_decoding_of(v.encoding()) ==> w == v,
{
}

/// Round-trip law for 16-bit signed integers.
pub proof fn lemma_round_trip_i16(v: i16)
    ensures
        <i16 as Converter>::accepts(v.encoding()),
        forall|w: i16| #[trigger] w.is_decoding_of(v.encoding()) ==> w == v,
{
}

/// Round-trip law for 32-bit signed integers.
pub proof fn lemma_round_trip_i32(v: i32)
    ensures
        <i32 as Converter>::accepts(v.encoding()),
        forall|w: i32| #[trigger] w.is_decoding_of(v.encoding()) ==> w == v,
{
}

/// Round-trip law for 64-bit signed integers.
pub proof fn lemma_round_trip_i64(v: i64)
    ensures
        <i64 as Converter>::accepts(v.encoding()),
        forall|w: i64| #[trigger] w.is_decoding_of(v.encoding()) ==> w == v,
{
}

/// Round-trip law for platform-word signed integers.
pub proof fn lemma_round_trip_isize(v: isize)
    ensures
        <isize as Converter>::accepts(v.encoding()),
        forall|w: isize| #[trigger] w.is_decoding_of(v.encoding()) ==> w == v,
{
}

/// Round-trip law for 8-bit unsigned integers.
pub proof fn lemma_round_trip_u8(v: u8)
    ensures
        <u8 as Converter>::accepts(v.encoding()),
        forall|w: u8| #[trigger] w.is_decoding_of(v.encoding()) ==> w == v,
{
}

/// Round-trip law for 16-bit unsigned integers.
pub proof fn lemma_round_trip_u16(v: u16)
    ensures
        <u16 as Converter>::accepts(v.encoding()),
        forall|w: u16| #[trigger] w.is_decoding_of(v.encoding()) ==> w == v,
{
}

/// Round-trip law for 32-bit unsigned integers.
pub proof fn lemma_round_trip_u32(v: u32)
    ensures
        <u32 as Converter>::accepts(v.encoding()),
        forall|w: u32| #[trigger] w.is_decoding_of(v.encoding()) ==> w == v,
{
}

/// Record round-trip law: every valid record encodes to a well-formed
/// mapping that its own decoding accepts.
pub proof fn lemma_record_round_trip<R: Mapper>(r: &R)
    requires
        r.record_valid(),
    ensures
        R::map_accepts(r.record_map()),
        model_wf(ValModel::Mapping(r.record_map())),
{
    r.lemma_record_map_accepted();
    r.lemma_record_map_wf();
}

/// Record round-trip, pinned down for the sample record: the only
/// decoding of an encoded [`Item`] carries the same field values.
pub proof fn lemma_item_decode_unique(v: &Item)
    ensures
        forall|w: Item| #[trigger] w.is_record_decoding_of(v.record_map()) ==> w.id == v.id
            && w.name@ == v.name@,
{
    reveal_strlit("id");
    reveal_strlit("name");
    assert("id"@.len() == 2 && "name"@.len() == 4);
    let es = v.record_map();
    assert(es[0].0 == "id"@ && es[1].0 == "name"@);
    lemma_lookup_index(es, "id"@, 0);
    lemma_lookup_index(es, "name"@, 1);
}

/// Record round-trip through nesting: the only decoding of an encoded
/// [`Wrapper`] carries the same inner record.
pub proof fn lemma_wrapper_decode_unique(v: &crate::record::Wrapper)
    ensures
        forall|w: crate::record::Wrapper| #[trigger] w.is_record_decoding_of(v.record_map())
            ==> w.item.id == v.item.id && w.item.name@ == v.item.name@,
{
    let es = v.record_map();
    assert(es[0].0 == "item"@);
    lemma_lookup_index(es, "item"@, 0);
    lemma_item_decode_unique(&v.item);
}

/// Extra keys are ignored: an entry under a key that matches no
/// declared field changes neither whether a mapping decodes as an
/// [`Item`] nor what it decodes to.
pub proof fn lemma_item_extra_keys_ignored(
    m: Seq<(Seq<char>, ValModel)>,
    k: Seq<char>,
    x: ValModel,
)
    requires
        k != "id"@,
        k != "name"@,
    ensures
        Item::map_accepts(m.push((k, x))) == Item::map_accepts(m),
        forall|w: Item| #[trigger] w.is_record_decoding_of(m.push((k, x)))
            == w.is_record_decoding_of(m),
{
    lemma_lookup_push(m, (k, x), "id"@);
    lemma_lookup_push(m, (k, x), "name"@);
}

/// A decoded string-keyed integer mapping carries exactly the dynamic
/// content it was decoded from.
pub proof fn lemma_strmap_i64_faithful(v: StrMap<i64>, w: StrMap<i64>)
    requires
        w.is_decoding_of(v.encoding()),
    ensures
        w.encoding() == v.encoding(),
{
    let es = v.encoding()->Mapping_0;
    let fs = w.encoding()->Mapping_0;
    assert(fs.len() == es.len());
    assert forall|i: int| 0 <= i < es.len() implies fs[i] == es[i] by {
        assert(w@[i].0 == es[i].0 && w@[i].1.is_decoding_of(es[i].1));
        assert(es[i].1 == v@[i].1.encoding());
    }
    assert(fs =~= es);
}

/// A decoded sequence of string-keyed integer mappings carries exactly
/// the dynamic content it was decoded from.
pub proof fn lemma_vec_strmap_faithful(v: Vec<StrMap<i64>>, w: Vec<StrMap<i64>>)
    requires
        w.is_decoding_of(v.encoding()),
    ensures
        w.encoding() == v.encoding(),
{
    let s = v.encoding()->Array_0;
    let t = w.encoding()->Array_0;
    assert(t.len() == s.len());
    assert forall|i: int| 0 <= i < s.len() implies t[i] == s[i] by {
        assert(w@[i].is_decoding_of(s[i]));
        assert(s[i] == v@[i].encoding());
        lemma_strmap_i64_faithful(v@[i], w@[i]);
    }
    assert(t =~= s);
}

/// Nested composition: an optional sequence of string-keyed integer
/// mappings round-trips — decoding accepts every encoded value, the
/// decoded value is present exactly when the original was, and it
/// carries the same dynamic content.
pub proof fn lemma_nested_round_trip(v: Option<Vec<StrMap<i64>>>, w: Option<Vec<StrMap<i64>>>)
    requires
        v.valid(),
        w.is_decoding_of(v.encoding()),
    ensures
        <Option<Vec<StrMap<i64>>> as Converter>::accepts(v.encoding()),
        w is Some <==> v is Some,
        w.encoding() == v.encoding(),
{
    v.lemma_encoding_accepted();
    match v {
        Option::None => {},
        Option::Some(vs) => {
            assert(!(v.encoding() is Null));
            let ws = w->0;
            lemma_vec_strmap_faithful(vs, ws);
        },
    }
}

} // verus!
