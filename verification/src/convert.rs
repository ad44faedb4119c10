use vstd::prelude::*;

use crate::error::{BaseErr, ConversionError, ErrModel, plain_err};
use crate::value::{FieldValue, Time, ValModel, model_wf};
use vstd::string::StrSliceExecFns;

verus! {

/// The per-type conversion capability: a bidirectional mapping between
/// one concrete type and the dynamic value model.
///
/// Encoding is total over [`Converter::valid`] values and never fails;
/// decoding is partial. `accepts` is the exact domain of successful
/// decoding; on a rejected value, decoding yields exactly
/// [`Converter::decode_err`]. A successful decode stands in
/// [`Converter::is_decoding_of`] to its input, which pins the result
/// down for every built-in type.
pub trait Converter: Sized {
    /// Structural well-formedness of a value of this type: what its
    /// constructors establish (for scalars, every value qualifies).
    spec fn valid(&self) -> bool;

    /// The dynamic value this value encodes to.
    spec fn encoding(&self) -> ValModel;

    /// The exact set of dynamic values this type decodes successfully.
    spec fn accepts(m: ValModel) -> bool;

    /// Relates a decode result to the dynamic value it came from.
    spec fn is_decoding_of(&self, m: ValModel) -> bool;

    /// The error decoding yields on a rejected dynamic value.
    spec fn decode_err(m: ValModel) -> ErrModel;

    /// Encode: total, never fails.
    fn to_field_value(&self) -> (r: FieldValue)
        requires
            self.valid(),
        ensures
            r@ == self.encoding(),
    ;

    /// Decode: takes ownership of the dynamic value; fails exactly on
    /// values outside `accepts`, with the error `decode_err` names.
    fn to_primitive(fv: FieldValue) -> (r: Result<Self, ConversionError>)
        requires
            model_wf(fv@),
        ensures
            match r {
                Ok(v) => Self::accepts(fv@) && v.is_decoding_of(fv@) && v.valid(),
                Err(e) => !Self::accepts(fv@) && e@ == Self::decode_err(fv@),
            },
    ;

    /// Encoding a valid value always yields a well-formed dynamic value.
    proof fn lemma_encoding_wf(&self)
        requires
            self.valid(),
        ensures
            model_wf(self.encoding()),
    ;

    /// Decoding accepts every encoded value: decode of encode succeeds.
    proof fn lemma_encoding_accepted(&self)
        requires
            self.valid(),
        ensures
            Self::accepts(self.encoding()),
    ;
}

impl FieldValue {
    /// Decode this dynamic value into any type with a converter.
    pub fn to_primitive<T: Converter>(self) -> (r: Result<T, ConversionError>)
        requires
            model_wf(self@),
        ensures
            match r {
                Ok(v) => T::accepts(self@) && v.is_decoding_of(self@) && v.valid(),
                Err(e) => !T::accepts(self@) && e@ == T::decode_err(self@),
            },
    {
        T::to_primitive(self)
    }
}

impl Converter for bool {
    open spec fn valid(&self) -> bool {
        true
    }

    open spec fn encoding(&self) -> ValModel {
        ValModel::Boolean(*self)
    }

    open spec fn accepts(m: ValModel) -> bool {
        m matches ValModel::Boolean(_)
    }

    open spec fn is_decoding_of(&self, m: ValModel) -> bool {
        m == ValModel::Boolean(*self)
    }

    open spec fn decode_err(m: ValModel) -> ErrModel {
        plain_err(BaseErr::TypeMismatch)
    }

    fn to_field_value(&self) -> (r: FieldValue) {
        FieldValue::Boolean(*self)
    }

    fn to_primitive(fv: FieldValue) -> (r: Result<Self, ConversionError>) {
        match fv {
            FieldValue::Boolean(value) => Ok(value),
            _ => Err(ConversionError::TypeMismatch),
        }
    }

    proof fn lemma_encoding_wf(&self) {
    }

    proof fn lemma_encoding_accepted(&self) {
    }
}

impl Converter for String {
    open spec fn valid(&self) -> bool {
        true
    }

    open spec fn encoding(&self) -> ValModel {
        ValModel::Text(self@)
    }

    open spec fn accepts(m: ValModel) -> bool {
        m matches ValModel::Text(_)
    }

    open spec fn is_decoding_of(&self, m: ValModel) -> bool {
        m == ValModel::Text(self@)
    }

    open spec fn decode_err(m: ValModel) -> ErrModel {
        plain_err(BaseErr::TypeMismatch)
    }

    fn to_field_value(&self) -> (r: FieldValue) {
        FieldValue::Text(self.clone())
    }

    fn to_primitive(fv: FieldValue) -> (r: Result<Self, ConversionError>) {
        match fv {
            FieldValue::Text(value) => Ok(value),
            _ => Err(ConversionError::TypeMismatch),
        }
    }

    proof fn lemma_encoding_wf(&self) {
    }

    proof fn lemma_encoding_accepted(&self) {
    }
}

/// Relies on char::to_string: the result is the one-character string
/// holding exactly the given character.
#[verifier::external_body]
fn char_to_string(c: char) -> (r: String)
    ensures
        r@ == seq![c],
{
    c.to_string()
}

impl Converter for char {
    open spec fn valid(&self) -> bool {
        true
    }

    open spec fn encoding(&self) -> ValModel {
        ValModel::Text(seq![*self])
    }

    open spec fn accepts(m: ValModel) -> bool {
        m matches ValModel::Text(s) && s.len() == 1
    }

    open spec fn is_decoding_of(&self, m: ValModel) -> bool {
        m == ValModel::Text(seq![*self])
    }

    open spec fn decode_err(m: ValModel) -> ErrModel {
        plain_err(BaseErr::TypeMismatch)
    }

    fn to_field_value(&self) -> (r: FieldValue) {
        FieldValue::Text(char_to_string(*self))
    }

    fn to_primitive(fv: FieldValue) -> (r: Result<Self, ConversionError>) {
        match fv {
            FieldValue::Text(value) => {
                if value.as_str().unicode_len() == 1 {
                    let c = value.as_str().get_char(0);
                    proof {
                        assert(value@ =~= seq![c]);
                    }
                    Ok(c)
                } else {
                    Err(ConversionError::TypeMismatch)
                }
            },
            _ => Err(ConversionError::TypeMismatch),
        }
    }

    proof fn lemma_encoding_wf(&self) {
    }

    proof fn lemma_encoding_accepted(&self) {
    }
}

impl Converter for Time {
    open spec fn valid(&self) -> bool {
        true
    }

    open spec fn encoding(&self) -> ValModel {
        ValModel::Time(*self)
    }

    open spec fn accepts(m: ValModel) -> bool {
        m matches ValModel::Time(_)
    }

    open spec fn is_decoding_of(&self, m: ValModel) -> bool {
        m == ValModel::Time(*self)
    }

    open spec fn decode_err(m: ValModel) -> ErrModel {
        plain_err(BaseErr::TypeMismatch)
    }

    fn to_field_value(&self) -> (r: FieldValue) {
        FieldValue::Time(*self)
    }

    fn to_primitive(fv: FieldValue) -> (r: Result<Self, ConversionError>) {
        match fv {
            FieldValue::Time(value) => Ok(value),
            _ => Err(ConversionError::TypeMismatch),
        }
    }

    proof fn lemma_encoding_wf(&self) {
    }

    proof fn lemma_encoding_accepted(&self) {
    }
}

impl Converter for i64 {
    open spec fn valid(&self) -> bool {
        true
    }

    open spec fn encoding(&self) -> ValModel {
        ValModel::Integer(*self)
    }

    open spec fn accepts(m: ValModel) -> bool {
        m matches ValModel::Integer(_)
    }

    open spec fn is_decoding_of(&self, m: ValModel) -> bool {
        m == ValModel::Integer(*self)
    }

    open spec fn decode_err(m: ValModel) -> ErrModel {
        plain_err(BaseErr::TypeMismatch)
    }

    fn to_field_value(&self) -> (r: FieldValue) {
        FieldValue::Integer(*self)
    }

    fn to_primitive(fv: FieldValue) -> (r: Result<Self, ConversionError>) {
        match fv {
            FieldValue::Integer(value) => Ok(value),
            _ => Err(ConversionError::TypeMismatch),
        }
    }

    proof fn lemma_encoding_wf(&self) {
    }

    proof fn lemma_encoding_accepted(&self) {
    }
}

impl Converter for i8 {
    open spec fn valid(&self) -> bool {
        true
    }

    open spec fn encoding(&self) -> ValModel {
        ValModel::Integer(*self as i64)
    }

    open spec fn accepts(m: ValModel) -> bool {
        m matches ValModel::Integer(n) && i8::MIN as i64 <= n && n <= i8::MAX as i64
    }

    open spec fn is_decoding_of(&self, m: ValModel) -> bool {
        m == ValModel::Integer(*self as i64)
    }

    open spec fn decode_err(m: ValModel) -> ErrModel {
        if m matches ValModel::Integer(_) {
            plain_err(BaseErr::RangeError)
        } else {
            plain_err(BaseErr::TypeMismatch)
        }
    }

    fn to_field_value(&self) -> (r: FieldValue) {
        FieldValue::Integer(*self as i64)
    }

    fn to_primitive(fv: FieldValue) -> (r: Result<Self, ConversionError>) {
        match fv {
            FieldValue::Integer(value) => {
                if i8::MIN as i64 <= value && value <= i8::MAX as i64 {
                    Ok(value as i8)
                } else {
                    Err(ConversionError::RangeError)
                }
            },
            _ => Err(ConversionError::TypeMismatch),
        }
    }

    proof fn lemma_encoding_wf(&self) {
    }

    proof fn lemma_encoding_accepted(&self) {
    }
}

impl Converter for i16 {
    open spec fn valid(&self) -> bool {
        true
    }

    open spec fn encoding(&self) -> ValModel {
        ValModel::Integer(*self as i64)
    }

    open spec fn accepts(m: ValModel) -> bool {
        m matches ValModel::Integer(n) && i16::MIN as i64 <= n && n <= i16::MAX as i64
    }

    open spec fn is_decoding_of(&self, m: ValModel) -> bool {
        m == ValModel::Integer(*self as i64)
    }

    open spec fn decode_err(m: ValModel) -> ErrModel {
        if m matches ValModel::Integer(_) {
            plain_err(BaseErr::RangeError)
        } else {
            plain_err(BaseErr::TypeMismatch)
        }
    }

    fn to_field_value(&self) -> (r: FieldValue) {
        FieldValue::Integer(*self as i64)
    }

    fn to_primitive(fv: FieldValue) -> (r: Result<Self, ConversionError>) {
        match fv {
            FieldValue::Integer(value) => {
                if i16::MIN as i64 <= value && value <= i16::MAX as i64 {
                    Ok(value as i16)
                } else {
                    Err(ConversionError::RangeError)
                }
            },
            _ => Err(ConversionError::TypeMismatch),
        }
    }

    proof fn lemma_encoding_wf(&self) {
    }

    proof fn lemma_encoding_accepted(&self) {
    }
}

impl Converter for i32 {
    open spec fn valid(&self) -> bool {
        true
    }

    open spec fn encoding(&self) -> ValModel {
        ValModel::Integer(*self as i64)
    }

    open spec fn accepts(m: ValModel) -> bool {
        m matches ValModel::Integer(n) && i32::MIN as i64 <= n && n <= i32::MAX as i64
    }

    open spec fn is_decoding_of(&self, m: ValModel) -> bool {
        m == ValModel::Integer(*self as i64)
    }

    open spec fn decode_err(m: ValModel) -> ErrModel {
        if m matches ValModel::Integer(_) {
            plain_err(BaseErr::RangeError)
        } else {
            plain_err(BaseErr::TypeMismatch)
        }
    }

    fn to_field_value(&self) -> (r: FieldValue) {
        FieldValue::Integer(*self as i64)
    }

    fn to_primitive(fv: FieldValue) -> (r: Result<Self, ConversionError>) {
        match fv {
            FieldValue::Integer(value) => {
                if i32::MIN as i64 <= value && value <= i32::MAX as i64 {
                    Ok(value as i32)
                } else {
                    Err(ConversionError::RangeError)
                }
            },
            _ => Err(ConversionError::TypeMismatch),
        }
    }

    proof fn lemma_encoding_wf(&self) {
    }

    proof fn lemma_encoding_accepted(&self) {
    }
}

impl Converter for isize {
    open spec fn valid(&self) -> bool {
        true
    }

    open spec fn encoding(&self) -> ValModel {
        ValModel::Integer(*self as i64)
    }

    open spec fn accepts(m: ValModel) -> bool {
        m matches ValModel::Integer(n) && isize::MIN as i64 <= n && n <= isize::MAX as i64
    }

    open spec fn is_decoding_of(&self, m: ValModel) -> bool {
        m == ValModel::Integer(*self as i64)
    }

    open spec fn decode_err(m: ValModel) -> ErrModel {
        if m matches ValModel::Integer(_) {
            plain_err(BaseErr::RangeError)
        } else {
            plain_err(BaseErr::TypeMismatch)
        }
    }

    fn to_field_value(&self) -> (r: FieldValue) {
        FieldValue::Integer(*self as i64)
    }

    fn to_primitive(fv: FieldValue) -> (r: Result<Self, ConversionError>) {
        match fv {
            FieldValue::Integer(value) => {
                if isize::MIN as i64 <= value && value <= isize::MAX as i64 {
                    Ok(value as isize)
                } else {
                    Err(ConversionError::RangeError)
                }
            },
            _ => Err(ConversionError::TypeMismatch),
        }
    }

    proof fn lemma_encoding_wf(&self) {
    }

    proof fn lemma_encoding_accepted(&self) {
    }
}

impl Converter for u8 {
    open spec fn valid(&self) -> bool {
        true
    }

    open spec fn encoding(&self) -> ValModel {
        ValModel::Integer(*self as i64)
    }

    open spec fn accepts(m: ValModel) -> bool {
        m matches ValModel::Integer(n) && 0 <= n && n <= u8::MAX as i64
    }

    open spec fn is_decoding_of(&self, m: ValModel) -> bool {
        m == ValModel::Integer(*self as i64)
    }

    open spec fn decode_err(m: ValModel) -> ErrModel {
        if m matches ValModel::Integer(_) {
            plain_err(BaseErr::RangeError)
        } else {
            plain_err(BaseErr::TypeMismatch)
        }
    }

    fn to_field_value(&self) -> (r: FieldValue) {
        FieldValue::Integer(*self as i64)
    }

    fn to_primitive(fv: FieldValue) -> (r: Result<Self, ConversionError>) {
        match fv {
            FieldValue::Integer(value) => {
                if 0 <= value && value <= u8::MAX as i64 {
                    Ok(value as u8)
                } else {
                    Err(ConversionError::RangeError)
                }
            },
            _ => Err(ConversionError::TypeMismatch),
        }
    }

    proof fn lemma_encoding_wf(&self) {
    }

    proof fn lemma_encoding_accepted(&self) {
    }
}

impl Converter for u16 {
    open spec fn valid(&self) -> bool {
        true
    }

    open spec fn encoding(&self) -> ValModel {
        ValModel::Integer(*self as i64)
    }

    open spec fn accepts(m: ValModel) -> bool {
        m matches ValModel::Integer(n) && 0 <= n && n <= u16::MAX as i64
    }

    open spec fn is_decoding_of(&self, m: ValModel) -> bool {
        m == ValModel::Integer(*self as i64)
    }

    open spec fn decode_err(m: ValModel) -> ErrModel {
        if m matches ValModel::Integer(_) {
            plain_err(BaseErr::RangeError)
        } else {
            plain_err(BaseErr::TypeMismatch)
        }
    }

    fn to_field_value(&self) -> (r: FieldValue) {
        FieldValue::Integer(*self as i64)
    }

    fn to_primitive(fv: FieldValue) -> (r: Result<Self, ConversionError>) {
        match fv {
            FieldValue::Integer(value) => {
                if 0 <= value && value <= u16::MAX as i64 {
                    Ok(value as u16)
                } else {
                    Err(ConversionError::RangeError)
                }
            },
            _ => Err(ConversionError::TypeMismatch),
        }
    }

    proof fn lemma_encoding_wf(&self) {
    }

    proof fn lemma_encoding_accepted(&self) {
    }
}

impl Converter for u32 {
    open spec fn valid(&self) -> bool {
        true
    }

    open spec fn encoding(&self) -> ValModel {
        ValModel::Integer(*self as i64)
    }

    open spec fn accepts(m: ValModel) -> bool {
        m matches ValModel::Integer(n) && 0 <= n && n <= u32::MAX as i64
    }

    open spec fn is_decoding_of(&self, m: ValModel) -> bool {
        m == ValModel::Integer(*self as i64)
    }

    open spec fn decode_err(m: ValModel) -> ErrModel {
        if m matches ValModel::Integer(_) {
            plain_err(BaseErr::RangeError)
        } else {
            plain_err(BaseErr::TypeMismatch)
        }
    }

    fn to_field_value(&self) -> (r: FieldValue) {
        FieldValue::Integer(*self as i64)
    }

    fn to_primitive(fv: FieldValue) -> (r: Result<Self, ConversionError>) {
        match fv {
            FieldValue::Integer(value) => {
                if 0 <= value && value <= u32::MAX as i64 {
                    Ok(value as u32)
                } else {
                    Err(ConversionError::RangeError)
                }
            },
            _ => Err(ConversionError::TypeMismatch),
        }
    }

    proof fn lemma_encoding_wf(&self) {
    }

    proof fn lemma_encoding_accepted(&self) {
    }
}

} // verus!
