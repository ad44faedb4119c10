use vstd::prelude::*;

verus! {

/// Why a decode failed.
///
/// `TypeMismatch`: the dynamic value's variant does not match what the
/// target type requires. `RangeError`: the variant matches but the
/// magnitude cannot be represented by the target numeric type.
/// `MissingField`: a record's declared field has no entry in the input
/// mapping. `KeyConversionError`: a mapping's key string cannot be
/// converted into the target key type. `FieldError` wraps any of these
/// with the offending field name; record decoding propagates the first
/// failure it meets and never accumulates errors.
#[derive(Debug)]
pub enum ConversionError {
    TypeMismatch,
    RangeError,
    MissingField(String),
    KeyConversionError(String),
    FieldError(String, Box<ConversionError>),
}

/// The error a decode is specified to yield, as mathematics: a base
/// failure together with the path of field names that wrapped it,
/// outermost first.
pub struct ErrModel {
    pub path: Seq<Seq<char>>,
    pub base: BaseErr,
}

/// The base failures of the taxonomy, without field attribution.
pub enum BaseErr {
    TypeMismatch,
    RangeError,
    MissingField(Seq<char>),
    KeyConversionError(Seq<char>),
}

/// A base failure with no field attribution yet.
pub open spec fn plain_err(b: BaseErr) -> ErrModel {
    ErrModel { path: Seq::empty(), base: b }
}

/// The failure `e`, attributed to the field named `name`.
pub open spec fn in_field(name: Seq<char>, e: ErrModel) -> ErrModel {
    ErrModel { path: seq![name] + e.path, base: e.base }
}

/// The model an error value denotes.
pub open spec fn err_model_of(e: ConversionError) -> ErrModel
    decreases e,
{
    match e {
        ConversionError::TypeMismatch => plain_err(BaseErr::TypeMismatch),
        ConversionError::RangeError => plain_err(BaseErr::RangeError),
        ConversionError::MissingField(name) => plain_err(BaseErr::MissingField(name@)),
        ConversionError::KeyConversionError(key) => plain_err(BaseErr::KeyConversionError(key@)),
        ConversionError::FieldError(name, inner) => in_field(name@, err_model_of(*inner)),
    }
}

impl View for ConversionError {
    type V = ErrModel;

    open spec fn view(&self) -> ErrModel {
        err_model_of(*self)
    }
}

} // verus!
