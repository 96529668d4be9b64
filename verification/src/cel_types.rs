//! The types of CEL expressions, as `cel_core` holds them.

use vstd::prelude::*;

verus! {

/// A type without parameters.
#[derive(Debug, Clone, Copy, PartialEq, Eq)]
pub enum Scalar {
    Bool,
    Int,
    UInt,
    Double,
    String,
    Bytes,
    Null,
    Dyn,
    Timestamp,
    Duration,
    Error,
}

impl Scalar {
    /// The name of the type.
    pub open spec fn text(self) -> Seq<char> {
        match self {
            Scalar::Bool => "bool"@,
            Scalar::Int => "int"@,
            Scalar::UInt => "uint"@,
            Scalar::Double => "double"@,
            Scalar::String => "string"@,
            Scalar::Bytes => "bytes"@,
            Scalar::Null => "null"@,
            Scalar::Dyn => "dyn"@,
            Scalar::Timestamp => "timestamp"@,
            Scalar::Duration => "duration"@,
            Scalar::Error => "error"@,
        }
    }
}

/// What a type is: its constructor, and the types that it is made of.
pub enum TypeModel {
    Scalar(Scalar),
    List(Box<TypeModel>),
    KeyValue(Box<TypeModel>, Box<TypeModel>),
    Optional(Box<TypeModel>),
    Type(Box<TypeModel>),
    Wrapper(Box<TypeModel>),
    Message(Seq<char>),
    /// A type of another kind. Declarations make none.
    Other,
}

/// The type is made of types that declarations can make.
pub open spec fn is_declarable(model: TypeModel) -> bool
    decreases model,
{
    match model {
        TypeModel::Scalar(_) => true,
        TypeModel::List(inner) => is_declarable(*inner),
        TypeModel::KeyValue(key, value) => is_declarable(*key) && is_declarable(*value),
        TypeModel::Optional(inner) => is_declarable(*inner),
        TypeModel::Type(inner) => is_declarable(*inner),
        TypeModel::Wrapper(inner) => is_declarable(*inner),
        TypeModel::Message(_) => true,
        TypeModel::Other => false,
    }
}

/// The name that a type is shown under.
pub open spec fn display(model: TypeModel) -> Seq<char>
    decreases model,
{
    match model {
        TypeModel::Scalar(scalar) => scalar.text(),
        TypeModel::List(inner) => "list<"@ + display(*inner) + ">"@,
        TypeModel::KeyValue(key, value) => "map<"@ + display(*key) + ", "@ + display(*value)
            + ">"@,
        TypeModel::Optional(inner) => "optional<"@ + display(*inner) + ">"@,
        TypeModel::Type(inner) => "type("@ + display(*inner) + ")"@,
        TypeModel::Wrapper(inner) => "wrapper<"@ + display(*inner) + ">"@,
        TypeModel::Message(name) => name,
        TypeModel::Other => ""@,
    }
}

#[verifier::external_type_specification]
#[verifier::external_body]
pub struct ExCelType(cel_core::CelType);

/// What a `cel_core::CelType` holds.
pub uninterp spec fn type_model(cel_type: cel_core::CelType) -> TypeModel;

/// What each of a sequence of types holds.
pub open spec fn type_models(cel_types: Seq<cel_core::CelType>) -> Seq<TypeModel> {
    cel_types.map_values(|cel_type: cel_core::CelType| type_model(cel_type))
}

/// The variants of `cel_core::CelType` without parameters, each of which stands for the type of
/// its name.
#[verifier::external_body]
pub(crate) fn scalar_type(scalar: Scalar) -> (cel_type: cel_core::CelType)
    ensures
        type_model(cel_type) == TypeModel::Scalar(scalar),
{
    match scalar {
        Scalar::Bool => cel_core::CelType::Bool,
        Scalar::Int => cel_core::CelType::Int,
        Scalar::UInt => cel_core::CelType::UInt,
        Scalar::Double => cel_core::CelType::Double,
        Scalar::String => cel_core::CelType::String,
        Scalar::Bytes => cel_core::CelType::Bytes,
        Scalar::Null => cel_core::CelType::Null,
        Scalar::Dyn => cel_core::CelType::Dyn,
        Scalar::Timestamp => cel_core::CelType::Timestamp,
        Scalar::Duration => cel_core::CelType::Duration,
        Scalar::Error => cel_core::CelType::Error,
    }
}

/// `cel_core::CelType::list`, which makes the type of lists of a type.
pub assume_specification[ cel_core::CelType::list ](elem: cel_core::CelType) -> (list:
    cel_core::CelType)
    ensures
        type_model(list) == TypeModel::List(Box::new(type_model(elem))),
;

/// `cel_core::CelType::map`, which makes the type of maps from keys of one type to values of
/// another.
pub assume_specification[ cel_core::CelType::map ](
    key: cel_core::CelType,
    value: cel_core::CelType,
) -> (map: cel_core::CelType)
    ensures
        type_model(map) == TypeModel::KeyValue(
            Box::new(type_model(key)),
            Box::new(type_model(value)),
        ),
;

/// `cel_core::CelType::optional`, which makes the type of values of a type that may be missing.
pub assume_specification[ cel_core::CelType::optional ](inner: cel_core::CelType) -> (optional:
    cel_core::CelType)
    ensures
        type_model(optional) == TypeModel::Optional(Box::new(type_model(inner))),
;

/// `cel_core::CelType::type_of`, which makes the type of a type.
pub assume_specification[ cel_core::CelType::type_of ](inner: cel_core::CelType) -> (type_of:
    cel_core::CelType)
    ensures
        type_model(type_of) == TypeModel::Type(Box::new(type_model(inner))),
;

/// `cel_core::CelType::wrapper`, which makes the type of messages that wrap a value of a type.
pub assume_specification[ cel_core::CelType::wrapper ](inner: cel_core::CelType) -> (wrapper:
    cel_core::CelType)
    ensures
        type_model(wrapper) == TypeModel::Wrapper(Box::new(type_model(inner))),
;

/// `cel_core::CelType::message`, which makes the type of messages of a name.
pub assume_specification[ cel_core::CelType::message ](name: &str) -> (message: cel_core::CelType)
    ensures
        type_model(message) == TypeModel::Message(name@),
;

/// `cel_core::CelType::display_name`, which names a type for users. The contract says nothing of
/// types that declarations cannot make.
pub assume_specification[ cel_core::CelType::display_name ](cel_type: &cel_core::CelType) -> (name:
    String)
    ensures
        is_declarable(type_model(*cel_type)) ==> name@ == display(type_model(*cel_type)),
;

} // verus!
