//! Environments of CEL expressions, as `cel_core` holds them: the variables and functions that an
//! expression may use.

use crate::cel_types;
use crate::cel_types::{Scalar, TypeModel};
use vstd::prelude::*;

verus! {

/// One signature of a function.
pub struct OverloadModel {
    pub id: Seq<char>,
    pub params: Seq<TypeModel>,
    pub result: TypeModel,
    pub is_member: bool,
    pub type_params: Seq<Seq<char>>,
}

/// A function: its name, and its signatures.
pub struct FunctionModel {
    pub name: Seq<char>,
    pub overloads: Seq<OverloadModel>,
}

#[verifier::external_type_specification]
#[verifier::external_body]
pub struct ExOverloadDecl(cel_core::types::OverloadDecl);

#[verifier::external_type_specification]
#[verifier::external_body]
pub struct ExFunctionDecl(cel_core::types::FunctionDecl);

#[verifier::external_type_specification]
#[verifier::external_body]
pub struct ExEnv(cel_core::Env);

/// What a `cel_core::types::OverloadDecl` holds.
pub uninterp spec fn overload_model(decl: cel_core::types::OverloadDecl) -> OverloadModel;

/// What a `cel_core::types::FunctionDecl` holds.
pub uninterp spec fn function_model(decl: cel_core::types::FunctionDecl) -> FunctionModel;

/// The types of the variables of a `cel_core::Env`.
pub uninterp spec fn variables(env: cel_core::Env) -> Map<Seq<char>, TypeModel>;

/// The signatures of the functions of a `cel_core::Env`.
pub uninterp spec fn functions(env: cel_core::Env) -> Map<Seq<char>, Seq<OverloadModel>>;

/// `cel_core::types::OverloadDecl::function`, which makes a signature of a function that is no
/// member of a type and has no type parameters.
#[verifier::external_body]
pub(crate) fn new_overload(
    id: String,
    params: Vec<cel_core::CelType>,
    result: cel_core::CelType,
) -> (decl: cel_core::types::OverloadDecl)
    ensures
        overload_model(decl) == (OverloadModel {
            id: id@,
            params: cel_types::type_models(params@),
            result: cel_types::type_model(result),
            is_member: false,
            type_params: seq![],
        }),
{
    cel_core::types::OverloadDecl::function(id, params, result)
}

/// `cel_core::types::FunctionDecl::new`, which makes a function without signatures.
#[verifier::external_body]
pub(crate) fn new_function(name: &str) -> (decl: cel_core::types::FunctionDecl)
    ensures
        function_model(decl) == (FunctionModel { name: name@, overloads: seq![] }),
{
    cel_core::types::FunctionDecl::new(name)
}

/// `cel_core::types::FunctionDecl::with_overload`, which adds a signature behind the others.
pub assume_specification[ cel_core::types::FunctionDecl::with_overload ](
    decl: cel_core::types::FunctionDecl,
    overload: cel_core::types::OverloadDecl,
) -> (extended: cel_core::types::FunctionDecl)
    ensures
        function_model(extended) == (FunctionModel {
            name: function_model(decl).name,
            overloads: function_model(decl).overloads.push(overload_model(overload)),
        }),
;

/// The type of a constant that stands for a type.
pub open spec fn type_constant(model: TypeModel) -> TypeModel {
    TypeModel::Type(Box::new(model))
}

/// The constants for the types of the language.
pub open spec fn type_constants() -> Map<Seq<char>, TypeModel> {
    let dynamic = TypeModel::Scalar(Scalar::Dyn);
    map![
        "bool"@ => type_constant(TypeModel::Scalar(Scalar::Bool)),
        "int"@ => type_constant(TypeModel::Scalar(Scalar::Int)),
        "uint"@ => type_constant(TypeModel::Scalar(Scalar::UInt)),
        "double"@ => type_constant(TypeModel::Scalar(Scalar::Double)),
        "string"@ => type_constant(TypeModel::Scalar(Scalar::String)),
        "bytes"@ => type_constant(TypeModel::Scalar(Scalar::Bytes)),
        "list"@ => type_constant(TypeModel::List(Box::new(dynamic))),
        "map"@ => type_constant(TypeModel::KeyValue(Box::new(dynamic), Box::new(dynamic))),
        "null_type"@ => type_constant(TypeModel::Scalar(Scalar::Null)),
        "type"@ => type_constant(type_constant(dynamic)),
        "dyn"@ => type_constant(dynamic)
    ]
}

/// The constant for the type of optional values.
pub open spec fn optional_constant() -> TypeModel {
    type_constant(TypeModel::Optional(Box::new(TypeModel::Scalar(Scalar::Dyn))))
}

/// `cel_core::Env::with_standard_library`. The contract claims which variables it declares: the
/// constants for the types of the language. It does not say which functions there are.
pub assume_specification[ cel_core::Env::with_standard_library ]() -> (env: cel_core::Env)
    ensures
        variables(env) == type_constants(),
;

/// The functions that there are once those of all extensions are added.
pub uninterp spec fn extended_functions(functions: Map<Seq<char>, Seq<OverloadModel>>) -> Map<
    Seq<char>,
    Seq<OverloadModel>,
>;

/// `cel_core::Env::with_all_extensions`. The contract claims that it declares the constant for the
/// type of optional values, and that the functions depend on those that were there, which keep their
/// signatures. It does not say which functions are added.
pub assume_specification[ cel_core::Env::with_all_extensions ](env: cel_core::Env) -> (extended:
    cel_core::Env)
    ensures
        variables(extended) == variables(env).insert("optional_type"@, optional_constant()),
        functions(extended) == extended_functions(functions(env)),
        forall|name: Seq<char>| #[trigger]
            functions(env).contains_key(name) ==> functions(extended).contains_key(name)
                && functions(env)[name].is_prefix_of(functions(extended)[name]),
;

/// `cel_core::Env::with_variable`, which declares a variable in place of an earlier one of the same
/// name, and leaves all else as it is.
#[verifier::external_body]
pub(crate) fn with_variable(env: cel_core::Env, name: &str, cel_type: cel_core::CelType) -> (extended:
    cel_core::Env)
    ensures
        variables(extended) == variables(env).insert(name@, cel_types::type_model(cel_type)),
        functions(extended) == functions(env),
{
    env.with_variable(name, cel_type)
}

/// The functions with one more: its signatures come behind those of a function of the same name.
pub open spec fn with_one_more(
    functions: Map<Seq<char>, Seq<OverloadModel>>,
    decl: FunctionModel,
) -> Map<Seq<char>, Seq<OverloadModel>> {
    if functions.contains_key(decl.name) {
        functions.insert(decl.name, functions[decl.name] + decl.overloads)
    } else {
        functions.insert(decl.name, decl.overloads)
    }
}

/// `cel_core::Env::with_function`, which declares a function, with its signatures behind those of an
/// earlier one of the same name, and leaves all else as it is.
pub assume_specification[ cel_core::Env::with_function ](
    env: cel_core::Env,
    decl: cel_core::types::FunctionDecl,
) -> (extended: cel_core::Env)
    ensures
        variables(extended) == variables(env),
        functions(extended) == with_one_more(functions(env), function_model(decl)),
;

} // verus!
