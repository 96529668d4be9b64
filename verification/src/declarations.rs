//! Declarations of variables and functions in JSON.
//!
//! A type is a string in the syntax of [`crate::type_parser`], or an object that names its `kind`:
//! `list` with an `elementType`, `map` with a `keyType` and a `valueType`, or `optional` with an
//! `innerType`.
//!
//! A function has a `name`, `params` with a `type` each, and a `returnType`. Further overloads stand
//! in the array `overloads`.

use crate::environment;
use crate::environment::{FunctionModel, OverloadModel};
use crate::json;
use crate::json::JsonModel;
use crate::parts;
use crate::text::same_text;
use crate::type_parser;
use crate::type_parser::parse_type_string;
use crate::cel_types;
use crate::cel_types::TypeModel;
use vstd::prelude::*;

verus! {

/// The type that a JSON value declares.
pub open spec fn declared_type(value: JsonModel) -> Option<TypeModel>
    decreases value, 1nat,
{
    match value {
        JsonModel::Text(s) => match type_parser::parsed(s) {
            Ok(model) => Some(model),
            Err(_) => None,
        },
        JsonModel::Object(members) => {
            let kind = text_member(value, "kind"@);
            if kind == Some("list"@) {
                match declared_member(value, "elementType"@) {
                    Some(elem) => Some(TypeModel::List(Box::new(elem))),
                    None => None,
                }
            } else if kind == Some("map"@) {
                match (declared_member(value, "keyType"@), declared_member(value, "valueType"@)) {
                    (Some(k), Some(v)) => Some(TypeModel::KeyValue(Box::new(k), Box::new(v))),
                    _ => None,
                }
            } else if kind == Some("optional"@) {
                match declared_member(value, "innerType"@) {
                    Some(inner) => Some(TypeModel::Optional(Box::new(inner))),
                    None => None,
                }
            } else {
                None
            }
        },
        _ => None,
    }
}

/// The type that a member of an object declares.
pub open spec fn declared_member(value: JsonModel, name: Seq<char>) -> Option<TypeModel>
    decreases value, 0nat,
{
    match json::member(value, name) {
        Some(inner) => declared_type(inner),
        None => None,
    }
}

/// The text that a member of an object holds.
pub open spec fn text_member(value: JsonModel, name: Seq<char>) -> Option<Seq<char>> {
    match json::member(value, name) {
        Some(inner) => json::as_text(inner),
        None => None,
    }
}

/// Reads a type.
pub fn parse_cel_type(value: &serde_json::Value) -> (cel_type: Option<cel_core::CelType>)
    ensures
        is_type(cel_type, declared_type(json::json_of(*value))),
    decreases json::json_of(*value), 1nat,
{
    if let Some(s) = value.as_str() {
        return match parse_type_string(s) {
            Ok(cel_type) => Some(cel_type),
            Err(_) => None,
        };
    }
    let kind = match json::get(value, "kind") {
        Some(kind) => kind,
        None => {
            return None;
        },
    };
    let kind = match kind.as_str() {
        Some(kind) => kind,
        None => {
            return None;
        },
    };
    if same_text(kind, "list") {
        match parse_member(value, "elementType") {
            Some(elem) => Some(cel_core::CelType::list(elem)),
            None => None,
        }
    } else if same_text(kind, "map") {
        match (parse_member(value, "keyType"), parse_member(value, "valueType")) {
            (Some(key), Some(val)) => Some(cel_core::CelType::map(key, val)),
            _ => None,
        }
    } else if same_text(kind, "optional") {
        match parse_member(value, "innerType") {
            Some(inner) => Some(cel_core::CelType::optional(inner)),
            None => None,
        }
    } else {
        None
    }
}

/// Reads the type that a member of an object declares.
fn parse_member(value: &serde_json::Value, name: &str) -> (cel_type: Option<cel_core::CelType>)
    ensures
        is_type(cel_type, declared_member(json::json_of(*value), name@)),
    decreases json::json_of(*value), 0nat,
{
    match json::get(value, name) {
        Some(inner) => parse_cel_type(inner),
        None => None,
    }
}

/// A type was read as it should be, or none where there is none.
pub open spec fn is_type(cel_type: Option<cel_core::CelType>, expected: Option<TypeModel>) -> bool {
    match (cel_type, expected) {
        (Some(cel_type), Some(model)) => cel_types::type_model(cel_type) == model,
        (None, None) => true,
        _ => false,
    }
}

/// Every type that can be declared has a name of its own to be shown under.
pub proof fn declared_is_declarable(value: JsonModel)
    ensures
        declared_type(value) matches Some(model) ==> cel_types::is_declarable(model),
    decreases value, 1nat,
{
    match value {
        JsonModel::Text(s) => {
            type_parser::parsed_is_declarable(s);
        },
        JsonModel::Object(members) => {
            member_is_declarable(value, "elementType"@);
            member_is_declarable(value, "keyType"@);
            member_is_declarable(value, "valueType"@);
            member_is_declarable(value, "innerType"@);
        },
        _ => {},
    }
}

proof fn member_is_declarable(value: JsonModel, name: Seq<char>)
    ensures
        declared_member(value, name) matches Some(model) ==> cel_types::is_declarable(model),
    decreases value, 0nat,
{
    if let Some(inner) = json::member(value, name) {
        declared_is_declarable(inner);
    }
}

/// The names of the first `n` types, with `_` between them.
pub open spec fn joined_names(models: Seq<TypeModel>, n: int) -> Seq<char>
    decreases n,
{
    if n <= 0 {
        ""@
    } else if n == 1 {
        cel_types::display(models[0])
    } else {
        joined_names(models, n - 1) + "_"@ + cel_types::display(models[n - 1])
    }
}

/// The types of the first `n` parameters. Each parameter is an object with a type.
pub open spec fn declared_params(params: Seq<JsonModel>, n: int) -> Option<Seq<TypeModel>>
    decreases n,
{
    if n <= 0 {
        Some(seq![])
    } else {
        match (declared_params(params, n - 1), declared_member(params[n - 1], "type"@)) {
            (Some(models), Some(model)) => Some(models.push(model)),
            _ => None,
        }
    }
}

/// The signature that an object with `params` and a `returnType` declares for a function. It is
/// known by the name of the function and the names of the types of its parameters.
pub open spec fn declared_overload(name: Seq<char>, value: JsonModel) -> Option<OverloadModel> {
    match (elements_member(value, "params"@), declared_member(value, "returnType"@)) {
        (Some(params), Some(result)) => match declared_params(params, params.len() as int) {
            Some(models) => Some(
                OverloadModel {
                    id: name + "_"@ + joined_names(models, models.len() as int),
                    params: models,
                    result,
                    is_member: false,
                    type_params: seq![],
                },
            ),
            None => None,
        },
        _ => None,
    }
}

/// The elements that a member of an object holds.
pub open spec fn elements_member(value: JsonModel, name: Seq<char>) -> Option<Seq<JsonModel>> {
    match json::member(value, name) {
        Some(inner) => json::as_elements(inner),
        None => None,
    }
}

/// The signatures among the first `n` values. Values that declare none are passed over.
pub open spec fn declared_overloads(name: Seq<char>, values: Seq<JsonModel>, n: int) -> Seq<
    OverloadModel,
>
    decreases n,
{
    if n <= 0 {
        seq![]
    } else {
        match declared_overload(name, values[n - 1]) {
            Some(overload) => declared_overloads(name, values, n - 1).push(overload),
            None => declared_overloads(name, values, n - 1),
        }
    }
}

/// The function that an object with a `name` declares: with the signature of its own, if it has
/// one, and those of its `overloads`.
pub open spec fn declared_function(value: JsonModel) -> Option<FunctionModel> {
    match text_member(value, "name"@) {
        Some(name) => {
            let own = declared_overloads(name, seq![value], 1);
            let others = match elements_member(value, "overloads"@) {
                Some(values) => declared_overloads(name, values, values.len() as int),
                None => seq![],
            };
            Some(FunctionModel { name, overloads: own + others })
        },
        None => None,
    }
}

/// Reads a signature of a function.
pub fn parse_overload(func_name: &str, value: &serde_json::Value) -> (overload: Option<
    cel_core::types::OverloadDecl,
>)
    ensures
        match (overload, declared_overload(func_name@, json::json_of(*value))) {
            (Some(overload), Some(model)) => environment::overload_model(overload) == model,
            (None, None) => true,
            _ => false,
        },
{
    let params = match json::get(value, "params") {
        Some(params) => params,
        None => {
            return None;
        },
    };
    let params = match params.as_array() {
        Some(params) => params,
        None => {
            return None;
        },
    };
    let result = match parse_member(value, "returnType") {
        Some(result) => result,
        None => {
            return None;
        },
    };
    let ghost models = json::jsons_of(params@);
    let mut param_types: Vec<cel_core::CelType> = Vec::new();
    let mut names: String = "".to_string();
    let mut i: usize = 0;
    while i < params.len()
        invariant
            i <= params@.len(),
            models == json::jsons_of(params@),
            elements_member(json::json_of(*value), "params"@) == Some(models),
            declared_params(models, i as int) == Some(cel_types::type_models(param_types@)),
            param_types@.len() == i,
            names@ == joined_names(cel_types::type_models(param_types@), i as int),
        decreases params@.len() - i,
    {
        let param_type = match parse_member(&params[i], "type") {
            Some(param_type) => param_type,
            None => {
                proof {
                    missing_param(models, i + 1, models.len() as int);
                }
                return None;
            },
        };
        if i > 0 {
            names.append("_");
        }
        proof {
            member_is_declarable(models[i as int], "type"@);
        }
        names.append(param_type.display_name().as_str());
        proof {
            let before = cel_types::type_models(param_types@);
            let after = cel_types::type_models(param_types@.push(param_type));
            assert(after =~= before.push(cel_types::type_model(param_type)));
            joined_start(before, after, i as int);
            reveal_strlit("");
            assert(""@ + cel_types::display(after[i as int]) =~= cel_types::display(after[i as int]));
        }
        param_types.push(param_type);
        i += 1;
    }
    let mut id: String = func_name.to_string();
    id.append("_");
    id.append(names.as_str());
    Some(environment::new_overload(id, param_types, result))
}

proof fn missing_param(params: Seq<JsonModel>, n: int, m: int)
    requires
        declared_params(params, n) is None,
        n <= m,
    ensures
        declared_params(params, m) is None,
    decreases m,
{
    if n < m {
        missing_param(params, n, m - 1);
    }
}

proof fn joined_start(a: Seq<TypeModel>, b: Seq<TypeModel>, n: int)
    requires
        n <= a.len(),
        n <= b.len(),
        forall|i: int| 0 <= i < n ==> a[i] == b[i],
    ensures
        joined_names(a, n) == joined_names(b, n),
    decreases n,
{
    if n > 1 {
        joined_start(a, b, n - 1);
    }
}

/// Reads a function.
pub fn parse_function_decl(value: &serde_json::Value) -> (decl: Option<
    cel_core::types::FunctionDecl,
>)
    ensures
        match (decl, declared_function(json::json_of(*value))) {
            (Some(decl), Some(model)) => environment::function_model(decl) == model,
            (None, None) => true,
            _ => false,
        },
{
    let name = match json::get(value, "name") {
        Some(name) => name,
        None => {
            return None;
        },
    };
    let name = match name.as_str() {
        Some(name) => name,
        None => {
            return None;
        },
    };
    let mut decl = environment::new_function(name);
    proof {
        reveal_with_fuel(declared_overloads, 2);
    }
    if let Some(overload) = parse_overload(name, value) {
        decl = decl.with_overload(overload);
    }
    let ghost own = declared_overloads(name@, seq![json::json_of(*value)], 1);
    assert(environment::function_model(decl).overloads =~= own);
    let overloads = match json::get(value, "overloads") {
        Some(overloads) => overloads.as_array(),
        None => None,
    };
    if let Some(overloads) = overloads {
        let ghost models = json::jsons_of(overloads@);
        let mut i: usize = 0;
        while i < overloads.len()
            invariant
                i <= overloads@.len(),
                models == json::jsons_of(overloads@),
                environment::function_model(decl).name == name@,
                environment::function_model(decl).overloads =~= own + declared_overloads(
                    name@,
                    models,
                    i as int,
                ),
            decreases overloads@.len() - i,
        {
            if let Some(overload) = parse_overload(name, &overloads[i]) {
                decl = decl.with_overload(overload);
            }
            i += 1;
        }
    }
    Some(decl)
}

/// The variables after the first `n` declarations. A declaration has a `name` and a `type`, and
/// takes the place of an earlier one of its name. Values that declare none are passed over.
pub open spec fn declared_variables(
    before: Map<Seq<char>, TypeModel>,
    values: Seq<JsonModel>,
    n: int,
) -> Map<Seq<char>, TypeModel>
    decreases n,
{
    if n <= 0 {
        before
    } else {
        let others = declared_variables(before, values, n - 1);
        match (text_member(values[n - 1], "name"@), declared_member(values[n - 1], "type"@)) {
            (Some(name), Some(model)) => others.insert(name, model),
            _ => others,
        }
    }
}

/// The functions after the first `n` declarations. Values that declare none are passed over.
pub open spec fn declared_functions(
    before: Map<Seq<char>, Seq<OverloadModel>>,
    values: Seq<JsonModel>,
    n: int,
) -> Map<Seq<char>, Seq<OverloadModel>>
    decreases n,
{
    if n <= 0 {
        before
    } else {
        let others = declared_functions(before, values, n - 1);
        match declared_function(values[n - 1]) {
            Some(decl) => environment::with_one_more(others, decl),
            None => others,
        }
    }
}

/// The elements that a member of an object holds, none where it holds no array.
pub open spec fn listed(value: JsonModel, name: Seq<char>) -> Seq<JsonModel> {
    match elements_member(value, name) {
        Some(elements) => elements,
        None => seq![],
    }
}

/// Declares the variables and functions of `options` in an environment.
pub fn declare(env: cel_core::Env, options: &serde_json::Value) -> (extended: cel_core::Env)
    ensures
        ({
            let model = json::json_of(*options);
            let values = listed(model, "variables"@);
            let decls = listed(model, "functions"@);
            &&& environment::variables(extended) == declared_variables(
                environment::variables(env),
                values,
                values.len() as int,
            )
            &&& environment::functions(extended) == declared_functions(
                environment::functions(env),
                decls,
                decls.len() as int,
            )
        }),
{
    let variables = match json::get(options, "variables") {
        Some(variables) => variables.as_array(),
        None => None,
    };
    let env = match variables {
        Some(variables) => declare_variables(env, variables),
        None => env,
    };
    let functions = match json::get(options, "functions") {
        Some(functions) => functions.as_array(),
        None => None,
    };
    match functions {
        Some(functions) => declare_functions(env, functions),
        None => env,
    }
}

fn declare_variables(env: cel_core::Env, values: &Vec<serde_json::Value>) -> (extended:
    cel_core::Env)
    ensures
        environment::variables(extended) == declared_variables(
            environment::variables(env),
            json::jsons_of(values@),
            values@.len() as int,
        ),
        environment::functions(extended) == environment::functions(env),
{
    let ghost models = json::jsons_of(values@);
    let ghost before = env;
    let mut env = env;
    let mut i: usize = 0;
    while i < values.len()
        invariant
            i <= values@.len(),
            models == json::jsons_of(values@),
            environment::variables(env) == declared_variables(
                environment::variables(before),
                models,
                i as int,
            ),
            environment::functions(env) == environment::functions(before),
        decreases values@.len() - i,
    {
        let value = &values[i];
        let name = match json::get(value, "name") {
            Some(name) => name.as_str(),
            None => None,
        };
        if let Some(name) = name {
            if let Some(cel_type) = parse_member(value, "type") {
                env = environment::with_variable(env, name, cel_type);
            }
        }
        i += 1;
    }
    env
}

fn declare_functions(env: cel_core::Env, values: &Vec<serde_json::Value>) -> (extended:
    cel_core::Env)
    ensures
        environment::variables(extended) == environment::variables(env),
        environment::functions(extended) == declared_functions(
            environment::functions(env),
            json::jsons_of(values@),
            values@.len() as int,
        ),
{
    let ghost models = json::jsons_of(values@);
    let ghost before = env;
    let mut env = env;
    let mut i: usize = 0;
    while i < values.len()
        invariant
            i <= values@.len(),
            models == json::jsons_of(values@),
            environment::variables(env) == environment::variables(before),
            environment::functions(env) == declared_functions(
                environment::functions(before),
                models,
                i as int,
            ),
        decreases values@.len() - i,
    {
        if let Some(decl) = parse_function_decl(&values[i]) {
            env = env.with_function(decl);
        }
        i += 1;
    }
    env
}

/// The value declares a variable of that name and type.
pub open spec fn declares(value: JsonModel, name: Seq<char>, model: TypeModel) -> bool {
    text_member(value, "name"@) == Some(name) && declared_member(value, "type"@) == Some(model)
}

/// A variable has the type of its last declaration.
pub proof fn last_declaration_counts(
    before: Map<Seq<char>, TypeModel>,
    values: Seq<JsonModel>,
    i: int,
    n: int,
    name: Seq<char>,
    model: TypeModel,
)
    requires
        0 <= i < n <= values.len(),
        declares(values[i], name, model),
        forall|j: int, other: TypeModel| i < j < n ==> !#[trigger] declares(values[j], name, other),
    ensures
        declared_variables(before, values, n).contains_key(name),
        declared_variables(before, values, n)[name] == model,
    decreases n,
{
    if i < n - 1 {
        last_declaration_counts(before, values, i, n - 1, name, model);
        if let Some(other) = declared_member(values[n - 1], "type"@) {
            assert(!declares(values[n - 1], name, other));
        }
    }
}

/// A variable that is not declared is left as it was.
pub proof fn other_variables_stay(
    before: Map<Seq<char>, TypeModel>,
    values: Seq<JsonModel>,
    n: int,
    name: Seq<char>,
)
    requires
        n <= values.len(),
        forall|j: int, other: TypeModel| 0 <= j < n ==> !#[trigger] declares(values[j], name, other),
    ensures
        declared_variables(before, values, n).contains_key(name) == before.contains_key(name),
        before.contains_key(name) ==> declared_variables(before, values, n)[name] == before[name],
    decreases n,
{
    if n > 0 {
        other_variables_stay(before, values, n - 1, name);
        if let Some(other) = declared_member(values[n - 1], "type"@) {
            assert(!declares(values[n - 1], name, other));
        }
    }
}

/// A function keeps its signatures: declarations add others behind them.
pub proof fn signatures_stay(
    before: Map<Seq<char>, Seq<OverloadModel>>,
    values: Seq<JsonModel>,
    n: int,
    name: Seq<char>,
)
    requires
        n <= values.len(),
        before.contains_key(name),
    ensures
        declared_functions(before, values, n).contains_key(name),
        before[name].is_prefix_of(declared_functions(before, values, n)[name]),
    decreases n,
{
    if n > 0 {
        signatures_stay(before, values, n - 1, name);
    }
}

/// A function has every signature of its declarations.
pub proof fn declared_signatures_are_there(
    before: Map<Seq<char>, Seq<OverloadModel>>,
    values: Seq<JsonModel>,
    i: int,
    n: int,
    k: int,
)
    requires
        0 <= i < n <= values.len(),
        declared_function(values[i]) is Some,
        0 <= k < declared_function(values[i])->0.overloads.len(),
    ensures
        ({
            let decl = declared_function(values[i])->0;
            let after = declared_functions(before, values, n);
            &&& after.contains_key(decl.name)
            &&& after[decl.name].contains(decl.overloads[k])
        }),
    decreases n,
{
    let decl = declared_function(values[i])->0;
    let after = declared_functions(before, values, n);
    let others = declared_functions(before, values, n - 1);
    if i < n - 1 {
        declared_signatures_are_there(before, values, i, n - 1, k);
        let at = choose|at: int|
            0 <= at < others[decl.name].len() && others[decl.name][at] == decl.overloads[k];
        assert(after[decl.name][at] == decl.overloads[k]);
    } else {
        let at = after[decl.name].len() - decl.overloads.len() + k;
        assert(after[decl.name][at] == decl.overloads[k]);
    }
}

/// Strings declare the type that they are written as, and no other value but an object declares a
/// type.
pub proof fn strings_declare_types(s: Seq<char>, value: JsonModel)
    ensures
        declared_type(JsonModel::Text(s)) == match type_parser::parsed(s) {
            Ok(model) => Some(model),
            Err(_) => None,
        },
        !(value is Text) && !(value is Object) ==> declared_type(value) is None,
{
}

/// An object declares a list of whatever type its element declares, in whichever form.
pub proof fn lists_nest(value: JsonModel, elem: JsonModel)
    requires
        text_member(value, "kind"@) == Some("list"@),
        json::member(value, "elementType"@) == Some(elem),
    ensures
        declared_type(value) == match declared_type(elem) {
            Some(model) => Some(TypeModel::List(Box::new(model))),
            None => None,
        },
{
    assert(declared_member(value, "elementType"@) == declared_type(elem));
}

/// An object declares a map from whatever type its key declares to whatever type its value
/// declares, in whichever forms.
pub proof fn maps_nest(value: JsonModel, key: JsonModel, val: JsonModel)
    requires
        text_member(value, "kind"@) == Some("map"@),
        json::member(value, "keyType"@) == Some(key),
        json::member(value, "valueType"@) == Some(val),
    ensures
        declared_type(value) == match (declared_type(key), declared_type(val)) {
            (Some(k), Some(v)) => Some(TypeModel::KeyValue(Box::new(k), Box::new(v))),
            _ => None,
        },
{
    kinds_are_told_apart();
    assert(declared_member(value, "keyType"@) == declared_type(key));
    assert(declared_member(value, "valueType"@) == declared_type(val));
}

/// An object declares an optional value of whatever type its inner type declares, in whichever
/// form.
pub proof fn optionals_nest(value: JsonModel, inner: JsonModel)
    requires
        text_member(value, "kind"@) == Some("optional"@),
        json::member(value, "innerType"@) == Some(inner),
    ensures
        declared_type(value) == match declared_type(inner) {
            Some(model) => Some(TypeModel::Optional(Box::new(model))),
            None => None,
        },
{
    kinds_are_told_apart();
    assert(declared_member(value, "innerType"@) == declared_type(inner));
}

/// The object is of no known kind, or is without a part of its kind.
pub open spec fn lacks_parts(value: JsonModel) -> bool {
    let kind = text_member(value, "kind"@);
    ||| kind != Some("list"@) && kind != Some("map"@) && kind != Some("optional"@)
    ||| kind == Some("list"@) && json::member(value, "elementType"@) is None
    ||| kind == Some("map"@) && json::member(value, "keyType"@) is None
    ||| kind == Some("map"@) && json::member(value, "valueType"@) is None
    ||| kind == Some("optional"@) && json::member(value, "innerType"@) is None
}

/// An object of another kind, or without the parts of its kind, declares no type.
pub proof fn other_objects_declare_no_type(value: JsonModel)
    requires
        value is Object,
        lacks_parts(value),
    ensures
        declared_type(value) is None,
{
    kinds_are_told_apart();
}

proof fn kinds_are_told_apart()
    ensures
        "list"@ != "map"@,
        "list"@ != "optional"@,
        "map"@ != "optional"@,
        "kind"@ != "elementType"@,
        "kind"@ != "keyType"@,
        "kind"@ != "valueType"@,
        "kind"@ != "innerType"@,
        "keyType"@ != "valueType"@,
{
    reveal_strlit("list");
    reveal_strlit("map");
    reveal_strlit("optional");
    reveal_strlit("kind");
    reveal_strlit("elementType");
    reveal_strlit("keyType");
    reveal_strlit("valueType");
    reveal_strlit("innerType");
    assert("list"@.len() == 4 && "map"@.len() == 3 && "optional"@.len() == 8);
    assert("kind"@.len() == 4 && "elementType"@.len() == 11 && "keyType"@.len() == 7);
    assert("valueType"@.len() == 9 && "innerType"@.len() == 9);
}

/// The type as an object, and its parts as objects, as far as there are objects for them.
pub open spec fn object_form(model: TypeModel) -> JsonModel
    decreases model,
{
    match model {
        TypeModel::List(inner) => JsonModel::Object(
            map![
                "kind"@ => JsonModel::Text("list"@),
                "elementType"@ => object_form(*inner)
            ],
        ),
        TypeModel::KeyValue(key, value) => JsonModel::Object(
            map![
                "kind"@ => JsonModel::Text("map"@),
                "keyType"@ => object_form(*key),
                "valueType"@ => object_form(*value)
            ],
        ),
        TypeModel::Optional(inner) => JsonModel::Object(
            map![
                "kind"@ => JsonModel::Text("optional"@),
                "innerType"@ => object_form(*inner)
            ],
        ),
        _ => JsonModel::Text(type_parser::type_text(model)),
    }
}

/// The types that have no form as an object can be written as text.
pub open spec fn has_object_form(model: TypeModel) -> bool
    decreases model,
{
    match model {
        TypeModel::List(inner) => has_object_form(*inner),
        TypeModel::KeyValue(key, value) => has_object_form(*key) && has_object_form(*value),
        TypeModel::Optional(inner) => has_object_form(*inner),
        _ => type_parser::is_writable(model),
    }
}

/// The object form of a type is read back as that type.
pub proof fn object_forms_are_read(model: TypeModel)
    requires
        has_object_form(model),
    ensures
        declared_type(object_form(model)) == Some(model),
    decreases model,
{
    kinds_are_told_apart();
    match model {
        TypeModel::List(inner) => {
            object_forms_are_read(*inner);
            lists_nest(object_form(model), object_form(*inner));
        },
        TypeModel::KeyValue(key, value) => {
            object_forms_are_read(*key);
            object_forms_are_read(*value);
            maps_nest(object_form(model), object_form(*key), object_form(*value));
        },
        TypeModel::Optional(inner) => {
            object_forms_are_read(*inner);
            optionals_nest(object_form(model), object_form(*inner));
        },
        _ => {
            type_parser::written_types_parse(model);
        },
    }
}

/// The member of the object declares the type.
pub open spec fn has_type(value: JsonModel, name: Seq<char>, model: TypeModel) -> bool {
    match json::member(value, name) {
        Some(inner) => declared_type(inner) == Some(model),
        None => false,
    }
}

/// The value is a well-formed signature with these parameters and this result: its `params` are an
/// array, each element of which has a readable `type`, and its `returnType` is readable.
pub open spec fn is_signature(
    value: JsonModel,
    params: Seq<TypeModel>,
    result: TypeModel,
) -> bool {
    &&& json::member(value, "params"@) matches Some(JsonModel::Array(list)) && {
        &&& list.len() == params.len()
        &&& forall|i: int|
            0 <= i < params.len() ==> has_type(list[i], "type"@, #[trigger] params[i])
    }
    &&& has_type(value, "returnType"@, result)
}

/// A signature is read if and only if it is well-formed, and has the types that it declares.
pub proof fn signatures_are_read(
    name: Seq<char>,
    value: JsonModel,
    params: Seq<TypeModel>,
    result: TypeModel,
)
    ensures
        is_signature(value, params, result) ==> (declared_overload(name, value) matches Some(
            overload,
        ) && overload.params == params && overload.result == result && !overload.is_member
            && overload.type_params.len() == 0),
        declared_overload(name, value) matches Some(overload) ==> is_signature(
            value,
            overload.params,
            overload.result,
        ),
{
    if let Some(list) = elements_member(value, "params"@) {
        if is_signature(value, params, result) {
            params_are_read(list, params, list.len() as int);
            assert(params.take(params.len() as int) =~= params);
        }
        read_params_are_declared(list, list.len() as int);
    }
}

proof fn params_are_read(list: Seq<JsonModel>, params: Seq<TypeModel>, n: int)
    requires
        0 <= n <= list.len(),
        list.len() == params.len(),
        forall|i: int|
            0 <= i < params.len() ==> has_type(list[i], "type"@, #[trigger] params[i]),
    ensures
        declared_params(list, n) == Some(params.take(n)),
    decreases n,
{
    if n > 0 {
        params_are_read(list, params, n - 1);
        assert(params.take(n) =~= params.take(n - 1).push(params[n - 1]));
        assert(declared_member(list[n - 1], "type"@) == Some(params[n - 1]));
    } else {
        assert(params.take(0) =~= seq![]);
    }
}

proof fn read_params_are_declared(list: Seq<JsonModel>, n: int)
    requires
        0 <= n <= list.len(),
    ensures
        declared_params(list, n) matches Some(params) ==> {
            &&& params.len() == n
            &&& forall|i: int|
                0 <= i < n ==> has_type(list[i], "type"@, #[trigger] params[i])
        },
    decreases n,
{
    if n > 0 {
        read_params_are_declared(list, n - 1);
        if let Some(params) = declared_params(list, n) {
            let before = declared_params(list, n - 1)->0;
            assert forall|i: int| 0 <= i < n implies has_type(
                list[i],
                "type"@,
                #[trigger] params[i],
            ) by {
                if i < n - 1 {
                    assert(params[i] == before[i]);
                }
            }
        }
    }
}

/// A signature is known by the name of its function and, each behind a `_`, the names of the types
/// of its parameters: adding a parameter adds the name of its type.
pub proof fn signatures_are_known_by_their_types(
    name: Seq<char>,
    value: JsonModel,
    longer: JsonModel,
    params: Seq<TypeModel>,
    last: TypeModel,
    result: TypeModel,
    other: TypeModel,
)
    requires
        is_signature(value, params, result),
        is_signature(longer, params.push(last), other),
    ensures
        ({
            let id = declared_overload(name, value)->0.id;
            let longer_id = declared_overload(name, longer)->0.id;
            if params.len() == 0 {
                id == name + "_"@ && longer_id == id + cel_types::display(last)
            } else {
                longer_id == id + "_"@ + cel_types::display(last)
            }
        }),
{
    signatures_are_read(name, value, params, result);
    signatures_are_read(name, longer, params.push(last), other);
    let all = params.push(last);
    let n = params.len() as int;
    joined_start(params, all, n);
    reveal_strlit("");
    let prefix = name + "_"@;
    if n == 0 {
        assert(prefix + ""@ =~= prefix);
    } else {
        let names = joined_names(params, n);
        assert(prefix + (names + "_"@ + cel_types::display(last)) =~= prefix + names + "_"@
            + cel_types::display(last));
    }
}

/// The signature that a value declares, if it does.
pub open spec fn signature_of(name: Seq<char>, value: JsonModel) -> Seq<OverloadModel> {
    match declared_overload(name, value) {
        Some(overload) => seq![overload],
        None => seq![],
    }
}

/// The values that may declare a signature of a function: the function itself, and the elements of
/// its `overloads`.
pub open spec fn signature_values(value: JsonModel) -> Seq<JsonModel> {
    match json::member(value, "overloads"@) {
        Some(JsonModel::Array(list)) => seq![value] + list,
        _ => seq![value],
    }
}

/// A value with a name declares the function of that name, and no other value declares one. The
/// function has a signature for each well-formed one, in their order, and no other.
pub proof fn functions_have_their_signatures(value: JsonModel, name: Seq<char>)
    ensures
        json::member(value, "name"@) == Some(JsonModel::Text(name)) ==> {
            &&& declared_function(value) matches Some(decl)
            &&& decl.name == name
            &&& parts::made_of(
                decl.overloads,
                signature_values(value).map_values(|v: JsonModel| signature_of(name, v)),
                0,
            )
        },
        !(json::member(value, "name"@) matches Some(JsonModel::Text(_))) ==> declared_function(
            value,
        ) is None,
{
    if let Some(decl) = declared_function(value) {
        let name = decl.name;
        let own = signature_of(name, value);
        reveal_with_fuel(declared_overloads, 2);
        assert(declared_overloads(name, seq![value], 1) =~= own);
        let parts = signature_values(value).map_values(|v: JsonModel| signature_of(name, v));
        parts::made_of_itself(own);
        match elements_member(value, "overloads"@) {
            Some(list) => {
                let n = list.len() as int;
                let others = list.map_values(|v: JsonModel| signature_of(name, v));
                overloads_are_made_of(name, list, n);
                assert(list.take(n) =~= list);
                parts::made_of_both(
                    own,
                    seq![own],
                    0,
                    declared_overloads(name, list, n),
                    others,
                    0,
                );
                assert(parts =~= seq![own] + others);
            },
            None => {
                assert(own + seq![] =~= own);
                assert(parts =~= seq![own]);
            },
        }
    }
}

proof fn overloads_are_made_of(name: Seq<char>, values: Seq<JsonModel>, n: int)
    requires
        0 <= n <= values.len(),
    ensures
        parts::made_of(
            declared_overloads(name, values, n),
            values.take(n).map_values(|v: JsonModel| signature_of(name, v)),
            0,
        ),
    decreases n,
{
    let parts = values.take(n).map_values(|v: JsonModel| signature_of(name, v));
    if n == 0 {
        assert(parts =~= seq![]);
    } else {
        let before = values.take(n - 1).map_values(|v: JsonModel| signature_of(name, v));
        let last = signature_of(name, values[n - 1]);
        overloads_are_made_of(name, values, n - 1);
        parts::made_of_itself(last);
        parts::made_of_both(
            declared_overloads(name, values, n - 1),
            before,
            0,
            last,
            seq![last],
            0,
        );
        assert(parts =~= before + seq![last]);
        assert(declared_overloads(name, values, n) =~= declared_overloads(name, values, n - 1)
            + last);
    }
}

/// Every well-formed signature of a function counts, whatever else the declaration holds.
pub proof fn every_signature_counts(
    value: JsonModel,
    name: Seq<char>,
    k: int,
    params: Seq<TypeModel>,
    result: TypeModel,
)
    requires
        json::member(value, "name"@) == Some(JsonModel::Text(name)),
        0 <= k < signature_values(value).len(),
        is_signature(signature_values(value)[k], params, result),
    ensures
        declared_function(value) matches Some(decl) && exists|j: int|
            0 <= j < decl.overloads.len() && (#[trigger] decl.overloads[j]).params == params
                && decl.overloads[j].result == result,
{
    functions_have_their_signatures(value, name);
    signatures_are_read(name, signature_values(value)[k], params, result);
    let decl = declared_function(value)->0;
    let parts = signature_values(value).map_values(|v: JsonModel| signature_of(name, v));
    parts::parts_are_contained(decl.overloads, parts, k, 0);
    let j = choose|j: int| 0 <= j < decl.overloads.len() && decl.overloads[j] == parts[k][0];
    assert(decl.overloads[j].params == params);
}

/// Declarations are taken one by one, each on top of those before it.
pub proof fn declarations_add_up(
    variables: Map<Seq<char>, TypeModel>,
    functions: Map<Seq<char>, Seq<OverloadModel>>,
    a: Seq<JsonModel>,
    b: Seq<JsonModel>,
)
    ensures
        declared_variables(variables, a + b, (a + b).len() as int) == declared_variables(
            declared_variables(variables, a, a.len() as int),
            b,
            b.len() as int,
        ),
        declared_functions(functions, a + b, (a + b).len() as int) == declared_functions(
            declared_functions(functions, a, a.len() as int),
            b,
            b.len() as int,
        ),
    decreases b.len(),
{
    if b.len() == 0 {
        assert(a + b =~= a);
    } else {
        let rest = b.drop_last();
        declarations_add_up(variables, functions, a, rest);
        first_declarations(variables, functions, a + b, a + rest, (a + rest).len() as int);
        first_declarations(
            declared_variables(variables, a, a.len() as int),
            declared_functions(functions, a, a.len() as int),
            b,
            rest,
            rest.len() as int,
        );
    }
}

proof fn first_declarations(
    variables: Map<Seq<char>, TypeModel>,
    functions: Map<Seq<char>, Seq<OverloadModel>>,
    a: Seq<JsonModel>,
    b: Seq<JsonModel>,
    n: int,
)
    requires
        n <= a.len(),
        n <= b.len(),
        forall|i: int| 0 <= i < n ==> a[i] == b[i],
    ensures
        declared_variables(variables, a, n) == declared_variables(variables, b, n),
        declared_functions(functions, a, n) == declared_functions(functions, b, n),
    decreases n,
{
    if n > 0 {
        first_declarations(variables, functions, a, b, n - 1);
    }
}

/// One declaration of a function adds its signatures behind those of that name and changes no other
/// function. A value that declares none changes nothing.
pub proof fn one_declaration_adds_signatures(
    before: Map<Seq<char>, Seq<OverloadModel>>,
    value: JsonModel,
    other: Seq<char>,
)
    ensures
        ({
            let after = declared_functions(before, seq![value], 1);
            match declared_function(value) {
                Some(decl) => {
                    let old = if before.contains_key(decl.name) {
                        before[decl.name]
                    } else {
                        seq![]
                    };
                    &&& after.contains_key(decl.name)
                    &&& after[decl.name] == old + decl.overloads
                    &&& other != decl.name ==> after.contains_key(other) == before.contains_key(
                        other,
                    )
                    &&& other != decl.name && before.contains_key(other) ==> after[other]
                        == before[other]
                },
                None => after == before,
            }
        }),
{
    reveal_with_fuel(declared_functions, 2);
    if let Some(decl) = declared_function(value) {
        assert(seq![] + decl.overloads =~= decl.overloads);
    }
}

} // verus!
