//! The syntax of types in declarations.
//!
//! A type is written as the name of a scalar type or of a message, or as a constructor with its
//! parameters in parentheses: `list(T)`, `map(K, V)`, `optional(T)`, `type(T)` and `wrapper(T)`.

use crate::text;
use crate::text::same_text;
use crate::cel_types;
use crate::cel_types::{Scalar, TypeModel};
use vstd::prelude::*;

verus! {

/// The first place of `c` in `s` from `from` on.
pub open spec fn first_from(s: Seq<char>, c: char, from: int) -> Option<int>
    decreases s.len() - from,
{
    if from < 0 || from >= s.len() {
        None
    } else if s[from] == c {
        Some(from)
    } else {
        first_from(s, c, from + 1)
    }
}

/// How many parentheses are open after the first `n` characters: those that opened less those that
/// closed.
pub open spec fn nesting(s: Seq<char>, n: int) -> int
    decreases n,
{
    if n <= 0 {
        0
    } else if s[n - 1] == '(' {
        nesting(s, n - 1) + 1
    } else if s[n - 1] == ')' {
        nesting(s, n - 1) - 1
    } else {
        nesting(s, n - 1)
    }
}

/// A comma outside all parentheses stands at `i`.
pub open spec fn separator_at(s: Seq<char>, i: int) -> bool {
    0 <= i < s.len() && s[i] == ',' && nesting(s, i) == 0
}

/// The first separator among the first `n` characters.
pub open spec fn first_separator(s: Seq<char>, n: int) -> Option<int>
    decreases n,
{
    if n <= 0 {
        None
    } else if first_separator(s, n - 1) is Some {
        first_separator(s, n - 1)
    } else if separator_at(s, n - 1) {
        Some(n - 1)
    } else {
        None
    }
}

/// At `i` stands what no pair of types has there: a parenthesis that closes none, or a separator
/// behind another one.
pub open spec fn fault_at(s: Seq<char>, i: int) -> bool {
    &&& 0 <= i < s.len()
    &&& nesting(s, i) == 0
    &&& s[i] == ')' || (s[i] == ',' && first_separator(s, i) is Some)
}

/// The first fault among the first `n` characters.
pub open spec fn first_fault(s: Seq<char>, n: int) -> Option<int>
    decreases n,
{
    if n <= 0 {
        None
    } else if first_fault(s, n - 1) is Some {
        first_fault(s, n - 1)
    } else if fault_at(s, n - 1) {
        Some(n - 1)
    } else {
        None
    }
}

pub open spec fn unbalanced(s: Seq<char>) -> Seq<char> {
    "unbalanced parentheses in map type: '"@ + s + "'"@
}

pub open spec fn too_many_parameters(s: Seq<char>) -> Seq<char> {
    "map type has more than 2 parameters: '"@ + s + "'"@
}

pub open spec fn too_few_parameters(s: Seq<char>) -> Seq<char> {
    "map type must have 2 parameters: '"@ + s + "'"@
}

pub open spec fn unclosed(s: Seq<char>) -> Seq<char> {
    "malformed type string: missing closing paren in '"@ + s + "'"@
}

pub open spec fn unknown_constructor(name: Seq<char>) -> Seq<char> {
    "unknown parameterized type: '"@ + name + "'"@
}

/// The two types between the parentheses of a map type, or what is wrong with them. A fault is
/// reported before an unclosed parenthesis, and that before a missing separator.
pub open spec fn split(s: Seq<char>) -> Result<(Seq<char>, Seq<char>), Seq<char>> {
    let size = s.len() as int;
    match first_fault(s, size) {
        Some(i) => if s[i] == ')' {
            Err(unbalanced(s))
        } else {
            Err(too_many_parameters(s))
        },
        None => if nesting(s, size) != 0 {
            Err(unbalanced(s))
        } else {
            match first_separator(s, size) {
                Some(i) => Ok((text::trimmed(s.take(i)), text::trimmed(s.skip(i + 1)))),
                None => Err(too_few_parameters(s)),
            }
        },
    }
}

/// The type that a name without parameters stands for.
pub open spec fn named(name: Seq<char>) -> Result<TypeModel, Seq<char>> {
    if name == "bool"@ {
        Ok(TypeModel::Scalar(Scalar::Bool))
    } else if name == "int"@ {
        Ok(TypeModel::Scalar(Scalar::Int))
    } else if name == "uint"@ {
        Ok(TypeModel::Scalar(Scalar::UInt))
    } else if name == "double"@ {
        Ok(TypeModel::Scalar(Scalar::Double))
    } else if name == "string"@ {
        Ok(TypeModel::Scalar(Scalar::String))
    } else if name == "bytes"@ {
        Ok(TypeModel::Scalar(Scalar::Bytes))
    } else if name == "null"@ {
        Ok(TypeModel::Scalar(Scalar::Null))
    } else if name == "dyn"@ {
        Ok(TypeModel::Scalar(Scalar::Dyn))
    } else if name == "timestamp"@ {
        Ok(TypeModel::Scalar(Scalar::Timestamp))
    } else if name == "duration"@ {
        Ok(TypeModel::Scalar(Scalar::Duration))
    } else if name == "error"@ {
        Ok(TypeModel::Scalar(Scalar::Error))
    } else if name.len() == 0 {
        Err("empty type string"@)
    } else {
        Ok(TypeModel::Message(name))
    }
}

/// The type that a text stands for, or what is wrong with it.
pub open spec fn parsed(s: Seq<char>) -> Result<TypeModel, Seq<char>>
    decreases s.len(), 0nat,
{
    let t = text::trimmed(s);
    match first_from(t, '(', 0) {
        Some(open) => if t.last() != ')' {
            Err(unclosed(t))
        } else {
            proof {
                text::trimmed_is_part(s);
                first_from_is_first(t, '(', 0);
            }
            constructed(t.take(open), t.subrange(open + 1, t.len() - 1))
        },
        None => named(t),
    }
}

/// The type that a constructor makes of its parameters, or what is wrong with them.
pub open spec fn constructed(name: Seq<char>, inner: Seq<char>) -> Result<TypeModel, Seq<char>>
    decreases inner.len(), 1nat,
{
    if name == "list"@ {
        match parsed(inner) {
            Ok(elem) => Ok(TypeModel::List(Box::new(elem))),
            Err(message) => Err(message),
        }
    } else if name == "map"@ {
        match split(inner) {
            Ok((key, value)) => {
                proof {
                    split_is_shorter(inner);
                }
                match (parsed(key), parsed(value)) {
                    (Ok(k), Ok(v)) => Ok(TypeModel::KeyValue(Box::new(k), Box::new(v))),
                    (Err(message), _) => Err(message),
                    (_, Err(message)) => Err(message),
                }
            },
            Err(message) => Err(message),
        }
    } else if name == "optional"@ {
        match parsed(inner) {
            Ok(elem) => Ok(TypeModel::Optional(Box::new(elem))),
            Err(message) => Err(message),
        }
    } else if name == "type"@ {
        match parsed(inner) {
            Ok(elem) => Ok(TypeModel::Type(Box::new(elem))),
            Err(message) => Err(message),
        }
    } else if name == "wrapper"@ {
        match parsed(inner) {
            Ok(elem) => Ok(TypeModel::Wrapper(Box::new(elem))),
            Err(message) => Err(message),
        }
    } else {
        Err(unknown_constructor(name))
    }
}

/// A search finds the character if it is there, and finds its first place.
pub proof fn first_from_is_first(s: Seq<char>, c: char, from: int)
    requires
        0 <= from,
    ensures
        match first_from(s, c, from) {
            Some(at) => {
                &&& from <= at < s.len()
                &&& s[at] == c
                &&& forall|i: int| from <= i < at ==> s[i] != c
            },
            None => forall|i: int| from <= i < s.len() ==> s[i] != c,
        },
    decreases s.len() - from,
{
    if from < s.len() && s[from] != c {
        first_from_is_first(s, c, from + 1);
    }
}

proof fn first_separator_is_first(s: Seq<char>, n: int)
    ensures
        match first_separator(s, n) {
            Some(at) => {
                &&& 0 <= at < n
                &&& separator_at(s, at)
                &&& forall|i: int| 0 <= i < at ==> !separator_at(s, i)
            },
            None => forall|i: int| 0 <= i < n ==> !separator_at(s, i),
        },
    decreases n,
{
    if n > 0 {
        first_separator_is_first(s, n - 1);
    }
}

/// The two types of a map type are shorter than the text that holds both.
pub proof fn split_is_shorter(s: Seq<char>)
    ensures
        split(s) matches Ok((key, value)) ==> key.len() < s.len() && value.len() < s.len(),
{
    first_separator_is_first(s, s.len() as int);
    if let Some(at) = first_separator(s, s.len() as int) {
        text::trimmed_is_part(s.take(at));
        text::trimmed_is_part(s.skip(at + 1));
    }
}

/// The text in quotes behind a message.
fn quote(message: &str, s: &str) -> (quoted: String)
    ensures
        quoted@ == message@ + s@ + "'"@,
{
    let mut quoted = message.to_string();
    quoted.append(s);
    quoted.append("'");
    quoted
}

/// Searches a text for a character.
fn find_char(s: &str, c: char) -> (found: Option<usize>)
    ensures
        match found {
            Some(at) => first_from(s@, c, 0) == Some(at as int),
            None => first_from(s@, c, 0) is None,
        },
{
    let size: usize = s.unicode_len();
    let mut at: usize = 0;
    for d in it: s.chars()
        invariant
            it.seq() == s@,
            at == it.index(),
            size == s@.len(),
            first_from(s@, c, 0) == first_from(s@, c, at as int),
    {
        if d == c {
            return Some(at);
        }
        at += 1;
    }
    None
}

/// Splits the text between the parentheses of a map type into the type of the keys and the type of
/// the values.
pub fn split_map_types(s: &str) -> (types: Result<(&str, &str), String>)
    ensures
        match (types, split(s@)) {
            (Ok((key, value)), Ok((k, v))) => key@ == k && value@ == v,
            (Err(message), Err(m)) => message@ == m,
            _ => false,
        },
{
    let size: usize = s.unicode_len();
    let mut depth: usize = 0;
    let mut separator: Option<usize> = None;
    let mut at: usize = 0;
    for c in it: s.chars()
        invariant
            it.seq() == s@,
            at == it.index(),
            size == s@.len(),
            depth == nesting(s@, at as int),
            depth <= at,
            match separator {
                Some(place) => first_separator(s@, at as int) == Some(place as int),
                None => first_separator(s@, at as int) is None,
            },
            first_fault(s@, at as int) is None,
    {
        if c == '(' {
            depth += 1;
        } else if c == ')' {
            if depth == 0 {
                proof {
                    assert(fault_at(s@, at as int));
                    first_fault_stays(s@, at + 1, size as int);
                }
                return Err(quote("unbalanced parentheses in map type: '", s));
            }
            depth -= 1;
        } else if c == ',' && depth == 0 {
            if separator.is_some() {
                proof {
                    assert(fault_at(s@, at as int));
                    first_fault_stays(s@, at + 1, size as int);
                }
                return Err(quote("map type has more than 2 parameters: '", s));
            }
            separator = Some(at);
        }
        at += 1;
    }
    if depth != 0 {
        return Err(quote("unbalanced parentheses in map type: '", s));
    }
    match separator {
        Some(place) => {
            proof {
                first_separator_is_first(s@, size as int);
                assert(s@.subrange(0, place as int) =~= s@.take(place as int));
                assert(s@.subrange(place + 1, size as int) =~= s@.skip(place + 1));
            }
            let key = s.substring_char(0, place).trim();
            let value = s.substring_char(place + 1, size).trim();
            Ok((key, value))
        },
        None => Err(quote("map type must have 2 parameters: '", s)),
    }
}

proof fn first_fault_stays(s: Seq<char>, n: int, m: int)
    requires
        first_fault(s, n) is Some,
        n <= m,
    ensures
        first_fault(s, m) == first_fault(s, n),
    decreases m,
{
    if n < m {
        first_fault_stays(s, n, m - 1);
    }
}

/// The type that a name without parameters stands for.
fn named_type(name: &str) -> (cel_type: Result<cel_core::CelType, String>)
    ensures
        is_outcome(cel_type, named(name@)),
{
    proof {
        reveal_strlit("");
        if name@.len() == 0 {
            assert(name@ =~= ""@);
        }
    }
    if same_text(name, "bool") {
        Ok(cel_types::scalar_type(Scalar::Bool))
    } else if same_text(name, "int") {
        Ok(cel_types::scalar_type(Scalar::Int))
    } else if same_text(name, "uint") {
        Ok(cel_types::scalar_type(Scalar::UInt))
    } else if same_text(name, "double") {
        Ok(cel_types::scalar_type(Scalar::Double))
    } else if same_text(name, "string") {
        Ok(cel_types::scalar_type(Scalar::String))
    } else if same_text(name, "bytes") {
        Ok(cel_types::scalar_type(Scalar::Bytes))
    } else if same_text(name, "null") {
        Ok(cel_types::scalar_type(Scalar::Null))
    } else if same_text(name, "dyn") {
        Ok(cel_types::scalar_type(Scalar::Dyn))
    } else if same_text(name, "timestamp") {
        Ok(cel_types::scalar_type(Scalar::Timestamp))
    } else if same_text(name, "duration") {
        Ok(cel_types::scalar_type(Scalar::Duration))
    } else if same_text(name, "error") {
        Ok(cel_types::scalar_type(Scalar::Error))
    } else if same_text(name, "") {
        Err("empty type string".to_string())
    } else {
        Ok(cel_core::CelType::message(name))
    }
}

/// A parse came out as it should: with the type, or with the message.
pub open spec fn is_outcome(
    outcome: Result<cel_core::CelType, String>,
    expected: Result<TypeModel, Seq<char>>,
) -> bool {
    match (outcome, expected) {
        (Ok(cel_type), Ok(model)) => cel_types::type_model(cel_type) == model,
        (Err(message), Err(m)) => message@ == m,
        _ => false,
    }
}

/// Parses a type.
///
/// - Scalar types: `bool`, `int`, `uint`, `double`, `string`, `bytes`
/// - Special types: `null`, `dyn`, `timestamp`, `duration`, `error`
/// - Types with parameters: `list(T)`, `map(K, V)`, `optional(T)`, `type(T)`, `wrapper(T)`
/// - Message types: any other name
pub fn parse_type_string(s: &str) -> (cel_type: Result<cel_core::CelType, String>)
    ensures
        is_outcome(cel_type, parsed(s@)),
    decreases s@.len(),
{
    let t = s.trim();
    let size: usize = t.unicode_len();
    proof {
        text::trimmed_is_part(s@);
        first_from_is_first(t@, '(', 0);
    }
    let open: usize = match find_char(t, '(') {
        Some(at) => at,
        None => {
            return named_type(t);
        },
    };
    if t.get_char(size - 1) != ')' {
        return Err(quote("malformed type string: missing closing paren in '", t));
    }
    let name = t.substring_char(0, open);
    let inner = t.substring_char(open + 1, size - 1);
    proof {
        assert(t@.subrange(0, open as int) =~= t@.take(open as int));
        split_is_shorter(inner@);
    }
    if same_text(name, "list") {
        match parse_type_string(inner) {
            Ok(elem) => Ok(cel_core::CelType::list(elem)),
            Err(message) => Err(message),
        }
    } else if same_text(name, "map") {
        let (key, value) = match split_map_types(inner) {
            Ok(pair) => pair,
            Err(message) => {
                return Err(message);
            },
        };
        let key_type = match parse_type_string(key) {
            Ok(key_type) => key_type,
            Err(message) => {
                return Err(message);
            },
        };
        match parse_type_string(value) {
            Ok(value_type) => Ok(cel_core::CelType::map(key_type, value_type)),
            Err(message) => Err(message),
        }
    } else if same_text(name, "optional") {
        match parse_type_string(inner) {
            Ok(elem) => Ok(cel_core::CelType::optional(elem)),
            Err(message) => Err(message),
        }
    } else if same_text(name, "type") {
        match parse_type_string(inner) {
            Ok(elem) => Ok(cel_core::CelType::type_of(elem)),
            Err(message) => Err(message),
        }
    } else if same_text(name, "wrapper") {
        match parse_type_string(inner) {
            Ok(elem) => Ok(cel_core::CelType::wrapper(elem)),
            Err(message) => Err(message),
        }
    } else {
        Err(quote("unknown parameterized type: '", name))
    }
}

/// White space around a type makes no difference.
pub proof fn padding_is_ignored(before: Seq<char>, s: Seq<char>, after: Seq<char>)
    requires
        forall|i: int| 0 <= i < before.len() ==> text::is_white_space(#[trigger] before[i]),
        forall|i: int| 0 <= i < after.len() ==> text::is_white_space(#[trigger] after[i]),
    ensures
        parsed(before + s + after) == parsed(s),
{
    text::trimming_ignores_padding(before, s, after);
}

/// Every type that can be parsed is made of types that declarations can make.
pub proof fn parsed_is_declarable(s: Seq<char>)
    ensures
        parsed(s) matches Ok(model) ==> cel_types::is_declarable(model),
    decreases s.len(), 0nat,
{
    let t = text::trimmed(s);
    text::trimmed_is_part(s);
    first_from_is_first(t, '(', 0);
    if let Some(open) = first_from(t, '(', 0) {
        if t.last() == ')' {
            constructed_is_declarable(t.take(open), t.subrange(open + 1, t.len() - 1));
        }
    }
}

proof fn constructed_is_declarable(name: Seq<char>, inner: Seq<char>)
    ensures
        constructed(name, inner) matches Ok(model) ==> cel_types::is_declarable(model),
    decreases inner.len(), 1nat,
{
    parsed_is_declarable(inner);
    split_is_shorter(inner);
    if let Ok((key, value)) = split(inner) {
        parsed_is_declarable(key);
        parsed_is_declarable(value);
    }
}

/// The text of a constructor with its parameters.
pub open spec fn constructor_text(name: Seq<char>, inner: Seq<char>) -> Seq<char> {
    name + "("@ + inner + ")"@
}

/// How a type is written.
pub open spec fn type_text(model: TypeModel) -> Seq<char>
    decreases model,
{
    match model {
        TypeModel::Scalar(scalar) => scalar.text(),
        TypeModel::List(inner) => constructor_text("list"@, type_text(*inner)),
        TypeModel::KeyValue(key, value) => constructor_text(
            "map"@,
            type_text(*key) + ", "@ + type_text(*value),
        ),
        TypeModel::Optional(inner) => constructor_text("optional"@, type_text(*inner)),
        TypeModel::Type(inner) => constructor_text("type"@, type_text(*inner)),
        TypeModel::Wrapper(inner) => constructor_text("wrapper"@, type_text(*inner)),
        TypeModel::Message(name) => name,
        TypeModel::Other => ""@,
    }
}

/// A text can stand on one side of the separator in a map type: its parentheses are balanced, and
/// it has no separator of its own.
pub open spec fn is_parameter(s: Seq<char>) -> bool {
    &&& nesting(s, s.len() as int) == 0
    &&& forall|i: int|
        0 <= i < s.len() && #[trigger] nesting(s, i) == 0 ==> s[i] != ')' && s[i] != ','
}

/// A name stands for the message of that name, and for nothing else.
pub open spec fn is_message_name(name: Seq<char>) -> bool {
    &&& text::trimmed(name) == name
    &&& !name.contains('(')
    &&& named(name) == Ok::<TypeModel, Seq<char>>(TypeModel::Message(name))
}

/// The names of messages in a type can be told from the syntax around them.
pub open spec fn is_writable(model: TypeModel) -> bool
    decreases model,
{
    match model {
        TypeModel::Scalar(_) => true,
        TypeModel::List(inner) => is_writable(*inner),
        TypeModel::KeyValue(key, value) => {
            &&& is_writable(*key)
            &&& is_writable(*value)
            &&& is_parameter(type_text(*key))
            &&& is_parameter(type_text(*value))
        },
        TypeModel::Optional(inner) => is_writable(*inner),
        TypeModel::Type(inner) => is_writable(*inner),
        TypeModel::Wrapper(inner) => is_writable(*inner),
        TypeModel::Message(name) => is_message_name(name),
        TypeModel::Other => false,
    }
}

/// Parsing gives back the type that was written.
pub proof fn written_types_parse(model: TypeModel)
    requires
        is_writable(model),
    ensures
        parsed(type_text(model)) == Ok::<TypeModel, Seq<char>>(model),
    decreases model,
{
    match model {
        TypeModel::Scalar(scalar) => {
            scalar_text_is_plain(scalar);
            plain_is_trimmed(scalar.text());
            scalar_is_named(scalar);
        },
        TypeModel::List(inner) => {
            constructors_are_plain();
            constructor_is_read("list"@, type_text(*inner));
            written_types_parse(*inner);
        },
        TypeModel::KeyValue(key, value) => {
            constructors_are_plain();
            constructor_is_read("map"@, type_text(*key) + ", "@ + type_text(*value));
            written_types_parse(*key);
            written_types_parse(*value);
            written_is_trimmed(*key);
            written_is_trimmed(*value);
            parameters_are_split(type_text(*key), type_text(*value));
        },
        TypeModel::Optional(inner) => {
            constructors_are_plain();
            constructor_is_read("optional"@, type_text(*inner));
            written_types_parse(*inner);
        },
        TypeModel::Type(inner) => {
            constructors_are_plain();
            constructor_is_read("type"@, type_text(*inner));
            written_types_parse(*inner);
        },
        TypeModel::Wrapper(inner) => {
            constructors_are_plain();
            constructor_is_read("wrapper"@, type_text(*inner));
            written_types_parse(*inner);
        },
        TypeModel::Message(name) => {
            first_from_is_first(name, '(', 0);
        },
        TypeModel::Other => {},
    }
}

/// A text of small letters is its own trimmed text, and has nothing to tell parameters by.
pub open spec fn is_plain(s: Seq<char>) -> bool
    decreases s.len(),
{
    s.len() == 0 || ('a' <= s.last() <= 'z' && is_plain(s.drop_last()))
}

proof fn plain_letters(s: Seq<char>)
    requires
        is_plain(s),
    ensures
        forall|i: int| 0 <= i < s.len() ==> 'a' <= #[trigger] s[i] <= 'z',
    decreases s.len(),
{
    if s.len() > 0 {
        plain_letters(s.drop_last());
        assert forall|i: int| 0 <= i < s.len() implies 'a' <= #[trigger] s[i] <= 'z' by {
            if i < s.len() - 1 {
                assert(s[i] == s.drop_last()[i]);
            }
        }
    }
}

proof fn plain_is_trimmed(s: Seq<char>)
    requires
        is_plain(s),
    ensures
        text::trimmed(s) == s,
        first_from(s, '(', 0) is None,
{
    plain_letters(s);
    first_from_is_first(s, '(', 0);
}

proof fn constructors_are_plain()
    ensures
        is_plain("list"@) && "list"@.len() > 0,
        is_plain("map"@) && "map"@.len() > 0,
        is_plain("optional"@) && "optional"@.len() > 0,
        is_plain("type"@) && "type"@.len() > 0,
        is_plain("wrapper"@) && "wrapper"@.len() > 0,
        "list"@ != "map"@ && "list"@ != "optional"@ && "list"@ != "type"@ && "list"@ != "wrapper"@,
        "map"@ != "optional"@ && "map"@ != "type"@ && "map"@ != "wrapper"@,
        "optional"@ != "type"@ && "optional"@ != "wrapper"@,
        "type"@ != "wrapper"@,
{
    reveal_strlit("list");
    reveal_strlit("map");
    reveal_strlit("optional");
    reveal_strlit("type");
    reveal_strlit("wrapper");
    reveal_with_fuel(is_plain, 9);
    assert("list"@[0] != "type"@[0]);
}

proof fn scalar_text_is_plain(scalar: Scalar)
    ensures
        is_plain(scalar.text()),
        scalar.text().len() > 0,
{
    reveal_strlit("bool");
    reveal_strlit("int");
    reveal_strlit("uint");
    reveal_strlit("double");
    reveal_strlit("string");
    reveal_strlit("bytes");
    reveal_strlit("null");
    reveal_strlit("dyn");
    reveal_strlit("timestamp");
    reveal_strlit("duration");
    reveal_strlit("error");
    reveal_with_fuel(is_plain, 10);
}

proof fn scalar_is_named(scalar: Scalar)
    ensures
        named(scalar.text()) == Ok::<TypeModel, Seq<char>>(TypeModel::Scalar(scalar)),
{
    reveal_strlit("bool");
    reveal_strlit("int");
    reveal_strlit("uint");
    reveal_strlit("double");
    reveal_strlit("string");
    reveal_strlit("bytes");
    reveal_strlit("null");
    reveal_strlit("dyn");
    reveal_strlit("timestamp");
    reveal_strlit("duration");
    reveal_strlit("error");
    assert("bool"@[0] == 'b' && "uint"@[0] == 'u' && "null"@[0] == 'n');
    assert("bool"@ != "uint"@ && "bool"@ != "null"@ && "uint"@ != "null"@);
    assert("int"@[0] == 'i' && "dyn"@[0] == 'd');
    assert("int"@ != "dyn"@);
    assert("double"@[0] == 'd' && "string"@[0] == 's');
    assert("double"@ != "string"@);
    assert("bytes"@[0] == 'b' && "error"@[0] == 'e');
    assert("bytes"@ != "error"@);
    assert("bool"@.len() == 4 && "bytes"@.len() == 5);
    assert("dyn"@.len() == 3 && "double"@.len() == 6 && "duration"@.len() == 8);
}

/// A constructor with its parameters is read as such.
proof fn constructor_is_read(name: Seq<char>, inner: Seq<char>)
    requires
        is_plain(name),
        name.len() > 0,
    ensures
        text::trimmed(constructor_text(name, inner)) == constructor_text(name, inner),
        parsed(constructor_text(name, inner)) == constructed(name, inner),
{
    reveal_strlit("(");
    reveal_strlit(")");
    let s = constructor_text(name, inner);
    plain_letters(name);
    assert(s[0] == name[0]);
    assert(s.last() == ')');
    assert(text::trimmed(s) == s);
    first_from_is_first(s, '(', 0);
    assert(s[name.len() as int] == '(');
    assert forall|i: int| 0 <= i < name.len() implies s[i] != '(' by {
        assert(s[i] == name[i]);
    }
    assert(first_from(s, '(', 0) == Some(name.len() as int));
    assert(s.take(name.len() as int) =~= name);
    assert(s.subrange(name.len() + 1int, s.len() - 1) =~= inner);
}

proof fn written_is_trimmed(model: TypeModel)
    requires
        is_writable(model),
    ensures
        text::trimmed(type_text(model)) == type_text(model),
{
    constructors_are_plain();
    match model {
        TypeModel::Scalar(scalar) => {
            scalar_text_is_plain(scalar);
            plain_is_trimmed(scalar.text());
        },
        TypeModel::List(inner) => {
            constructor_is_read("list"@, type_text(*inner));
        },
        TypeModel::KeyValue(key, value) => {
            constructor_is_read("map"@, type_text(*key) + ", "@ + type_text(*value));
        },
        TypeModel::Optional(inner) => {
            constructor_is_read("optional"@, type_text(*inner));
        },
        TypeModel::Type(inner) => {
            constructor_is_read("type"@, type_text(*inner));
        },
        TypeModel::Wrapper(inner) => {
            constructor_is_read("wrapper"@, type_text(*inner));
        },
        TypeModel::Message(_) => {},
        TypeModel::Other => {},
    }
}

proof fn nesting_of_start(a: Seq<char>, b: Seq<char>, n: int)
    requires
        n <= a.len(),
    ensures
        nesting(a + b, n) == nesting(a, n),
    decreases n,
{
    if n > 0 {
        nesting_of_start(a, b, n - 1);
    }
}

proof fn nesting_of_rest(a: Seq<char>, b: Seq<char>, n: int)
    requires
        0 <= n <= b.len(),
    ensures
        nesting(a + b, a.len() as int + n) == nesting(a, a.len() as int) + nesting(b, n),
    decreases n,
{
    if n > 0 {
        nesting_of_rest(a, b, n - 1);
        assert((a + b)[a.len() + n - 1] == b[n - 1]);
    } else {
        nesting_of_start(a, b, a.len() as int);
    }
}

proof fn no_fault(s: Seq<char>, n: int)
    requires
        n <= s.len(),
        forall|i: int| 0 <= i < n ==> !fault_at(s, i),
    ensures
        first_fault(s, n) is None,
    decreases n,
{
    if n > 0 {
        no_fault(s, n - 1);
    }
}

/// Two parameters and the separator between them are split into the parameters.
proof fn parameters_are_split(key: Seq<char>, value: Seq<char>)
    requires
        is_parameter(key),
        is_parameter(value),
        text::trimmed(key) == key,
        text::trimmed(value) == value,
    ensures
        split(key + ", "@ + value) == Ok::<(Seq<char>, Seq<char>), Seq<char>>((key, value)),
{
    reveal_strlit(", ");
    let s = key + ", "@ + value;
    let at = key.len() as int;
    let head = key + ", "@;
    assert(nesting(s, at) == 0 && nesting(head, at + 2) == 0) by {
        assert(s =~= key + (", "@ + value));
        nesting_of_start(key, ", "@ + value, at);
        nesting_of_rest(key, ", "@, 2);
        reveal_with_fuel(nesting, 3);
        assert(head.len() == at + 2);
    }
    assert forall|i: int| 0 <= i < s.len() && i != at && #[trigger] nesting(s, i) == 0 implies s[i]
        != ')' && s[i] != ',' by {
        if i < at {
            assert(s =~= key + (", "@ + value));
            nesting_of_start(key, ", "@ + value, i);
            assert(s[i] == key[i]);
        } else if i >= at + 2 {
            nesting_of_rest(head, value, i - at - 2);
            assert(s[i] == value[i - at - 2]);
        } else {
            assert(s[i] == ' ');
        }
    }
    assert(s[at] == ',');
    assert(nesting(s, s.len() as int) == 0) by {
        nesting_of_rest(head, value, value.len() as int);
    }
    first_separator_is_first(s, at);
    first_separator_is_first(s, s.len() as int);
    assert(separator_at(s, at));
    assert(first_separator(s, at) is None);
    assert(first_separator(s, s.len() as int) == Some(at));
    no_fault(s, s.len() as int);
    assert(s.take(at) =~= key);
    assert(s.skip(at + 1) =~= seq![' '] + value + Seq::<char>::empty());
    text::trimming_ignores_padding(seq![' '], value, Seq::<char>::empty());
}

/// The names of messages in a type hold no character of the syntax.
pub open spec fn has_simple_names(model: TypeModel) -> bool
    decreases model,
{
    match model {
        TypeModel::Scalar(_) => true,
        TypeModel::List(inner) => has_simple_names(*inner),
        TypeModel::KeyValue(key, value) => has_simple_names(*key) && has_simple_names(*value),
        TypeModel::Optional(inner) => has_simple_names(*inner),
        TypeModel::Type(inner) => has_simple_names(*inner),
        TypeModel::Wrapper(inner) => has_simple_names(*inner),
        TypeModel::Message(name) => is_message_name(name) && !name.contains(')')
            && !name.contains(','),
        TypeModel::Other => false,
    }
}

/// A type can be written wherever a type may stand if the names in it are simple.
pub proof fn simple_types_are_writable(model: TypeModel)
    requires
        has_simple_names(model),
    ensures
        is_writable(model),
        is_parameter(type_text(model)),
    decreases model,
{
    constructors_are_plain();
    match model {
        TypeModel::Scalar(scalar) => {
            scalar_text_is_plain(scalar);
            plain_letters(scalar.text());
            no_parentheses(scalar.text(), scalar.text().len() as int);
        },
        TypeModel::List(inner) => {
            simple_types_are_writable(*inner);
            constructor_is_parameter("list"@, type_text(*inner));
        },
        TypeModel::KeyValue(key, value) => {
            simple_types_are_writable(*key);
            simple_types_are_writable(*value);
            pair_is_balanced(type_text(*key), type_text(*value));
            constructor_is_parameter("map"@, type_text(*key) + ", "@ + type_text(*value));
        },
        TypeModel::Optional(inner) => {
            simple_types_are_writable(*inner);
            constructor_is_parameter("optional"@, type_text(*inner));
        },
        TypeModel::Type(inner) => {
            simple_types_are_writable(*inner);
            constructor_is_parameter("type"@, type_text(*inner));
        },
        TypeModel::Wrapper(inner) => {
            simple_types_are_writable(*inner);
            constructor_is_parameter("wrapper"@, type_text(*inner));
        },
        TypeModel::Message(name) => {
            assert forall|i: int| 0 <= i < name.len() implies #[trigger] name[i] != '(' && name[i]
                != ')' && name[i] != ',' by {
                assert(name.contains(name[i]));
            }
            no_parentheses(name, name.len() as int);
        },
        TypeModel::Other => {},
    }
}

/// Every parenthesis of the text has its counterpart.
pub open spec fn is_balanced(s: Seq<char>) -> bool {
    &&& nesting(s, s.len() as int) == 0
    &&& forall|i: int| 0 <= i < s.len() && #[trigger] nesting(s, i) == 0 ==> s[i] != ')'
}

proof fn no_parentheses(s: Seq<char>, n: int)
    requires
        n <= s.len(),
        forall|i: int| 0 <= i < s.len() ==> #[trigger] s[i] != '(' && s[i] != ')',
    ensures
        nesting(s, n) == 0,
    decreases n,
{
    if n > 0 {
        no_parentheses(s, n - 1);
    }
}

proof fn balanced_is_not_negative(s: Seq<char>, n: int)
    requires
        is_balanced(s),
        0 <= n <= s.len(),
    ensures
        nesting(s, n) >= 0,
    decreases n,
{
    if n > 0 {
        balanced_is_not_negative(s, n - 1);
        assert(nesting(s, n - 1) == 0 ==> s[n - 1] != ')');
    }
}

proof fn pair_is_balanced(key: Seq<char>, value: Seq<char>)
    requires
        is_parameter(key),
        is_parameter(value),
    ensures
        is_balanced(key + ", "@ + value),
{
    reveal_strlit(", ");
    let s = key + ", "@ + value;
    let at = key.len() as int;
    let head = key + ", "@;
    assert(nesting(head, at + 2) == 0) by {
        nesting_of_rest(key, ", "@, 2);
        reveal_with_fuel(nesting, 3);
    }
    assert forall|i: int| 0 <= i < s.len() && #[trigger] nesting(s, i) == 0 implies s[i]
        != ')' by {
        if i < at {
            assert(s =~= key + (", "@ + value));
            nesting_of_start(key, ", "@ + value, i);
            assert(s[i] == key[i]);
        } else if i >= at + 2 {
            nesting_of_rest(head, value, i - at - 2);
            assert(s[i] == value[i - at - 2]);
        } else {
            assert(s[i] == ", "@[i - at]);
        }
    }
    nesting_of_rest(head, value, value.len() as int);
}

proof fn constructor_is_parameter(name: Seq<char>, inner: Seq<char>)
    requires
        is_plain(name),
        is_balanced(inner),
    ensures
        is_parameter(constructor_text(name, inner)),
{
    reveal_strlit("(");
    reveal_strlit(")");
    let s = constructor_text(name, inner);
    let head = name + "("@;
    let open = name.len() as int;
    plain_letters(name);
    no_parentheses(name, open);
    assert(nesting(head, open + 1) == 1) by {
        nesting_of_rest(name, "("@, 1);
        reveal_with_fuel(nesting, 2);
    }
    let body = head + inner;
    assert(nesting(body, body.len() as int) == 1) by {
        nesting_of_rest(head, inner, inner.len() as int);
    }
    assert(nesting(s, s.len() as int) == 0) by {
        nesting_of_rest(body, ")"@, 1);
        reveal_with_fuel(nesting, 2);
    }
    assert forall|i: int| 0 <= i < s.len() && #[trigger] nesting(s, i) == 0 implies s[i] != ')'
        && s[i] != ',' by {
        if i < open {
            assert(s[i] == name[i]);
        } else if i == open {
            assert(s[i] == '(');
        } else if i < body.len() {
            nesting_of_start(body, ")"@, i);
            nesting_of_rest(head, inner, i - open - 1);
            balanced_is_not_negative(inner, i - open - 1);
        } else {
            nesting_of_start(body, ")"@, i);
        }
    }
}

/// The nesting of a text is that of its parts together: one more for a parenthesis that opens, one
/// less for one that closes.
pub proof fn nesting_counts_parentheses(a: Seq<char>, b: Seq<char>, c: char)
    ensures
        nesting(a + b, (a + b).len() as int) == nesting(a, a.len() as int) + nesting(
            b,
            b.len() as int,
        ),
        nesting(seq![c], 1) == if c == '(' {
            1int
        } else if c == ')' {
            -1
        } else {
            0
        },
{
    nesting_of_rest(a, b, b.len() as int);
    reveal_with_fuel(nesting, 2);
}

/// Two parameters, one behind the other, are a parameter.
proof fn parameters_join(a: Seq<char>, b: Seq<char>)
    requires
        is_parameter(a),
        is_parameter(b),
    ensures
        is_parameter(a + b),
{
    let s = a + b;
    nesting_of_rest(a, b, b.len() as int);
    assert forall|i: int| 0 <= i < s.len() && #[trigger] nesting(s, i) == 0 implies s[i] != ')'
        && s[i] != ',' by {
        if i < a.len() {
            nesting_of_start(a, b, i);
            assert(s[i] == a[i]);
        } else {
            nesting_of_rest(a, b, i - a.len());
            assert(s[i] == b[i - a.len()]);
        }
    }
}

proof fn blanks_are_parameters(w: Seq<char>)
    requires
        forall|i: int| 0 <= i < w.len() ==> text::is_white_space(#[trigger] w[i]),
    ensures
        is_parameter(w),
{
    assert forall|i: int| 0 <= i < w.len() implies #[trigger] w[i] != '(' && w[i] != ')' && w[i]
        != ',' by {
        assert(text::is_white_space(w[i]));
    }
    no_parentheses(w, w.len() as int);
}

/// Where two parameters with a comma between them stand in a text, and what is found up to there.
proof fn scan_of_pair(key: Seq<char>, value: Seq<char>, rest: Seq<char>)
    requires
        is_parameter(key),
        is_parameter(value),
    ensures
        ({
            let s = key + seq![','] + value + rest;
            let at = key.len() as int;
            let n = at + 1 + value.len() as int;
            &&& nesting(s, n) == 0
            &&& separator_at(s, at)
            &&& first_separator(s, n) == Some(at)
            &&& first_fault(s, n) is None
        }),
{
    let s = key + seq![','] + value + rest;
    let at = key.len() as int;
    let head = key + seq![','];
    let pair = head + value;
    let n = pair.len() as int;
    assert(nesting(head, at + 1) == 0) by {
        nesting_of_rest(key, seq![','], 1);
        reveal_with_fuel(nesting, 2);
    }
    assert(nesting(s, at) == 0) by {
        assert(s =~= key + (seq![','] + value + rest));
        nesting_of_start(key, seq![','] + value + rest, at);
    }
    assert(s =~= pair + rest);
    assert(nesting(s, n) == 0) by {
        nesting_of_rest(head, value, value.len() as int);
        nesting_of_start(pair, rest, n);
    }
    assert forall|i: int| 0 <= i < n && i != at && #[trigger] nesting(s, i) == 0 implies s[i] != ')'
        && s[i] != ',' by {
        nesting_of_start(pair, rest, i);
        if i < at {
            assert(pair =~= key + (seq![','] + value));
            nesting_of_start(key, seq![','] + value, i);
            assert(s[i] == key[i]);
        } else {
            nesting_of_rest(head, value, i - at - 1);
            assert(s[i] == value[i - at - 1]);
        }
    }
    assert(s[at] == ',');
    first_separator_is_first(s, at);
    first_separator_is_first(s, n);
    assert(separator_at(s, at));
    assert forall|i: int| 0 <= i < n implies !fault_at(s, i) by {
        if i == at {
            assert(first_separator(s, at) is None);
        }
    }
    no_fault(s, n);
}

/// Two parameters are told apart by the comma between them, with or without white space around it.
pub proof fn pairs_are_split(key: Seq<char>, before: Seq<char>, after: Seq<char>, value: Seq<char>)
    requires
        is_parameter(key),
        is_parameter(value),
        forall|i: int| 0 <= i < before.len() ==> text::is_white_space(#[trigger] before[i]),
        forall|i: int| 0 <= i < after.len() ==> text::is_white_space(#[trigger] after[i]),
    ensures
        split(key + before + seq![','] + (after + value)) == Ok::<
            (Seq<char>, Seq<char>),
            Seq<char>,
        >((text::trimmed(key), text::trimmed(value))),
{
    let none = Seq::<char>::empty();
    let k = key + before;
    let v = after + value;
    let s = k + seq![','] + v;
    blanks_are_parameters(before);
    blanks_are_parameters(after);
    parameters_join(key, before);
    parameters_join(after, value);
    scan_of_pair(k, v, none);
    assert(k + seq![','] + v + none =~= s);
    assert(s.take(k.len() as int) =~= none + key + before);
    assert(s.skip(k.len() as int + 1) =~= after + value + none);
    text::trimming_ignores_padding(none, key, before);
    text::trimming_ignores_padding(after, value, none);
}

/// A single parameter is not enough for a map type.
pub proof fn single_parameters_are_refused(s: Seq<char>)
    requires
        is_parameter(s),
    ensures
        split(s) == Err::<(Seq<char>, Seq<char>), Seq<char>>(
            "map type must have 2 parameters: '"@ + s + "'"@,
        ),
{
    let n = s.len() as int;
    first_separator_is_first(s, n);
    assert forall|i: int| 0 <= i < n implies !fault_at(s, i) && !separator_at(s, i) by {
        assert(nesting(s, i) == 0 ==> s[i] != ')' && s[i] != ',');
    }
    no_fault(s, n);
}

/// Three parameters are too many for a map type, whatever comes behind the second comma.
pub proof fn third_parameters_are_refused(key: Seq<char>, value: Seq<char>, rest: Seq<char>)
    requires
        is_parameter(key),
        is_parameter(value),
    ensures
        ({
            let s = key + seq![','] + value + (seq![','] + rest);
            split(s) == Err::<(Seq<char>, Seq<char>), Seq<char>>(
                "map type has more than 2 parameters: '"@ + s + "'"@,
            )
        }),
{
    let s = key + seq![','] + value + (seq![','] + rest);
    let n = key.len() as int + 1 + value.len() as int;
    scan_of_pair(key, value, seq![','] + rest);
    assert(s[n] == ',');
    assert(fault_at(s, n));
    assert(first_fault(s, n + 1) == Some(n));
    first_fault_stays(s, n + 1, s.len() as int);
}

/// A parenthesis that closes none is refused, behind one parameter or behind two.
pub proof fn stray_parentheses_are_refused(key: Seq<char>, value: Seq<char>, rest: Seq<char>)
    requires
        is_parameter(key),
        is_parameter(value),
    ensures
        ({
            let s = key + (seq![')'] + rest);
            split(s) == Err::<(Seq<char>, Seq<char>), Seq<char>>(
                "unbalanced parentheses in map type: '"@ + s + "'"@,
            )
        }),
        ({
            let s = key + seq![','] + value + (seq![')'] + rest);
            split(s) == Err::<(Seq<char>, Seq<char>), Seq<char>>(
                "unbalanced parentheses in map type: '"@ + s + "'"@,
            )
        }),
{
    let one = key + (seq![')'] + rest);
    let at = key.len() as int;
    nesting_of_start(key, seq![')'] + rest, at);
    assert(one[at] == ')');
    assert forall|i: int| 0 <= i < at implies !fault_at(one, i) by {
        nesting_of_start(key, seq![')'] + rest, i);
        assert(one[i] == key[i]);
        assert(nesting(key, i) == 0 ==> key[i] != ')' && key[i] != ',');
    }
    no_fault(one, at);
    assert(fault_at(one, at));
    assert(first_fault(one, at + 1) == Some(at));
    first_fault_stays(one, at + 1, one.len() as int);

    let two = key + seq![','] + value + (seq![')'] + rest);
    let n = at + 1 + value.len() as int;
    scan_of_pair(key, value, seq![')'] + rest);
    assert(two[n] == ')');
    assert(fault_at(two, n));
    assert(first_fault(two, n + 1) == Some(n));
    first_fault_stays(two, n + 1, two.len() as int);
}

/// A parenthesis that stays open is refused.
pub proof fn open_parentheses_are_refused(key: Seq<char>, inner: Seq<char>)
    requires
        is_parameter(key),
        is_balanced(inner),
    ensures
        ({
            let s = key + (seq!['('] + inner);
            split(s) == Err::<(Seq<char>, Seq<char>), Seq<char>>(
                "unbalanced parentheses in map type: '"@ + s + "'"@,
            )
        }),
{
    let s = key + (seq!['('] + inner);
    let at = key.len() as int;
    let head = key + seq!['('];
    assert(s =~= head + inner);
    assert(nesting(head, at + 1) == 1) by {
        nesting_of_rest(key, seq!['('], 1);
        reveal_with_fuel(nesting, 2);
    }
    nesting_of_rest(head, inner, inner.len() as int);
    assert forall|i: int| 0 <= i < s.len() implies !fault_at(s, i) by {
        if i < at {
            nesting_of_start(key, seq!['('] + inner, i);
            assert(s[i] == key[i]);
            assert(nesting(key, i) == 0 ==> key[i] != ')' && key[i] != ',');
        } else if i == at {
            assert(s[i] == '(');
        } else {
            nesting_of_rest(head, inner, i - at - 1);
            balanced_is_not_negative(inner, i - at - 1);
        }
    }
    no_fault(s, s.len() as int);
}

/// What is made of a parameter: a type, or the message that tells what is wrong with the parameter.
pub open spec fn wrapped(
    inner: Result<TypeModel, Seq<char>>,
    wrap: spec_fn(TypeModel) -> TypeModel,
) -> Result<TypeModel, Seq<char>> {
    match inner {
        Ok(model) => Ok(wrap(model)),
        Err(message) => Err(message),
    }
}

/// Each constructor makes its type of whatever type its parameter stands for, and reports what is
/// wrong with its parameter.
pub proof fn constructors_take_any_type(inner: Seq<char>)
    ensures
        parsed("list"@ + seq!['('] + inner + seq![')']) == wrapped(
            parsed(inner),
            |m: TypeModel| TypeModel::List(Box::new(m)),
        ),
        parsed("optional"@ + seq!['('] + inner + seq![')']) == wrapped(
            parsed(inner),
            |m: TypeModel| TypeModel::Optional(Box::new(m)),
        ),
        parsed("type"@ + seq!['('] + inner + seq![')']) == wrapped(
            parsed(inner),
            |m: TypeModel| TypeModel::Type(Box::new(m)),
        ),
        parsed("wrapper"@ + seq!['('] + inner + seq![')']) == wrapped(
            parsed(inner),
            |m: TypeModel| TypeModel::Wrapper(Box::new(m)),
        ),
{
    constructors_are_plain();
    parentheses_are_characters();
    constructor_is_read("list"@, inner);
    constructor_is_read("optional"@, inner);
    constructor_is_read("type"@, inner);
    constructor_is_read("wrapper"@, inner);
}

proof fn parentheses_are_characters()
    ensures
        "("@ == seq!['('],
        ")"@ == seq![')'],
{
    reveal_strlit("(");
    reveal_strlit(")");
    assert("("@ =~= seq!['(']);
    assert(")"@ =~= seq![')']);
}

/// A map type is made of whatever types its two parameters stand for, with or without white space
/// around the comma between them. What is wrong with the first is reported before what is wrong with
/// the second.
pub proof fn map_types_take_any_types(
    key: Seq<char>,
    before: Seq<char>,
    after: Seq<char>,
    value: Seq<char>,
)
    requires
        is_parameter(key),
        is_parameter(value),
        forall|i: int| 0 <= i < before.len() ==> text::is_white_space(#[trigger] before[i]),
        forall|i: int| 0 <= i < after.len() ==> text::is_white_space(#[trigger] after[i]),
    ensures
        ({
            let inner = key + before + seq![','] + (after + value);
            let outcome = parsed("map"@ + seq!['('] + inner + seq![')']);
            match (parsed(key), parsed(value)) {
                (Ok(k), Ok(v)) => outcome == Ok::<TypeModel, Seq<char>>(
                    TypeModel::KeyValue(Box::new(k), Box::new(v)),
                ),
                (Err(message), _) => outcome == Err::<TypeModel, Seq<char>>(message),
                (_, Err(message)) => outcome == Err::<TypeModel, Seq<char>>(message),
            }
        }),
{
    let none = Seq::<char>::empty();
    let inner = key + before + seq![','] + (after + value);
    constructors_are_plain();
    parentheses_are_characters();
    constructor_is_read("map"@, inner);
    pairs_are_split(key, before, after, value);
    trimming_keeps_types(key);
    trimming_keeps_types(value);
}

/// A text stands for what the text without the white space around it stands for.
pub proof fn trimming_keeps_types(s: Seq<char>)
    ensures
        parsed(text::trimmed(s)) == parsed(s),
{
    text::trimmed_is_part(s);
    let t = text::trimmed(s);
    assert(text::trimmed(t) == t);
}

/// Other constructors are refused, whatever their parameters.
pub proof fn other_constructors_are_refused(name: Seq<char>, inner: Seq<char>)
    requires
        !name.contains('('),
        name.len() > 0 ==> !text::is_white_space(name[0]),
        name != "list"@,
        name != "map"@,
        name != "optional"@,
        name != "type"@,
        name != "wrapper"@,
    ensures
        parsed(name + seq!['('] + inner + seq![')']) == Err::<TypeModel, Seq<char>>(
            "unknown parameterized type: '"@ + name + "'"@,
        ),
{
    let s = name + seq!['('] + inner + seq![')'];
    let open = name.len() as int;
    assert(name.len() > 0 ==> s[0] == name[0]);
    assert(s.last() == ')');
    assert(text::trimmed(s) == s);
    first_from_is_first(s, '(', 0);
    assert(s[open] == '(');
    assert forall|i: int| 0 <= i < open implies s[i] != '(' by {
        assert(s[i] == name[i]);
        assert(name.contains(name[i]));
    }
    assert(first_from(s, '(', 0) == Some(open));
    assert(s.take(open) =~= name);
    assert(s.subrange(open + 1, s.len() - 1) =~= inner);
}

/// A constructor whose parenthesis is not the last character is refused.
pub proof fn unclosed_constructors_are_refused(s: Seq<char>)
    requires
        s.contains('('),
        s.last() != ')',
        !text::is_white_space(s[0]),
        !text::is_white_space(s.last()),
    ensures
        parsed(s) == Err::<TypeModel, Seq<char>>(
            "malformed type string: missing closing paren in '"@ + s + "'"@,
        ),
{
    first_from_is_first(s, '(', 0);
    assert(text::trimmed(s) == s);
}

/// A name is that of a message, unless it is that of a scalar type.
pub proof fn other_names_are_messages(name: Seq<char>)
    requires
        name.len() > 0,
        !name.contains('('),
        !text::is_white_space(name[0]),
        !text::is_white_space(name.last()),
        forall|scalar: Scalar| #[trigger] scalar.text() != name,
    ensures
        parsed(name) == Ok::<TypeModel, Seq<char>>(TypeModel::Message(name)),
{
    first_from_is_first(name, '(', 0);
    assert forall|i: int| 0 <= i < name.len() implies name[i] != '(' by {
        assert(name.contains(name[i]));
    }
    assert(text::trimmed(name) == name);
    assert(Scalar::Bool.text() != name);
    assert(Scalar::Int.text() != name);
    assert(Scalar::UInt.text() != name);
    assert(Scalar::Double.text() != name);
    assert(Scalar::String.text() != name);
    assert(Scalar::Bytes.text() != name);
    assert(Scalar::Null.text() != name);
    assert(Scalar::Dyn.text() != name);
    assert(Scalar::Timestamp.text() != name);
    assert(Scalar::Duration.text() != name);
    assert(Scalar::Error.text() != name);
}

/// The name of a scalar type stands for that type.
pub proof fn scalar_names_are_scalars(scalar: Scalar)
    ensures
        parsed(scalar.text()) == Ok::<TypeModel, Seq<char>>(TypeModel::Scalar(scalar)),
{
    written_types_parse(TypeModel::Scalar(scalar));
}

/// White space alone stands for no type.
pub proof fn blanks_are_refused(s: Seq<char>)
    requires
        forall|i: int| 0 <= i < s.len() ==> text::is_white_space(#[trigger] s[i]),
    ensures
        parsed(s) == Err::<TypeModel, Seq<char>>("empty type string"@),
{
    let none = Seq::<char>::empty();
    text::trimming_ignores_padding(s, none, none);
    assert(s + none + none =~= s);
    scalar_text_is_plain(Scalar::Bool);
    scalar_text_is_plain(Scalar::Int);
    scalar_text_is_plain(Scalar::UInt);
    scalar_text_is_plain(Scalar::Double);
    scalar_text_is_plain(Scalar::String);
    scalar_text_is_plain(Scalar::Bytes);
    scalar_text_is_plain(Scalar::Null);
    scalar_text_is_plain(Scalar::Dyn);
    scalar_text_is_plain(Scalar::Timestamp);
    scalar_text_is_plain(Scalar::Duration);
    scalar_text_is_plain(Scalar::Error);
}

proof fn first_fault_is_first(s: Seq<char>, n: int)
    ensures
        match first_fault(s, n) {
            Some(at) => {
                &&& 0 <= at < n
                &&& fault_at(s, at)
                &&& forall|i: int| 0 <= i < at ==> !fault_at(s, i)
            },
            None => forall|i: int| 0 <= i < n ==> !fault_at(s, i),
        },
    decreases n,
{
    if n > 0 {
        first_fault_is_first(s, n - 1);
    }
}

/// A part of a text nests as it does alone, on top of what is open where it starts.
proof fn nesting_of_part(s: Seq<char>, from: int, to: int, n: int)
    requires
        0 <= from <= from + n <= to <= s.len(),
    ensures
        nesting(s, from + n) == nesting(s, from) + nesting(s.subrange(from, to), n),
    decreases n,
{
    if n > 0 {
        nesting_of_part(s, from, to, n - 1);
        assert(s.subrange(from, to)[n - 1] == s[from + n - 1]);
    }
}

/// A part of a text is a parameter if all parentheses are closed where it starts and where it ends,
/// and no separator and no parenthesis that closes none stand in it.
proof fn part_is_parameter(s: Seq<char>, from: int, to: int)
    requires
        0 <= from <= to <= s.len(),
        nesting(s, from) == 0,
        nesting(s, to) == 0,
        forall|i: int|
            from <= i < to && #[trigger] nesting(s, i) == 0 ==> s[i] != ')' && s[i] != ',',
    ensures
        is_parameter(s.subrange(from, to)),
{
    let part = s.subrange(from, to);
    nesting_of_part(s, from, to, to - from);
    assert forall|i: int| 0 <= i < part.len() && #[trigger] nesting(part, i) == 0 implies part[i]
        != ')' && part[i] != ',' by {
        nesting_of_part(s, from, to, i);
        assert(nesting(s, from + i) == 0);
        assert(part[i] == s[from + i]);
    }
}

/// Up to `n` a text without faults that has a separator, and all parentheses closed, is a pair of
/// parameters.
proof fn start_is_pair(s: Seq<char>, at: int, n: int)
    requires
        0 <= n <= s.len(),
        forall|i: int| 0 <= i < n ==> !fault_at(s, i),
        nesting(s, n) == 0,
        first_separator(s, n) == Some(at),
    ensures
        0 <= at < n,
        s[at] == ',',
        is_parameter(s.take(at)),
        is_parameter(s.subrange(at + 1, n)),
{
    first_separator_is_first(s, n);
    assert(separator_at(s, at));
    assert forall|i: int| 0 <= i < at && #[trigger] nesting(s, i) == 0 implies s[i] != ')' && s[i]
        != ',' by {
        assert(!fault_at(s, i) && !separator_at(s, i));
    }
    assert(s.take(at) =~= s.subrange(0, at));
    part_is_parameter(s, 0, at);
    assert forall|i: int| at + 1 <= i < n && #[trigger] nesting(s, i) == 0 implies s[i] != ')'
        && s[i] != ',' by {
        first_separator_is_first(s, i);
        assert(!fault_at(s, i));
    }
    assert(nesting(s, at + 1) == nesting(s, at));
    part_is_parameter(s, at + 1, n);
}

/// Nothing but two parameters with a comma between them is split, at that comma.
pub proof fn only_pairs_are_split(s: Seq<char>)
    ensures
        split(s) matches Ok((key, value)) ==> exists|at: int|
            0 <= at < s.len() && s[at] == ',' && is_parameter(#[trigger] s.take(at))
                && is_parameter(s.skip(at + 1)) && key == text::trimmed(s.take(at)) && value
                == text::trimmed(s.skip(at + 1)),
{
    let n = s.len() as int;
    first_fault_is_first(s, n);
    if let Ok((key, value)) = split(s) {
        let at = first_separator(s, n)->0;
        start_is_pair(s, at, n);
        assert(s.subrange(at + 1, n) =~= s.skip(at + 1));
        assert(is_parameter(s.take(at)));
    }
}

/// What is not split is refused for what is wrong with it: too few parameters only where there is
/// one, too many only where a comma stands behind two, and unbalanced parentheses otherwise.
pub proof fn refusals_have_their_reasons(s: Seq<char>)
    ensures
        split(s) matches Err(message) ==> {
            ||| message == "map type must have 2 parameters: '"@ + s + "'"@ && is_parameter(s)
            ||| message == "map type has more than 2 parameters: '"@ + s + "'"@ && exists|
                at: int,
                second: int,
            |
                0 <= at < second < s.len() && s[at] == ',' && s[second] == ',' && is_parameter(
                    #[trigger] s.take(at),
                ) && is_parameter(#[trigger] s.subrange(at + 1, second))
            ||| message == "unbalanced parentheses in map type: '"@ + s + "'"@ && !is_balanced(s)
        },
{
    let n = s.len() as int;
    first_fault_is_first(s, n);
    match first_fault(s, n) {
        Some(i) => {
            if s[i] != ')' {
                let at = first_separator(s, i)->0;
                start_is_pair(s, at, i);
                assert(is_parameter(s.take(at)) && is_parameter(s.subrange(at + 1, i)));
            } else {
                assert(nesting(s, i) == 0);
            }
        },
        None => {
            if nesting(s, n) == 0 && first_separator(s, n) is None {
                first_separator_is_first(s, n);
                assert forall|i: int| 0 <= i < s.len() && #[trigger] nesting(s, i) == 0 implies s[i]
                    != ')' && s[i] != ',' by {
                    assert(!fault_at(s, i) && !separator_at(s, i));
                }
                assert(is_parameter(s));
            }
        },
    }
}

/// What is wrong with the parameters of a map type is what is wrong with the map type.
pub proof fn broken_pairs_are_reported(inner: Seq<char>)
    ensures
        split(inner) matches Err(message) ==> parsed("map"@ + seq!['('] + inner + seq![')'])
            == Err::<TypeModel, Seq<char>>(message),
{
    constructors_are_plain();
    parentheses_are_characters();
    constructor_is_read("map"@, inner);
}

} // verus!
