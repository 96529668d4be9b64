//! The names that CEL itself defines.

use crate::text::same_text;
use vstd::prelude::*;

verus! {

/// The functions, type conversions and macros of the CEL language definition.
pub open spec fn builtin_names() -> Seq<Seq<char>> {
    seq![
        "size"@, "contains"@, "startsWith"@, "endsWith"@, "matches"@,
        "getFullYear"@, "getMonth"@, "getDate"@, "getDayOfMonth"@, "getDayOfWeek"@,
        "getDayOfYear"@, "getHours"@, "getMinutes"@, "getSeconds"@, "getMilliseconds"@,
        "bool"@, "int"@, "uint"@, "double"@, "string"@, "bytes"@, "type"@, "dyn"@,
        "timestamp"@, "duration"@,
        "has"@, "all"@, "exists"@, "exists_one"@, "map"@, "filter"@,
    ]
}

/// Whether CEL itself defines a function, type conversion or macro of this name.
pub fn is_builtin(name: &str) -> (builtin: bool)
    ensures
        builtin == builtin_names().contains(name@),
{
    let names: [&str; 31] = [
        "size", "contains", "startsWith", "endsWith", "matches",
        "getFullYear", "getMonth", "getDate", "getDayOfMonth", "getDayOfWeek",
        "getDayOfYear", "getHours", "getMinutes", "getSeconds", "getMilliseconds",
        "bool", "int", "uint", "double", "string", "bytes", "type", "dyn",
        "timestamp", "duration",
        "has", "all", "exists", "exists_one", "map", "filter",
    ];
    let ghost known = builtin_names();
    assert(known.len() == 31);
    assert(forall|k: int| 0 <= k < 31 ==> (#[trigger] names@[k])@ == known[k]);
    let mut i: usize = 0;
    while i < 31
        invariant
            i <= 31,
            known == builtin_names(),
            known.len() == 31,
            forall|k: int| 0 <= k < 31 ==> (#[trigger] names@[k])@ == known[k],
            forall|k: int| 0 <= k < i ==> known[k] != name@,
        decreases 31 - i,
    {
        if same_text(names[i], name) {
            assert(known[i as int] == name@);
            return true;
        }
        i += 1;
    }
    false
}

/// The functions that measure or test a value.
pub open spec fn is_test_of_values(name: Seq<char>) -> bool {
    ||| name == "size"@
    ||| name == "contains"@
    ||| name == "startsWith"@
    ||| name == "endsWith"@
    ||| name == "matches"@
}

/// The functions that take a part out of a point in time or a duration.
pub open spec fn is_part_of_time(name: Seq<char>) -> bool {
    ||| name == "getFullYear"@
    ||| name == "getMonth"@
    ||| name == "getDate"@
    ||| name == "getDayOfMonth"@
    ||| name == "getDayOfWeek"@
    ||| name == "getDayOfYear"@
    ||| name == "getHours"@
    ||| name == "getMinutes"@
    ||| name == "getSeconds"@
    ||| name == "getMilliseconds"@
}

/// The functions that convert a value to a type, each of the name of its type.
pub open spec fn is_conversion(name: Seq<char>) -> bool {
    ||| name == "bool"@
    ||| name == "int"@
    ||| name == "uint"@
    ||| name == "double"@
    ||| name == "string"@
    ||| name == "bytes"@
    ||| name == "type"@
    ||| name == "dyn"@
    ||| name == "timestamp"@
    ||| name == "duration"@
}

/// The macros.
pub open spec fn is_macro(name: Seq<char>) -> bool {
    ||| name == "has"@
    ||| name == "all"@
    ||| name == "exists"@
    ||| name == "exists_one"@
    ||| name == "map"@
    ||| name == "filter"@
}

/// A name is defined by CEL itself if and only if it is that of a function, of a type conversion or
/// of a macro of the language.
pub proof fn language_defines_its_names(name: Seq<char>)
    ensures
        builtin_names().contains(name) == (is_test_of_values(name) || is_part_of_time(name)
            || is_conversion(name) || is_macro(name)),
{
    let known = builtin_names();
    assert(known[0] == "size"@);
    assert(known[1] == "contains"@);
    assert(known[2] == "startsWith"@);
    assert(known[3] == "endsWith"@);
    assert(known[4] == "matches"@);
    assert(known[5] == "getFullYear"@);
    assert(known[6] == "getMonth"@);
    assert(known[7] == "getDate"@);
    assert(known[8] == "getDayOfMonth"@);
    assert(known[9] == "getDayOfWeek"@);
    assert(known[10] == "getDayOfYear"@);
    assert(known[11] == "getHours"@);
    assert(known[12] == "getMinutes"@);
    assert(known[13] == "getSeconds"@);
    assert(known[14] == "getMilliseconds"@);
    assert(known[15] == "bool"@);
    assert(known[16] == "int"@);
    assert(known[17] == "uint"@);
    assert(known[18] == "double"@);
    assert(known[19] == "string"@);
    assert(known[20] == "bytes"@);
    assert(known[21] == "type"@);
    assert(known[22] == "dyn"@);
    assert(known[23] == "timestamp"@);
    assert(known[24] == "duration"@);
    assert(known[25] == "has"@);
    assert(known[26] == "all"@);
    assert(known[27] == "exists"@);
    assert(known[28] == "exists_one"@);
    assert(known[29] == "map"@);
    assert(known[30] == "filter"@);
    assert(known.len() == 31);
}

} // verus!
