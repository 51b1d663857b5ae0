use vstd::prelude::*;
use crate::error::{is_transport_error, transport_error, ServerError};
use crate::results::ConfigurationResult;

verus! {

broadcast use vstd::std_specs::vec::group_vec_axioms;

/// A JSON value as a request body carries it.
pub enum JsonValue {
    Null,
    Bool(bool),
    /// A number, by its text.
    Number(String),
    Text(String),
    Array(Vec<JsonValue>),
    /// Members in order; a JSON object names each member once.
    Object(Vec<(String, JsonValue)>),
}

/// The truth value that an external atom is assigned.
#[derive(Clone, Copy, Debug, PartialEq, Eq, Structural)]
pub enum TruthValue {
    Free,
    True,
    False,
}

/// `j` is the first member of `m` named `key`.
pub open spec fn is_first_key(m: Seq<(String, JsonValue)>, key: Seq<char>, j: int) -> bool {
    &&& 0 <= j < m.len()
    &&& m[j].0@ == key
    &&& forall|i: int| 0 <= i < j ==> m[i].0@ != key
}

/// The member of `m` named `key`, if any.
pub open spec fn member(m: Seq<(String, JsonValue)>, key: Seq<char>) -> Option<JsonValue> {
    if exists|j: int| is_first_key(m, key, j) {
        Some(m[choose|j: int| is_first_key(m, key, j)].1)
    } else {
        None
    }
}

proof fn lemma_member(m: Seq<(String, JsonValue)>, key: Seq<char>, j: int)
    requires
        is_first_key(m, key, j),
    ensures
        member(m, key) == Some(m[j].1),
{
    let i = choose|i: int| is_first_key(m, key, i);
    assert(is_first_key(m, key, i));
    if i < j {
        assert(m[i].0@ != key);
    } else if i > j {
        assert(m[j].0@ == key);
    }
}

/// The value of member `key` of `m`, if it has one.
fn get_member<'a>(m: &'a Vec<(String, JsonValue)>, key: &str) -> (r: Option<&'a JsonValue>)
    ensures
        match r {
            Some(v) => member(m@, key@) == Some(*v),
            None => member(m@, key@) is None,
        },
{
    let wanted = String::from_str(key);
    let mut j: usize = 0;
    while j < m.len()
        invariant
            wanted@ == key@,
            j <= m@.len(),
            forall|i: int| 0 <= i < j ==> m@[i].0@ != key@,
        decreases m@.len() - j,
    {
        if m[j].0 == wanted {
            proof {
                lemma_member(m@, key@, j as int);
            }
            return Some(&m[j].1);
        }
        j = j + 1;
    }
    None
}

/// A configuration tree made of the JSON strings, arrays and objects of `j`.
pub open spec fn configuration_of(j: JsonValue, c: ConfigurationResult) -> bool
    decreases j,
{
    match j {
        JsonValue::Text(s) => c is Value && c->Value_0@ == s@,
        JsonValue::Array(a) => match c {
            ConfigurationResult::Array(ca) => a@.len() == ca@.len() && forall|i: int|
                0 <= i < a@.len() ==> configuration_of(#[trigger] a@[i], ca@[i]),
            _ => false,
        },
        JsonValue::Object(m) => match c {
            ConfigurationResult::Mapping(cm) => m@.len() == cm@.len() && (forall|i: int|
                0 <= i < m@.len() ==> #[trigger] cm@[i].0@ == m@[i].0@) && (forall|i: int|
                0 <= i < m@.len() ==> configuration_of(#[trigger] m@[i].1, cm@[i].1)),
            _ => false,
        },
        _ => false,
    }
}

/// `j` holds no null, boolean or number.
pub open spec fn is_configuration(j: JsonValue) -> bool
    decreases j,
{
    match j {
        JsonValue::Text(_) => true,
        JsonValue::Array(a) => forall|i: int| 0 <= i < a@.len() ==> is_configuration(#[trigger] a@[i]),
        JsonValue::Object(m) => forall|i: int|
            0 <= i < m@.len() ==> is_configuration(#[trigger] m@[i].1),
        _ => false,
    }
}

/// Reads a configuration tree from JSON: strings are leaves, arrays and objects keep their
/// order. A null, boolean or number anywhere is refused.
pub fn json_to_configuration_result(val: &JsonValue) -> (r: Result<ConfigurationResult, ServerError>)
    ensures
        r is Ok <==> is_configuration(*val),
        match r {
            Ok(c) => configuration_of(*val, c),
            Err(_) => is_transport_error(r, "Could not parse configuration data"@),
        },
    decreases val,
{
    match val {
        JsonValue::Text(s) => Ok(ConfigurationResult::Value(s.clone())),
        JsonValue::Array(a) => match array_to_configuration(a) {
            Some(arr) => {
                proof {
                    assert(configuration_of(*val, ConfigurationResult::Array(arr)));
                }
                Ok(ConfigurationResult::Array(arr))
            },
            None => Err(transport_error("Could not parse configuration data")),
        },
        JsonValue::Object(m) => match object_to_configuration(m) {
            Some(arr) => {
                proof {
                    assert(configuration_of(*val, ConfigurationResult::Mapping(arr)));
                }
                Ok(ConfigurationResult::Mapping(arr))
            },
            None => Err(transport_error("Could not parse configuration data")),
        },
        _ => Err(transport_error("Could not parse configuration data")),
    }
}

fn array_to_configuration(a: &Vec<JsonValue>) -> (r: Option<Vec<ConfigurationResult>>)
    ensures
        r is Some <==> forall|k: int| 0 <= k < a@.len() ==> is_configuration(#[trigger] a@[k]),
        r matches Some(arr) ==> arr@.len() == a@.len() && forall|k: int|
            0 <= k < a@.len() ==> configuration_of(#[trigger] a@[k], arr@[k]),
    decreases a,
{
    let mut arr: Vec<ConfigurationResult> = Vec::new();
    let mut i: usize = 0;
    while i < a.len()
        invariant
            i <= a@.len(),
            arr@.len() == i,
            forall|k: int| 0 <= k < i ==> is_configuration(#[trigger] a@[k]),
            forall|k: int| 0 <= k < i ==> configuration_of(#[trigger] a@[k], arr@[k]),
        decreases a@.len() - i,
    {
        match json_to_configuration_result(&a[i]) {
            Ok(x) => {
                let ghost before = arr@;
                arr.push(x);
                proof {
                    assert(arr@ == before.push(x));
                }
            },
            Err(_) => {
                return None;
            },
        }
        i = i + 1;
    }
    Some(arr)
}

fn object_to_configuration(m: &Vec<(String, JsonValue)>) -> (r: Option<
    Vec<(String, ConfigurationResult)>,
>)
    ensures
        r is Some <==> forall|k: int| 0 <= k < m@.len() ==> is_configuration(#[trigger] m@[k].1),
        r matches Some(arr) ==> arr@.len() == m@.len() && (forall|k: int|
            0 <= k < m@.len() ==> #[trigger] arr@[k].0@ == m@[k].0@) && (forall|k: int|
            0 <= k < m@.len() ==> configuration_of(#[trigger] m@[k].1, arr@[k].1)),
    decreases m,
{
    let mut arr: Vec<(String, ConfigurationResult)> = Vec::new();
    let mut i: usize = 0;
    while i < m.len()
        invariant
            i <= m@.len(),
            arr@.len() == i,
            forall|k: int| 0 <= k < i ==> is_configuration(#[trigger] m@[k].1),
            forall|k: int| 0 <= k < i ==> #[trigger] arr@[k].0@ == m@[k].0@,
            forall|k: int| 0 <= k < i ==> configuration_of(#[trigger] m@[k].1, arr@[k].1),
        decreases m@.len() - i,
    {
        match json_to_configuration_result(&m[i].1) {
            Ok(x) => {
                let name = m[i].0.clone();
                let ghost before = arr@;
                arr.push((name, x));
                proof {
                    assert(arr@ == before.push((name, x)));
                    assert(arr@[i as int].0@ == m@[i as int].0@);
                    assert(configuration_of(m@[i as int].1, arr@[i as int].1));
                }
            },
            Err(_) => {
                return None;
            },
        }
        i = i + 1;
    }
    Some(arr)
}

/// The text of a JSON string.
pub open spec fn text_of(j: JsonValue) -> Seq<char> {
    j->Text_0@
}

/// Reads the text of a symbol: a JSON string, which the engine's term parser then reads.
pub fn json_to_symbol(val: &JsonValue) -> (r: Result<String, ServerError>)
    ensures
        match *val {
            JsonValue::Text(s) => r matches Ok(t) && t@ == s@,
            _ => is_transport_error(r, "Could not parse symbol data"@),
        },
{
    match val {
        JsonValue::Text(s) => Ok(s.clone()),
        _ => Err(transport_error("Could not parse symbol data")),
    }
}

/// Why a list of symbols cannot be read from `j`, if it cannot: `j` must be an array of
/// strings.
pub open spec fn symbols_error(j: JsonValue) -> Option<Seq<char>> {
    match j {
        JsonValue::Array(a) => if forall|i: int| 0 <= i < a@.len() ==> #[trigger] a@[i] is Text {
            None
        } else {
            Some("Could not parse symbol data"@)
        },
        _ => Some("Could not parse parts data"@),
    }
}

/// `texts` are the strings of the array `j`, in order.
pub open spec fn texts_of(j: JsonValue, texts: Seq<String>) -> bool {
    &&& j is Array
    &&& texts.len() == j->Array_0@.len()
    &&& forall|i: int| 0 <= i < texts.len() ==> #[trigger] texts[i]@ == text_of(j->Array_0@[i])
}

/// Reads a list of symbol texts from a JSON array of strings.
fn json_to_symbol_array(val: &JsonValue) -> (r: Result<Vec<String>, ServerError>)
    ensures
        r is Ok <==> symbols_error(*val) is None,
        match r {
            Ok(texts) => texts_of(*val, texts@),
            Err(e) => symbols_error(*val) == Some(e.msg()) && e is TransportError,
        },
{
    match val {
        JsonValue::Array(a) => {
            let mut arr: Vec<String> = Vec::new();
            let mut i: usize = 0;
            while i < a.len()
                invariant
                    *val == JsonValue::Array(*a),
                    i <= a@.len(),
                    arr@.len() == i,
                    forall|k: int| 0 <= k < i ==> #[trigger] a@[k] is Text,
                    forall|k: int| 0 <= k < i ==> #[trigger] arr@[k]@ == text_of(a@[k]),
                decreases a@.len() - i,
            {
                match &a[i] {
                    JsonValue::Text(s) => {
                        arr.push(s.clone());
                    },
                    _ => {
                        return Err(transport_error("Could not parse symbol data"));
                    },
                }
                i = i + 1;
            }
            Ok(arr)
        },
        _ => Err(transport_error("Could not parse parts data")),
    }
}

/// Reads the program parts to ground: a JSON object from each part's name to the list of
/// its arguments' symbol texts. The first member that is no array of strings decides the
/// error.
pub fn json_to_parts(val: &JsonValue) -> (r: Result<Vec<(String, Vec<String>)>, ServerError>)
    ensures
        !(*val is Object) ==> is_transport_error(r, "Could not parse parts data"@),
        *val is Object ==> (r is Ok <==> forall|k: int|
            0 <= k < val->Object_0@.len() ==> symbols_error(#[trigger] val->Object_0@[k].1) is None),
        *val is Object ==> match r {
            Ok(parts) => {
                &&& parts@.len() == val->Object_0@.len()
                &&& forall|k: int|
                    0 <= k < parts@.len() ==> #[trigger] parts@[k].0@ == val->Object_0@[k].0@
                        && texts_of(val->Object_0@[k].1, parts@[k].1@)
            },
            Err(e) => e is TransportError && exists|k: int|
                0 <= k < val->Object_0@.len() && (forall|j: int|
                    0 <= j < k ==> symbols_error(#[trigger] val->Object_0@[j].1) is None)
                    && symbols_error(val->Object_0@[k].1) == Some(e.msg()),
        },
{
    match val {
        JsonValue::Object(m) => {
            let mut parts: Vec<(String, Vec<String>)> = Vec::new();
            let mut i: usize = 0;
            while i < m.len()
                invariant
                    *val == JsonValue::Object(*m),
                    i <= m@.len(),
                    parts@.len() == i,
                    forall|k: int| 0 <= k < i ==> symbols_error(#[trigger] m@[k].1) is None,
                    forall|k: int|
                        0 <= k < i ==> #[trigger] parts@[k].0@ == m@[k].0@ && texts_of(
                            m@[k].1,
                            parts@[k].1@,
                        ),
                decreases m@.len() - i,
            {
                match json_to_symbol_array(&m[i].1) {
                    Ok(texts) => {
                        parts.push((m[i].0.clone(), texts));
                    },
                    Err(e) => {
                        return Err(e);
                    },
                }
                i = i + 1;
            }
            Ok(parts)
        },
        _ => Err(transport_error("Could not parse parts data")),
    }
}

/// The truth value named by `s`, if any.
pub open spec fn truth_value_of(s: Seq<char>) -> Option<TruthValue> {
    if s == "True"@ {
        Some(TruthValue::True)
    } else if s == "False"@ {
        Some(TruthValue::False)
    } else if s == "Free"@ {
        Some(TruthValue::Free)
    } else {
        None
    }
}

/// What an assignment body holds: the text of member `literal` and the truth value named by
/// member `truth_value`, both strings.
pub open spec fn assignment_of(j: JsonValue) -> Option<(Seq<char>, TruthValue)> {
    match j {
        JsonValue::Object(m) => match (member(m@, "literal"@), member(m@, "truth_value"@)) {
            (Some(JsonValue::Text(l)), Some(JsonValue::Text(t))) => match truth_value_of(t@) {
                Some(tv) => Some((l@, tv)),
                None => None,
            },
            _ => None,
        },
        _ => None,
    }
}

/// Reads the external atom to assign and its truth value.
pub fn json_to_assignment(val: &JsonValue) -> (r: Result<(String, TruthValue), ServerError>)
    ensures
        r is Ok <==> assignment_of(*val) is Some,
        match r {
            Ok((l, tv)) => assignment_of(*val) == Some((l@, tv)),
            Err(_) => is_transport_error(r, "Could not parse assignment data"@),
        },
{
    match val {
        JsonValue::Object(m) => {
            let literal = match get_member(m, "literal") {
                Some(JsonValue::Text(l)) => l,
                _ => {
                    return Err(transport_error("Could not parse assignment data"));
                },
            };
            let truth = match get_member(m, "truth_value") {
                Some(JsonValue::Text(t)) => t,
                _ => {
                    return Err(transport_error("Could not parse assignment data"));
                },
            };
            let tv = if *truth == String::from_str("True") {
                TruthValue::True
            } else if *truth == String::from_str("False") {
                TruthValue::False
            } else if *truth == String::from_str("Free") {
                TruthValue::Free
            } else {
                return Err(transport_error("Could not parse assignment data"));
            };
            Ok((literal.clone(), tv))
        },
        _ => Err(transport_error("Could not parse assignment data")),
    }
}

/// What one assumption holds: an array whose first element is a string, the symbol's text,
/// and whose second is a boolean, the sign; further elements are ignored.
pub open spec fn assumption_of(j: JsonValue) -> Option<(Seq<char>, bool)> {
    match j {
        JsonValue::Array(x) => if x@.len() >= 2 && x@[0] is Text && x@[1] is Bool {
            Some((text_of(x@[0]), x@[1]->Bool_0))
        } else {
            None
        },
        _ => None,
    }
}

/// Reads a list of assumptions: a JSON array of `[symbol, sign]` pairs.
pub fn json_to_assumptions(val: &JsonValue) -> (r: Result<Vec<(String, bool)>, ServerError>)
    ensures
        r is Ok <==> (*val is Array && forall|i: int|
            0 <= i < val->Array_0@.len() ==> assumption_of(#[trigger] val->Array_0@[i]) is Some),
        match r {
            Ok(pairs) => pairs@.len() == val->Array_0@.len() && forall|i: int|
                0 <= i < pairs@.len() ==> assumption_of(#[trigger] val->Array_0@[i]) == Some(
                    (pairs@[i].0@, pairs@[i].1),
                ),
            Err(_) => is_transport_error(r, "Could not parse assumptions data"@),
        },
{
    match val {
        JsonValue::Array(a) => {
            let mut arr: Vec<(String, bool)> = Vec::new();
            let mut i: usize = 0;
            while i < a.len()
                invariant
                    *val == JsonValue::Array(*a),
                    i <= a@.len(),
                    arr@.len() == i,
                    forall|k: int|
                        0 <= k < i ==> assumption_of(#[trigger] a@[k]) == Some(
                            (arr@[k].0@, arr@[k].1),
                        ),
                decreases a@.len() - i,
            {
                let pair = match &a[i] {
                    JsonValue::Array(x) => {
                        if x.len() < 2 {
                            return Err(transport_error("Could not parse assumptions data"));
                        }
                        let name = match &x[0] {
                            JsonValue::Text(s) => s.clone(),
                            _ => {
                                return Err(transport_error("Could not parse assumptions data"));
                            },
                        };
                        let sign = match &x[1] {
                            JsonValue::Bool(b) => *b,
                            _ => {
                                return Err(transport_error("Could not parse assumptions data"));
                            },
                        };
                        (name, sign)
                    },
                    _ => {
                        return Err(transport_error("Could not parse assumptions data"));
                    },
                };
                arr.push(pair);
                i = i + 1;
            }
            Ok(arr)
        },
        _ => Err(transport_error("Could not parse assumptions data")),
    }
}

} // verus!
