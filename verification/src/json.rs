//! A JSON document as the agent reads it: the tree that `serde_json` parses,
//! with each number kept as `serde_json` holds it.
use vstd::prelude::*;

verus! {

/// A JSON number: a non-negative integer, a negative integer, or any other
/// number, kept as the bits of its IEEE 754 double.
#[derive(Clone, Copy, Debug, PartialEq, Eq, Structural)]
pub enum JsonNumber {
    PosInt(u64),
    NegInt(i64),
    Float(u64),
}

/// A JSON value. An object keeps its members in order; a lookup reads the
/// first member with the key asked for.
#[derive(Debug)]
pub enum JsonValue {
    Null,
    Bool(bool),
    Number(JsonNumber),
    Str(String),
    Array(Vec<JsonValue>),
    Object(Vec<(String, JsonValue)>),
}

#[verifier::external_type_specification]
#[verifier::external_body]
pub struct ExSerdeValue(serde_json::Value);

#[verifier::external_type_specification]
#[verifier::external_body]
pub struct ExSerdeNumber(serde_json::Number);

/// What `serde_json::from_str::<serde_json::Value>` makes of `text`, node for
/// node in the library's tree; `None` when `text` is not one JSON document.
pub uninterp spec fn json_document(text: Seq<char>) -> Option<JsonValue>;

/// A `serde_json::Number` as `JsonNumber`: `as_u64` when it gives a value,
/// else `as_i64`, else the bits of `as_f64`.
#[verifier::external_body]
fn number_from_serde(n: &serde_json::Number) -> JsonNumber {
    match (n.as_u64(), n.as_i64()) {
        (Some(u), _) => JsonNumber::PosInt(u),
        (None, Some(i)) => JsonNumber::NegInt(i),
        (None, None) => JsonNumber::Float(n.as_f64().map(|x| x.to_bits()).unwrap_or(0)),
    }
}

/// A `serde_json::Value` as `JsonValue`, one variant for the other, the
/// members of an object in the order of `serde_json`'s map.
#[verifier::external_body]
fn from_serde(v: serde_json::Value) -> JsonValue {
    match v {
        serde_json::Value::Null => JsonValue::Null,
        serde_json::Value::Bool(b) => JsonValue::Bool(b),
        serde_json::Value::Number(n) => JsonValue::Number(number_from_serde(&n)),
        serde_json::Value::String(s) => JsonValue::Str(s),
        serde_json::Value::Array(a) => JsonValue::Array(a.into_iter().map(from_serde).collect()),
        serde_json::Value::Object(m) => JsonValue::Object(
            m.into_iter().map(|(k, x)| (k, from_serde(x))).collect(),
        ),
    }
}

/// `serde_json::from_str::<serde_json::Value>`: the document that `text`
/// holds, or `None` when the parse fails.
#[verifier::external_body]
pub(crate) fn parse_json(text: &str) -> (r: Option<JsonValue>)
    ensures
        r == json_document(text@),
{
    match serde_json::from_str::<serde_json::Value>(text) {
        Ok(v) => Some(from_serde(v)),
        Err(_) => None,
    }
}

/// The value of the first member of `members` named `key`.
pub open spec fn member(members: Seq<(String, JsonValue)>, key: Seq<char>) -> Option<JsonValue>
    decreases members.len(),
{
    if members.len() == 0 {
        None
    } else if members[0].0@ == key {
        Some(members[0].1)
    } else {
        member(members.drop_first(), key)
    }
}

/// The member `key` of `v`, when `v` is an object that has one. Looking up a
/// key in anything else, or in nothing, gives nothing.
pub open spec fn field(v: Option<JsonValue>, key: Seq<char>) -> Option<JsonValue> {
    match v {
        Some(JsonValue::Object(members)) => member(members@, key),
        _ => None,
    }
}

/// The text of `v`, when it is a string.
pub open spec fn as_text(v: Option<JsonValue>) -> Option<Seq<char>> {
    match v {
        Some(JsonValue::Str(s)) => Some(s@),
        _ => None,
    }
}

/// The value of `v`, when it is a non-negative integer that fits in a `u64`.
pub open spec fn as_u64(v: Option<JsonValue>) -> Option<u64> {
    match v {
        Some(JsonValue::Number(JsonNumber::PosInt(u))) => Some(u),
        _ => None,
    }
}

/// The number `v`, when it is one.
pub open spec fn as_number(v: Option<JsonValue>) -> Option<JsonNumber> {
    match v {
        Some(JsonValue::Number(n)) => Some(n),
        _ => None,
    }
}

/// A borrowed value, read as the value itself.
pub open spec fn deref_opt(v: Option<&JsonValue>) -> Option<JsonValue> {
    match v {
        Some(x) => Some(*x),
        None => None,
    }
}

/// The member `key` of `v`.
pub fn get_field<'a>(v: Option<&'a JsonValue>, key: &String) -> (r: Option<&'a JsonValue>)
    ensures
        deref_opt(r) == field(deref_opt(v), key@),
{
    match v {
        Some(JsonValue::Object(members)) => {
            let n = members.len();
            let mut i: usize = 0;
            assert(members@.subrange(0, n as int) =~= members@);
            while i < n
                invariant
                    n == members@.len(),
                    i <= n,
                    field(deref_opt(v), key@) == member(members@, key@),
                    member(members@, key@) == member(members@.subrange(i as int, n as int), key@),
                decreases n - i,
            {
                let entry = &members[i];
                assert(members@.subrange(i as int, n as int)[0] == *entry);
                if entry.0.eq(key) {
                    return Some(&entry.1);
                }
                assert(members@.subrange(i as int, n as int).drop_first() =~= members@.subrange(
                    i + 1,
                    n as int,
                ));
                i = i + 1;
            }
            None
        },
        _ => None,
    }
}

/// The text of `v`, when it is a string.
pub fn text_of(v: Option<&JsonValue>) -> (r: Option<String>)
    ensures
        match r {
            Some(s) => as_text(deref_opt(v)) == Some(s@),
            None => as_text(deref_opt(v)) is None,
        },
{
    match v {
        Some(JsonValue::Str(s)) => Some(s.clone()),
        _ => None,
    }
}

/// The value of `v`, when it is a non-negative integer that fits in a `u64`.
pub fn u64_of(v: Option<&JsonValue>) -> (r: Option<u64>)
    ensures
        r == as_u64(deref_opt(v)),
{
    match v {
        Some(JsonValue::Number(JsonNumber::PosInt(u))) => Some(*u),
        _ => None,
    }
}

/// The number `v`, when it is one.
pub fn number_of(v: Option<&JsonValue>) -> (r: Option<JsonNumber>)
    ensures
        r == as_number(deref_opt(v)),
{
    match v {
        Some(JsonValue::Number(n)) => Some(*n),
        _ => None,
    }
}

/// Looking up `key` in an object gives the value of its first member named
/// `key`, and nothing when no member is named `key`.
pub proof fn field_is_the_first_member(members: Vec<(String, JsonValue)>, key: Seq<char>, k: int)
    ensures
        0 <= k < members@.len() && members@[k].0@ == key && (forall|j: int|
            0 <= j < k ==> (#[trigger] members@[j]).0@ != key) ==> field(
            Some(JsonValue::Object(members)),
            key,
        ) == Some(members@[k].1),
        (forall|j: int| 0 <= j < members@.len() ==> (#[trigger] members@[j]).0@ != key) ==> field(
            Some(JsonValue::Object(members)),
            key,
        ) is None,
{
    if 0 <= k < members@.len() && members@[k].0@ == key && (forall|j: int|
        0 <= j < k ==> (#[trigger] members@[j]).0@ != key) {
        lemma_member_at(members@, key, k);
    }
    if forall|j: int| 0 <= j < members@.len() ==> (#[trigger] members@[j]).0@ != key {
        lemma_member_absent(members@, key);
    }
}

proof fn lemma_member_at(m: Seq<(String, JsonValue)>, key: Seq<char>, k: int)
    requires
        0 <= k < m.len(),
        m[k].0@ == key,
        forall|j: int| 0 <= j < k ==> (#[trigger] m[j]).0@ != key,
    ensures
        member(m, key) == Some(m[k].1),
    decreases k,
{
    if k > 0 {
        assert(m[0].0@ != key);
        assert forall|j: int| 0 <= j < k - 1 implies (#[trigger] m.drop_first()[j]).0@ != key by {
            assert(m.drop_first()[j] == m[j + 1]);
        }
        lemma_member_at(m.drop_first(), key, k - 1);
    }
}

proof fn lemma_member_absent(m: Seq<(String, JsonValue)>, key: Seq<char>)
    requires
        forall|j: int| 0 <= j < m.len() ==> (#[trigger] m[j]).0@ != key,
    ensures
        member(m, key) is None,
    decreases m.len(),
{
    if m.len() > 0 {
        assert(m[0].0@ != key);
        assert forall|j: int| 0 <= j < m.len() - 1 implies (#[trigger] m.drop_first()[j]).0@ != key by {
            assert(m.drop_first()[j] == m[j + 1]);
        }
        lemma_member_absent(m.drop_first(), key);
    }
}

} // verus!
