//! JSON values: card payloads and resolutions are `serde_json` values. What a
//! value holds is a [`JsonView`]; the calls into `serde_json` are stated over it.

use serde_json::Value;
use vstd::prelude::*;

verus! {

/// The outside type `serde_json::Value`, carried as an opaque value.
#[verifier::external_type_specification]
#[verifier::external_body]
pub struct ExValue(Value);

/// The outside type `serde_json::Map`, the members of a JSON object.
#[verifier::external_type_specification]
#[verifier::external_body]
#[verifier::reject_recursive_types(K)]
#[verifier::reject_recursive_types(V)]
pub struct ExMap<K, V>(serde_json::Map<K, V>);

/// What a JSON value holds. A number is an integer or the bits of a finite
/// double; an object is a map from its member names.
pub enum JsonView {
    Null,
    Bool(bool),
    Int(int),
    Float(u64),
    Str(Seq<char>),
    Array(Seq<JsonView>),
    Object(Map<Seq<char>, JsonView>),
}

/// What a `serde_json::Value` holds.
pub uninterp spec fn json_view(v: Value) -> JsonView;

/// What a `serde_json::Map` holds.
pub uninterp spec fn object_view(m: serde_json::Map<String, Value>) -> Map<Seq<char>, JsonView>;

/// The value that `serde_json::from_str` reads from a text, when it reads one.
pub uninterp spec fn json_parsed(text: Seq<char>) -> Option<JsonView>;

/// The text that `Value::to_string` writes for a value.
pub uninterp spec fn json_text(v: JsonView) -> Seq<char>;

/// The member name by which `serde_json` marks embedded raw text when its feature
/// `raw_value` is on: an object that begins with it is read as the text it holds.
pub open spec fn raw_value_member() -> Seq<char> {
    "$serde_json::private::RawValue"@
}

/// `v` holds no double, nests at most `depth` arrays and objects, and has no member
/// under the name that marks raw text.
pub open spec fn exact_within(v: JsonView, depth: nat) -> bool
    decreases depth,
{
    match v {
        JsonView::Float(_) => false,
        JsonView::Array(s) => depth > 0 && forall|i: int|
            0 <= i < s.len() ==> exact_within(#[trigger] s[i], (depth - 1) as nat),
        JsonView::Object(m) => depth > 0 && !m.contains_key(raw_value_member()) && forall|
            k: Seq<char>,
        | #[trigger]
            m.contains_key(k) ==> exact_within(m[k], (depth - 1) as nat),
        _ => true,
    }
}

/// `v` holds no double anywhere.
pub open spec fn double_free(v: JsonView) -> bool
    decreases v,
{
    match v {
        JsonView::Float(_) => false,
        JsonView::Array(s) => forall|i: int| 0 <= i < s.len() ==> double_free(#[trigger] s[i]),
        JsonView::Object(m) => forall|k: Seq<char>| #[trigger]
            m.contains_key(k) ==> double_free(m[k]),
        _ => true,
    }
}

/// The bits of a double that is zero, of either sign.
pub open spec fn zero_bits(bits: u64) -> bool {
    bits == 0 || bits == 0x8000_0000_0000_0000
}

/// Equality of JSON values: equal structure, with doubles taken as numbers, so
/// that the two zeros are equal.
pub open spec fn json_equal(a: JsonView, b: JsonView) -> bool
    decreases a,
{
    match (a, b) {
        (JsonView::Float(x), JsonView::Float(y)) => x == y || (zero_bits(x) && zero_bits(y)),
        (JsonView::Array(s), JsonView::Array(t)) => s.len() == t.len() && forall|i: int|
            0 <= i < s.len() ==> json_equal(#[trigger] s[i], t[i]),
        (JsonView::Object(m), JsonView::Object(n)) => m.dom() == n.dom() && forall|k: Seq<char>|
            #[trigger] m.contains_key(k) ==> json_equal(m[k], n[k]),
        (JsonView::Float(_), _) => false,
        (JsonView::Array(_), _) => false,
        (JsonView::Object(_), _) => false,
        (_, _) => a == b,
    }
}

/// Every JSON value equals itself.
pub proof fn lemma_json_equal_reflexive(a: JsonView)
    ensures
        json_equal(a, a),
    decreases a,
{
    match a {
        JsonView::Array(s) => {
            assert forall|i: int| 0 <= i < s.len() implies json_equal(#[trigger] s[i], s[i]) by {
                lemma_json_equal_reflexive(s[i]);
            }
        },
        JsonView::Object(m) => {
            assert forall|k: Seq<char>| #[trigger] m.contains_key(k) implies json_equal(
                m[k],
                m[k],
            ) by {
                lemma_json_equal_reflexive(m[k]);
            }
        },
        _ => {},
    }
}

/// Without doubles, JSON equality is equality.
pub proof fn lemma_json_equal_exact(a: JsonView, b: JsonView)
    requires
        double_free(a),
        json_equal(a, b),
    ensures
        a == b,
    decreases a,
{
    match (a, b) {
        (JsonView::Array(s), JsonView::Array(t)) => {
            assert forall|i: int| 0 <= i < s.len() implies s[i] == t[i] by {
                lemma_json_equal_exact(s[i], t[i]);
            }
            assert(s =~= t);
        },
        (JsonView::Object(m), JsonView::Object(n)) => {
            assert forall|k: Seq<char>| m.contains_key(k) implies m[k] == n[k] by {
                lemma_json_equal_exact(m[k], n[k]);
            }
            assert(m =~= n);
        },
        _ => {},
    }
}

/// The value of the member `key` of `v`, when `v` is an object that has it.
pub open spec fn member(v: JsonView, key: Seq<char>) -> Option<JsonView> {
    match v {
        JsonView::Object(m) => if m.contains_key(key) {
            Some(m[key])
        } else {
            None
        },
        _ => None,
    }
}

/// The integer that `v` is, when it is one that fits in an `i64`.
pub open spec fn integer_of(v: JsonView) -> Option<i64> {
    match v {
        JsonView::Int(n) => if i64::MIN <= n <= i64::MAX {
            Some(n as i64)
        } else {
            None
        },
        _ => None,
    }
}

/// The text that `v` is, when it is a string.
pub open spec fn string_of(v: JsonView) -> Option<Seq<char>> {
    match v {
        JsonView::Str(s) => Some(s),
        _ => None,
    }
}

/// The members of an empty object.
pub open spec fn no_members() -> Map<Seq<char>, JsonView> {
    Map::empty()
}

/// What a stored JSON text stands for: the value it parses to, or null.
pub open spec fn stored_json(text: Seq<char>) -> JsonView {
    match json_parsed(text) {
        Some(v) => v,
        None => JsonView::Null,
    }
}

// ---------------------------------------------------------------------------
// Calls into serde_json
// ---------------------------------------------------------------------------

/// `serde_json::from_str` for a `Value`: `None` where it returns an error. What
/// it reads depends on the text alone.
#[verifier::external_body]
pub(crate) fn parse_json(text: &str) -> (r: Option<Value>)
    ensures
        match r {
            Some(v) => json_parsed(text@) == Some(json_view(v)),
            None => json_parsed(text@) is None,
        },
{
    serde_json::from_str(text).ok()
}

/// `Value::to_string` (through `Display`): the compact text of the value, with
/// object members in the order of their names, so that it depends on what the
/// value holds alone. The text of a value without doubles that nests at most 127
/// deep (the parser's limit) and has no member under [`raw_value_member`] parses back
/// to the same value. With the feature `raw_value` on, the parser takes an object whose
/// first member has that name for the text that the member holds; nothing is said of
/// reading back a value with such a member, nor one with doubles or deeper nesting.
#[verifier::external_body]
pub(crate) fn json_to_text(v: &Value) -> (r: String)
    ensures
        r@ == json_text(json_view(*v)),
        exact_within(json_view(*v), 127) ==> json_parsed(r@) == Some(json_view(*v)),
{
    v.to_string()
}

/// `==` on `serde_json::Value`: structural, with doubles compared as numbers.
#[verifier::external_body]
pub(crate) fn same_json(a: &Value, b: &Value) -> (r: bool)
    ensures
        r == json_equal(json_view(*a), json_view(*b)),
{
    a == b
}

/// `Value::clone`: a value that holds the same.
#[verifier::external_body]
pub(crate) fn clone_json(v: &Value) -> (r: Value)
    ensures
        json_view(r) == json_view(*v),
{
    v.clone()
}

/// The members of a `Value::Object`, or the value itself when it is none.
#[verifier::external_body]
pub(crate) fn into_object(v: Value) -> (r: Result<serde_json::Map<String, Value>, Value>)
    ensures
        match r {
            Ok(m) => json_view(v) == JsonView::Object(object_view(m)),
            Err(w) => w == v && !(json_view(v) is Object),
        },
{
    match v {
        Value::Object(m) => Ok(m),
        other => Err(other),
    }
}

/// The constructor `Value::Object`.
#[verifier::external_body]
pub(crate) fn object_value(m: serde_json::Map<String, Value>) -> (r: Value)
    ensures
        json_view(r) == JsonView::Object(object_view(m)),
{
    Value::Object(m)
}

/// `serde_json::Map::new`: an object without members.
#[verifier::external_body]
pub(crate) fn new_object() -> (r: serde_json::Map<String, Value>)
    ensures
        object_view(r) == no_members(),
{
    serde_json::Map::new()
}

/// `serde_json::Map::insert`: sets one member, replacing the value it had.
#[verifier::external_body]
pub(crate) fn object_insert(m: &mut serde_json::Map<String, Value>, key: String, value: Value)
    ensures
        object_view(*final(m)) == object_view(*old(m)).insert(key@, json_view(value)),
{
    m.insert(key, value);
}

/// `serde_json::Map::into_iter`: every member once, with its value.
#[verifier::external_body]
pub(crate) fn object_entries(m: serde_json::Map<String, Value>) -> (r: Vec<(String, Value)>)
    ensures
        forall|i: int|
            0 <= i < r@.len() ==> object_view(m).contains_key(#[trigger] r@[i].0@) && object_view(
                m,
            )[r@[i].0@] == json_view(r@[i].1),
        forall|k: Seq<char>| #[trigger]
            object_view(m).contains_key(k) ==> exists|i: int|
                0 <= i < r@.len() && (#[trigger] r@[i]).0@ == k,
        forall|i: int, j: int| 0 <= i < j < r@.len() ==> r@[i].0@ != r@[j].0@,
{
    m.into_iter().collect()
}

/// `Value::get` with a member name: only an object has members.
#[verifier::external_body]
pub(crate) fn get_member<'a>(v: &'a Value, key: &str) -> (r: Option<&'a Value>)
    ensures
        match r {
            Some(w) => member(json_view(*v), key@) == Some(json_view(*w)),
            None => member(json_view(*v), key@) is None,
        },
{
    v.get(key)
}

/// `Value::as_i64`: integers in range only; a double is never one.
#[verifier::external_body]
pub(crate) fn as_i64(v: &Value) -> (r: Option<i64>)
    ensures
        r == integer_of(json_view(*v)),
{
    v.as_i64()
}

/// `Value::as_str`: strings only.
#[verifier::external_body]
pub(crate) fn as_str(v: &Value) -> (r: Option<&str>)
    ensures
        match r {
            Some(s) => string_of(json_view(*v)) == Some(s@),
            None => string_of(json_view(*v)) is None,
        },
{
    v.as_str()
}

/// The constructor `Value::Null`.
#[verifier::external_body]
pub(crate) fn null_value() -> (r: Value)
    ensures
        json_view(r) == JsonView::Null,
{
    Value::Null
}

/// The constructor `Value::String`.
#[verifier::external_body]
pub(crate) fn string_value(s: String) -> (r: Value)
    ensures
        json_view(r) == JsonView::Str(s@),
{
    Value::String(s)
}

/// `Value::from` for an `i64`: an integer number.
#[verifier::external_body]
pub(crate) fn integer_value(n: i64) -> (r: Value)
    ensures
        json_view(r) == JsonView::Int(n as int),
{
    Value::from(n)
}

// ---------------------------------------------------------------------------
// Verified helpers
// ---------------------------------------------------------------------------

/// Reads a stored JSON text; one that does not parse stands for null.
pub(crate) fn read_stored(text: &str) -> (r: Value)
    ensures
        json_view(r) == stored_json(text@),
{
    match parse_json(text) {
        Some(v) => v,
        None => null_value(),
    }
}

/// The object with one member.
pub open spec fn object1(k: Seq<char>, v: JsonView) -> JsonView {
    JsonView::Object(no_members().insert(k, v))
}

/// The object with two members.
pub open spec fn object2(k: Seq<char>, v: JsonView, l: Seq<char>, w: JsonView) -> JsonView {
    JsonView::Object(no_members().insert(k, v).insert(l, w))
}

pub(crate) fn make_object1(k: &str, v: Value) -> (r: Value)
    ensures
        json_view(r) == object1(k@, json_view(v)),
{
    let mut m = new_object();
    object_insert(&mut m, k.to_owned(), v);
    object_value(m)
}

pub(crate) fn make_object2(k: &str, v: Value, l: &str, w: Value) -> (r: Value)
    ensures
        json_view(r) == object2(k@, json_view(v), l@, json_view(w)),
{
    let mut m = new_object();
    object_insert(&mut m, k.to_owned(), v);
    object_insert(&mut m, l.to_owned(), w);
    object_value(m)
}

/// Shallow merge: two objects join, and where both have a member the one of
/// `new` stands; anything else is replaced by `new`.
pub open spec fn merged_json(base: JsonView, new: JsonView) -> JsonView {
    match (base, new) {
        (JsonView::Object(b), JsonView::Object(n)) => JsonView::Object(b.union_prefer_right(n)),
        _ => new,
    }
}

/// Shallow-merge `new` over `base`: when both are JSON objects, each key of `new`
/// overwrites or extends `base` (new keys win, base-only keys are preserved).
/// Otherwise `new` replaces `base` wholesale.
pub fn shallow_merge(base: Value, new: Value) -> (r: Value)
    ensures
        json_view(r) == merged_json(json_view(base), json_view(new)),
{
    match into_object(base) {
        Ok(b0) => match into_object(new) {
            Ok(n) => {
                let mut b = b0;
                let ghost base_map = object_view(b);
                let ghost new_map = object_view(n);
                let mut entries = object_entries(n);
                let ghost all = entries@;
                while entries.len() > 0
                    invariant
                        entries@.len() <= all.len(),
                        entries@ == all.take(entries@.len() as int),
                        forall|i: int|
                            0 <= i < all.len() ==> new_map.contains_key(#[trigger] all[i].0@)
                                && new_map[all[i].0@] == json_view(all[i].1),
                        forall|k: Seq<char>| #[trigger]
                            object_view(b).contains_key(k) <==> base_map.contains_key(k) || exists|
                                i: int,
                            |
                                entries@.len() <= i < all.len() && (#[trigger] all[i]).0@ == k,
                        forall|k: Seq<char>| #[trigger]
                            object_view(b).contains_key(k) ==> object_view(b)[k] == (if exists|
                                i: int,
                            |
                                entries@.len() <= i < all.len() && (#[trigger] all[i]).0@ == k {
                                new_map[k]
                            } else {
                                base_map[k]
                            }),
                    decreases entries@.len(),
                {
                    let ghost before = object_view(b);
                    let ghost n0 = entries@.len() as int;
                    if let Some((k, v)) = entries.pop() {
                        assert(all[n0 - 1].0@ == k@);
                        assert(entries@ =~= all.take(n0 - 1));
                        object_insert(&mut b, k, v);
                    }
                }
                proof {
                    let joined = base_map.union_prefer_right(new_map);
                    assert forall|k: Seq<char>|
                        object_view(b).contains_key(k) <==> joined.contains_key(k) by {
                        if exists|i: int| 0 <= i < all.len() && (#[trigger] all[i]).0@ == k {
                            let i = choose|i: int| 0 <= i < all.len() && (#[trigger] all[i]).0@ == k;
                            assert(new_map.contains_key(all[i].0@));
                        }
                    }
                    assert(object_view(b) =~= joined);
                }
                object_value(b)
            },
            Err(w) => w,
        },
        Err(_) => new,
    }
}

} // verus!
