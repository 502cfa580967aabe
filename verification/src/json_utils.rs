use vstd::prelude::*;
use vstd::string::{StrSliceExecFns, StringExecFns};

use crate::json_value::{is_attr_key, spec_is_attr_key, JsonNumber, JsonValue};
use crate::text::{lowercase_first_word, spec_lowercase_first};

verus! {

broadcast use vstd::seq::axiom_seq_index_decreases, vstd::std_specs::vec::axiom_vec_decreases_to_view;

/// The transformed form of one key: a leading `@` becomes `__`; any other
/// key has its first character lowercased.
pub open spec fn spec_lower_key(k: Seq<char>) -> Seq<char> {
    if spec_is_attr_key(k) {
        "__"@ + k.skip(1)
    } else {
        spec_lowercase_first(k)
    }
}

/// Two scalar values carry the same content.
pub open spec fn spec_same_scalar(a: JsonValue, b: JsonValue) -> bool {
    match (a, b) {
        (JsonValue::Null, JsonValue::Null) => true,
        (JsonValue::Bool(x), JsonValue::Bool(y)) => x == y,
        (JsonValue::String(x), JsonValue::String(y)) => x@ == y@,
        (JsonValue::Number(x), JsonValue::Number(y)) => match (x, y) {
            (JsonNumber::Int(i), JsonNumber::Int(j)) => i == j,
            (JsonNumber::UInt(i), JsonNumber::UInt(j)) => i == j,
            (JsonNumber::Float(i), JsonNumber::Float(j)) => i@ == j@,
            _ => false,
        },
        _ => false,
    }
}

/// `b` is `a` with every object key transformed by [`spec_lower_key`]:
/// the shape, the entry order and every scalar are kept; only keys change.
pub open spec fn spec_keys_lowered(a: JsonValue, b: JsonValue) -> bool
    decreases a, 1int,
{
    match (a, b) {
        (JsonValue::Object(ea), JsonValue::Object(eb)) => {
            &&& eb@.len() == ea@.len()
            &&& forall|j: int|
                0 <= j < ea@.len() ==> (#[trigger] eb@[j]).0@ == spec_lower_key(ea@[j].0@)
                    && spec_keys_lowered(ea@[j].1, eb@[j].1)
        },
        (JsonValue::Array(xa), JsonValue::Array(xb)) => {
            &&& xb@.len() == xa@.len()
            &&& forall|j: int|
                0 <= j < xa@.len() ==> spec_keys_lowered(xa@[j], #[trigger] xb@[j])
        },
        _ => spec_same_scalar(a, b),
    }
}

/// Rewrite every object key of a value tree: keys are lowercased in their
/// first character, and a leading `@` is replaced by `__`. Shape, order
/// and every scalar value pass through unchanged.
pub fn json_keys_to_lowercase(json: &JsonValue) -> (r: JsonValue)
    ensures
        spec_keys_lowered(*json, r),
    decreases *json, 1int,
{
    match json {
        JsonValue::Object(entries) => {
            let out = lower_object_entries(entries);
            let r = JsonValue::Object(out);
            r
        },
        JsonValue::Array(elems) => {
            let out = lower_array_elems(elems);
            JsonValue::Array(out)
        },
        JsonValue::Null => JsonValue::Null,
        JsonValue::Bool(b) => JsonValue::Bool(*b),
        JsonValue::Number(n) => JsonValue::Number(
            match n {
                JsonNumber::Int(i) => JsonNumber::Int(*i),
                JsonNumber::UInt(u) => JsonNumber::UInt(*u),
                JsonNumber::Float(s) => JsonNumber::Float(s.clone()),
            },
        ),
        JsonValue::String(s) => JsonValue::String(s.clone()),
    }
}

/// Rewrite the keys of every entry of an object, and of the trees under
/// them.
fn lower_object_entries(entries: &Vec<(String, JsonValue)>) -> (out: Vec<(String, JsonValue)>)
    ensures
        out@.len() == entries@.len(),
        forall|j: int|
            0 <= j < entries@.len() ==> (#[trigger] out@[j]).0@ == spec_lower_key(entries@[j].0@)
                && spec_keys_lowered(entries@[j].1, out@[j].1),
    decreases entries, 0int,
{
    let n = entries.len();
    let mut out: Vec<(String, JsonValue)> = Vec::new();
    let mut i: usize = 0;
    while i < n
        invariant
            n == entries@.len(),
            i <= n,
            out@.len() == i,
            forall|j: int|
                0 <= j < i ==> (#[trigger] out@[j]).0@ == spec_lower_key(entries@[j].0@)
                    && spec_keys_lowered(entries@[j].1, out@[j].1),
        decreases n - i,
    {
        let k = entries[i].0.as_str();
        let nk: String = if is_attr_key(k) {
            let rest = k.substring_char(1, k.unicode_len());
            let built = "__".to_owned().concat(rest);
            proof {
                assert(rest@ =~= k@.skip(1));
                assert(built@ == spec_lower_key(entries@[i as int].0@));
            }
            built
        } else {
            lowercase_first_word(k)
        };
        let nv = json_keys_to_lowercase(&entries[i].1);
        out.push((nk, nv));
        i = i + 1;
    }
    out
}

/// Rewrite the keys under every element of an array.
fn lower_array_elems(elems: &Vec<JsonValue>) -> (out: Vec<JsonValue>)
    ensures
        out@.len() == elems@.len(),
        forall|j: int|
            0 <= j < elems@.len() ==> spec_keys_lowered(elems@[j], #[trigger] out@[j]),
    decreases elems, 0int,
{
    let n = elems.len();
    let mut out: Vec<JsonValue> = Vec::new();
    let mut i: usize = 0;
    while i < n
        invariant
            n == elems@.len(),
            i <= n,
            out@.len() == i,
            forall|j: int| 0 <= j < i ==> spec_keys_lowered(elems@[j], #[trigger] out@[j]),
        decreases n - i,
    {
        let nv = json_keys_to_lowercase(&elems[i]);
        out.push(nv);
        i = i + 1;
    }
    out
}

} // verus!
