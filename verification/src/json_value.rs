use vstd::prelude::*;
use vstd::string::StrSliceExecFns;

use crate::text::{spec_dec, spec_dec_signed, str_chars, str_eq, i64_dec_chars, u64_dec_chars};

verus! {

broadcast use vstd::seq::axiom_seq_index_decreases, vstd::std_specs::vec::axiom_vec_decreases_to_view;

/// A JSON number. The transcoder only ever renders a number as decimal
/// text, so a floating value carries its decimal rendering (as produced by
/// the parser) rather than a machine float; integers carry the machine
/// integer and are rendered by this crate.
#[derive(Debug, PartialEq)]
pub enum JsonNumber {
    /// An integer that fits a signed 64-bit machine word.
    Int(i64),
    /// An integer above the signed range.
    UInt(u64),
    /// A floating value, kept as its decimal rendering.
    Float(String),
}

/// An immutable JSON value tree. An object is an ordered list of
/// key-value entries: insertion order is preserved, and it determines the
/// output order of attributes and child elements.
#[derive(Debug, PartialEq)]
pub enum JsonValue {
    Null,
    Bool(bool),
    Number(JsonNumber),
    String(String),
    Array(Vec<JsonValue>),
    Object(Vec<(String, JsonValue)>),
}

impl JsonNumber {
    /// The decimal text this number renders as.
    pub open spec fn spec_chars(self) -> Seq<char> {
        match self {
            JsonNumber::Int(i) => spec_dec_signed(i as int),
            JsonNumber::UInt(u) => spec_dec(u as nat),
            JsonNumber::Float(s) => s@,
        }
    }

    /// Render this number as decimal text.
    pub fn to_chars(&self) -> (v: Vec<char>)
        ensures
            v@ == self.spec_chars(),
    {
        match self {
            JsonNumber::Int(i) => i64_dec_chars(*i),
            JsonNumber::UInt(u) => u64_dec_chars(*u),
            JsonNumber::Float(s) => str_chars(s.as_str()),
        }
    }
}

// ---------------------------------------------------------------------------
// Key classification
// ---------------------------------------------------------------------------

/// An attribute key begins with `@`.
pub open spec fn spec_is_attr_key(k: Seq<char>) -> bool {
    k.len() > 0 && k[0] == '@'
}

/// The text key is the literal key `$text`.
pub open spec fn spec_is_text_key(k: Seq<char>) -> bool {
    k == "$text"@
}

/// A regular key is neither an attribute key nor the text key.
pub open spec fn spec_is_regular_key(k: Seq<char>) -> bool {
    !spec_is_attr_key(k) && !spec_is_text_key(k)
}

/// Whether an object holds at least one attribute key.
pub open spec fn spec_has_attr_key(entries: Seq<(String, JsonValue)>) -> bool {
    exists|j: int| 0 <= j < entries.len() && spec_is_attr_key(#[trigger] entries[j].0@)
}

/// Whether a key names an attribute.
pub fn is_attr_key(k: &str) -> (r: bool)
    ensures
        r == spec_is_attr_key(k@),
{
    k.unicode_len() > 0 && k.get_char(0) == '@'
}

/// Whether a key is the text key.
pub fn is_text_key(k: &str) -> (r: bool)
    ensures
        r == spec_is_text_key(k@),
{
    str_eq(k, "$text")
}

/// Whether an object holds at least one attribute key (any value kind).
pub fn has_attr_key(entries: &Vec<(String, JsonValue)>) -> (r: bool)
    ensures
        r == spec_has_attr_key(entries@),
{
    let n = entries.len();
    let mut i: usize = 0;
    while i < n
        invariant
            n == entries@.len(),
            i <= n,
            forall|j: int| 0 <= j < i ==> !spec_is_attr_key(#[trigger] entries@[j].0@),
        decreases n - i,
    {
        if is_attr_key(entries[i].0.as_str()) {
            return true;
        }
        i = i + 1;
    }
    false
}

// ---------------------------------------------------------------------------
// Attributes and text of an object
// ---------------------------------------------------------------------------

/// The attribute list of an object's first `i` entries: attribute keys with
/// the leading `@` stripped, paired with their values, keeping only entries
/// whose value is a string. Order is preserved; non-string values under an
/// attribute key are silently dropped.
pub open spec fn spec_attrs_upto(entries: Seq<(String, JsonValue)>, i: int) -> Seq<
    (Seq<char>, Seq<char>),
>
    decreases i,
{
    if i <= 0 {
        Seq::empty()
    } else {
        spec_attrs_upto(entries, i - 1) + (if spec_is_attr_key(entries[i - 1].0@) && entries[i
            - 1].1 is String {
            seq![(entries[i - 1].0@.skip(1), entries[i - 1].1->String_0@)]
        } else {
            Seq::empty()
        })
    }
}

/// The full attribute list of an object.
pub open spec fn spec_attrs_of(entries: Seq<(String, JsonValue)>) -> Seq<(Seq<char>, Seq<char>)> {
    spec_attrs_upto(entries, entries.len() as int)
}

/// The view of an executable attribute list.
pub open spec fn attrs_view(attrs: Seq<(String, String)>) -> Seq<(Seq<char>, Seq<char>)> {
    attrs.map(|j: int, p: (String, String)| (p.0@, p.1@))
}

/// Build the executable attribute list of an object.
pub fn collect_attrs(entries: &Vec<(String, JsonValue)>) -> (attrs: Vec<(String, String)>)
    ensures
        attrs_view(attrs@) == spec_attrs_of(entries@),
{
    let n = entries.len();
    let mut attrs: Vec<(String, String)> = Vec::new();
    let mut i: usize = 0;
    while i < n
        invariant
            n == entries@.len(),
            i <= n,
            attrs_view(attrs@) == spec_attrs_upto(entries@, i as int),
        decreases n - i,
    {
        let key = entries[i].0.as_str();
        if is_attr_key(key) {
            if let JsonValue::String(s) = &entries[i].1 {
                let stripped = key.substring_char(1, key.unicode_len()).to_owned();
                assert(stripped@ =~= entries@[i as int].0@.skip(1));
                attrs.push((stripped, s.clone()));
            }
        }
        assert(attrs_view(attrs@) =~= spec_attrs_upto(entries@, i + 1));
        i = i + 1;
    }
    attrs
}

/// The text content of an object: the value of its first `$text` entry,
/// which takes effect only when that value is a string.
pub open spec fn spec_text_from(entries: Seq<(String, JsonValue)>, i: int) -> Option<Seq<char>>
    decreases entries.len() - i,
{
    if i < 0 || i >= entries.len() {
        None
    } else if spec_is_text_key(entries[i].0@) {
        if entries[i].1 is String {
            Some(entries[i].1->String_0@)
        } else {
            None
        }
    } else {
        spec_text_from(entries, i + 1)
    }
}

/// The text content of an object, if any.
pub open spec fn spec_text_of(entries: Seq<(String, JsonValue)>) -> Option<Seq<char>> {
    spec_text_from(entries, 0)
}

/// Find the text content of an object.
pub fn find_text(entries: &Vec<(String, JsonValue)>) -> (r: Option<String>)
    ensures
        match r {
            Some(s) => spec_text_of(entries@) == Some(s@),
            None => spec_text_of(entries@) is None,
        },
{
    let n = entries.len();
    let mut i: usize = 0;
    while i < n
        invariant
            n == entries@.len(),
            i <= n,
            spec_text_of(entries@) == spec_text_from(entries@, i as int),
        decreases n - i,
    {
        if is_text_key(entries[i].0.as_str()) {
            if let JsonValue::String(s) = &entries[i].1 {
                return Some(s.clone());
            }
            return None;
        }
        i = i + 1;
    }
    None
}

// ---------------------------------------------------------------------------
// Object lookup
// ---------------------------------------------------------------------------

/// The value under the first entry with the given key, from position `i` on.
pub open spec fn spec_obj_get_from(
    entries: Seq<(String, JsonValue)>,
    key: Seq<char>,
    i: int,
) -> Option<JsonValue>
    decreases entries.len() - i,
{
    if i < 0 || i >= entries.len() {
        None
    } else if entries[i].0@ == key {
        Some(entries[i].1)
    } else {
        spec_obj_get_from(entries, key, i + 1)
    }
}

/// The value under the first entry with the given key of an object, or
/// `None` for a non-object or an absent key.
pub open spec fn spec_get(v: JsonValue, key: Seq<char>) -> Option<JsonValue> {
    match v {
        JsonValue::Object(entries) => spec_obj_get_from(entries@, key, 0),
        _ => None,
    }
}

/// Look a key up in a value, as an object mapping.
pub fn get<'a>(v: &'a JsonValue, key: &str) -> (r: Option<&'a JsonValue>)
    ensures
        match r {
            Some(x) => spec_get(*v, key@) == Some(*x),
            None => spec_get(*v, key@) is None,
        },
{
    if let JsonValue::Object(entries) = v {
        let n = entries.len();
        let mut i: usize = 0;
        while i < n
            invariant
                *v == JsonValue::Object(*entries),
                n == entries@.len(),
                i <= n,
                spec_obj_get_from(entries@, key@, 0) == spec_obj_get_from(
                    entries@,
                    key@,
                    i as int,
                ),
            decreases n - i,
        {
            if str_eq(entries[i].0.as_str(), key) {
                proof {
                    assert(*v is Object && (*v)->Object_0@ == entries@);
                    assert(spec_obj_get_from(entries@, key@, i as int) == Some(
                        entries@[i as int].1,
                    ));
                    assert(spec_get(*v, key@) == Some(entries@[i as int].1));
                }
                return Some(&entries[i].1);
            }
            i = i + 1;
        }
        None
    } else {
        None
    }
}

// ---------------------------------------------------------------------------
// Nesting depth
// ---------------------------------------------------------------------------

pub open spec fn nat_max(a: nat, b: nat) -> nat {
    if a >= b {
        a
    } else {
        b
    }
}

/// The nesting depth of a value: the number of containers the transcoder
/// enters on its deepest path. Attribute and text entries of an object are
/// never descended into, so they do not count.
pub open spec fn vdepth(v: JsonValue) -> nat
    decreases v, 0int,
{
    match v {
        JsonValue::Object(entries) => 1 + vdepth_entries(entries@, entries@.len() as int),
        JsonValue::Array(elems) => 1 + vdepth_elems(elems@, elems@.len() as int),
        _ => 0,
    }
}

/// The greatest depth among the regular-key values of the first `i` entries.
pub open spec fn vdepth_entries(entries: Seq<(String, JsonValue)>, i: int) -> nat
    decreases entries, i,
{
    if i <= 0 || i > entries.len() {
        0
    } else if spec_is_regular_key(entries[i - 1].0@) {
        nat_max(vdepth_entries(entries, i - 1), vdepth(entries[i - 1].1))
    } else {
        vdepth_entries(entries, i - 1)
    }
}

/// The greatest depth among the first `i` elements.
pub open spec fn vdepth_elems(elems: Seq<JsonValue>, i: int) -> nat
    decreases elems, i,
{
    if i <= 0 || i > elems.len() {
        0
    } else {
        nat_max(vdepth_elems(elems, i - 1), vdepth(elems[i - 1]))
    }
}

/// Taking more entries into account never lowers the depth bound.
pub proof fn lemma_vdepth_entries_mono(entries: Seq<(String, JsonValue)>, i: int, j: int)
    requires
        0 <= i <= j <= entries.len(),
    ensures
        vdepth_entries(entries, i) <= vdepth_entries(entries, j),
    decreases j - i,
{
    if i < j {
        lemma_vdepth_entries_mono(entries, i, j - 1);
    }
}

/// Taking more elements into account never lowers the depth bound.
pub proof fn lemma_vdepth_elems_mono(elems: Seq<JsonValue>, i: int, j: int)
    requires
        0 <= i <= j <= elems.len(),
    ensures
        vdepth_elems(elems, i) <= vdepth_elems(elems, j),
    decreases j - i,
{
    if i < j {
        lemma_vdepth_elems_mono(elems, i, j - 1);
    }
}

} // verus!
