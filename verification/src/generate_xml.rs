use vstd::prelude::*;

use crate::error::ConversionError;
use crate::json_value::{
    attrs_view, collect_attrs, find_text, has_attr_key, is_attr_key, is_text_key, spec_attrs_of,
    spec_has_attr_key, spec_is_regular_key, spec_text_of, vdepth, vdepth_elems, vdepth_entries,
    JsonValue,
};
use crate::text::{capitalize_word, chars_to_string, spec_capitalize};
use crate::xml_utils::{
    lemma_render_push, lemma_stack_after_concat, spec_balanced, spec_render, spec_stack_after,
    XmlEmitter, XmlEvent,
};
use vstd::string::StringExecFns;

verus! {

broadcast use vstd::seq::axiom_seq_index_decreases, vstd::std_specs::vec::axiom_vec_decreases_to_view;

/// The ceiling on nesting depth: a conversion fails atomically with
/// [`ConversionError::DepthExceeded`] rather than following an input tree
/// beyond this many nested containers.
pub const MAX_DEPTH: usize = 128;

// ---------------------------------------------------------------------------
// The transcoding policy, as a sequence of markup events
// ---------------------------------------------------------------------------

/// The bare events of a primitive value: text content for strings, numbers
/// and booleans, and the fixed self-closing `None` element for null —
/// whatever key or array position produced it.
pub open spec fn spec_prim_events(v: JsonValue) -> Seq<XmlEvent> {
    match v {
        JsonValue::Null => seq![
            XmlEvent::EmptyTag { name: "None"@, attrs: Seq::empty() },
        ],
        JsonValue::Bool(b) => seq![
            XmlEvent::Text {
                content: if b {
                    "true"@
                } else {
                    "false"@
                },
            },
        ],
        JsonValue::Number(n) => seq![XmlEvent::Text { content: n.spec_chars() }],
        JsonValue::String(s) => seq![XmlEvent::Text { content: s@ }],
        _ => Seq::empty(),
    }
}

/// The text event of an object, if its `$text` entry takes effect.
pub open spec fn spec_text_events(entries: Seq<(String, JsonValue)>) -> Seq<XmlEvent> {
    match spec_text_of(entries) {
        Some(s) => seq![XmlEvent::Text { content: s }],
        None => Seq::empty(),
    }
}

/// The full element for a value rendered under an already-derived tag name.
pub open spec fn spec_value_events(v: JsonValue, name: Seq<char>) -> Seq<XmlEvent>
    decreases v, 1int,
{
    match v {
        JsonValue::Object(entries) => spec_object_events(entries@, name),
        JsonValue::Array(elems) => spec_array_events(elems@, name),
        _ => seq![XmlEvent::StartTag { name, attrs: Seq::empty() }] + spec_prim_events(v) + seq![
            XmlEvent::EndTag { name },
        ],
    }
}

/// The element for an object: a genuinely empty object is one self-closing
/// tag; any other object is a start tag carrying the attribute list, the
/// text content if any, the elements of the regular entries in their
/// original order, and the matching end tag.
pub open spec fn spec_object_events(entries: Seq<(String, JsonValue)>, name: Seq<char>) -> Seq<
    XmlEvent,
>
    decreases entries, entries.len() + 1int,
{
    if entries.len() == 0 {
        seq![XmlEvent::EmptyTag { name, attrs: Seq::empty() }]
    } else {
        seq![XmlEvent::StartTag { name, attrs: spec_attrs_of(entries) }] + spec_text_events(entries)
            + spec_children_events(entries, entries.len() as int) + seq![
            XmlEvent::EndTag { name },
        ]
    }
}

/// The events of the first `i` entries of an object body: attribute and
/// text entries contribute nothing here; each regular entry contributes the
/// element of its value under the capitalization of its key.
pub open spec fn spec_children_events(entries: Seq<(String, JsonValue)>, i: int) -> Seq<XmlEvent>
    decreases entries, i,
{
    if i <= 0 || i > entries.len() {
        Seq::empty()
    } else {
        spec_children_events(entries, i - 1) + spec_child_events(
            entries[i - 1].0@,
            entries[i - 1].1,
        )
    }
}

/// The events one object entry contributes.
pub open spec fn spec_child_events(key: Seq<char>, v: JsonValue) -> Seq<XmlEvent>
    decreases v, 2int,
{
    if spec_is_regular_key(key) {
        spec_value_events(v, spec_capitalize(key))
    } else {
        Seq::empty()
    }
}

/// Whether every element of an array is an object.
pub open spec fn spec_array_all_objects(elems: Seq<JsonValue>) -> bool {
    forall|j: int| 0 <= j < elems.len() ==> (#[trigger] elems[j]) is Object
}

/// The element(s) for an array: an empty array opens and at once closes its
/// tag (never self-closing, unlike an empty object); an array of objects
/// only repeats the plain tag itself, one element per object; an array
/// holding at least one non-object wraps every element in an
/// `Item`-suffixed tag, inside one enclosing plain tag.
pub open spec fn spec_array_events(elems: Seq<JsonValue>, name: Seq<char>) -> Seq<XmlEvent>
    decreases elems, elems.len() + 1int,
{
    if elems.len() == 0 {
        seq![
            XmlEvent::StartTag { name, attrs: Seq::empty() },
            XmlEvent::EndTag { name },
        ]
    } else if spec_array_all_objects(elems) {
        spec_elems_events(elems, elems.len() as int, name)
    } else {
        seq![XmlEvent::StartTag { name, attrs: Seq::empty() }] + spec_elems_events(
            elems,
            elems.len() as int,
            name + "Item"@,
        ) + seq![XmlEvent::EndTag { name }]
    }
}

/// The events of the first `i` elements of an array, each rendered as a
/// full element under the given name.
pub open spec fn spec_elems_events(elems: Seq<JsonValue>, i: int, nm: Seq<char>) -> Seq<XmlEvent>
    decreases elems, i,
{
    if i <= 0 || i > elems.len() {
        Seq::empty()
    } else {
        spec_elems_events(elems, i - 1, nm) + spec_value_events(elems[i - 1], nm)
    }
}

/// The events of the top-level value. A top-level object with at least one
/// attribute key is wrapped in a root element carrying those attributes; a
/// top-level object without one contributes its body as a flat sequence of
/// sibling elements, with no enclosing root tag.
pub open spec fn spec_top_events(v: JsonValue, root: Seq<char>) -> Seq<XmlEvent> {
    match v {
        JsonValue::Object(entries) => if spec_has_attr_key(entries@) {
            spec_object_events(entries@, spec_capitalize(root))
        } else {
            spec_text_events(entries@) + spec_children_events(entries@, entries@.len() as int)
        },
        JsonValue::Array(elems) => spec_array_events(elems@, spec_capitalize(root)),
        _ => spec_prim_events(v),
    }
}

/// The events of a whole document: an XML declaration, the version
/// comment, and the top-level value's events.
pub open spec fn spec_document_events(v: JsonValue, root: Seq<char>, comment: Seq<char>) -> Seq<
    XmlEvent,
> {
    seq![
        XmlEvent::Declaration { version: "1.0"@, encoding: Some("UTF-8"@) },
        XmlEvent::Comment { text: comment },
    ] + spec_top_events(v, root)
}

/// The text of a whole document.
pub open spec fn spec_document_text(v: JsonValue, root: Seq<char>, comment: Seq<char>) -> Seq<
    char,
> {
    spec_render(spec_document_events(v, root, comment))
}

// ---------------------------------------------------------------------------
// Tag matching: the generated events are always properly nested
// ---------------------------------------------------------------------------

proof fn lemma_stack_after_single(e: XmlEvent, st: Seq<Seq<char>>)
    ensures
        spec_stack_after(seq![e], st) == (match e {
            XmlEvent::StartTag { name, .. } => Some(st.push(name)),
            XmlEvent::EndTag { name } => if st.len() > 0 && st.last() == name {
                Some(st.drop_last())
            } else {
                None
            },
            _ => Some(st),
        }),
{
    let s = seq![e];
    assert(s.first() == e);
    assert(s.drop_first() =~= Seq::<XmlEvent>::empty());
    assert(spec_stack_after(Seq::<XmlEvent>::empty(), st) == Some(st));
    match e {
        XmlEvent::StartTag { name, .. } => {
            assert(spec_stack_after(Seq::<XmlEvent>::empty(), st.push(name)) == Some(st.push(name)));
            assert(spec_stack_after(s, st) == spec_stack_after(s.drop_first(), st.push(name)));
        },
        XmlEvent::EndTag { name } => {
            if st.len() > 0 && st.last() == name {
                assert(spec_stack_after(Seq::<XmlEvent>::empty(), st.drop_last()) == Some(
                    st.drop_last(),
                ));
                assert(spec_stack_after(s, st) == spec_stack_after(
                    s.drop_first(),
                    st.drop_last(),
                ));
            } else {
                assert(spec_stack_after(s, st) == None::<Seq<Seq<char>>>);
            }
        },
        _ => {
            assert(spec_stack_after(s, st) == spec_stack_after(s.drop_first(), st));
        },
    }
}

proof fn lemma_prim_events_neutral(v: JsonValue, st: Seq<Seq<char>>)
    ensures
        spec_stack_after(spec_prim_events(v), st) == Some(st),
{
    match v {
        JsonValue::Null => {
            lemma_stack_after_single(
                XmlEvent::EmptyTag { name: "None"@, attrs: Seq::empty() },
                st,
            );
        },
        JsonValue::Bool(b) => {
            lemma_stack_after_single(
                XmlEvent::Text {
                    content: if b {
                        "true"@
                    } else {
                        "false"@
                    },
                },
                st,
            );
        },
        JsonValue::Number(n) => {
            lemma_stack_after_single(XmlEvent::Text { content: n.spec_chars() }, st);
        },
        JsonValue::String(s) => {
            lemma_stack_after_single(XmlEvent::Text { content: s@ }, st);
        },
        _ => {
        },
    }
}

proof fn lemma_text_events_neutral(entries: Seq<(String, JsonValue)>, st: Seq<Seq<char>>)
    ensures
        spec_stack_after(spec_text_events(entries), st) == Some(st),
{
    match spec_text_of(entries) {
        Some(s) => {
            lemma_stack_after_single(XmlEvent::Text { content: s }, st);
        },
        None => {
        },
    }
}

proof fn lemma_value_events_neutral(v: JsonValue, name: Seq<char>, st: Seq<Seq<char>>)
    ensures
        spec_stack_after(spec_value_events(v, name), st) == Some(st),
    decreases v, 1int,
{
    match v {
        JsonValue::Object(entries) => {
            lemma_object_events_neutral(entries@, name, st);
        },
        JsonValue::Array(elems) => {
            lemma_array_events_neutral(elems@, name, st);
        },
        _ => {
            let a = seq![XmlEvent::StartTag { name, attrs: Seq::empty() }];
            let b = spec_prim_events(v);
            let c = seq![XmlEvent::EndTag { name }];
            lemma_stack_after_concat(a + b, c, st);
            lemma_stack_after_concat(a, b, st);
            lemma_stack_after_single(XmlEvent::StartTag { name, attrs: Seq::empty() }, st);
            lemma_prim_events_neutral(v, st.push(name));
            lemma_stack_after_single(XmlEvent::EndTag { name }, st.push(name));
            assert(st.push(name).drop_last() =~= st);
        },
    }
}

proof fn lemma_object_events_neutral(
    entries: Seq<(String, JsonValue)>,
    name: Seq<char>,
    st: Seq<Seq<char>>,
)
    ensures
        spec_stack_after(spec_object_events(entries, name), st) == Some(st),
    decreases entries, entries.len() + 1int,
{
    if entries.len() == 0 {
        lemma_stack_after_single(XmlEvent::EmptyTag { name, attrs: Seq::empty() }, st);
    } else {
        let a = seq![XmlEvent::StartTag { name, attrs: spec_attrs_of(entries) }];
        let b = spec_text_events(entries);
        let c = spec_children_events(entries, entries.len() as int);
        let d = seq![XmlEvent::EndTag { name }];
        lemma_stack_after_concat(a + b + c, d, st);
        lemma_stack_after_concat(a + b, c, st);
        lemma_stack_after_concat(a, b, st);
        lemma_stack_after_single(XmlEvent::StartTag { name, attrs: spec_attrs_of(entries) }, st);
        lemma_text_events_neutral(entries, st.push(name));
        lemma_children_events_neutral(entries, entries.len() as int, st.push(name));
        lemma_stack_after_single(XmlEvent::EndTag { name }, st.push(name));
        assert(st.push(name).drop_last() =~= st);
    }
}

proof fn lemma_children_events_neutral(
    entries: Seq<(String, JsonValue)>,
    i: int,
    st: Seq<Seq<char>>,
)
    ensures
        spec_stack_after(spec_children_events(entries, i), st) == Some(st),
    decreases entries, i,
{
    if i <= 0 || i > entries.len() {
    } else {
        let a = spec_children_events(entries, i - 1);
        let b = spec_child_events(entries[i - 1].0@, entries[i - 1].1);
        lemma_stack_after_concat(a, b, st);
        lemma_children_events_neutral(entries, i - 1, st);
        if spec_is_regular_key(entries[i - 1].0@) {
            lemma_value_events_neutral(
                entries[i - 1].1,
                spec_capitalize(entries[i - 1].0@),
                st,
            );
        }
    }
}

proof fn lemma_array_events_neutral(elems: Seq<JsonValue>, name: Seq<char>, st: Seq<Seq<char>>)
    ensures
        spec_stack_after(spec_array_events(elems, name), st) == Some(st),
    decreases elems, elems.len() + 1int,
{
    if elems.len() == 0 {
        let a = seq![XmlEvent::StartTag { name, attrs: Seq::empty() }];
        let b = seq![XmlEvent::EndTag { name }];
        assert(spec_array_events(elems, name) =~= a + b);
        lemma_stack_after_concat(a, b, st);
        lemma_stack_after_single(XmlEvent::StartTag { name, attrs: Seq::empty() }, st);
        lemma_stack_after_single(XmlEvent::EndTag { name }, st.push(name));
        assert(st.push(name).drop_last() =~= st);
    } else if spec_array_all_objects(elems) {
        lemma_elems_events_neutral(elems, elems.len() as int, name, st);
    } else {
        let a = seq![XmlEvent::StartTag { name, attrs: Seq::empty() }];
        let b = spec_elems_events(elems, elems.len() as int, name + "Item"@);
        let c = seq![XmlEvent::EndTag { name }];
        lemma_stack_after_concat(a + b, c, st);
        lemma_stack_after_concat(a, b, st);
        lemma_stack_after_single(XmlEvent::StartTag { name, attrs: Seq::empty() }, st);
        lemma_elems_events_neutral(elems, elems.len() as int, name + "Item"@, st.push(name));
        lemma_stack_after_single(XmlEvent::EndTag { name }, st.push(name));
        assert(st.push(name).drop_last() =~= st);
    }
}

proof fn lemma_elems_events_neutral(
    elems: Seq<JsonValue>,
    i: int,
    nm: Seq<char>,
    st: Seq<Seq<char>>,
)
    ensures
        spec_stack_after(spec_elems_events(elems, i, nm), st) == Some(st),
    decreases elems, i,
{
    if i <= 0 || i > elems.len() {
    } else {
        let a = spec_elems_events(elems, i - 1, nm);
        let b = spec_value_events(elems[i - 1], nm);
        lemma_stack_after_concat(a, b, st);
        lemma_elems_events_neutral(elems, i - 1, nm, st);
        lemma_value_events_neutral(elems[i - 1], nm, st);
    }
}

/// Tag matching: for every generated document, the sequence of start,
/// empty and end tag events is properly nested — run from an empty stack,
/// every end tag matches the innermost open start tag by name, and nothing
/// stays open at the end. This holds for every value tree, every root name
/// and every comment.
pub proof fn lemma_tag_matching(v: JsonValue, root: Seq<char>, comment: Seq<char>)
    ensures
        spec_balanced(spec_document_events(v, root, comment)),
{
    let st0 = Seq::<Seq<char>>::empty();
    let pre = seq![
        XmlEvent::Declaration { version: "1.0"@, encoding: Some("UTF-8"@) },
        XmlEvent::Comment { text: comment },
    ];
    let top = spec_top_events(v, root);
    lemma_stack_after_concat(pre, top, st0);
    let d = XmlEvent::Declaration { version: "1.0"@, encoding: Some("UTF-8"@) };
    let cm = XmlEvent::Comment { text: comment };
    assert(pre =~= seq![d] + seq![cm]);
    lemma_stack_after_concat(seq![d], seq![cm], st0);
    lemma_stack_after_single(d, st0);
    lemma_stack_after_single(cm, st0);
    match v {
        JsonValue::Object(entries) => {
            if spec_has_attr_key(entries@) {
                lemma_object_events_neutral(entries@, spec_capitalize(root), st0);
            } else {
                let b = spec_text_events(entries@);
                let c = spec_children_events(entries@, entries@.len() as int);
                lemma_stack_after_concat(b, c, st0);
                lemma_text_events_neutral(entries@, st0);
                lemma_children_events_neutral(entries@, entries@.len() as int, st0);
            }
        },
        JsonValue::Array(elems) => {
            lemma_array_events_neutral(elems@, spec_capitalize(root), st0);
        },
        _ => {
            lemma_prim_events_neutral(v, st0);
        },
    }
}

// ---------------------------------------------------------------------------
// Further laws of the policy
// ---------------------------------------------------------------------------

/// Empty object against empty array: an empty object under a name becomes
/// exactly one self-closing tag, while an empty array under the same name
/// opens and at once closes the tag — never the reverse.
pub proof fn lemma_empty_object_vs_empty_array(v: JsonValue, name: Seq<char>)
    ensures
        v is Object && v->Object_0@.len() == 0 ==> spec_value_events(v, name) == seq![
            XmlEvent::EmptyTag { name, attrs: Seq::<(Seq<char>, Seq<char>)>::empty() },
        ],
        v is Array && v->Array_0@.len() == 0 ==> spec_value_events(v, name) == seq![
            XmlEvent::StartTag { name, attrs: Seq::<(Seq<char>, Seq<char>)>::empty() },
            XmlEvent::EndTag { name },
        ],
{
}

/// The null marker is fixed: a null value renders as the self-closing
/// element named `None`, and the element in which it stands only wraps it —
/// the marker itself is the same whatever tag name the position supplies.
pub proof fn lemma_null_fixed_tag(name: Seq<char>, other: Seq<char>)
    ensures
        spec_prim_events(JsonValue::Null) == seq![
            XmlEvent::EmptyTag { name: "None"@, attrs: Seq::<(Seq<char>, Seq<char>)>::empty() },
        ],
        spec_value_events(JsonValue::Null, name) == seq![
            XmlEvent::StartTag { name, attrs: Seq::<(Seq<char>, Seq<char>)>::empty() },
            XmlEvent::EmptyTag { name: "None"@, attrs: Seq::<(Seq<char>, Seq<char>)>::empty() },
            XmlEvent::EndTag { name },
        ],
        spec_value_events(JsonValue::Null, name)[1] == spec_value_events(JsonValue::Null, other)[1],
{
    assert(spec_value_events(JsonValue::Null, name) =~= seq![
        XmlEvent::StartTag { name, attrs: Seq::<(Seq<char>, Seq<char>)>::empty() },
        XmlEvent::EmptyTag { name: "None"@, attrs: Seq::<(Seq<char>, Seq<char>)>::empty() },
        XmlEvent::EndTag { name },
    ]);
    assert(spec_value_events(JsonValue::Null, other) =~= seq![
        XmlEvent::StartTag { name: other, attrs: Seq::<(Seq<char>, Seq<char>)>::empty() },
        XmlEvent::EmptyTag { name: "None"@, attrs: Seq::<(Seq<char>, Seq<char>)>::empty() },
        XmlEvent::EndTag { name: other },
    ]);
}

/// Root attribute gating: a top-level object without an attribute key
/// contributes its body as a flat sequence — the document's events hold no
/// added enclosing root tag pair; with at least one attribute key the body
/// is wrapped in a start and end tag named by capitalizing the root name,
/// the start tag carrying the object's attribute list.
pub proof fn lemma_root_attribute_gating(v: JsonValue, root: Seq<char>)
    requires
        v is Object,
    ensures
        !spec_has_attr_key(v->Object_0@) ==> spec_top_events(v, root) == spec_text_events(
            v->Object_0@,
        ) + spec_children_events(v->Object_0@, v->Object_0@.len() as int),
        spec_has_attr_key(v->Object_0@) ==> spec_top_events(v, root) == seq![
            XmlEvent::StartTag {
                name: spec_capitalize(root),
                attrs: spec_attrs_of(v->Object_0@),
            },
        ] + spec_text_events(v->Object_0@) + spec_children_events(
            v->Object_0@,
            v->Object_0@.len() as int,
        ) + seq![XmlEvent::EndTag { name: spec_capitalize(root) }],
{
    let entries = v->Object_0@;
    if spec_has_attr_key(entries) {
        let j = choose|j: int| 0 <= j < entries.len() && crate::json_value::spec_is_attr_key(
            #[trigger] entries[j].0@,
        );
        assert(entries.len() > 0);
    }
}

// ---------------------------------------------------------------------------
// The executable transcoder
// ---------------------------------------------------------------------------

fn all_objects(elems: &Vec<JsonValue>) -> (r: bool)
    ensures
        r == spec_array_all_objects(elems@),
{
    let n = elems.len();
    let mut i: usize = 0;
    while i < n
        invariant
            n == elems@.len(),
            i <= n,
            forall|j: int| 0 <= j < i ==> (#[trigger] elems@[j]) is Object,
        decreases n - i,
    {
        match &elems[i] {
            JsonValue::Object(_) => {},
            _ => {
                assert(!((elems@[i as int]) is Object));
                return false;
            },
        }
        i = i + 1;
    }
    true
}

/// Emit the bare content of a primitive value.
fn emit_prim_content(v: &JsonValue, em: &mut XmlEmitter)
    requires
        old(em).wf(),
        !(*v is Object),
        !(*v is Array),
    ensures
        final(em).wf(),
        final(em).events() == old(em).events() + spec_prim_events(*v),
{
    let ghost e0 = em.events();
    match v {
        JsonValue::Null => {
            let no_attrs: Vec<(String, String)> = Vec::new();
            em.write_empty_tag("None", &no_attrs);
            proof {
                assert(attrs_view(no_attrs@) =~= Seq::<(Seq<char>, Seq<char>)>::empty());
                assert(em.events() =~= e0 + spec_prim_events(*v));
            }
        },
        JsonValue::Bool(b) => {
            if *b {
                em.write_content("true");
            } else {
                em.write_content("false");
            }
            proof {
                assert(em.events() =~= e0 + spec_prim_events(*v));
            }
        },
        JsonValue::Number(n) => {
            let chars = n.to_chars();
            let s = chars_to_string(&chars);
            em.write_content(s.as_str());
            proof {
                assert(em.events() =~= e0 + spec_prim_events(*v));
            }
        },
        JsonValue::String(s) => {
            em.write_content(s.as_str());
            proof {
                assert(em.events() =~= e0 + spec_prim_events(*v));
            }
        },
        _ => {
            proof {
                assert(false);
            }
        },
    }
}

/// Emit the full element of a value under an already-derived tag name.
fn emit_value(v: &JsonValue, name: &str, depth: usize, em: &mut XmlEmitter) -> (r: Result<
    (),
    ConversionError,
>)
    requires
        old(em).wf(),
        depth <= MAX_DEPTH,
    ensures
        final(em).wf(),
        r is Ok <==> depth + vdepth(*v) <= MAX_DEPTH,
        r is Ok ==> final(em).events() == old(em).events() + spec_value_events(*v, name@),
        r is Err ==> r->Err_0 is DepthExceeded,
    decreases *v, 1int,
{
    let ghost e0 = em.events();
    match v {
        JsonValue::Object(entries) => {
            if depth == MAX_DEPTH {
                proof {
                    assert(vdepth(*v) >= 1);
                }
                return Err(ConversionError::DepthExceeded);
            }
            let res = emit_object(entries, name, depth, em);
            proof {
                assert(vdepth(*v) == 1 + vdepth_entries(entries@, entries@.len() as int));
            }
            res
        },
        JsonValue::Array(elems) => {
            if depth == MAX_DEPTH {
                proof {
                    assert(vdepth(*v) >= 1);
                }
                return Err(ConversionError::DepthExceeded);
            }
            let res = emit_array(elems, name, depth, em);
            proof {
                assert(vdepth(*v) == 1 + vdepth_elems(elems@, elems@.len() as int));
            }
            res
        },
        _ => {
            let no_attrs: Vec<(String, String)> = Vec::new();
            em.write_start_tag(name, &no_attrs);
            emit_prim_content(v, em);
            em.write_end_tag(name);
            proof {
                assert(attrs_view(no_attrs@) =~= Seq::<(Seq<char>, Seq<char>)>::empty());
                assert(vdepth(*v) == 0);
                assert(em.events() =~= e0 + spec_value_events(*v, name@));
            }
            Ok(())
        },
    }
}

/// Emit the text content and the regular-key child elements of an object.
fn emit_object_body(
    entries: &Vec<(String, JsonValue)>,
    depth: usize,
    em: &mut XmlEmitter,
) -> (r: Result<(), ConversionError>)
    requires
        old(em).wf(),
        depth < MAX_DEPTH,
    ensures
        final(em).wf(),
        r is Ok <==> depth + 1 + vdepth_entries(entries@, entries@.len() as int) <= MAX_DEPTH,
        r is Ok ==> final(em).events() == old(em).events() + spec_text_events(entries@)
            + spec_children_events(entries@, entries@.len() as int),
        r is Err ==> r->Err_0 is DepthExceeded,
    decreases entries, 0int,
{
    let ghost e0 = em.events();
    match find_text(entries) {
        Some(t) => {
            em.write_content(t.as_str());
        },
        None => {},
    }
    let ghost e2 = e0 + spec_text_events(entries@);
    proof {
        assert(em.events() =~= e2);
    }
    let n = entries.len();
    let mut i: usize = 0;
    while i < n
        invariant
            em.wf(),
            n == entries@.len(),
            i <= n,
            depth < MAX_DEPTH,
            em.events() == e2 + spec_children_events(entries@, i as int),
            depth + 1 + vdepth_entries(entries@, i as int) <= MAX_DEPTH,
        decreases n - i,
    {
        let key = entries[i].0.as_str();
        let a = is_attr_key(key);
        let t = is_text_key(key);
        if a || t {
            proof {
                assert(spec_children_events(entries@, i + 1) == spec_children_events(
                    entries@,
                    i as int,
                ) + spec_child_events(entries@[i as int].0@, entries@[i as int].1));
                assert(spec_child_events(entries@[i as int].0@, entries@[i as int].1)
                    =~= Seq::<XmlEvent>::empty());
                assert(em.events() =~= e2 + spec_children_events(entries@, i + 1));
                assert(vdepth_entries(entries@, i + 1) == vdepth_entries(entries@, i as int));
            }
        } else {
            let tag = capitalize_word(key);
            let res = emit_value(&entries[i].1, tag.as_str(), depth + 1, em);
            if let Err(er) = res {
                proof {
                    assert(depth + 1 + vdepth(entries@[i as int].1) > MAX_DEPTH);
                    assert(vdepth_entries(entries@, i + 1) >= vdepth(entries@[i as int].1));
                    crate::json_value::lemma_vdepth_entries_mono(
                        entries@,
                        i + 1,
                        entries@.len() as int,
                    );
                }
                return Err(er);
            }
            proof {
                assert(spec_children_events(entries@, i + 1) == spec_children_events(
                    entries@,
                    i as int,
                ) + spec_child_events(entries@[i as int].0@, entries@[i as int].1));
                assert(spec_child_events(entries@[i as int].0@, entries@[i as int].1)
                    == spec_value_events(
                    entries@[i as int].1,
                    spec_capitalize(entries@[i as int].0@),
                ));
                assert(em.events() =~= e2 + spec_children_events(entries@, i + 1));
                assert(vdepth_entries(entries@, i + 1) + depth + 1 <= MAX_DEPTH);
            }
        }
        i = i + 1;
    }
    Ok(())
}

/// Emit the element of an object under an already-derived tag name.
fn emit_object(
    entries: &Vec<(String, JsonValue)>,
    name: &str,
    depth: usize,
    em: &mut XmlEmitter,
) -> (r: Result<(), ConversionError>)
    requires
        old(em).wf(),
        depth < MAX_DEPTH,
    ensures
        final(em).wf(),
        r is Ok <==> depth + 1 + vdepth_entries(entries@, entries@.len() as int) <= MAX_DEPTH,
        r is Ok ==> final(em).events() == old(em).events() + spec_object_events(entries@, name@),
        r is Err ==> r->Err_0 is DepthExceeded,
    decreases entries, 1int,
{
    let ghost e0 = em.events();
    if entries.len() == 0 {
        let no_attrs: Vec<(String, String)> = Vec::new();
        em.write_empty_tag(name, &no_attrs);
        proof {
            assert(attrs_view(no_attrs@) =~= Seq::<(Seq<char>, Seq<char>)>::empty());
            assert(em.events() =~= e0 + spec_object_events(entries@, name@));
        }
        return Ok(());
    }
    let attrs = collect_attrs(entries);
    em.write_start_tag(name, &attrs);
    proof {
        assert(em.events() =~= e0 + seq![
            XmlEvent::StartTag { name: name@, attrs: spec_attrs_of(entries@) },
        ]);
    }
    let res = emit_object_body(entries, depth, em);
    if let Err(er) = res {
        return Err(er);
    }
    em.write_end_tag(name);
    proof {
        assert(em.events() =~= e0 + spec_object_events(entries@, name@));
    }
    Ok(())
}

/// Emit the element(s) of an array under an already-derived tag name.
fn emit_array(elems: &Vec<JsonValue>, name: &str, depth: usize, em: &mut XmlEmitter) -> (r: Result<
    (),
    ConversionError,
>)
    requires
        old(em).wf(),
        depth < MAX_DEPTH,
    ensures
        final(em).wf(),
        r is Ok <==> depth + 1 + vdepth_elems(elems@, elems@.len() as int) <= MAX_DEPTH,
        r is Ok ==> final(em).events() == old(em).events() + spec_array_events(elems@, name@),
        r is Err ==> r->Err_0 is DepthExceeded,
    decreases elems, 1int,
{
    let ghost e0 = em.events();
    let n = elems.len();
    let no_attrs: Vec<(String, String)> = Vec::new();
    proof {
        assert(attrs_view(no_attrs@) =~= Seq::<(Seq<char>, Seq<char>)>::empty());
    }
    if n == 0 {
        em.write_start_tag(name, &no_attrs);
        em.write_end_tag(name);
        proof {
            assert(em.events() =~= e0 + spec_array_events(elems@, name@));
        }
        return Ok(());
    }
    if all_objects(elems) {
        let mut i: usize = 0;
        while i < n
            invariant
                em.wf(),
                n == elems@.len(),
                i <= n,
                depth < MAX_DEPTH,
                spec_array_all_objects(elems@),
                em.events() == e0 + spec_elems_events(elems@, i as int, name@),
                depth + 1 + vdepth_elems(elems@, i as int) <= MAX_DEPTH,
            decreases n - i,
        {
            let res = emit_value(&elems[i], name, depth + 1, em);
            if let Err(er) = res {
                proof {
                    assert(vdepth_elems(elems@, i + 1) >= vdepth(elems@[i as int]));
                    crate::json_value::lemma_vdepth_elems_mono(elems@, i + 1, elems@.len() as int);
                }
                return Err(er);
            }
            proof {
                assert(spec_elems_events(elems@, i + 1, name@) == spec_elems_events(
                    elems@,
                    i as int,
                    name@,
                ) + spec_value_events(elems@[i as int], name@));
                assert(em.events() =~= e0 + spec_elems_events(elems@, i + 1, name@));
                assert(vdepth_elems(elems@, i + 1) + depth + 1 <= MAX_DEPTH);
            }
            i = i + 1;
        }
        proof {
            assert(em.events() =~= e0 + spec_array_events(elems@, name@));
        }
        Ok(())
    } else {
        let item = name.to_owned().concat("Item");
        proof {
            assert(item@ == name@ + "Item"@);
        }
        em.write_start_tag(name, &no_attrs);
        let ghost e1 = em.events();
        let mut i: usize = 0;
        while i < n
            invariant
                em.wf(),
                n == elems@.len(),
                i <= n,
                depth < MAX_DEPTH,
                !spec_array_all_objects(elems@),
                item@ == name@ + "Item"@,
                e1 == e0 + seq![
                    XmlEvent::StartTag {
                        name: name@,
                        attrs: Seq::<(Seq<char>, Seq<char>)>::empty(),
                    },
                ],
                em.events() == e1 + spec_elems_events(elems@, i as int, item@),
                depth + 1 + vdepth_elems(elems@, i as int) <= MAX_DEPTH,
            decreases n - i,
        {
            let res = emit_value(&elems[i], item.as_str(), depth + 1, em);
            if let Err(er) = res {
                proof {
                    assert(vdepth_elems(elems@, i + 1) >= vdepth(elems@[i as int]));
                    crate::json_value::lemma_vdepth_elems_mono(elems@, i + 1, elems@.len() as int);
                }
                return Err(er);
            }
            proof {
                assert(spec_elems_events(elems@, i + 1, item@) == spec_elems_events(
                    elems@,
                    i as int,
                    item@,
                ) + spec_value_events(elems@[i as int], item@));
                assert(em.events() =~= e1 + spec_elems_events(elems@, i + 1, item@));
                assert(vdepth_elems(elems@, i + 1) + depth + 1 <= MAX_DEPTH);
            }
            i = i + 1;
        }
        em.write_end_tag(name);
        proof {
            assert(em.events() =~= e0 + spec_array_events(elems@, name@));
        }
        Ok(())
    }
}

/// Convert a value tree into a full document under the given root name,
/// with the given version comment. Succeeds for every tree whose nesting
/// depth stays within [`MAX_DEPTH`]; a deeper tree fails atomically with
/// [`ConversionError::DepthExceeded`] and no partial output is exposed.
pub fn convert(json: &JsonValue, root: &str, version_comment: &str) -> (r: Result<
    String,
    ConversionError,
>)
    ensures
        vdepth(*json) <= MAX_DEPTH as nat ==> r is Ok && r->Ok_0@ == spec_document_text(
            *json,
            root@,
            version_comment@,
        ),
        vdepth(*json) > MAX_DEPTH as nat ==> r is Err && r->Err_0 is DepthExceeded,
{
    let mut em = XmlEmitter::new();
    em.write_declaration("1.0", Some("UTF-8"));
    em.write_comment(version_comment);
    let ghost pre = seq![
        XmlEvent::Declaration { version: "1.0"@, encoding: Some("UTF-8"@) },
        XmlEvent::Comment { text: version_comment@ },
    ];
    proof {
        assert(em.events() =~= pre);
    }
    match json {
        JsonValue::Object(entries) => {
            if has_attr_key(entries) {
                let tag = capitalize_word(root);
                let res = emit_object(entries, tag.as_str(), 0, &mut em);
                if let Err(er) = res {
                    proof {
                        assert(vdepth(*json) > MAX_DEPTH as nat);
                    }
                    return Err(er);
                }
                proof {
                    assert(em.events() =~= pre + spec_top_events(*json, root@));
                }
            } else {
                let res = emit_object_body(entries, 0, &mut em);
                if let Err(er) = res {
                    proof {
                        assert(vdepth(*json) > MAX_DEPTH as nat);
                    }
                    return Err(er);
                }
                proof {
                    assert(em.events() =~= pre + spec_top_events(*json, root@));
                }
            }
        },
        JsonValue::Array(elems) => {
            let tag = capitalize_word(root);
            let res = emit_array(elems, tag.as_str(), 0, &mut em);
            if let Err(er) = res {
                proof {
                    assert(vdepth(*json) > MAX_DEPTH as nat);
                }
                return Err(er);
            }
            proof {
                assert(em.events() =~= pre + spec_top_events(*json, root@));
            }
        },
        _ => {
            emit_prim_content(json, &mut em);
            proof {
                assert(vdepth(*json) == 0);
                assert(em.events() =~= pre + spec_top_events(*json, root@));
            }
        },
    }
    proof {
        assert(em.events() =~= spec_document_events(*json, root@, version_comment@));
    }
    Ok(em.finish())
}

// ---------------------------------------------------------------------------
// Parsing, through the outside crate
// ---------------------------------------------------------------------------

#[verifier::external_type_specification]
#[verifier::external_body]
pub struct ExSerdeValue(serde_json::Value);

#[verifier::external_type_specification]
#[verifier::external_body]
pub struct ExSerdeNumber(serde_json::Number);

/// The value tree that parsing a text as JSON yields, in this crate's
/// model, or `None` where the text is rejected. This names the result of
/// `serde_json::from_str`, which depends on the text alone.
pub uninterp spec fn json_of(s: Seq<char>) -> Option<JsonValue>;

/// Trusted bridge from the parser's tree into the crate's model: every
/// variant moves across one to one, object entries in their original
/// order; an integer keeps its machine word and a float keeps its decimal
/// rendering. Called only from the trusted parsing functions below.
/// Trusted bridge for one number: relies on `serde_json::Number::as_i64`,
/// `as_u64` and `to_string` — an integer keeps its machine word and a
/// float keeps its decimal rendering. Called only from `value_to_model`.
#[verifier::external_body]
pub(crate) fn number_to_model(n: &serde_json::Number) -> crate::json_value::JsonNumber {
    match (n.as_i64(), n.as_u64()) {
        (Some(i), _) => crate::json_value::JsonNumber::Int(i),
        (None, Some(u)) => crate::json_value::JsonNumber::UInt(u),
        _ => crate::json_value::JsonNumber::Float(n.to_string()),
    }
}

#[verifier::external_body]
pub(crate) fn value_to_model(v: &serde_json::Value) -> JsonValue {
    match v {
        serde_json::Value::Null => JsonValue::Null,
        serde_json::Value::Bool(b) => JsonValue::Bool(*b),
        serde_json::Value::Number(n) => JsonValue::Number(number_to_model(n)),
        serde_json::Value::String(s) => JsonValue::String(s.clone()),
        serde_json::Value::Array(a) => JsonValue::Array(a.iter().map(value_to_model).collect()),
        serde_json::Value::Object(m) => JsonValue::Object(
            m.iter().map(|(k, x)| (k.clone(), value_to_model(x))).collect(),
        ),
    }
}

/// Relies on `serde_json::from_str`: parses JSON text into a value tree,
/// deterministically in the text; it fails exactly on text it rejects
/// (malformed JSON, or past the parser's own nesting limit), which is what
/// `json_of` being `None` stands for.
#[verifier::external_body]
fn parse_json_text(s: &str) -> (r: Result<JsonValue, ConversionError>)
    ensures
        r is Ok <==> json_of(s@) is Some,
        r is Ok ==> json_of(s@) == Some(r->Ok_0),
        r is Err ==> r->Err_0 is InputParse,
{
    match serde_json::from_str::<serde_json::Value>(s) {
        Ok(v) => Ok(value_to_model(&v)),
        Err(e) => Err(ConversionError::InputParse(e.to_string())),
    }
}

// ---------------------------------------------------------------------------
// The public conversion entry points
// ---------------------------------------------------------------------------

/// The generated-by comment carrying a version string.
pub open spec fn spec_version_comment(version: Seq<char>) -> Seq<char> {
    "Generated with json_to_xml "@ + version
}

/// The comment used when no version string is available: an explicit
/// unknown-version marker, never a failure.
pub open spec fn spec_default_comment() -> Seq<char> {
    spec_version_comment("unknown version"@)
}

/// Build the generated-by comment for a version string.
pub fn make_version_comment(version: &str) -> (r: String)
    ensures
        r@ == spec_version_comment(version@),
{
    "Generated with json_to_xml ".to_owned().concat(version)
}

/// What converting JSON text must return: the rendered document for text
/// that parses within the depth ceiling, `DepthExceeded` past the ceiling,
/// and `InputParse` exactly when the text is rejected.
pub open spec fn spec_conversion_result(
    s: Seq<char>,
    root: Seq<char>,
    comment: Seq<char>,
    r: Result<String, ConversionError>,
) -> bool {
    match json_of(s) {
        Some(v) => if vdepth(v) <= MAX_DEPTH as nat {
            r is Ok && r->Ok_0@ == spec_document_text(v, root, comment)
        } else {
            r is Err && r->Err_0 is DepthExceeded
        },
        None => r is Err && r->Err_0 is InputParse,
    }
}

/// Convert JSON text under a custom root element name, with a caller
/// supplied version string for the generated-by comment.
pub fn json_to_xml_with_version(json_string: &str, root: &str, version: &str) -> (r: Result<
    String,
    ConversionError,
>)
    ensures
        spec_conversion_result(json_string@, root@, spec_version_comment(version@), r),
{
    let comment = make_version_comment(version);
    let value = match parse_json_text(json_string) {
        Ok(v) => v,
        Err(e) => {
            return Err(e);
        },
    };
    convert(&value, root, comment.as_str())
}

/// Convert JSON text under a custom root element name.
///
/// The root name becomes the enclosing root element exactly when the
/// top-level JSON object holds an `@`-prefixed key; keys starting with `@`
/// become attributes of their parent element, the `$text` key becomes
/// element text, element tags are capitalized, an empty object becomes a
/// self-closing tag, an empty array an open-and-close pair, and `null` the
/// fixed `<None/>` marker.
pub fn json_to_xml_with_root(json_string: &str, root: &str) -> (r: Result<String, ConversionError>)
    ensures
        spec_conversion_result(json_string@, root@, spec_default_comment(), r),
{
    json_to_xml_with_version(json_string, root, "unknown version")
}

/// Convert JSON text with `Root` as the default root element name.
pub fn json_to_xml(json_string: &str) -> (r: Result<String, ConversionError>)
    ensures
        spec_conversion_result(json_string@, "Root"@, spec_default_comment(), r),
{
    json_to_xml_with_root(json_string, "Root")
}

} // verus!
