use vstd::prelude::*;
use vstd::string::StrSliceExecFns;

use crate::json_value::attrs_view;
use crate::text::chars_to_string;

verus! {

// ---------------------------------------------------------------------------
// Markup events
// ---------------------------------------------------------------------------

/// One discrete markup event. The emitter serializes a sequence of these
/// into indented, escaped XML text; it knows nothing about JSON.
pub enum XmlEvent {
    Declaration { version: Seq<char>, encoding: Option<Seq<char>> },
    Comment { text: Seq<char> },
    StartTag { name: Seq<char>, attrs: Seq<(Seq<char>, Seq<char>)> },
    EmptyTag { name: Seq<char>, attrs: Seq<(Seq<char>, Seq<char>)> },
    EndTag { name: Seq<char> },
    Text { content: Seq<char> },
}

// ---------------------------------------------------------------------------
// Escaping
// ---------------------------------------------------------------------------

/// The escape expansion of one character of text or attribute content.
pub open spec fn spec_escape_char(c: char) -> Seq<char> {
    if c == '&' {
        seq!['&', 'a', 'm', 'p', ';']
    } else if c == '<' {
        seq!['&', 'l', 't', ';']
    } else if c == '>' {
        seq!['&', 'g', 't', ';']
    } else if c == '\'' {
        seq!['&', 'a', 'p', 'o', 's', ';']
    } else if c == '"' {
        seq!['&', 'q', 'u', 'o', 't', ';']
    } else {
        seq![c]
    }
}

pub open spec fn spec_escape_upto(s: Seq<char>, i: int) -> Seq<char>
    decreases i,
{
    if i <= 0 {
        Seq::empty()
    } else {
        spec_escape_upto(s, i - 1) + spec_escape_char(s[i - 1])
    }
}

/// The escaped form of a character sequence.
pub open spec fn spec_escape(s: Seq<char>) -> Seq<char> {
    spec_escape_upto(s, s.len() as int)
}

// ---------------------------------------------------------------------------
// Rendering one event
// ---------------------------------------------------------------------------

/// The text of one attribute: a space, the name, `="`, the escaped value,
/// and a closing quote.
pub open spec fn spec_attr_text(a: (Seq<char>, Seq<char>)) -> Seq<char> {
    seq![' '] + a.0 + seq!['=', '"'] + spec_escape(a.1) + seq!['"']
}

pub open spec fn spec_attrs_text_upto(attrs: Seq<(Seq<char>, Seq<char>)>, i: int) -> Seq<char>
    decreases i,
{
    if i <= 0 {
        Seq::empty()
    } else {
        spec_attrs_text_upto(attrs, i - 1) + spec_attr_text(attrs[i - 1])
    }
}

/// The text of an attribute list, in order.
pub open spec fn spec_attrs_text(attrs: Seq<(Seq<char>, Seq<char>)>) -> Seq<char> {
    spec_attrs_text_upto(attrs, attrs.len() as int)
}

/// The text of one event, not counting indentation.
pub open spec fn spec_event_text(e: XmlEvent) -> Seq<char> {
    match e {
        XmlEvent::Declaration { version, encoding } => "<?xml version=\""@ + version + "\""@ + (
        match encoding {
            Some(enc) => " encoding=\""@ + enc + "\""@,
            None => Seq::empty(),
        }) + "?>"@,
        XmlEvent::Comment { text } => "<!--"@ + spec_escape(text) + "-->"@,
        XmlEvent::StartTag { name, attrs } => "<"@ + name + spec_attrs_text(attrs) + ">"@,
        XmlEvent::EmptyTag { name, attrs } => "<"@ + name + spec_attrs_text(attrs) + "/>"@,
        XmlEvent::EndTag { name } => "</"@ + name + ">"@,
        XmlEvent::Text { content } => spec_escape(content),
    }
}

// ---------------------------------------------------------------------------
// Indentation and full rendering
// ---------------------------------------------------------------------------

/// The nesting depth after a sequence of events: the number of unmatched
/// start tags, never dropping below zero.
pub open spec fn spec_depth(events: Seq<XmlEvent>) -> nat
    decreases events.len(),
{
    if events.len() == 0 {
        0
    } else {
        let d = spec_depth(events.drop_last());
        match events.last() {
            XmlEvent::StartTag { .. } => if d < usize::MAX as nat {
                d + 1
            } else {
                d
            },
            XmlEvent::EndTag { .. } => if d > 0 {
                (d - 1) as nat
            } else {
                0
            },
            _ => d,
        }
    }
}

/// Two spaces of indentation per nesting level.
pub open spec fn spec_indent(d: nat) -> Seq<char>
    decreases d,
{
    if d == 0 {
        Seq::empty()
    } else {
        spec_indent((d - 1) as nat) + seq![' ', ' ']
    }
}

/// The separator written before an event: a newline and the indentation of
/// its nesting level. The very first event gets none; text is written
/// inline, and so is the event that immediately follows text (so that
/// `<Name>text</Name>` stays on one line).
pub open spec fn spec_sep(prefix: Seq<XmlEvent>, e: XmlEvent) -> Seq<char> {
    if prefix.len() == 0 || e is Text || prefix.last() is Text {
        Seq::empty()
    } else {
        let d = spec_depth(prefix);
        let ind = if e is EndTag {
            if d > 0 {
                (d - 1) as nat
            } else {
                0
            }
        } else {
            d
        };
        seq!['\n'] + spec_indent(ind)
    }
}

/// The full rendering of a sequence of events.
pub open spec fn spec_render(events: Seq<XmlEvent>) -> Seq<char>
    decreases events.len(),
{
    if events.len() == 0 {
        Seq::empty()
    } else {
        spec_render(events.drop_last()) + spec_sep(events.drop_last(), events.last())
            + spec_event_text(events.last())
    }
}

/// How one appended event extends the rendering and changes the depth.
pub proof fn lemma_render_push(events: Seq<XmlEvent>, e: XmlEvent)
    ensures
        spec_render(events.push(e)) == spec_render(events) + spec_sep(events, e)
            + spec_event_text(e),
        spec_depth(events.push(e)) == (match e {
            XmlEvent::StartTag { .. } => if spec_depth(events) < usize::MAX as nat {
                spec_depth(events) + 1
            } else {
                spec_depth(events)
            },
            XmlEvent::EndTag { .. } => if spec_depth(events) > 0 {
                (spec_depth(events) - 1) as nat
            } else {
                0
            },
            _ => spec_depth(events),
        }),
{
    assert(events.push(e).drop_last() =~= events);
    assert(events.push(e).last() == e);
}

// ---------------------------------------------------------------------------
// Proper nesting of tag events
// ---------------------------------------------------------------------------

/// Run the events over a stack of open tag names. A start tag pushes its
/// name; an end tag must match the innermost open name, which it pops; any
/// other event leaves the stack alone. `None` means a mismatched or orphan
/// end tag was met.
pub open spec fn spec_stack_after(events: Seq<XmlEvent>, st: Seq<Seq<char>>) -> Option<
    Seq<Seq<char>>,
>
    decreases events.len(),
{
    if events.len() == 0 {
        Some(st)
    } else {
        match events.first() {
            XmlEvent::StartTag { name, .. } => spec_stack_after(events.drop_first(), st.push(name)),
            XmlEvent::EndTag { name } => if st.len() > 0 && st.last() == name {
                spec_stack_after(events.drop_first(), st.drop_last())
            } else {
                None
            },
            _ => spec_stack_after(events.drop_first(), st),
        }
    }
}

/// A sequence of events is properly nested when, run from an empty stack,
/// every end tag matches the innermost open start tag and nothing stays
/// open at the end.
pub open spec fn spec_balanced(events: Seq<XmlEvent>) -> bool {
    spec_stack_after(events, Seq::empty()) == Some(Seq::<Seq<char>>::empty())
}

/// Stack runs compose over concatenation.
pub proof fn lemma_stack_after_concat(a: Seq<XmlEvent>, b: Seq<XmlEvent>, st: Seq<Seq<char>>)
    ensures
        spec_stack_after(a + b, st) == (match spec_stack_after(a, st) {
            Some(m) => spec_stack_after(b, m),
            None => None::<Seq<Seq<char>>>,
        }),
    decreases a.len(),
{
    if a.len() == 0 {
        assert(a + b =~= b);
    } else {
        assert((a + b).len() > 0);
        assert((a + b).first() == a.first());
        assert((a + b).drop_first() =~= a.drop_first() + b);
        match a.first() {
            XmlEvent::StartTag { name, .. } => {
                lemma_stack_after_concat(a.drop_first(), b, st.push(name));
            },
            XmlEvent::EndTag { name } => {
                if st.len() > 0 && st.last() == name {
                    lemma_stack_after_concat(a.drop_first(), b, st.drop_last());
                }
            },
            _ => {
                lemma_stack_after_concat(a.drop_first(), b, st);
            },
        }
    }
}

// ---------------------------------------------------------------------------
// Executable building blocks
// ---------------------------------------------------------------------------

/// Append the characters of a string slice to a buffer.
fn append_str(buf: &mut Vec<char>, s: &str)
    ensures
        final(buf)@ == old(buf)@ + s@,
{
    let n = s.unicode_len();
    let mut i: usize = 0;
    while i < n
        invariant
            n == s@.len(),
            i <= n,
            buf@ == old(buf)@ + s@.subrange(0, i as int),
        decreases n - i,
    {
        buf.push(s.get_char(i));
        assert(buf@ =~= old(buf)@ + s@.subrange(0, i + 1));
        i = i + 1;
    }
    assert(buf@ =~= old(buf)@ + s@);
}

/// Append the indentation of one nesting level count.
fn push_indent(buf: &mut Vec<char>, d: usize)
    ensures
        final(buf)@ == old(buf)@ + spec_indent(d as nat),
{
    let mut j: usize = 0;
    while j < d
        invariant
            j <= d,
            buf@ == old(buf)@ + spec_indent(j as nat),
        decreases d - j,
    {
        buf.push(' ');
        buf.push(' ');
        assert(buf@ =~= old(buf)@ + spec_indent((j + 1) as nat));
        j = j + 1;
    }
}

/// Append the escaped form of a string slice.
fn push_escaped(buf: &mut Vec<char>, s: &str)
    ensures
        final(buf)@ == old(buf)@ + spec_escape(s@),
{
    let n = s.unicode_len();
    let mut i: usize = 0;
    while i < n
        invariant
            n == s@.len(),
            i <= n,
            buf@ == old(buf)@ + spec_escape_upto(s@, i as int),
        decreases n - i,
    {
        let c = s.get_char(i);
        if c == '&' {
            buf.push('&');
            buf.push('a');
            buf.push('m');
            buf.push('p');
            buf.push(';');
        } else if c == '<' {
            buf.push('&');
            buf.push('l');
            buf.push('t');
            buf.push(';');
        } else if c == '>' {
            buf.push('&');
            buf.push('g');
            buf.push('t');
            buf.push(';');
        } else if c == '\'' {
            buf.push('&');
            buf.push('a');
            buf.push('p');
            buf.push('o');
            buf.push('s');
            buf.push(';');
        } else if c == '"' {
            buf.push('&');
            buf.push('q');
            buf.push('u');
            buf.push('o');
            buf.push('t');
            buf.push(';');
        } else {
            buf.push(c);
        }
        assert(buf@ =~= old(buf)@ + spec_escape_upto(s@, i + 1));
        i = i + 1;
    }
}

/// Append the text of an attribute list.
fn push_attrs(buf: &mut Vec<char>, attrs: &Vec<(String, String)>)
    ensures
        final(buf)@ == old(buf)@ + spec_attrs_text(attrs_view(attrs@)),
{
    let n = attrs.len();
    let mut i: usize = 0;
    while i < n
        invariant
            n == attrs@.len(),
            i <= n,
            buf@ == old(buf)@ + spec_attrs_text_upto(attrs_view(attrs@), i as int),
        decreases n - i,
    {
        buf.push(' ');
        append_str(buf, attrs[i].0.as_str());
        buf.push('=');
        buf.push('"');
        push_escaped(buf, attrs[i].1.as_str());
        buf.push('"');
        assert(buf@ =~= old(buf)@ + spec_attrs_text_upto(attrs_view(attrs@), i + 1));
        i = i + 1;
    }
}

// ---------------------------------------------------------------------------
// The emitter
// ---------------------------------------------------------------------------

/// A stateful markup writer. Events go in through the `write_*` operations;
/// `finish` hands back the accumulated text, which is exactly the rendering
/// of the accepted event sequence. Nesting depth is tracked by counting
/// unmatched start tags.
pub struct XmlEmitter {
    buf: Vec<char>,
    depth: usize,
    wrote: bool,
    after_text: bool,
    events: Ghost<Seq<XmlEvent>>,
}

impl XmlEmitter {
    /// The events accepted so far.
    pub closed spec fn events(&self) -> Seq<XmlEvent> {
        self.events@
    }

    /// The internal buffer and counters agree with the event history.
    pub closed spec fn wf(&self) -> bool {
        &&& self.buf@ == spec_render(self.events@)
        &&& self.depth as nat == spec_depth(self.events@)
        &&& self.wrote == (self.events@.len() > 0)
        &&& self.after_text == (self.events@.len() > 0 && self.events@.last() is Text)
    }

    /// A fresh emitter with an empty buffer.
    pub fn new() -> (r: XmlEmitter)
        ensures
            r.wf(),
            r.events() == Seq::<XmlEvent>::empty(),
    {
        XmlEmitter {
            buf: Vec::new(),
            depth: 0,
            wrote: false,
            after_text: false,
            events: Ghost(Seq::empty()),
        }
    }

    /// Write the separator owed before a non-text event.
    fn sep_before(&mut self, is_end: bool)
        ensures
            final(self).buf@ == old(self).buf@ + (if old(self).wrote && !old(self).after_text {
                seq!['\n'] + spec_indent(
                    (if is_end {
                        if old(self).depth > 0 {
                            (old(self).depth - 1) as nat
                        } else {
                            0
                        }
                    } else {
                        old(self).depth as nat
                    }),
                )
            } else {
                Seq::<char>::empty()
            }),
            final(self).depth == old(self).depth,
            final(self).wrote == old(self).wrote,
            final(self).after_text == old(self).after_text,
            final(self).events == old(self).events,
    {
        if self.wrote && !self.after_text {
            self.buf.push('\n');
            let ind = if is_end {
                if self.depth > 0 {
                    self.depth - 1
                } else {
                    0
                }
            } else {
                self.depth
            };
            push_indent(&mut self.buf, ind);
        }
    }

    /// Emit an XML declaration.
    pub fn write_declaration(&mut self, xml_version: &str, encoding: Option<&str>)
        requires
            old(self).wf(),
        ensures
            final(self).wf(),
            final(self).events() == old(self).events().push(
                XmlEvent::Declaration {
                    version: xml_version@,
                    encoding: match encoding {
                        Some(enc) => Some(enc@),
                        None => None,
                    },
                },
            ),
    {
        let ghost e = XmlEvent::Declaration {
            version: xml_version@,
            encoding: match encoding {
                Some(enc) => Some(enc@),
                None => None,
            },
        };
        proof {
            lemma_render_push(self.events@, e);
        }
        self.sep_before(false);
        append_str(&mut self.buf, "<?xml version=\"");
        append_str(&mut self.buf, xml_version);
        append_str(&mut self.buf, "\"");
        if let Some(enc) = encoding {
            append_str(&mut self.buf, " encoding=\"");
            append_str(&mut self.buf, enc);
            append_str(&mut self.buf, "\"");
        }
        append_str(&mut self.buf, "?>");
        self.wrote = true;
        self.after_text = false;
        proof {
            self.events@ = self.events@.push(e);
        }
        assert(self.buf@ =~= spec_render(self.events@));
    }

    /// Emit a comment.
    pub fn write_comment(&mut self, text: &str)
        requires
            old(self).wf(),
        ensures
            final(self).wf(),
            final(self).events() == old(self).events().push(XmlEvent::Comment { text: text@ }),
    {
        let ghost e = XmlEvent::Comment { text: text@ };
        proof {
            lemma_render_push(self.events@, e);
        }
        self.sep_before(false);
        append_str(&mut self.buf, "<!--");
        push_escaped(&mut self.buf, text);
        append_str(&mut self.buf, "-->");
        self.wrote = true;
        self.after_text = false;
        proof {
            self.events@ = self.events@.push(e);
        }
        assert(self.buf@ =~= spec_render(self.events@));
    }

    /// Emit a start tag carrying an attribute list.
    pub fn write_start_tag(&mut self, name: &str, attrs: &Vec<(String, String)>)
        requires
            old(self).wf(),
        ensures
            final(self).wf(),
            final(self).events() == old(self).events().push(
                XmlEvent::StartTag { name: name@, attrs: attrs_view(attrs@) },
            ),
    {
        let ghost e = XmlEvent::StartTag { name: name@, attrs: attrs_view(attrs@) };
        proof {
            lemma_render_push(self.events@, e);
        }
        self.sep_before(false);
        append_str(&mut self.buf, "<");
        append_str(&mut self.buf, name);
        push_attrs(&mut self.buf, attrs);
        append_str(&mut self.buf, ">");
        self.depth = if self.depth < usize::MAX {
            self.depth + 1
        } else {
            self.depth
        };
        self.wrote = true;
        self.after_text = false;
        proof {
            self.events@ = self.events@.push(e);
        }
        assert(self.buf@ =~= spec_render(self.events@));
    }

    /// Emit a self-closing empty tag carrying an attribute list.
    pub fn write_empty_tag(&mut self, name: &str, attrs: &Vec<(String, String)>)
        requires
            old(self).wf(),
        ensures
            final(self).wf(),
            final(self).events() == old(self).events().push(
                XmlEvent::EmptyTag { name: name@, attrs: attrs_view(attrs@) },
            ),
    {
        let ghost e = XmlEvent::EmptyTag { name: name@, attrs: attrs_view(attrs@) };
        proof {
            lemma_render_push(self.events@, e);
        }
        self.sep_before(false);
        append_str(&mut self.buf, "<");
        append_str(&mut self.buf, name);
        push_attrs(&mut self.buf, attrs);
        append_str(&mut self.buf, "/>");
        self.wrote = true;
        self.after_text = false;
        proof {
            self.events@ = self.events@.push(e);
        }
        assert(self.buf@ =~= spec_render(self.events@));
    }

    /// Emit an end tag.
    pub fn write_end_tag(&mut self, name: &str)
        requires
            old(self).wf(),
        ensures
            final(self).wf(),
            final(self).events() == old(self).events().push(XmlEvent::EndTag { name: name@ }),
    {
        let ghost e = XmlEvent::EndTag { name: name@ };
        proof {
            lemma_render_push(self.events@, e);
        }
        self.sep_before(true);
        append_str(&mut self.buf, "</");
        append_str(&mut self.buf, name);
        append_str(&mut self.buf, ">");
        self.depth = if self.depth > 0 {
            self.depth - 1
        } else {
            0
        };
        self.wrote = true;
        self.after_text = false;
        proof {
            self.events@ = self.events@.push(e);
        }
        assert(self.buf@ =~= spec_render(self.events@));
    }

    /// Emit text content, escaped, inline after the preceding event.
    pub fn write_content(&mut self, content: &str)
        requires
            old(self).wf(),
        ensures
            final(self).wf(),
            final(self).events() == old(self).events().push(
                XmlEvent::Text { content: content@ },
            ),
    {
        let ghost e = XmlEvent::Text { content: content@ };
        proof {
            lemma_render_push(self.events@, e);
        }
        push_escaped(&mut self.buf, content);
        self.wrote = true;
        self.after_text = true;
        proof {
            self.events@ = self.events@.push(e);
        }
        assert(self.buf@ =~= spec_render(self.events@));
    }

    /// Drain the buffer as the final document text.
    pub fn finish(self) -> (r: String)
        requires
            self.wf(),
        ensures
            r@ == spec_render(self.events()),
    {
        chars_to_string(&self.buf)
    }
}

} // verus!
