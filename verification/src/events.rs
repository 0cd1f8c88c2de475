//! The streaming-XML event model: the event kinds the codec reads and
//! writes, and the writer that turns a sequence of events into wire text.

use vstd::prelude::*;
use vstd::string::*;
use crate::chars::{clean, escape, escape_seq, name_ok};

verus! {

/// One attribute of a start or empty tag.
pub struct Attr {
    pub key: String,
    pub value: String,
}

/// One event of the wire stream, as the codec's reader and writer see it.
/// End-of-input is the end of the event sequence, not an event of its own.
pub enum XmlEvent {
    Start(String, Vec<Attr>),
    Empty(String, Vec<Attr>),
    End(String),
    Text(String),
}

/// Mathematical model of an attribute.
#[verifier::ext_equal]
pub struct SpecAttr {
    pub key: Seq<char>,
    pub value: Seq<char>,
}

/// Mathematical model of an event.
#[verifier::ext_equal]
pub enum SpecEvent {
    Start(Seq<char>, Seq<SpecAttr>),
    Empty(Seq<char>, Seq<SpecAttr>),
    End(Seq<char>),
    Text(Seq<char>),
}

impl View for Attr {
    type V = SpecAttr;

    open spec fn view(&self) -> SpecAttr {
        SpecAttr { key: self.key@, value: self.value@ }
    }
}

pub open spec fn attrs_view(v: Seq<Attr>) -> Seq<SpecAttr> {
    v.map_values(|a: Attr| a@)
}

impl View for XmlEvent {
    type V = SpecEvent;

    open spec fn view(&self) -> SpecEvent {
        match self {
            XmlEvent::Start(n, attrs) => SpecEvent::Start(n@, attrs_view(attrs@)),
            XmlEvent::Empty(n, attrs) => SpecEvent::Empty(n@, attrs_view(attrs@)),
            XmlEvent::End(n) => SpecEvent::End(n@),
            XmlEvent::Text(t) => SpecEvent::Text(t@),
        }
    }
}

pub open spec fn events_view(v: Seq<XmlEvent>) -> Seq<SpecEvent> {
    v.map_values(|e: XmlEvent| e@)
}

/// An attribute the writer can print so that the reader recovers it.
pub open spec fn wf_attr(a: SpecAttr) -> bool {
    name_ok(a.key) && clean(a.value)
}

pub open spec fn wf_attrs(attrs: Seq<SpecAttr>) -> bool {
    forall|i: int| 0 <= i < attrs.len() ==> #[trigger] wf_attr(attrs[i])
}

/// An event the writer can print so that the reader recovers it.
pub open spec fn wf_event(e: SpecEvent) -> bool {
    match e {
        SpecEvent::Start(n, attrs) => name_ok(n) && wf_attrs(attrs),
        SpecEvent::Empty(n, attrs) => name_ok(n) && wf_attrs(attrs),
        SpecEvent::End(n) => name_ok(n),
        SpecEvent::Text(t) => t.len() > 0 && clean(t),
    }
}

/// Well-formed event tail: every event from `i` on is well formed, and no
/// two text events stand side by side (the reader would merge them).
pub open spec fn wf_events_from(evs: Seq<SpecEvent>, i: int) -> bool {
    &&& forall|k: int| i <= k < evs.len() ==> #[trigger] wf_event(evs[k])
    &&& forall|k: int|
        i <= k < evs.len() - 1 ==> !((#[trigger] evs[k]) is Text && evs[k + 1] is Text)
}

pub open spec fn wf_events(evs: Seq<SpecEvent>) -> bool {
    wf_events_from(evs, 0)
}

/// Wire text of one attribute: a space, the key, `="`, the escaped value, `"`.
pub open spec fn attr_chars(a: SpecAttr) -> Seq<char> {
    seq![' '] + a.key + seq!['=', '"'] + escape_seq(a.value) + seq!['"']
}

/// Wire text of the attributes from index `i` on.
pub open spec fn attrs_chars_from(attrs: Seq<SpecAttr>, i: int) -> Seq<char>
    decreases attrs.len() - i,
{
    if i < 0 || i >= attrs.len() {
        Seq::empty()
    } else {
        attr_chars(attrs[i]) + attrs_chars_from(attrs, i + 1)
    }
}

/// Wire text of one event.
pub open spec fn event_chars(e: SpecEvent) -> Seq<char> {
    match e {
        SpecEvent::Start(n, attrs) => seq!['<'] + n + attrs_chars_from(attrs, 0) + seq!['>'],
        SpecEvent::Empty(n, attrs) => seq!['<'] + n + attrs_chars_from(attrs, 0) + seq!['/', '>'],
        SpecEvent::End(n) => seq!['<', '/'] + n + seq!['>'],
        SpecEvent::Text(t) => escape_seq(t),
    }
}

/// Wire text of the events from index `i` on.
pub open spec fn write_from(evs: Seq<SpecEvent>, i: int) -> Seq<char>
    decreases evs.len() - i,
{
    if i < 0 || i >= evs.len() {
        Seq::empty()
    } else {
        event_chars(evs[i]) + write_from(evs, i + 1)
    }
}

/// Wire text of a whole event sequence.
pub open spec fn write_events_spec(evs: Seq<SpecEvent>) -> Seq<char> {
    write_from(evs, 0)
}

fn write_attrs(out: &mut String, attrs: &Vec<Attr>)
    ensures
        final(out)@ == old(out)@ + attrs_chars_from(attrs_view(attrs@), 0),
{
    let n = attrs.len();
    let mut i: usize = 0;
    while i < n
        invariant
            n == attrs.len(),
            0 <= i <= n,
            old(out)@ + attrs_chars_from(attrs_view(attrs@), 0) == out@ + attrs_chars_from(
                attrs_view(attrs@),
                i as int,
            ),
        decreases n - i,
    {
        let a = &attrs[i];
        out.append(" ");
        out.append(a.key.as_str());
        out.append("=\"");
        let v = escape(a.value.as_str());
        out.append(v.as_str());
        out.append("\"");
        proof {
            reveal_strlit(" ");
            reveal_strlit("=\"");
            reveal_strlit("\"");
            let sa = attrs_view(attrs@);
            assert(sa[i as int] == attrs[i as int]@);
            assert(attrs_chars_from(sa, i as int) == attr_chars(sa[i as int]) + attrs_chars_from(
                sa,
                i + 1,
            ));
            assert(old(out)@ + attrs_chars_from(sa, 0) =~= out@ + attrs_chars_from(sa, i + 1));
        }
        i = i + 1;
    }
}

fn write_event(out: &mut String, e: &XmlEvent)
    ensures
        final(out)@ == old(out)@ + event_chars(e@),
{
    match e {
        XmlEvent::Start(name, attrs) => {
            out.append("<");
            out.append(name.as_str());
            write_attrs(out, attrs);
            out.append(">");
            proof {
                reveal_strlit("<");
                reveal_strlit(">");
                assert(out@ =~= old(out)@ + event_chars(e@));
            }
        },
        XmlEvent::Empty(name, attrs) => {
            out.append("<");
            out.append(name.as_str());
            write_attrs(out, attrs);
            out.append("/>");
            proof {
                reveal_strlit("<");
                reveal_strlit("/>");
                assert(out@ =~= old(out)@ + event_chars(e@));
            }
        },
        XmlEvent::End(name) => {
            out.append("</");
            out.append(name.as_str());
            out.append(">");
            proof {
                reveal_strlit("</");
                reveal_strlit(">");
                assert(out@ =~= old(out)@ + event_chars(e@));
            }
        },
        XmlEvent::Text(t) => {
            let esc = escape(t.as_str());
            out.append(esc.as_str());
        },
    }
}

/// Render a sequence of events as wire text.
pub fn write_events(evs: &Vec<XmlEvent>) -> (r: String)
    ensures
        r@ == write_events_spec(events_view(evs@)),
{
    let n = evs.len();
    let mut out = String::new();
    let mut i: usize = 0;
    while i < n
        invariant
            n == evs.len(),
            0 <= i <= n,
            write_from(events_view(evs@), 0) == out@ + write_from(events_view(evs@), i as int),
        decreases n - i,
    {
        write_event(&mut out, &evs[i]);
        proof {
            let se = events_view(evs@);
            assert(se[i as int] == evs[i as int]@);
            assert(write_from(se, i as int) == event_chars(se[i as int]) + write_from(se, i + 1));
            assert(write_from(se, 0) =~= out@ + write_from(se, i + 1));
        }
        i = i + 1;
    }
    proof {
        assert(write_events_spec(events_view(evs@)) =~= out@);
    }
    out
}

} // verus!
