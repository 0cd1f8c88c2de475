//! The stream header and its echoed response. The header renders as a lone
//! start tag — the stream root stays open for the connection's life — and
//! parsing looks only at the first start tag, ignoring whatever follows.

use vstd::prelude::*;
use vstd::string::*;
use crate::chars::str_eq;
use crate::codec::{attr_lookup, attr_lookup_exec, first_start};
use crate::error::{CodecError, SpecError};
use crate::events::{Attr, SpecAttr, SpecEvent, XmlEvent, events_view, write_events, write_events_spec};
use crate::reader::{read_events, read_events_spec};

verus! {

/// The opening stream header a client sends.
#[derive(Debug, PartialEq, Eq)]
pub struct StreamHeader {
    pub from: String,
    pub to: String,
    pub version: String,
    pub xml_lang: String,
    pub xmlns: String,
    pub xmlns_stream: String,
}

/// Mathematical model of a `StreamHeader`.
#[verifier::ext_equal]
pub struct SpecStreamHeader {
    pub from: Seq<char>,
    pub to: Seq<char>,
    pub version: Seq<char>,
    pub xml_lang: Seq<char>,
    pub xmlns: Seq<char>,
    pub xmlns_stream: Seq<char>,
}

impl View for StreamHeader {
    type V = SpecStreamHeader;

    open spec fn view(&self) -> SpecStreamHeader {
        SpecStreamHeader {
            from: self.from@,
            to: self.to@,
            version: self.version@,
            xml_lang: self.xml_lang@,
            xmlns: self.xmlns@,
            xmlns_stream: self.xmlns_stream@,
        }
    }
}

/// The header the server echoes back, with its assigned stream id.
#[derive(Debug, PartialEq, Eq)]
pub struct StreamHeaderResponse {
    pub id: String,
    pub from: String,
    pub to: String,
    pub version: String,
    pub xml_lang: String,
    pub xmlns: String,
    pub xmlns_stream: String,
}

/// Mathematical model of a `StreamHeaderResponse`.
#[verifier::ext_equal]
pub struct SpecStreamHeaderResponse {
    pub id: Seq<char>,
    pub from: Seq<char>,
    pub to: Seq<char>,
    pub version: Seq<char>,
    pub xml_lang: Seq<char>,
    pub xmlns: Seq<char>,
    pub xmlns_stream: Seq<char>,
}

impl View for StreamHeaderResponse {
    type V = SpecStreamHeaderResponse;

    open spec fn view(&self) -> SpecStreamHeaderResponse {
        SpecStreamHeaderResponse {
            id: self.id@,
            from: self.from@,
            to: self.to@,
            version: self.version@,
            xml_lang: self.xml_lang@,
            xmlns: self.xmlns@,
            xmlns_stream: self.xmlns_stream@,
        }
    }
}

/// The header's attributes, in their fixed wire order.
pub open spec fn header_attrs(h: SpecStreamHeader) -> Seq<SpecAttr> {
    seq![
        SpecAttr { key: "from"@, value: h.from },
        SpecAttr { key: "to"@, value: h.to },
        SpecAttr { key: "version"@, value: h.version },
        SpecAttr { key: "xml:lang"@, value: h.xml_lang },
        SpecAttr { key: "xmlns"@, value: h.xmlns },
        SpecAttr { key: "xmlns:stream"@, value: h.xmlns_stream },
    ]
}

/// A header renders as one start tag and nothing more.
pub open spec fn header_events(h: SpecStreamHeader) -> Seq<SpecEvent> {
    seq![SpecEvent::Start("stream:stream"@, header_attrs(h))]
}

pub open spec fn header_render(h: SpecStreamHeader) -> Seq<char> {
    write_events_spec(header_events(h))
}

/// The response's attributes: the id first, then the header's six.
pub open spec fn response_attrs(h: SpecStreamHeaderResponse) -> Seq<SpecAttr> {
    seq![
        SpecAttr { key: "id"@, value: h.id },
        SpecAttr { key: "from"@, value: h.from },
        SpecAttr { key: "to"@, value: h.to },
        SpecAttr { key: "version"@, value: h.version },
        SpecAttr { key: "xml:lang"@, value: h.xml_lang },
        SpecAttr { key: "xmlns"@, value: h.xmlns },
        SpecAttr { key: "xmlns:stream"@, value: h.xmlns_stream },
    ]
}

pub open spec fn response_events(h: SpecStreamHeaderResponse) -> Seq<SpecEvent> {
    seq![SpecEvent::Start("stream:stream"@, response_attrs(h))]
}

pub open spec fn response_render(h: SpecStreamHeaderResponse) -> Seq<char> {
    write_events_spec(response_events(h))
}

/// The header read off the first start tag's name and attributes: the root
/// must be `stream:stream`, and every field's attribute must be present.
pub open spec fn header_fields(name: Seq<char>, attrs: Seq<SpecAttr>) -> Result<
    SpecStreamHeader,
    SpecError,
> {
    if name != "stream:stream"@ {
        Err(SpecError::UnexpectedElement("stream:stream"@, name))
    } else {
        match attr_lookup(attrs, "from"@) {
            None => Err(SpecError::MissingAttribute("from"@)),
            Some(from) => match attr_lookup(attrs, "to"@) {
                None => Err(SpecError::MissingAttribute("to"@)),
                Some(to) => match attr_lookup(attrs, "version"@) {
                    None => Err(SpecError::MissingAttribute("version"@)),
                    Some(version) => match attr_lookup(attrs, "xml:lang"@) {
                        None => Err(SpecError::MissingAttribute("xml:lang"@)),
                        Some(xml_lang) => match attr_lookup(attrs, "xmlns"@) {
                            None => Err(SpecError::MissingAttribute("xmlns"@)),
                            Some(xmlns) => match attr_lookup(attrs, "xmlns:stream"@) {
                                None => Err(SpecError::MissingAttribute("xmlns:stream"@)),
                                Some(xmlns_stream) => Ok(
                                    SpecStreamHeader {
                                        from,
                                        to,
                                        version,
                                        xml_lang,
                                        xmlns,
                                        xmlns_stream,
                                    },
                                ),
                            },
                        },
                    },
                },
            },
        }
    }
}

/// As `header_fields`, with the mandatory id read first.
pub open spec fn response_fields(name: Seq<char>, attrs: Seq<SpecAttr>) -> Result<
    SpecStreamHeaderResponse,
    SpecError,
> {
    if name != "stream:stream"@ {
        Err(SpecError::UnexpectedElement("stream:stream"@, name))
    } else {
        match attr_lookup(attrs, "id"@) {
            None => Err(SpecError::MissingAttribute("id"@)),
            Some(id) => match header_fields(name, attrs) {
                Err(e) => Err(e),
                Ok(h) => Ok(
                    SpecStreamHeaderResponse {
                        id,
                        from: h.from,
                        to: h.to,
                        version: h.version,
                        xml_lang: h.xml_lang,
                        xmlns: h.xmlns,
                        xmlns_stream: h.xmlns_stream,
                    },
                ),
            },
        }
    }
}

/// What parsing a header from wire text yields: the first start tag decides
/// everything; with no start tag at all the first field is reported missing.
pub open spec fn header_parse(s: Seq<char>) -> Result<SpecStreamHeader, SpecError> {
    match read_events_spec(s) {
        None => Err(SpecError::ParseFailure),
        Some(evs) => match first_start(evs, 0) {
            None => Err(SpecError::MissingAttribute("from"@)),
            Some((n, a)) => header_fields(n, a),
        },
    }
}

pub open spec fn response_parse(s: Seq<char>) -> Result<SpecStreamHeaderResponse, SpecError> {
    match read_events_spec(s) {
        None => Err(SpecError::ParseFailure),
        Some(evs) => match first_start(evs, 0) {
            None => Err(SpecError::MissingAttribute("id"@)),
            Some((n, a)) => response_fields(n, a),
        },
    }
}

/// Index of the first start tag among the events.
fn first_start_exec(evs: &Vec<XmlEvent>) -> (r: Option<usize>)
    ensures
        match r {
            Some(k) => k < evs.len() && evs@[k as int] is Start && first_start(
                events_view(evs@),
                0,
            ) == Some((evs@[k as int]@->Start_0, evs@[k as int]@->Start_1)),
            None => first_start(events_view(evs@), 0) is None,
        },
{
    let n = evs.len();
    let mut i: usize = 0;
    while i < n
        invariant
            n == evs.len(),
            0 <= i <= n,
            first_start(events_view(evs@), 0) == first_start(events_view(evs@), i as int),
        decreases n - i,
    {
        match &evs[i] {
            XmlEvent::Start(_, _) => {
                proof {
                    assert(events_view(evs@)[i as int] == evs@[i as int]@);
                }
                return Some(i);
            },
            _ => {
                proof {
                    assert(events_view(evs@)[i as int] == evs@[i as int]@);
                }
            },
        }
        i = i + 1;
    }
    None
}

impl StreamHeader {
    /// Render the header as its open tag, never closed for the stream's life.
    pub fn into_string(&self) -> (r: String)
        ensures
            r@ == header_render(self@),
    {
        let mut attrs: Vec<Attr> = Vec::new();
        attrs.push(Attr { key: String::from_str("from"), value: self.from.clone() });
        attrs.push(Attr { key: String::from_str("to"), value: self.to.clone() });
        attrs.push(Attr { key: String::from_str("version"), value: self.version.clone() });
        attrs.push(Attr { key: String::from_str("xml:lang"), value: self.xml_lang.clone() });
        attrs.push(Attr { key: String::from_str("xmlns"), value: self.xmlns.clone() });
        attrs.push(Attr { key: String::from_str("xmlns:stream"), value: self.xmlns_stream.clone() });
        let mut evs: Vec<XmlEvent> = Vec::new();
        evs.push(XmlEvent::Start(String::from_str("stream:stream"), attrs));
        let out = write_events(&evs);
        proof {
            assert(events_view(evs@) =~~= header_events(self@));
        }
        out
    }

    /// Parse a header off the first start tag of the fragment.
    pub fn from_string(value: &str) -> (r: Result<StreamHeader, CodecError>)
        ensures
            match r {
                Ok(v) => header_parse(value@) == Ok::<SpecStreamHeader, SpecError>(v@),
                Err(e) => header_parse(value@) == Err::<SpecStreamHeader, SpecError>(e@),
            },
    {
        let evs = match read_events(value) {
            Err(e) => {
                return Err(e);
            },
            Ok(v) => v,
        };
        let k = match first_start_exec(&evs) {
            None => {
                return Err(CodecError::MissingAttribute(String::from_str("from")));
            },
            Some(k) => k,
        };
        match &evs[k] {
            XmlEvent::Start(name, attrs) => {
                if !str_eq(name.as_str(), "stream:stream") {
                    return Err(
                        CodecError::UnexpectedElement(
                            String::from_str("stream:stream"),
                            name.clone(),
                        ),
                    );
                }
                let from = match attr_lookup_exec(attrs, "from") {
                    None => {
                        return Err(CodecError::MissingAttribute(String::from_str("from")));
                    },
                    Some(v) => v,
                };
                let to = match attr_lookup_exec(attrs, "to") {
                    None => {
                        return Err(CodecError::MissingAttribute(String::from_str("to")));
                    },
                    Some(v) => v,
                };
                let version = match attr_lookup_exec(attrs, "version") {
                    None => {
                        return Err(CodecError::MissingAttribute(String::from_str("version")));
                    },
                    Some(v) => v,
                };
                let xml_lang = match attr_lookup_exec(attrs, "xml:lang") {
                    None => {
                        return Err(CodecError::MissingAttribute(String::from_str("xml:lang")));
                    },
                    Some(v) => v,
                };
                let xmlns = match attr_lookup_exec(attrs, "xmlns") {
                    None => {
                        return Err(CodecError::MissingAttribute(String::from_str("xmlns")));
                    },
                    Some(v) => v,
                };
                let xmlns_stream = match attr_lookup_exec(attrs, "xmlns:stream") {
                    None => {
                        return Err(CodecError::MissingAttribute(String::from_str("xmlns:stream")));
                    },
                    Some(v) => v,
                };
                Ok(StreamHeader { from, to, version, xml_lang, xmlns, xmlns_stream })
            },
            _ => {
                proof {
                    assert(false);
                }
                Err(CodecError::ParseFailure)
            },
        }
    }

    /// Turn the header into the response the server echoes, adding its id.
    pub fn into_response(self, id: String) -> (r: StreamHeaderResponse)
        ensures
            r@ == (SpecStreamHeaderResponse {
                id: id@,
                from: self.from@,
                to: self.to@,
                version: self.version@,
                xml_lang: self.xml_lang@,
                xmlns: self.xmlns@,
                xmlns_stream: self.xmlns_stream@,
            }),
    {
        StreamHeaderResponse {
            id,
            from: self.from,
            to: self.to,
            version: self.version,
            xml_lang: self.xml_lang,
            xmlns: self.xmlns,
            xmlns_stream: self.xmlns_stream,
        }
    }
}

impl StreamHeaderResponse {
    /// Render the response header as its open tag.
    pub fn into_string(&self) -> (r: String)
        ensures
            r@ == response_render(self@),
    {
        let mut attrs: Vec<Attr> = Vec::new();
        attrs.push(Attr { key: String::from_str("id"), value: self.id.clone() });
        attrs.push(Attr { key: String::from_str("from"), value: self.from.clone() });
        attrs.push(Attr { key: String::from_str("to"), value: self.to.clone() });
        attrs.push(Attr { key: String::from_str("version"), value: self.version.clone() });
        attrs.push(Attr { key: String::from_str("xml:lang"), value: self.xml_lang.clone() });
        attrs.push(Attr { key: String::from_str("xmlns"), value: self.xmlns.clone() });
        attrs.push(Attr { key: String::from_str("xmlns:stream"), value: self.xmlns_stream.clone() });
        let mut evs: Vec<XmlEvent> = Vec::new();
        evs.push(XmlEvent::Start(String::from_str("stream:stream"), attrs));
        let out = write_events(&evs);
        proof {
            assert(events_view(evs@) =~~= response_events(self@));
        }
        out
    }

    /// Parse a response header off the first start tag of the fragment.
    pub fn from_string(value: &str) -> (r: Result<StreamHeaderResponse, CodecError>)
        ensures
            match r {
                Ok(v) => response_parse(value@) == Ok::<SpecStreamHeaderResponse, SpecError>(v@),
                Err(e) => response_parse(value@) == Err::<SpecStreamHeaderResponse, SpecError>(e@),
            },
    {
        let evs = match read_events(value) {
            Err(e) => {
                return Err(e);
            },
            Ok(v) => v,
        };
        let k = match first_start_exec(&evs) {
            None => {
                return Err(CodecError::MissingAttribute(String::from_str("id")));
            },
            Some(k) => k,
        };
        match &evs[k] {
            XmlEvent::Start(name, attrs) => {
                if !str_eq(name.as_str(), "stream:stream") {
                    return Err(
                        CodecError::UnexpectedElement(
                            String::from_str("stream:stream"),
                            name.clone(),
                        ),
                    );
                }
                let id = match attr_lookup_exec(attrs, "id") {
                    None => {
                        return Err(CodecError::MissingAttribute(String::from_str("id")));
                    },
                    Some(v) => v,
                };
                let from = match attr_lookup_exec(attrs, "from") {
                    None => {
                        return Err(CodecError::MissingAttribute(String::from_str("from")));
                    },
                    Some(v) => v,
                };
                let to = match attr_lookup_exec(attrs, "to") {
                    None => {
                        return Err(CodecError::MissingAttribute(String::from_str("to")));
                    },
                    Some(v) => v,
                };
                let version = match attr_lookup_exec(attrs, "version") {
                    None => {
                        return Err(CodecError::MissingAttribute(String::from_str("version")));
                    },
                    Some(v) => v,
                };
                let xml_lang = match attr_lookup_exec(attrs, "xml:lang") {
                    None => {
                        return Err(CodecError::MissingAttribute(String::from_str("xml:lang")));
                    },
                    Some(v) => v,
                };
                let xmlns = match attr_lookup_exec(attrs, "xmlns") {
                    None => {
                        return Err(CodecError::MissingAttribute(String::from_str("xmlns")));
                    },
                    Some(v) => v,
                };
                let xmlns_stream = match attr_lookup_exec(attrs, "xmlns:stream") {
                    None => {
                        return Err(CodecError::MissingAttribute(String::from_str("xmlns:stream")));
                    },
                    Some(v) => v,
                };
                Ok(StreamHeaderResponse { id, from, to, version, xml_lang, xmlns, xmlns_stream })
            },
            _ => {
                proof {
                    assert(false);
                }
                Err(CodecError::ParseFailure)
            },
        }
    }
}

} // verus!
