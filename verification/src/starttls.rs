//! The starttls negotiation: the upgrade request and the server's reply.
//! A required upgrade renders a nested empty `required` child; an optional
//! one renders self-closing. The reply is one empty `proceed` or `failure`
//! element.

use vstd::prelude::*;
use vstd::string::*;
use crate::chars::str_eq;
use crate::codec::{attr_lookup, attr_lookup_exec};
use crate::error::{CodecError, SpecError};
use crate::events::{Attr, SpecEvent, XmlEvent, events_view, write_events, write_events_spec};
use crate::reader::{read_events, read_events_spec};

verus! {

/// The request to upgrade the transport to an encrypted one.
#[derive(Debug, PartialEq, Eq)]
pub struct StartTls {
    pub xmlns: String,
    pub required: bool,
}

/// Mathematical model of a `StartTls`.
#[verifier::ext_equal]
pub struct SpecStartTls {
    pub xmlns: Seq<char>,
    pub required: bool,
}

impl View for StartTls {
    type V = SpecStartTls;

    open spec fn view(&self) -> SpecStartTls {
        SpecStartTls { xmlns: self.xmlns@, required: self.required }
    }
}

/// The events a starttls request renders as.
pub open spec fn starttls_events(v: SpecStartTls) -> Seq<SpecEvent> {
    let attrs = seq![crate::events::SpecAttr { key: "xmlns"@, value: v.xmlns }];
    if v.required {
        seq![
            SpecEvent::Start("starttls"@, attrs),
            SpecEvent::Empty("required"@, Seq::empty()),
            SpecEvent::End("starttls"@),
        ]
    } else {
        seq![SpecEvent::Empty("starttls"@, attrs)]
    }
}

pub open spec fn starttls_render(v: SpecStartTls) -> Seq<char> {
    write_events_spec(starttls_events(v))
}

/// Scan the events nested in a starttls element: an empty `required` child
/// sets the flag, the first end tag closes the element, and running out of
/// events is an incomplete fragment.
pub open spec fn scan_required(evs: Seq<SpecEvent>, i: int, req: bool) -> Option<(bool, int)>
    decreases evs.len() - i,
{
    if i < 0 || i >= evs.len() {
        None
    } else {
        match evs[i] {
            SpecEvent::End(_) => Some((req, i + 1)),
            SpecEvent::Empty(n, _) => scan_required(evs, i + 1, req || n == "required"@),
            _ => scan_required(evs, i + 1, req),
        }
    }
}

pub proof fn lemma_scan_required_bounds(evs: Seq<SpecEvent>, i: int, req: bool)
    requires
        0 <= i,
    ensures
        match scan_required(evs, i, req) {
            Some((b, ni)) => i < ni <= evs.len(),
            None => true,
        },
    decreases evs.len() - i,
{
    if 0 <= i < evs.len() {
        match evs[i] {
            SpecEvent::End(_) => {},
            SpecEvent::Empty(n, _) => {
                lemma_scan_required_bounds(evs, i + 1, req || n == "required"@);
            },
            _ => {
                lemma_scan_required_bounds(evs, i + 1, req);
            },
        }
    }
}

/// What a standalone starttls parse yields: the first empty or start tag
/// decides; nothing recognizable before the input ends is a parse failure.
pub open spec fn starttls_from_events(evs: Seq<SpecEvent>, i: int) -> Result<
    SpecStartTls,
    SpecError,
>
    decreases evs.len() - i,
{
    if i < 0 || i >= evs.len() {
        Err(SpecError::ParseFailure)
    } else {
        match evs[i] {
            SpecEvent::Empty(n, attrs) => match attr_lookup(attrs, "xmlns"@) {
                None => Err(SpecError::MissingAttribute("xmlns"@)),
                Some(x) => Ok(SpecStartTls { xmlns: x, required: false }),
            },
            SpecEvent::Start(n, attrs) => match attr_lookup(attrs, "xmlns"@) {
                None => Err(SpecError::MissingAttribute("xmlns"@)),
                Some(x) => match scan_required(evs, i + 1, false) {
                    None => Err(SpecError::ParseFailure),
                    Some((req, ni)) => Ok(SpecStartTls { xmlns: x, required: req }),
                },
            },
            _ => starttls_from_events(evs, i + 1),
        }
    }
}

pub open spec fn starttls_parse(s: Seq<char>) -> Result<SpecStartTls, SpecError> {
    match read_events_spec(s) {
        None => Err(SpecError::ParseFailure),
        Some(evs) => starttls_from_events(evs, 0),
    }
}

/// Append the events of a starttls request.
pub fn push_starttls_events(evs: &mut Vec<XmlEvent>, v: &StartTls)
    ensures
        events_view(final(evs)@) == events_view(old(evs)@) + starttls_events(v@),
{
    let mut attrs: Vec<Attr> = Vec::new();
    attrs.push(Attr { key: String::from_str("xmlns"), value: v.xmlns.clone() });
    if v.required {
        evs.push(XmlEvent::Start(String::from_str("starttls"), attrs));
        evs.push(XmlEvent::Empty(String::from_str("required"), Vec::new()));
        evs.push(XmlEvent::End(String::from_str("starttls")));
    } else {
        evs.push(XmlEvent::Empty(String::from_str("starttls"), attrs));
    }
    proof {
        assert(events_view(evs@) =~~= events_view(old(evs)@) + starttls_events(v@));
    }
}

/// Scan the events nested in a starttls element for `required`.
pub fn scan_required_exec(evs: &Vec<XmlEvent>, i: usize, req: bool) -> (r: Option<(bool, usize)>)
    ensures
        match r {
            Some((b, ni)) => scan_required(events_view(evs@), i as int, req) == Some((b, ni as int))
                && i < ni <= evs.len(),
            None => scan_required(events_view(evs@), i as int, req) is None,
        },
    decreases evs.len() - i,
{
    if i >= evs.len() {
        return None;
    }
    proof {
        assert(events_view(evs@)[i as int] == evs@[i as int]@);
    }
    match &evs[i] {
        XmlEvent::End(_) => Some((req, i + 1)),
        XmlEvent::Empty(n, _) => {
            let r2 = req || str_eq(n.as_str(), "required");
            scan_required_exec(evs, i + 1, r2)
        },
        _ => scan_required_exec(evs, i + 1, req),
    }
}

impl StartTls {
    /// Render the request: with a `required` child where the upgrade is
    /// mandatory, self-closing where it is optional.
    pub fn into_string(&self) -> (r: String)
        ensures
            r@ == starttls_render(self@),
    {
        let mut evs: Vec<XmlEvent> = Vec::new();
        push_starttls_events(&mut evs, self);
        let out = write_events(&evs);
        proof {
            assert(events_view(evs@) =~= starttls_events(self@));
        }
        out
    }

    /// Parse a standalone starttls fragment off its first empty or start tag.
    pub fn from_string(value: &str) -> (r: Result<StartTls, CodecError>)
        ensures
            match r {
                Ok(v) => starttls_parse(value@) == Ok::<SpecStartTls, SpecError>(v@),
                Err(e) => starttls_parse(value@) == Err::<SpecStartTls, SpecError>(e@),
            },
    {
        let evs = match read_events(value) {
            Err(_) => {
                return Err(CodecError::ParseFailure);
            },
            Ok(v) => v,
        };
        Self::from_events(&evs, 0)
    }

    fn from_events(evs: &Vec<XmlEvent>, i: usize) -> (r: Result<StartTls, CodecError>)
        ensures
            match r {
                Ok(v) => starttls_from_events(events_view(evs@), i as int) == Ok::<
                    SpecStartTls,
                    SpecError,
                >(v@),
                Err(e) => starttls_from_events(events_view(evs@), i as int) == Err::<
                    SpecStartTls,
                    SpecError,
                >(e@),
            },
        decreases evs.len() - i,
    {
        if i >= evs.len() {
            return Err(CodecError::ParseFailure);
        }
        proof {
            assert(events_view(evs@)[i as int] == evs@[i as int]@);
        }
        match &evs[i] {
            XmlEvent::Empty(_, attrs) => {
                match attr_lookup_exec(attrs, "xmlns") {
                    None => Err(CodecError::MissingAttribute(String::from_str("xmlns"))),
                    Some(x) => Ok(StartTls { xmlns: x, required: false }),
                }
            },
            XmlEvent::Start(_, attrs) => {
                match attr_lookup_exec(attrs, "xmlns") {
                    None => Err(CodecError::MissingAttribute(String::from_str("xmlns"))),
                    Some(x) => match scan_required_exec(evs, i + 1, false) {
                        None => Err(CodecError::ParseFailure),
                        Some((req, _)) => Ok(StartTls { xmlns: x, required: req }),
                    },
                }
            },
            _ => Self::from_events(evs, i + 1),
        }
    }
}

/// The server's reply to a starttls request.
#[derive(Debug, PartialEq, Eq)]
pub enum StartTlsResponse {
    Proceed(StartTlsProceed),
    Failure(StartTlsFailure),
}

/// The affirmative reply, an empty `proceed` element.
#[derive(Debug, PartialEq, Eq)]
pub struct StartTlsProceed();

/// The negative reply, an empty `failure` element.
#[derive(Debug, PartialEq, Eq)]
pub struct StartTlsFailure();

/// Mathematical model of a `StartTlsResponse`.
pub enum SpecStartTlsResponse {
    Proceed,
    Failure,
}

impl View for StartTlsResponse {
    type V = SpecStartTlsResponse;

    open spec fn view(&self) -> SpecStartTlsResponse {
        match self {
            StartTlsResponse::Proceed(_) => SpecStartTlsResponse::Proceed,
            StartTlsResponse::Failure(_) => SpecStartTlsResponse::Failure,
        }
    }
}

pub open spec fn proceed_render() -> Seq<char> {
    write_events_spec(seq![SpecEvent::Empty("proceed"@, Seq::empty())])
}

pub open spec fn failure_render() -> Seq<char> {
    write_events_spec(seq![SpecEvent::Empty("failure"@, Seq::empty())])
}

/// What the reply parse yields: exactly the first event decides, and it
/// must be an empty `proceed` or `failure`.
pub open spec fn starttls_response_parse(s: Seq<char>) -> Result<SpecStartTlsResponse, SpecError> {
    match read_events_spec(s) {
        None => Err(SpecError::InvalidResponse),
        Some(evs) => if evs.len() == 0 {
            Err(SpecError::InvalidResponse)
        } else {
            match evs[0] {
                SpecEvent::Empty(n, _) => if n == "proceed"@ {
                    Ok(SpecStartTlsResponse::Proceed)
                } else if n == "failure"@ {
                    Ok(SpecStartTlsResponse::Failure)
                } else {
                    Err(SpecError::InvalidResponse)
                },
                _ => Err(SpecError::InvalidResponse),
            }
        },
    }
}

impl StartTlsResponse {
    /// Parse the reply off the first event of the fragment.
    pub fn from_string(value: &str) -> (r: Result<StartTlsResponse, CodecError>)
        ensures
            match r {
                Ok(v) => starttls_response_parse(value@) == Ok::<
                    SpecStartTlsResponse,
                    SpecError,
                >(v@),
                Err(e) => starttls_response_parse(value@) == Err::<
                    SpecStartTlsResponse,
                    SpecError,
                >(e@),
            },
    {
        let evs = match read_events(value) {
            Err(_) => {
                return Err(CodecError::InvalidResponse);
            },
            Ok(v) => v,
        };
        if evs.len() == 0 {
            return Err(CodecError::InvalidResponse);
        }
        proof {
            assert(events_view(evs@)[0] == evs@[0]@);
        }
        match &evs[0] {
            XmlEvent::Empty(n, _) => {
                if str_eq(n.as_str(), "proceed") {
                    Ok(StartTlsResponse::Proceed(StartTlsProceed()))
                } else if str_eq(n.as_str(), "failure") {
                    Ok(StartTlsResponse::Failure(StartTlsFailure()))
                } else {
                    Err(CodecError::InvalidResponse)
                }
            },
            _ => Err(CodecError::InvalidResponse),
        }
    }
}

impl StartTlsProceed {
    /// Render the affirmative reply.
    pub fn into_string(&self) -> (r: String)
        ensures
            r@ == proceed_render(),
    {
        let mut evs: Vec<XmlEvent> = Vec::new();
        evs.push(XmlEvent::Empty(String::from_str("proceed"), Vec::new()));
        let out = write_events(&evs);
        proof {
            assert(events_view(evs@) =~~= seq![SpecEvent::Empty("proceed"@, Seq::empty())]);
        }
        out
    }
}

impl StartTlsFailure {
    /// Render the negative reply.
    pub fn into_string(&self) -> (r: String)
        ensures
            r@ == failure_render(),
    {
        let mut evs: Vec<XmlEvent> = Vec::new();
        evs.push(XmlEvent::Empty(String::from_str("failure"), Vec::new()));
        let out = write_events(&evs);
        proof {
            assert(events_view(evs@) =~~= seq![SpecEvent::Empty("failure"@, Seq::empty())]);
        }
        out
    }
}

} // verus!
