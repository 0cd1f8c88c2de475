//! The server's capability advertisement: an optional starttls child and an
//! optional mechanisms child. With both absent the element collapses to one
//! self-closing tag. Parsing runs a small state machine: children may stand
//! only after the features root has opened, and starttls may appear once.

use vstd::prelude::*;
use vstd::string::*;
use crate::chars::str_eq;
use crate::codec::{attr_lookup, attr_lookup_exec};
use crate::error::{CodecError, SpecError};
use crate::events::{SpecAttr, SpecEvent, XmlEvent, events_view, write_events, write_events_spec};
use crate::mechanisms::{
    Mechanism, Mechanisms, SpecMechanisms, lemma_scan_mechs_bounds, mech_events, mechs_view,
    push_mech_events, scan_mechs, scan_mechs_exec,
};
use crate::reader::{read_events, read_events_spec};
use crate::starttls::{
    SpecStartTls, StartTls, lemma_scan_required_bounds, push_starttls_events, scan_required,
    scan_required_exec, starttls_events,
};

verus! {

/// The feature advertisement, with zero, one or both children.
#[derive(Debug, PartialEq, Eq)]
pub struct StreamFeatures {
    pub start_tls: Option<StartTls>,
    pub mechanisms: Option<Mechanisms>,
}

/// Mathematical model of a `StreamFeatures`.
#[verifier::ext_equal]
pub struct SpecStreamFeatures {
    pub start_tls: Option<SpecStartTls>,
    pub mechanisms: Option<SpecMechanisms>,
}

pub open spec fn st_opt_view(o: Option<StartTls>) -> Option<SpecStartTls> {
    match o {
        Some(v) => Some(v@),
        None => None,
    }
}

pub open spec fn mech_opt_view(o: Option<Mechanisms>) -> Option<SpecMechanisms> {
    match o {
        Some(v) => Some(v@),
        None => None,
    }
}

impl View for StreamFeatures {
    type V = SpecStreamFeatures;

    open spec fn view(&self) -> SpecStreamFeatures {
        SpecStreamFeatures {
            start_tls: st_opt_view(self.start_tls),
            mechanisms: mech_opt_view(self.mechanisms),
        }
    }
}

/// The events an advertisement renders as: one self-closing tag when empty,
/// else the open tag, the children present, and the close tag.
pub open spec fn features_events(f: SpecStreamFeatures) -> Seq<SpecEvent> {
    if f.start_tls is None && f.mechanisms is None {
        seq![SpecEvent::Empty("stream:features"@, Seq::empty())]
    } else {
        seq![SpecEvent::Start("stream:features"@, Seq::empty())] + (match f.start_tls {
            Some(v) => starttls_events(v),
            None => Seq::empty(),
        }) + (match f.mechanisms {
            Some(m) => mech_events(m),
            None => Seq::empty(),
        }) + seq![SpecEvent::End("stream:features"@)]
    }
}

pub open spec fn features_render(f: SpecStreamFeatures) -> Seq<char> {
    write_events_spec(features_events(f))
}

/// The parse state machine, one event at a time. `hf` records that the
/// features root has opened; `st` and `mech` hold the children seen so far.
/// The input's end yields whatever was accumulated — an absent child is not
/// distinguished from an empty advertisement.
pub open spec fn features_from_events(
    evs: Seq<SpecEvent>,
    i: int,
    hf: bool,
    st: Option<SpecStartTls>,
    mech: Option<SpecMechanisms>,
) -> Result<SpecStreamFeatures, SpecError>
    decreases evs.len() - i,
    via features_from_events_dec
{
    if i < 0 || i >= evs.len() {
        Ok(SpecStreamFeatures { start_tls: st, mechanisms: mech })
    } else {
        match evs[i] {
            SpecEvent::Empty(n, attrs) => if n == "starttls"@ {
                if !hf {
                    Err(SpecError::SequencingError("starttls"@))
                } else if st is Some {
                    Err(SpecError::DuplicateElement("starttls"@))
                } else {
                    match attr_lookup(attrs, "xmlns"@) {
                        None => Err(SpecError::MissingAttribute("xmlns"@)),
                        Some(x) => features_from_events(
                            evs,
                            i + 1,
                            hf,
                            Some(SpecStartTls { xmlns: x, required: false }),
                            mech,
                        ),
                    }
                }
            } else {
                features_from_events(evs, i + 1, hf, st, mech)
            },
            SpecEvent::Start(n, attrs) => if n == "stream:features"@ {
                features_from_events(evs, i + 1, true, st, mech)
            } else if n == "starttls"@ {
                if !hf {
                    Err(SpecError::SequencingError("starttls"@))
                } else if st is Some {
                    Err(SpecError::DuplicateElement("starttls"@))
                } else {
                    match attr_lookup(attrs, "xmlns"@) {
                        None => Err(SpecError::MissingAttribute("xmlns"@)),
                        Some(x) => match scan_required(evs, i + 1, false) {
                            None => Err(SpecError::ParseFailure),
                            Some((req, ni)) => features_from_events(
                                evs,
                                ni,
                                hf,
                                Some(SpecStartTls { xmlns: x, required: req }),
                                mech,
                            ),
                        },
                    }
                }
            } else if n == "mechanisms"@ {
                if !hf {
                    Err(SpecError::SequencingError("mechanisms"@))
                } else {
                    match attr_lookup(attrs, "xmlns"@) {
                        None => Err(SpecError::MissingAttribute("xmlns"@)),
                        Some(x) => match scan_mechs(evs, i + 1, Seq::empty()) {
                            None => Err(SpecError::ParseFailure),
                            Some((names, ni)) => features_from_events(
                                evs,
                                ni,
                                hf,
                                st,
                                Some(SpecMechanisms { xmlns: x, mechanisms: names }),
                            ),
                        },
                    }
                }
            } else {
                features_from_events(evs, i + 1, hf, st, mech)
            },
            _ => features_from_events(evs, i + 1, hf, st, mech),
        }
    }
}

#[via_fn]
proof fn features_from_events_dec(
    evs: Seq<SpecEvent>,
    i: int,
    hf: bool,
    st: Option<SpecStartTls>,
    mech: Option<SpecMechanisms>,
) {
    if 0 <= i < evs.len() {
        lemma_scan_required_bounds(evs, i + 1, false);
        lemma_scan_mechs_bounds(evs, i + 1, Seq::empty());
    }
}

/// What parsing an advertisement from wire text yields.
pub open spec fn features_parse(s: Seq<char>) -> Result<SpecStreamFeatures, SpecError> {
    match read_events_spec(s) {
        None => Err(SpecError::ParseFailure),
        Some(evs) => features_from_events(evs, 0, false, None, None),
    }
}

fn features_step(
    evs: &Vec<XmlEvent>,
    i: usize,
    hf: bool,
    st: Option<StartTls>,
    mech: Option<Mechanisms>,
) -> (r: Result<StreamFeatures, CodecError>)
    ensures
        match r {
            Ok(v) => features_from_events(
                events_view(evs@),
                i as int,
                hf,
                st_opt_view(st),
                mech_opt_view(mech),
            ) == Ok::<SpecStreamFeatures, SpecError>(v@),
            Err(e) => features_from_events(
                events_view(evs@),
                i as int,
                hf,
                st_opt_view(st),
                mech_opt_view(mech),
            ) == Err::<SpecStreamFeatures, SpecError>(e@),
        },
    decreases evs.len() - i,
{
    if i >= evs.len() {
        return Ok(StreamFeatures { start_tls: st, mechanisms: mech });
    }
    proof {
        assert(events_view(evs@)[i as int] == evs@[i as int]@);
    }
    match &evs[i] {
        XmlEvent::Empty(n, attrs) => {
            if str_eq(n.as_str(), "starttls") {
                if !hf {
                    Err(CodecError::SequencingError(String::from_str("starttls")))
                } else if st.is_some() {
                    Err(CodecError::DuplicateElement(String::from_str("starttls")))
                } else {
                    match attr_lookup_exec(attrs, "xmlns") {
                        None => Err(CodecError::MissingAttribute(String::from_str("xmlns"))),
                        Some(x) => features_step(
                            evs,
                            i + 1,
                            hf,
                            Some(StartTls { xmlns: x, required: false }),
                            mech,
                        ),
                    }
                }
            } else {
                features_step(evs, i + 1, hf, st, mech)
            }
        },
        XmlEvent::Start(n, attrs) => {
            if str_eq(n.as_str(), "stream:features") {
                features_step(evs, i + 1, true, st, mech)
            } else if str_eq(n.as_str(), "starttls") {
                if !hf {
                    Err(CodecError::SequencingError(String::from_str("starttls")))
                } else if st.is_some() {
                    Err(CodecError::DuplicateElement(String::from_str("starttls")))
                } else {
                    match attr_lookup_exec(attrs, "xmlns") {
                        None => Err(CodecError::MissingAttribute(String::from_str("xmlns"))),
                        Some(x) => match scan_required_exec(evs, i + 1, false) {
                            None => Err(CodecError::ParseFailure),
                            Some((req, ni)) => features_step(
                                evs,
                                ni,
                                hf,
                                Some(StartTls { xmlns: x, required: req }),
                                mech,
                            ),
                        },
                    }
                }
            } else if str_eq(n.as_str(), "mechanisms") {
                if !hf {
                    Err(CodecError::SequencingError(String::from_str("mechanisms")))
                } else {
                    match attr_lookup_exec(attrs, "xmlns") {
                        None => Err(CodecError::MissingAttribute(String::from_str("xmlns"))),
                        Some(x) => {
                            let empty_acc: Vec<Mechanism> = Vec::new();
                            proof {
                                assert(mechs_view(empty_acc@) =~~= Seq::<Seq<char>>::empty());
                            }
                            match scan_mechs_exec(evs, i + 1, empty_acc) {
                                None => Err(CodecError::ParseFailure),
                                Some((names, ni)) => features_step(
                                    evs,
                                    ni,
                                    hf,
                                    st,
                                    Some(Mechanisms { xmlns: x, mechanisms: names }),
                                ),
                            }
                        },
                    }
                }
            } else {
                features_step(evs, i + 1, hf, st, mech)
            }
        },
        _ => features_step(evs, i + 1, hf, st, mech),
    }
}

impl StreamFeatures {
    /// Whether the advertisement has no children at all.
    pub fn empty(&self) -> (r: bool)
        ensures
            r == (self@.start_tls is None && self@.mechanisms is None),
    {
        self.start_tls.is_none() && self.mechanisms.is_none()
    }

    /// Render the advertisement: one self-closing tag when empty, else the
    /// open tag, each child present, and the close tag.
    pub fn into_string(&self) -> (r: String)
        ensures
            r@ == features_render(self@),
    {
        let mut evs: Vec<XmlEvent> = Vec::new();
        if self.empty() {
            evs.push(XmlEvent::Empty(String::from_str("stream:features"), Vec::new()));
            let out = write_events(&evs);
            proof {
                assert(events_view(evs@) =~~= features_events(self@));
            }
            return out;
        }
        evs.push(XmlEvent::Start(String::from_str("stream:features"), Vec::new()));
        proof {
            assert(events_view(evs@) =~~= seq![
                SpecEvent::Start("stream:features"@, Seq::<SpecAttr>::empty()),
            ]);
        }
        match &self.start_tls {
            Some(v) => push_starttls_events(&mut evs, v),
            None => {},
        }
        match &self.mechanisms {
            Some(m) => push_mech_events(&mut evs, m),
            None => {},
        }
        let ghost before_end = events_view(evs@);
        evs.push(XmlEvent::End(String::from_str("stream:features")));
        let out = write_events(&evs);
        proof {
            assert(events_view(evs@) =~~= before_end.push(SpecEvent::End("stream:features"@)));
            assert(events_view(evs@) =~~= features_events(self@));
        }
        out
    }

    /// Parse an advertisement: children only after the root has opened, a
    /// second starttls refused, text gathered into mechanism names.
    pub fn from_string(value: &str) -> (r: Result<StreamFeatures, CodecError>)
        ensures
            match r {
                Ok(v) => features_parse(value@) == Ok::<SpecStreamFeatures, SpecError>(v@),
                Err(e) => features_parse(value@) == Err::<SpecStreamFeatures, SpecError>(e@),
            },
    {
        let evs = match read_events(value) {
            Err(e) => {
                return Err(e);
            },
            Ok(v) => v,
        };
        features_step(&evs, 0, false, None, None)
    }
}

} // verus!
