//! The authentication mechanism advertisement: an ordered list of mechanism
//! names, duplicates kept, each wrapped in its own `mechanism` element.

use vstd::prelude::*;
use vstd::string::*;
use crate::chars::str_eq;
use crate::codec::{attr_lookup, attr_lookup_exec};
use crate::error::{CodecError, SpecError};
use crate::events::{Attr, SpecAttr, SpecEvent, XmlEvent, events_view, write_events, write_events_spec};
use crate::reader::{read_events, read_events_spec};

verus! {

/// One advertised mechanism name; the name is not validated.
#[derive(Debug, PartialEq, Eq)]
pub struct Mechanism(pub String);

impl View for Mechanism {
    type V = Seq<char>;

    open spec fn view(&self) -> Seq<char> {
        self.0@
    }
}

pub open spec fn mechs_view(v: Seq<Mechanism>) -> Seq<Seq<char>> {
    v.map_values(|m: Mechanism| m@)
}

/// The advertisement: a namespace and the names, in document order.
#[derive(Debug, PartialEq, Eq)]
pub struct Mechanisms {
    pub xmlns: String,
    pub mechanisms: Vec<Mechanism>,
}

/// Mathematical model of a `Mechanisms`.
#[verifier::ext_equal]
pub struct SpecMechanisms {
    pub xmlns: Seq<char>,
    pub mechanisms: Seq<Seq<char>>,
}

impl View for Mechanisms {
    type V = SpecMechanisms;

    open spec fn view(&self) -> SpecMechanisms {
        SpecMechanisms { xmlns: self.xmlns@, mechanisms: mechs_view(self.mechanisms@) }
    }
}

/// The events of the names from `i` on: each name wrapped in its own
/// `mechanism` element.
pub open spec fn mech_item_events(names: Seq<Seq<char>>, i: int) -> Seq<SpecEvent>
    decreases names.len() - i,
{
    if i < 0 || i >= names.len() {
        Seq::empty()
    } else {
        seq![
            SpecEvent::Start("mechanism"@, Seq::empty()),
            SpecEvent::Text(names[i]),
            SpecEvent::End("mechanism"@),
        ] + mech_item_events(names, i + 1)
    }
}

/// The events a whole advertisement renders as.
pub open spec fn mech_events(m: SpecMechanisms) -> Seq<SpecEvent> {
    seq![SpecEvent::Start("mechanisms"@, seq![SpecAttr { key: "xmlns"@, value: m.xmlns }])]
        + mech_item_events(m.mechanisms, 0) + seq![SpecEvent::End("mechanisms"@)]
}

pub open spec fn mech_render(m: SpecMechanisms) -> Seq<char> {
    write_events_spec(mech_events(m))
}

/// Scan the events nested in a mechanisms element: text accumulates as
/// names, the matching end tag closes the element, and running out of
/// events is an incomplete fragment.
pub open spec fn scan_mechs(evs: Seq<SpecEvent>, i: int, acc: Seq<Seq<char>>) -> Option<
    (Seq<Seq<char>>, int),
>
    decreases evs.len() - i,
{
    if i < 0 || i >= evs.len() {
        None
    } else {
        match evs[i] {
            SpecEvent::End(n) => if n == "mechanisms"@ {
                Some((acc, i + 1))
            } else {
                scan_mechs(evs, i + 1, acc)
            },
            SpecEvent::Text(t) => scan_mechs(evs, i + 1, acc.push(t)),
            _ => scan_mechs(evs, i + 1, acc),
        }
    }
}

pub proof fn lemma_scan_mechs_bounds(evs: Seq<SpecEvent>, i: int, acc: Seq<Seq<char>>)
    requires
        0 <= i,
    ensures
        match scan_mechs(evs, i, acc) {
            Some((names, ni)) => i < ni <= evs.len(),
            None => true,
        },
    decreases evs.len() - i,
{
    if 0 <= i < evs.len() {
        match evs[i] {
            SpecEvent::End(n) => {
                if n != "mechanisms"@ {
                    lemma_scan_mechs_bounds(evs, i + 1, acc);
                }
            },
            SpecEvent::Text(t) => {
                lemma_scan_mechs_bounds(evs, i + 1, acc.push(t));
            },
            _ => {
                lemma_scan_mechs_bounds(evs, i + 1, acc);
            },
        }
    }
}

/// What a standalone mechanisms parse yields: the first `mechanisms` start
/// tag opens the list; no such tag before the input ends is a parse failure.
pub open spec fn mechanisms_from_events(evs: Seq<SpecEvent>, i: int) -> Result<
    SpecMechanisms,
    SpecError,
>
    decreases evs.len() - i,
{
    if i < 0 || i >= evs.len() {
        Err(SpecError::ParseFailure)
    } else {
        match evs[i] {
            SpecEvent::Start(n, attrs) => if n == "mechanisms"@ {
                match attr_lookup(attrs, "xmlns"@) {
                    None => Err(SpecError::MissingAttribute("xmlns"@)),
                    Some(x) => match scan_mechs(evs, i + 1, Seq::empty()) {
                        None => Err(SpecError::ParseFailure),
                        Some((names, ni)) => Ok(SpecMechanisms { xmlns: x, mechanisms: names }),
                    },
                }
            } else {
                mechanisms_from_events(evs, i + 1)
            },
            _ => mechanisms_from_events(evs, i + 1),
        }
    }
}

pub open spec fn mechanisms_parse(s: Seq<char>) -> Result<SpecMechanisms, SpecError> {
    match read_events_spec(s) {
        None => Err(SpecError::ParseFailure),
        Some(evs) => mechanisms_from_events(evs, 0),
    }
}

/// Append the events of a whole advertisement.
pub fn push_mech_events(evs: &mut Vec<XmlEvent>, m: &Mechanisms)
    ensures
        events_view(final(evs)@) == events_view(old(evs)@) + mech_events(m@),
{
    let mut attrs: Vec<Attr> = Vec::new();
    attrs.push(Attr { key: String::from_str("xmlns"), value: m.xmlns.clone() });
    evs.push(XmlEvent::Start(String::from_str("mechanisms"), attrs));
    proof {
        assert(events_view(evs@) =~~= events_view(old(evs)@) + seq![
            SpecEvent::Start("mechanisms"@, seq![SpecAttr { key: "xmlns"@, value: m.xmlns@ }]),
        ]);
    }
    let ghost head = events_view(evs@);
    let ghost names = mechs_view(m.mechanisms@);
    let n = m.mechanisms.len();
    let mut i: usize = 0;
    while i < n
        invariant
            n == m.mechanisms.len(),
            0 <= i <= n,
            names == mechs_view(m.mechanisms@),
            head + mech_item_events(names, 0) == events_view(evs@) + mech_item_events(
                names,
                i as int,
            ),
        decreases n - i,
    {
        evs.push(XmlEvent::Start(String::from_str("mechanism"), Vec::new()));
        evs.push(XmlEvent::Text(m.mechanisms[i].0.clone()));
        evs.push(XmlEvent::End(String::from_str("mechanism")));
        proof {
            assert(names[i as int] == m.mechanisms@[i as int]@);
            assert(head + mech_item_events(names, 0) =~~= events_view(evs@) + mech_item_events(
                names,
                i + 1,
            ));
        }
        i = i + 1;
    }
    proof {
        assert(mech_item_events(names, n as int) =~~= Seq::<SpecEvent>::empty());
        assert(events_view(evs@) =~~= head + mech_item_events(names, 0));
    }
    let ghost before_end = events_view(evs@);
    evs.push(XmlEvent::End(String::from_str("mechanisms")));
    proof {
        assert(events_view(evs@) =~~= before_end.push(SpecEvent::End("mechanisms"@)));
        assert(events_view(evs@) =~~= events_view(old(evs)@) + mech_events(m@));
    }
}

/// Scan the events nested in a mechanisms element, accumulating names.
pub fn scan_mechs_exec(evs: &Vec<XmlEvent>, i: usize, acc: Vec<Mechanism>) -> (r: Option<
    (Vec<Mechanism>, usize),
>)
    ensures
        match r {
            Some((names, ni)) => scan_mechs(events_view(evs@), i as int, mechs_view(acc@)) == Some(
                (mechs_view(names@), ni as int),
            ) && i < ni <= evs.len(),
            None => scan_mechs(events_view(evs@), i as int, mechs_view(acc@)) is None,
        },
    decreases evs.len() - i,
{
    if i >= evs.len() {
        return None;
    }
    proof {
        assert(events_view(evs@)[i as int] == evs@[i as int]@);
    }
    match &evs[i] {
        XmlEvent::End(n) => {
            if str_eq(n.as_str(), "mechanisms") {
                Some((acc, i + 1))
            } else {
                scan_mechs_exec(evs, i + 1, acc)
            }
        },
        XmlEvent::Text(t) => {
            let ghost accv = acc@;
            let mut acc2 = acc;
            acc2.push(Mechanism(t.clone()));
            proof {
                assert(mechs_view(acc2@) =~~= mechs_view(accv).push(t@));
            }
            scan_mechs_exec(evs, i + 1, acc2)
        },
        _ => scan_mechs_exec(evs, i + 1, acc),
    }
}

impl Mechanisms {
    /// Render the advertisement with its names in order.
    pub fn into_string(&self) -> (r: String)
        ensures
            r@ == mech_render(self@),
    {
        let mut evs: Vec<XmlEvent> = Vec::new();
        push_mech_events(&mut evs, self);
        let out = write_events(&evs);
        proof {
            assert(events_view(evs@) =~= mech_events(self@));
        }
        out
    }

    /// Parse a standalone mechanisms fragment.
    pub fn from_string(value: &str) -> (r: Result<Mechanisms, CodecError>)
        ensures
            match r {
                Ok(v) => mechanisms_parse(value@) == Ok::<SpecMechanisms, SpecError>(v@),
                Err(e) => mechanisms_parse(value@) == Err::<SpecMechanisms, SpecError>(e@),
            },
    {
        let evs = match read_events(value) {
            Err(_) => {
                return Err(CodecError::ParseFailure);
            },
            Ok(v) => v,
        };
        Self::from_events(&evs, 0)
    }

    fn from_events(evs: &Vec<XmlEvent>, i: usize) -> (r: Result<Mechanisms, CodecError>)
        ensures
            match r {
                Ok(v) => mechanisms_from_events(events_view(evs@), i as int) == Ok::<
                    SpecMechanisms,
                    SpecError,
                >(v@),
                Err(e) => mechanisms_from_events(events_view(evs@), i as int) == Err::<
                    SpecMechanisms,
                    SpecError,
                >(e@),
            },
        decreases evs.len() - i,
    {
        if i >= evs.len() {
            return Err(CodecError::ParseFailure);
        }
        proof {
            assert(events_view(evs@)[i as int] == evs@[i as int]@);
        }
        match &evs[i] {
            XmlEvent::Start(n, attrs) => {
                if str_eq(n.as_str(), "mechanisms") {
                    match attr_lookup_exec(attrs, "xmlns") {
                        None => Err(CodecError::MissingAttribute(String::from_str("xmlns"))),
                        Some(x) => {
                            let empty_acc: Vec<Mechanism> = Vec::new();
                            proof {
                                assert(mechs_view(empty_acc@) =~~= Seq::<Seq<char>>::empty());
                            }
                            match scan_mechs_exec(evs, i + 1, empty_acc) {
                                None => Err(CodecError::ParseFailure),
                                Some((names, _)) => Ok(
                                    Mechanisms { xmlns: x, mechanisms: names },
                                ),
                            }
                        },
                    }
                } else {
                    Self::from_events(evs, i + 1)
                }
            },
            _ => Self::from_events(evs, i + 1),
        }
    }
}

} // verus!
