//! The library's laws: the round trips and rendering shapes that hold of
//! every well-formed stanza value, proved over the same spec functions the
//! codecs' contracts use. Well-formed means the strings a value carries stay
//! clear of the five escaped characters — the parser takes wire text as it
//! stands, so a value whose strings would need escaping does not survive a
//! round trip unchanged — and every mechanism name is non-empty, an empty
//! name leaving no text event on the wire.

use vstd::prelude::*;
use crate::chars::{clean, name_ok};
use crate::codec::attr_lookup;
use crate::error::SpecError;
use crate::events::{
    SpecAttr, SpecEvent, attrs_chars_from, event_chars, wf_event, wf_events, write_events_spec,
    write_from,
};
use crate::features::{
    SpecStreamFeatures, features_events, features_from_events, features_parse, features_render,
};
use crate::inversion::{lemma_seq_suffix, lemma_write_read};
use crate::mechanisms::{SpecMechanisms, mech_events, mech_item_events, scan_mechs};
use crate::starttls::{
    SpecStartTls, scan_required, starttls_events, starttls_from_events, starttls_parse,
    starttls_render,
};

verus! {

/// A starttls value whose namespace needs no escaping.
pub open spec fn wf_starttls(v: SpecStartTls) -> bool {
    clean(v.xmlns)
}

/// A mechanisms value whose strings need no escaping and whose names are
/// non-empty.
pub open spec fn wf_mechanisms(m: SpecMechanisms) -> bool {
    &&& clean(m.xmlns)
    &&& forall|i: int|
        0 <= i < m.mechanisms.len() ==> (#[trigger] m.mechanisms[i]).len() > 0 && clean(
            m.mechanisms[i],
        )
}

/// A features value both of whose children, where present, are well formed.
pub open spec fn wf_features(f: SpecStreamFeatures) -> bool {
    &&& match f.start_tls {
        Some(v) => wf_starttls(v),
        None => true,
    }
    &&& match f.mechanisms {
        Some(m) => wf_mechanisms(m),
        None => true,
    }
}

/// The fixed element and attribute names of the protocol are fit for the
/// wire, and distinct where a parse tells them apart.
proof fn lemma_literals()
    ensures
        name_ok("stream:stream"@),
        name_ok("stream:features"@),
        name_ok("starttls"@),
        name_ok("required"@),
        name_ok("mechanisms"@),
        name_ok("mechanism"@),
        name_ok("xmlns"@),
        "mechanism"@ != "mechanisms"@,
        "starttls"@ != "stream:features"@,
        "starttls"@ != "mechanisms"@,
        "stream:features"@ != "mechanisms"@,
        "required"@ != "starttls"@,
{
    reveal_strlit("stream:stream");
    reveal_strlit("stream:features");
    reveal_strlit("starttls");
    reveal_strlit("required");
    reveal_strlit("mechanisms");
    reveal_strlit("mechanism");
    reveal_strlit("xmlns");
    assert("required"@[0] != "starttls"@[0]);
}

/// Well-formedness joins across concatenation where no text event meets
/// another at the seam.
proof fn lemma_wf_concat(a: Seq<SpecEvent>, b: Seq<SpecEvent>)
    requires
        wf_events(a),
        wf_events(b),
        !(a.len() > 0 && b.len() > 0 && a.last() is Text && b[0] is Text),
    ensures
        wf_events(a + b),
{
    let t = a + b;
    assert forall|k: int| 0 <= k < t.len() implies #[trigger] wf_event(t[k]) by {
        if k < a.len() {
            assert(t[k] == a[k]);
            assert(wf_event(a[k]));
        } else {
            assert(t[k] == b[k - a.len()]);
            assert(wf_event(b[k - a.len()]));
        }
    }
    assert forall|k: int| 0 <= k < t.len() - 1 implies !((#[trigger] t[k]) is Text && t[k + 1]
        is Text) by {
        if k + 1 < a.len() {
            assert(t[k] == a[k] && t[k + 1] == a[k + 1]);
        } else if k + 1 == a.len() {
            assert(t[k] == a[k] && t[k + 1] == b[0]);
            assert(a[k] == a.last());
        } else {
            assert(t[k] == b[k - a.len()] && t[k + 1] == b[k + 1 - a.len()]);
        }
    }
}

/// The events of a well-formed starttls value are well formed.
proof fn lemma_wf_starttls_events(v: SpecStartTls)
    requires
        wf_starttls(v),
    ensures
        wf_events(starttls_events(v)),
        starttls_events(v).len() > 0,
        !(starttls_events(v)[0] is Text),
        !(starttls_events(v).last() is Text),
{
    lemma_literals();
    let evs = starttls_events(v);
    assert forall|k: int| 0 <= k < evs.len() implies #[trigger] wf_event(evs[k]) by {
        if v.required {
            assert(evs =~= seq![
                SpecEvent::Start("starttls"@, seq![SpecAttr { key: "xmlns"@, value: v.xmlns }]),
                SpecEvent::Empty("required"@, Seq::empty()),
                SpecEvent::End("starttls"@),
            ]);
        }
    }
}

/// The events of the wrapped names from `i` on are well formed, and start
/// and end with a tag, not text.
proof fn lemma_wf_mech_items(names: Seq<Seq<char>>, i: int)
    requires
        0 <= i <= names.len(),
        forall|k: int| 0 <= k < names.len() ==> (#[trigger] names[k]).len() > 0 && clean(names[k]),
    ensures
        wf_events(mech_item_events(names, i)),
        i < names.len() ==> mech_item_events(names, i).len() > 0 && !(mech_item_events(names, i)[0]
            is Text) && !(mech_item_events(names, i).last() is Text),
    decreases names.len() - i,
{
    lemma_literals();
    if i < names.len() {
        lemma_wf_mech_items(names, i + 1);
        let triple = seq![
            SpecEvent::Start("mechanism"@, Seq::<SpecAttr>::empty()),
            SpecEvent::Text(names[i]),
            SpecEvent::End("mechanism"@),
        ];
        assert(wf_event(triple[0]));
        assert(wf_event(triple[1]));
        assert(wf_event(triple[2]));
        assert(wf_events(triple));
        lemma_wf_concat(triple, mech_item_events(names, i + 1));
        let t = mech_item_events(names, i);
        assert(t == triple + mech_item_events(names, i + 1));
        assert(t[0] == triple[0]);
        if i + 1 < names.len() {
            assert(t.last() == mech_item_events(names, i + 1).last());
        } else {
            assert(t =~= triple);
        }
    }
}

/// The events of a well-formed mechanisms value are well formed.
proof fn lemma_wf_mech_events(m: SpecMechanisms)
    requires
        wf_mechanisms(m),
    ensures
        wf_events(mech_events(m)),
        mech_events(m).len() > 0,
        !(mech_events(m)[0] is Text),
        !(mech_events(m).last() is Text),
{
    lemma_literals();
    let head = seq![
        SpecEvent::Start("mechanisms"@, seq![SpecAttr { key: "xmlns"@, value: m.xmlns }]),
    ];
    let tail = seq![SpecEvent::End("mechanisms"@)];
    let items = mech_item_events(m.mechanisms, 0);
    assert(wf_events(head));
    assert(wf_events(tail));
    lemma_wf_mech_items(m.mechanisms, 0);
    lemma_wf_concat(head, items);
    if items.len() > 0 {
        assert((head + items).last() == items.last());
    } else {
        assert(head + items =~= head);
    }
    lemma_wf_concat(head + items, tail);
    assert(mech_events(m) == head + items + tail);
    assert((head + items + tail).last() == tail[0]);
    assert(mech_events(m)[0] == head[0]);
}

/// The events of a well-formed features value are well formed.
proof fn lemma_wf_features_events(f: SpecStreamFeatures)
    requires
        wf_features(f),
    ensures
        wf_events(features_events(f)),
{
    lemma_literals();
    let evs = features_events(f);
    if f.start_tls is None && f.mechanisms is None {
        assert(wf_event(evs[0]));
        assert(wf_events(evs));
    } else {
        let head = seq![SpecEvent::Start("stream:features"@, Seq::<SpecAttr>::empty())];
        let st = match f.start_tls {
            Some(v) => starttls_events(v),
            None => Seq::<SpecEvent>::empty(),
        };
        let me = match f.mechanisms {
            Some(m) => mech_events(m),
            None => Seq::<SpecEvent>::empty(),
        };
        let tail = seq![SpecEvent::End("stream:features"@)];
        assert(wf_events(head));
        assert(wf_events(tail));
        match f.start_tls {
            Some(v) => {
                lemma_wf_starttls_events(v);
            },
            None => {},
        }
        match f.mechanisms {
            Some(m) => {
                lemma_wf_mech_events(m);
            },
            None => {},
        }
        lemma_wf_concat(head, st);
        lemma_wf_concat(head + st, me);
        lemma_wf_concat(head + st + me, tail);
        assert(evs == head + st + me + tail);
    }
}

/// Rendering is a pure function of the value: the same features value
/// renders to byte-identical text, however often it is rendered.
pub proof fn lemma_features_render_deterministic(f1: SpecStreamFeatures, f2: SpecStreamFeatures)
    requires
        f1 == f2,
    ensures
        features_render(f1) == features_render(f2),
{
}

/// How many events the wrapped names from `k` on make: three per name.
proof fn lemma_mech_items_len(names: Seq<Seq<char>>, k: int)
    requires
        0 <= k <= names.len(),
    ensures
        mech_item_events(names, k).len() == 3 * (names.len() - k),
    decreases names.len() - k,
{
    if k < names.len() {
        lemma_mech_items_len(names, k + 1);
    }
}

/// Parsing the events of a rendered starttls value yields the value back.
proof fn lemma_starttls_events_parse(v: SpecStartTls)
    requires
        wf_starttls(v),
    ensures
        starttls_from_events(starttls_events(v), 0) == Ok::<SpecStartTls, SpecError>(v),
{
    lemma_literals();
    let evs = starttls_events(v);
    let attrs = seq![SpecAttr { key: "xmlns"@, value: v.xmlns }];
    assert(attr_lookup(attrs, "xmlns"@) == Some(v.xmlns));
    if v.required {
        assert(evs[0] == SpecEvent::Start("starttls"@, attrs));
        assert(evs[1] == SpecEvent::Empty("required"@, Seq::<SpecAttr>::empty()));
        assert(evs[2] == SpecEvent::End("starttls"@));
        assert(scan_required(evs, 2, true) == Some((true, 3int)));
        assert(scan_required(evs, 1, false) == Some((true, 3int)));
        assert(SpecStartTls { xmlns: v.xmlns, required: true } == v);
    } else {
        assert(evs[0] == SpecEvent::Empty("starttls"@, attrs));
        assert(SpecStartTls { xmlns: v.xmlns, required: false } == v);
    }
}

/// A scan across the printed names, then the closing tag: it gathers
/// exactly the names, in order, and stops just past the end tag.
proof fn lemma_scan_mechs_run(
    evs: Seq<SpecEvent>,
    i: int,
    names: Seq<Seq<char>>,
    k: int,
    acc: Seq<Seq<char>>,
    tail: Seq<SpecEvent>,
)
    requires
        0 <= i <= evs.len(),
        0 <= k <= names.len(),
        evs.subrange(i, evs.len() as int) == mech_item_events(names, k) + seq![
            SpecEvent::End("mechanisms"@),
        ] + tail,
    ensures
        scan_mechs(evs, i, acc) == Some(
            (acc + names.subrange(k, names.len() as int), i + 3 * (names.len() - k) + 1),
        ),
    decreases names.len() - k,
{
    lemma_literals();
    let endv = seq![SpecEvent::End("mechanisms"@)];
    if k == names.len() {
        assert(mech_item_events(names, k) =~= Seq::<SpecEvent>::empty());
        assert(evs.subrange(i, evs.len() as int) =~= endv + tail);
        lemma_seq_suffix(evs, i, endv, tail);
        assert(evs[i] == endv[0]);
        assert(scan_mechs(evs, i, acc) == Some((acc, i + 1)));
        assert(acc + names.subrange(k, names.len() as int) =~= acc);
    } else {
        let triple = seq![
            SpecEvent::Start("mechanism"@, Seq::<SpecAttr>::empty()),
            SpecEvent::Text(names[k]),
            SpecEvent::End("mechanism"@),
        ];
        let rest = mech_item_events(names, k + 1) + endv + tail;
        assert(mech_item_events(names, k) == triple + mech_item_events(names, k + 1));
        assert(evs.subrange(i, evs.len() as int) =~= triple + rest);
        lemma_seq_suffix(evs, i, triple, rest);
        assert(evs[i] == triple[0]);
        assert(evs[i + 1] == triple[1]);
        assert(evs[i + 2] == triple[2]);
        assert(evs.subrange(i + 3, evs.len() as int) == rest);
        assert(scan_mechs(evs, i, acc) == scan_mechs(evs, i + 1, acc));
        assert(scan_mechs(evs, i + 1, acc) == scan_mechs(evs, i + 2, acc.push(names[k])));
        assert(scan_mechs(evs, i + 2, acc.push(names[k])) == scan_mechs(
            evs,
            i + 3,
            acc.push(names[k]),
        ));
        lemma_scan_mechs_run(evs, i + 3, names, k + 1, acc.push(names[k]), tail);
        assert(acc.push(names[k]) + names.subrange(k + 1, names.len() as int) =~= acc
            + names.subrange(k, names.len() as int));
    }
}

/// One starttls child inside a features parse: the state machine takes it
/// and moves just past its events, the accumulated child now set.
proof fn lemma_features_st_step(
    evs: Seq<SpecEvent>,
    i: int,
    v: SpecStartTls,
    tail: Seq<SpecEvent>,
)
    requires
        0 <= i <= evs.len(),
        evs.subrange(i, evs.len() as int) == starttls_events(v) + tail,
    ensures
        features_from_events(evs, i, true, None, None) == features_from_events(
            evs,
            i + starttls_events(v).len(),
            true,
            Some(v),
            None,
        ),
{
    lemma_literals();
    let se = starttls_events(v);
    lemma_seq_suffix(evs, i, se, tail);
    let attrs = seq![SpecAttr { key: "xmlns"@, value: v.xmlns }];
    assert(attr_lookup(attrs, "xmlns"@) == Some(v.xmlns));
    if v.required {
        assert(evs[i] == se[0]);
        assert(evs[i + 1] == se[1]);
        assert(evs[i + 2] == se[2]);
        assert(scan_required(evs, i + 2, true) == Some((true, i + 3)));
        assert(scan_required(evs, i + 1, false) == Some((true, i + 3)));
        assert(SpecStartTls { xmlns: v.xmlns, required: true } == v);
    } else {
        assert(evs[i] == se[0]);
        assert(SpecStartTls { xmlns: v.xmlns, required: false } == v);
    }
}

/// One mechanisms child inside a features parse: the state machine gathers
/// its names and moves just past its events.
proof fn lemma_features_mech_step(
    evs: Seq<SpecEvent>,
    i: int,
    st0: Option<SpecStartTls>,
    m: SpecMechanisms,
    tail: Seq<SpecEvent>,
)
    requires
        0 <= i <= evs.len(),
        evs.subrange(i, evs.len() as int) == mech_events(m) + tail,
    ensures
        features_from_events(evs, i, true, st0, None) == features_from_events(
            evs,
            i + mech_events(m).len(),
            true,
            st0,
            Some(m),
        ),
{
    lemma_literals();
    let me = mech_events(m);
    let head = seq![
        SpecEvent::Start("mechanisms"@, seq![SpecAttr { key: "xmlns"@, value: m.xmlns }]),
    ];
    let items = mech_item_events(m.mechanisms, 0);
    let endv = seq![SpecEvent::End("mechanisms"@)];
    lemma_mech_items_len(m.mechanisms, 0);
    assert(me == head + items + endv);
    assert(evs.subrange(i, evs.len() as int) =~= head + (items + endv + tail));
    lemma_seq_suffix(evs, i, head, items + endv + tail);
    assert(evs[i] == head[0]);
    assert(evs.subrange(i + 1, evs.len() as int) == items + endv + tail);
    lemma_scan_mechs_run(evs, i + 1, m.mechanisms, 0, Seq::empty(), tail);
    let names = Seq::<Seq<char>>::empty() + m.mechanisms.subrange(0, m.mechanisms.len() as int);
    assert(names =~= m.mechanisms);
    assert(attr_lookup(seq![SpecAttr { key: "xmlns"@, value: m.xmlns }], "xmlns"@) == Some(
        m.xmlns,
    ));
    assert(scan_mechs(evs, i + 1, Seq::empty()) == Some(
        (names, i + 1 + 3 * m.mechanisms.len() + 1),
    ));
    assert(SpecMechanisms { xmlns: m.xmlns, mechanisms: names } =~= m);
    assert(i + 1 + 3 * m.mechanisms.len() + 1 == i + me.len());
}

/// The closing features tag ends the parse with whatever was accumulated.
proof fn lemma_features_end_step(
    evs: Seq<SpecEvent>,
    i: int,
    st0: Option<SpecStartTls>,
    mech0: Option<SpecMechanisms>,
)
    requires
        0 <= i <= evs.len(),
        evs.subrange(i, evs.len() as int) == seq![SpecEvent::End("stream:features"@)],
    ensures
        features_from_events(evs, i, true, st0, mech0) == Ok::<SpecStreamFeatures, SpecError>(
            SpecStreamFeatures { start_tls: st0, mechanisms: mech0 },
        ),
{
    let endv = seq![SpecEvent::End("stream:features"@)];
    assert(evs.subrange(i, evs.len() as int) =~= endv + Seq::<SpecEvent>::empty());
    lemma_seq_suffix(evs, i, endv, Seq::<SpecEvent>::empty());
    assert(evs[i] == endv[0]);
    assert(i + 1 == evs.len());
    assert(features_from_events(evs, i + 1, true, st0, mech0) == Ok::<
        SpecStreamFeatures,
        SpecError,
    >(SpecStreamFeatures { start_tls: st0, mechanisms: mech0 }));
    assert(features_from_events(evs, i, true, st0, mech0) == features_from_events(
        evs,
        i + 1,
        true,
        st0,
        mech0,
    ));
}

/// Parsing the events of a rendered features value yields the value back.
proof fn lemma_features_events_parse(f: SpecStreamFeatures)
    requires
        wf_features(f),
    ensures
        features_from_events(features_events(f), 0, false, None, None) == Ok::<
            SpecStreamFeatures,
            SpecError,
        >(f),
{
    lemma_literals();
    let evs = features_events(f);
    if f.start_tls is None && f.mechanisms is None {
        assert(evs[0] == SpecEvent::Empty("stream:features"@, Seq::<SpecAttr>::empty()));
        assert(features_from_events(evs, 0, false, None, None) == features_from_events(
            evs,
            1,
            false,
            None,
            None,
        ));
        assert(f =~= SpecStreamFeatures { start_tls: None, mechanisms: None });
    } else {
        let head = seq![SpecEvent::Start("stream:features"@, Seq::<SpecAttr>::empty())];
        let st = match f.start_tls {
            Some(v) => starttls_events(v),
            None => Seq::<SpecEvent>::empty(),
        };
        let me = match f.mechanisms {
            Some(m) => mech_events(m),
            None => Seq::<SpecEvent>::empty(),
        };
        let tail = seq![SpecEvent::End("stream:features"@)];
        assert(evs == head + st + me + tail);
        assert(evs.subrange(0, evs.len() as int) =~= head + (st + (me + tail)));
        lemma_seq_suffix(evs, 0, head, st + (me + tail));
        assert(evs[0] == head[0]);
        assert(features_from_events(evs, 0, false, None, None) == features_from_events(
            evs,
            1,
            true,
            None,
            None,
        ));
        assert(evs.subrange(1, evs.len() as int) == st + (me + tail));
        match f.start_tls {
            Some(v) => {
                lemma_features_st_step(evs, 1, v, me + tail);
            },
            None => {
                assert(st =~= Seq::<SpecEvent>::empty());
            },
        }
        let p2 = 1 + st.len() as int;
        lemma_seq_suffix(evs, 1, st, me + tail);
        assert(evs.subrange(p2, evs.len() as int) == me + tail);
        assert(features_from_events(evs, 1, true, None, None) == features_from_events(
            evs,
            p2,
            true,
            f.start_tls,
            None,
        ));
        match f.mechanisms {
            Some(m) => {
                lemma_features_mech_step(evs, p2, f.start_tls, m, tail);
            },
            None => {
                assert(me =~= Seq::<SpecEvent>::empty());
            },
        }
        let p3 = p2 + me.len() as int;
        assert(evs.subrange(p2, evs.len() as int) =~= me + tail);
        lemma_seq_suffix(evs, p2, me, tail);
        assert(evs.subrange(p3, evs.len() as int) == tail);
        assert(features_from_events(evs, p2, true, f.start_tls, None) == features_from_events(
            evs,
            p3,
            true,
            f.start_tls,
            f.mechanisms,
        ));
        lemma_features_end_step(evs, p3, f.start_tls, f.mechanisms);
        assert(f =~= SpecStreamFeatures { start_tls: f.start_tls, mechanisms: f.mechanisms });
    }
}

/// Round trip: every well-formed features value, rendered and parsed back,
/// is recovered equal in all fields — both children absent, either child
/// alone, or both present, whatever the required flag and the names.
pub proof fn lemma_features_round_trip(f: SpecStreamFeatures)
    requires
        wf_features(f),
    ensures
        features_parse(features_render(f)) == Ok::<SpecStreamFeatures, SpecError>(f),
{
    lemma_wf_features_events(f);
    lemma_write_read(features_events(f));
    lemma_features_events_parse(f);
}

/// Required-flag fidelity: a well-formed starttls value, rendered standalone
/// and parsed back, keeps its namespace and its required flag — a required
/// upgrade through its `required` child, an optional one self-closing.
pub proof fn lemma_starttls_round_trip(v: SpecStartTls)
    requires
        wf_starttls(v),
    ensures
        starttls_parse(starttls_render(v)) == Ok::<SpecStartTls, SpecError>(v),
        !v.required ==> starttls_events(v) == seq![
            SpecEvent::Empty("starttls"@, seq![SpecAttr { key: "xmlns"@, value: v.xmlns }]),
        ],
        v.required ==> starttls_events(v)[1] == SpecEvent::Empty(
            "required"@,
            Seq::<SpecAttr>::empty(),
        ),
{
    lemma_wf_starttls_events(v);
    lemma_write_read(starttls_events(v));
    lemma_starttls_events_parse(v);
}

/// A features value with both children absent renders as exactly the one
/// self-closing tag `<stream:features/>`.
pub proof fn lemma_empty_features_collapse(f: SpecStreamFeatures)
    requires
        f.start_tls is None,
        f.mechanisms is None,
    ensures
        features_render(f) == "<stream:features/>"@,
{
    reveal_strlit("stream:features");
    reveal_strlit("<stream:features/>");
    let evs = features_events(f);
    assert(evs.len() == 1);
    assert(write_from(evs, 1) =~= Seq::<char>::empty());
    assert(attrs_chars_from(Seq::<SpecAttr>::empty(), 0) =~= Seq::<char>::empty());
    assert(event_chars(evs[0]) =~= seq!['<'] + "stream:features"@ + seq!['/', '>']);
    assert(write_events_spec(evs) =~= event_chars(evs[0]));
    assert(write_events_spec(evs) =~= "<stream:features/>"@);
}

} // verus!
