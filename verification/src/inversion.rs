//! Reading back what the writer printed recovers the events: the inversion
//! that the stanza round-trip laws rest on. It holds of well-formed event
//! sequences, where escaping is the identity and names carry no delimiter
//! characters.

use vstd::prelude::*;
use crate::chars::{clean_char, is_ws, lemma_escape_clean_identity, name_char};
use crate::events::{
    SpecAttr, SpecEvent, attr_chars, attrs_chars_from, event_chars, wf_attr, wf_attrs, wf_event,
    wf_events, wf_events_from, write_events_spec, write_from,
};
use crate::reader::{
    find_char, lemma_find_char_region, lemma_name_end_region, lemma_skip_ws_region, name_end,
    parse_attrs, parse_tag, read_events_spec, read_from,
};

verus! {

/// `c` occurs nowhere in `s`.
pub open spec fn avoids(s: Seq<char>, c: char) -> bool {
    forall|m: int| 0 <= m < s.len() ==> s[m] != c
}

/// Splitting a suffix of `s` as a concatenation fixes every element and the
/// later suffix.
pub proof fn lemma_seq_suffix<T>(s: Seq<T>, pos: int, a: Seq<T>, b: Seq<T>)
    requires
        0 <= pos <= s.len(),
        s.subrange(pos, s.len() as int) == a + b,
    ensures
        pos + a.len() + b.len() == s.len(),
        s.subrange(pos + a.len(), s.len() as int) == b,
        forall|k: int| 0 <= k < a.len() ==> s[pos + k] == #[trigger] a[k],
        forall|k: int| 0 <= k < b.len() ==> s[pos + a.len() + k] == #[trigger] b[k],
{
    assert(s.subrange(pos, s.len() as int).len() == a.len() + b.len());
    assert forall|k: int| 0 <= k < a.len() implies s[pos + k] == #[trigger] a[k] by {
        assert(s.subrange(pos, s.len() as int)[k] == s[pos + k]);
        assert((a + b)[k] == a[k]);
    }
    assert forall|k: int| 0 <= k < b.len() implies s[pos + a.len() + k] == #[trigger] b[k] by {
        assert(s.subrange(pos, s.len() as int)[a.len() + k] == s[pos + a.len() + k]);
        assert((a + b)[a.len() + k] == b[k]);
    }
    assert(s.subrange(pos + a.len(), s.len() as int) =~= b);
}

/// The printed form of a well-formed attribute: starts with a space, ends
/// with a quote, and holds no `>`.
proof fn lemma_attr_chars_facts(a: SpecAttr)
    requires
        wf_attr(a),
    ensures
        attr_chars(a).len() == a.key.len() + a.value.len() + 4,
        attr_chars(a)[0] == ' ',
        attr_chars(a).last() == '"',
        avoids(attr_chars(a), '>'),
{
    lemma_escape_clean_identity(a.value);
    let t = attr_chars(a);
    let kl = a.key.len() as int;
    let vl = a.value.len() as int;
    assert forall|m: int| 0 <= m < t.len() implies t[m] != '>' by {
        if m == 0 {
            assert(t[m] == ' ');
        } else if m < 1 + kl {
            assert(t[m] == a.key[m - 1]);
            assert(name_char(a.key[m - 1]));
        } else if m == 1 + kl {
            assert(t[m] == '=');
        } else if m == 2 + kl {
            assert(t[m] == '"');
        } else if m < 3 + kl + vl {
            assert(t[m] == a.value[m - 3 - kl]);
            assert(clean_char(a.value[m - 3 - kl]));
        } else {
            assert(t[m] == '"');
        }
    }
}

/// The printed attribute list from `i` on holds no `>`, and when non-empty
/// starts with a space and ends with a quote.
proof fn lemma_attrs_chars_facts(attrs: Seq<SpecAttr>, i: int)
    requires
        0 <= i <= attrs.len(),
        wf_attrs(attrs),
    ensures
        avoids(attrs_chars_from(attrs, i), '>'),
        i < attrs.len() ==> attrs_chars_from(attrs, i).len() > 0 && attrs_chars_from(attrs, i)[0]
            == ' ' && attrs_chars_from(attrs, i).last() == '"',
    decreases attrs.len() - i,
{
    if i < attrs.len() {
        lemma_attr_chars_facts(attrs[i]);
        lemma_attrs_chars_facts(attrs, i + 1);
        let t = attrs_chars_from(attrs, i);
        let h = attr_chars(attrs[i]);
        let r = attrs_chars_from(attrs, i + 1);
        assert(t == h + r);
        assert forall|m: int| 0 <= m < t.len() implies t[m] != '>' by {
            if m < h.len() {
                assert(t[m] == h[m]);
            } else {
                assert(t[m] == r[m - h.len()]);
            }
        }
        assert(t[0] == h[0]);
        if r.len() == 0 {
            assert(t =~= h);
        } else {
            assert(t.last() == r.last());
        }
    }
}

/// The printed form of a well-formed tag event starts with `<`; a text
/// event prints as itself.
proof fn lemma_event_chars_facts(e: SpecEvent)
    requires
        wf_event(e),
    ensures
        event_chars(e).len() > 0,
        !(e is Text) ==> event_chars(e)[0] == '<',
        e is Text ==> event_chars(e) == e->Text_0,
{
    match e {
        SpecEvent::Start(n, attrs) => {
            assert(event_chars(e)[0] == '<');
        },
        SpecEvent::Empty(n, attrs) => {
            assert(event_chars(e)[0] == '<');
        },
        SpecEvent::End(n) => {
            assert(event_chars(e)[0] == '<');
        },
        SpecEvent::Text(t) => {
            lemma_escape_clean_identity(t);
        },
    }
}

/// Parsing the printed attribute list from a position recovers the
/// attributes from `ai` on.
proof fn lemma_attrs_inversion(content: Seq<char>, k: int, attrs: Seq<SpecAttr>, ai: int)
    requires
        0 <= k <= content.len(),
        0 <= ai <= attrs.len(),
        wf_attrs(attrs),
        content.subrange(k, content.len() as int) == attrs_chars_from(attrs, ai),
    ensures
        parse_attrs(content, k) == Some(attrs.subrange(ai, attrs.len() as int)),
    decreases attrs.len() - ai,
{
    let cl = content.len() as int;
    if ai == attrs.len() {
        assert(content.subrange(k, cl).len() == 0);
        assert(k == cl);
        assert(parse_attrs(content, k) == Some(Seq::<SpecAttr>::empty()));
        assert(attrs.subrange(ai, attrs.len() as int) =~= Seq::<SpecAttr>::empty());
    } else {
        let a = attrs[ai];
        assert(wf_attr(a));
        lemma_attr_chars_facts(a);
        lemma_escape_clean_identity(a.value);
        let h = attr_chars(a);
        let r = attrs_chars_from(attrs, ai + 1);
        assert(attrs_chars_from(attrs, ai) == h + r);
        lemma_seq_suffix(content, k, h, r);
        let kl = a.key.len() as int;
        let vl = a.value.len() as int;
        // positions within this attribute's printed form
        assert(content[k] == h[0]);
        assert(content[k] == ' ');
        assert(a.key.len() > 0);
        assert(content[k + 1] == h[1]);
        assert(h[1] == a.key[0]);
        assert(name_char(a.key[0]));
        lemma_skip_ws_region(content, k, k + 1);
        // the key region holds name characters, then `=` and `"`
        assert forall|m: int| k + 1 <= m < k + 1 + kl implies content[m] != '=' by {
            assert(content[m] == h[m - k]);
            assert(h[m - k] == a.key[m - k - 1]);
            assert(name_char(a.key[m - k - 1]));
        }
        assert(content[k + 1 + kl] == h[1 + kl]);
        assert(h[1 + kl] == '=');
        lemma_find_char_region(content, '=', k + 1, k + 1 + kl);
        let eq = k + 1 + kl;
        assert(content[eq + 1] == h[2 + kl]);
        assert(h[2 + kl] == '"');
        // the value region holds no quote
        assert forall|m: int| eq + 2 <= m < eq + 2 + vl implies content[m] != '"' by {
            assert(content[m] == h[m - k]);
            assert(h[m - k] == a.value[m - k - 3 - kl]);
            assert(clean_char(a.value[m - k - 3 - kl]));
        }
        assert(content[eq + 2 + vl] == h[3 + kl + vl]);
        assert(h[3 + kl + vl] == '"');
        lemma_find_char_region(content, '"', eq + 2, eq + 2 + vl);
        let q = eq + 2 + vl;
        // the extracted key and value are the attribute's own
        assert(content.subrange(k + 1, eq) =~= a.key) by {
            assert forall|m: int| 0 <= m < kl implies content.subrange(k + 1, eq)[m] == a.key[m] by {
                assert(content[k + 1 + m] == h[1 + m]);
                assert(h[1 + m] == a.key[m]);
            }
        }
        assert(content.subrange(eq + 2, q) =~= a.value) by {
            assert forall|m: int| 0 <= m < vl implies content.subrange(eq + 2, q)[m]
                == a.value[m] by {
                assert(content[eq + 2 + m] == h[3 + kl + m]);
                assert(h[3 + kl + m] == a.value[m]);
            }
        }
        lemma_attrs_inversion(content, k + h.len(), attrs, ai + 1);
        assert(q + 1 == k + h.len());
        let parsed = SpecAttr {
            key: content.subrange(k + 1, eq),
            value: content.subrange(eq + 2, q),
        };
        assert(parsed == a);
        assert(seq![a] + attrs.subrange(ai + 1, attrs.len() as int) =~= attrs.subrange(
            ai,
            attrs.len() as int,
        ));
        assert(parse_attrs(content, k) == Some(attrs.subrange(ai, attrs.len() as int)));
    }
}

/// Reading from `pos` in text whose suffix is the printed form of the
/// events from `i` on recovers exactly those events.
proof fn lemma_write_read_from(s: Seq<char>, pos: int, evs: Seq<SpecEvent>, i: int)
    requires
        0 <= pos <= s.len(),
        0 <= i <= evs.len(),
        wf_events_from(evs, i),
        s.subrange(pos, s.len() as int) == write_from(evs, i),
    ensures
        read_from(s, pos) == Some(evs.subrange(i, evs.len() as int)),
    decreases evs.len() - i,
{
    let sl = s.len() as int;
    let el = evs.len() as int;
    if i == el {
        assert(s.subrange(pos, sl).len() == 0);
        assert(pos == sl);
        assert(read_from(s, pos) == Some(Seq::<SpecEvent>::empty()));
        assert(evs.subrange(i, el) =~= Seq::<SpecEvent>::empty());
    } else {
        let e = evs[i];
        assert(wf_event(e));
        lemma_event_chars_facts(e);
        let a = event_chars(e);
        let b = write_from(evs, i + 1);
        assert(write_from(evs, i) == a + b);
        lemma_seq_suffix(s, pos, a, b);
        let pos2 = pos + a.len();
        lemma_write_read_from(s, pos2, evs, i + 1);
        match e {
            SpecEvent::Text(t) => {
                lemma_text_case(s, pos, evs, i, t);
            },
            SpecEvent::End(n) => {
                lemma_end_case(s, pos, evs, i, n);
            },
            SpecEvent::Start(n, attrs) => {
                lemma_tag_case(s, pos, evs, i, n, attrs, false);
            },
            SpecEvent::Empty(n, attrs) => {
                lemma_tag_case(s, pos, evs, i, n, attrs, true);
            },
        }
    }
}

/// The text case of the inversion: the reader takes characters up to the
/// next `<` (or the end) as one text event.
#[verifier::rlimit(60)]
proof fn lemma_text_case(s: Seq<char>, pos: int, evs: Seq<SpecEvent>, i: int, t: Seq<char>)
    requires
        0 <= pos <= s.len(),
        0 <= i < evs.len(),
        wf_events_from(evs, i),
        s.subrange(pos, s.len() as int) == write_from(evs, i),
        evs[i] == SpecEvent::Text(t),
        read_from(s, pos + event_chars(evs[i]).len()) == Some(
            evs.subrange(i + 1, evs.len() as int),
        ),
    ensures
        read_from(s, pos) == Some(evs.subrange(i, evs.len() as int)),
{
    let sl = s.len() as int;
    let el = evs.len() as int;
    let e = evs[i];
    assert(wf_event(e));
    let a = event_chars(e);
    let b = write_from(evs, i + 1);
    assert(write_from(evs, i) == a + b);
    lemma_seq_suffix(s, pos, a, b);
    let pos2 = pos + a.len();
    let rest = evs.subrange(i + 1, el);
    lemma_escape_clean_identity(t);
    assert(a == t);
    assert(t.len() > 0);
    assert(s[pos] == t[0]);
    assert(clean_char(t[0]));
    assert(s[pos] != '<');
    assert forall|m: int| pos <= m < pos2 implies s[m] != '<' by {
        assert(s[m] == t[m - pos]);
        assert(clean_char(t[m - pos]));
    }
    if i + 1 == el {
        assert(pos2 == sl);
        lemma_find_char_region(s, '<', pos, sl);
        assert(find_char(s, '<', pos) is None);
    } else {
        let e2 = evs[i + 1];
        assert(wf_event(e2));
        assert(!(e2 is Text));
        lemma_event_chars_facts(e2);
        assert(b[0] == event_chars(e2)[0]) by {
            assert(b == event_chars(e2) + write_from(evs, i + 2));
        }
        assert(s[pos2] == b[0]);
        assert(s[pos2] == '<');
        lemma_find_char_region(s, '<', pos, pos2);
    }
    assert(s.subrange(pos, pos2) =~= t) by {
        assert forall|m: int| 0 <= m < t.len() implies s.subrange(pos, pos2)[m] == t[m] by {
            assert(s[pos + m] == a[m]);
        }
    }
    assert(read_from(s, pos) == Some(seq![SpecEvent::Text(t)] + rest));
    assert(seq![SpecEvent::Text(t)] + rest =~= evs.subrange(i, el));
}

/// The end-tag case of the inversion.
#[verifier::rlimit(60)]
proof fn lemma_end_case(s: Seq<char>, pos: int, evs: Seq<SpecEvent>, i: int, n: Seq<char>)
    requires
        0 <= pos <= s.len(),
        0 <= i < evs.len(),
        wf_events_from(evs, i),
        s.subrange(pos, s.len() as int) == write_from(evs, i),
        evs[i] == SpecEvent::End(n),
        read_from(s, pos + event_chars(evs[i]).len()) == Some(
            evs.subrange(i + 1, evs.len() as int),
        ),
    ensures
        read_from(s, pos) == Some(evs.subrange(i, evs.len() as int)),
{
    let sl = s.len() as int;
    let el = evs.len() as int;
    let e = evs[i];
    assert(wf_event(e));
    let a = event_chars(e);
    let b = write_from(evs, i + 1);
    assert(write_from(evs, i) == a + b);
    lemma_seq_suffix(s, pos, a, b);
    let pos2 = pos + a.len();
    let rest = evs.subrange(i + 1, el);
    let nl = n.len() as int;
    assert(s[pos] == a[0]);
    assert(s[pos] == '<');
    let j = pos + 2 + nl;
    assert forall|m: int| pos + 1 <= m < j implies s[m] != '>' by {
        assert(s[m] == a[m - pos]);
        if m - pos >= 2 {
            assert(a[m - pos] == n[m - pos - 2]);
            assert(name_char(n[m - pos - 2]));
        } else {
            assert(a[m - pos] == '/');
        }
    }
    assert(s[j] == a[j - pos]);
    assert(s[j] == '>');
    assert(j < sl);
    lemma_find_char_region(s, '>', pos + 1, j);
    let inner = s.subrange(pos + 1, j);
    assert(inner =~= seq!['/'] + n) by {
        assert forall|m: int| 0 <= m < 1 + nl implies inner[m] == (seq!['/'] + n)[m] by {
            assert(s[pos + 1 + m] == a[1 + m]);
        }
    }
    assert(inner[0] == '/');
    assert(inner.len() > 1);
    assert(inner.subrange(1, inner.len() as int) =~= n);
    assert(parse_tag(inner) == Some(SpecEvent::End(n)));
    assert(j + 1 == pos2);
    assert(read_from(s, pos) == Some(seq![e] + rest));
    assert(seq![e] + rest =~= evs.subrange(i, el));
}

/// The start-tag and empty-tag cases of the inversion: the reader finds the
/// closing `>`, takes the name, and recovers the attributes.
#[verifier::rlimit(100)]
proof fn lemma_tag_case(
    s: Seq<char>,
    pos: int,
    evs: Seq<SpecEvent>,
    i: int,
    n: Seq<char>,
    attrs: Seq<SpecAttr>,
    empty: bool,
)
    requires
        0 <= pos <= s.len(),
        0 <= i < evs.len(),
        wf_events_from(evs, i),
        s.subrange(pos, s.len() as int) == write_from(evs, i),
        evs[i] == if empty {
            SpecEvent::Empty(n, attrs)
        } else {
            SpecEvent::Start(n, attrs)
        },
        read_from(s, pos + event_chars(evs[i]).len()) == Some(
            evs.subrange(i + 1, evs.len() as int),
        ),
    ensures
        read_from(s, pos) == Some(evs.subrange(i, evs.len() as int)),
{
    let sl = s.len() as int;
    let el = evs.len() as int;
    let e = evs[i];
    assert(wf_event(e));
    let a = event_chars(e);
    let b = write_from(evs, i + 1);
    assert(write_from(evs, i) == a + b);
    lemma_seq_suffix(s, pos, a, b);
    let pos2 = pos + a.len();
    let rest = evs.subrange(i + 1, el);
    let nl = n.len() as int;
    let ac = attrs_chars_from(attrs, 0);
    let acl = ac.len() as int;
    lemma_attrs_chars_facts(attrs, 0);
    let tail: Seq<char> = if empty {
        seq!['/', '>']
    } else {
        seq!['>']
    };
    assert(a == seq!['<'] + n + ac + tail);
    let innerlen = a.len() - 2;
    let j = pos + 1 + innerlen;
    assert(s[pos] == a[0]);
    assert(s[pos] == '<');
    assert forall|m: int| pos + 1 <= m < j implies s[m] != '>' by {
        let k = m - pos;
        assert(s[m] == a[k]);
        if k < 1 + nl {
            assert(a[k] == n[k - 1]);
            assert(name_char(n[k - 1]));
        } else if k < 1 + nl + acl {
            assert(a[k] == ac[k - 1 - nl]);
        } else {
            assert(empty);
            assert(a[k] == '/');
        }
    }
    assert(s[j] == a[j - pos]);
    assert(s[j] == '>');
    assert(j < sl);
    lemma_find_char_region(s, '>', pos + 1, j);
    let inner = s.subrange(pos + 1, j);
    let inner_s = if empty {
        n + ac + seq!['/']
    } else {
        n + ac
    };
    assert(inner =~= inner_s) by {
        assert forall|m: int| 0 <= m < inner_s.len() implies inner[m] == inner_s[m] by {
            assert(s[pos + 1 + m] == a[1 + m]);
        }
    }
    // the tag body: name first, not a slash, and the empty mark only at the end
    assert(inner_s[0] == n[0]);
    assert(name_char(n[0]));
    assert(inner_s[0] != '/');
    let content = if empty {
        inner_s.drop_last()
    } else {
        inner_s
    };
    assert(content =~= n + ac);
    if empty {
        assert(inner_s.last() == '/');
    } else {
        if acl == 0 {
            assert(inner_s =~= n);
            assert(inner_s.last() == n[nl - 1]);
            assert(name_char(n[nl - 1]));
        } else {
            assert(inner_s.last() == ac.last());
            assert(ac.last() == '"');
        }
        assert(inner_s.last() != '/');
    }
    // the name ends exactly where the attribute text begins
    assert forall|m: int| 0 <= m < nl implies !is_ws(content[m]) by {
        assert(content[m] == n[m]);
        assert(name_char(n[m]));
    }
    if acl == 0 {
        assert(nl == content.len());
        lemma_name_end_region(content, 0, nl);
    } else {
        assert(content[nl] == ac[0]);
        assert(is_ws(content[nl]));
        lemma_name_end_region(content, 0, nl);
    }
    assert(name_end(content, 0) == nl);
    assert(content.subrange(0, nl) =~= n);
    assert(content.subrange(nl, content.len() as int) =~= ac);
    lemma_attrs_inversion(content, nl, attrs, 0);
    assert(attrs.subrange(0, attrs.len() as int) =~= attrs);
    assert(parse_tag(inner) == Some(e));
    assert(j + 1 == pos2);
    assert(read_from(s, pos) == Some(seq![e] + rest));
    assert(seq![e] + rest =~= evs.subrange(i, el));
}

/// Reading the printed form of a well-formed event sequence yields exactly
/// that sequence.
pub proof fn lemma_write_read(evs: Seq<SpecEvent>)
    requires
        wf_events(evs),
    ensures
        read_events_spec(write_events_spec(evs)) == Some(evs),
{
    let s = write_events_spec(evs);
    assert(s.subrange(0, s.len() as int) =~= write_from(evs, 0));
    lemma_write_read_from(s, 0, evs, 0);
    assert(evs.subrange(0, evs.len() as int) =~= evs);
}

} // verus!
