//! The pull reader: wire text to a sequence of events. The grammar is the
//! fragment the handshake needs: start, empty and end tags with
//! double-quoted attributes, and text between tags. Nothing is unescaped;
//! attribute values and text are taken as they stand on the wire.

use vstd::prelude::*;
use vstd::string::*;
use crate::chars::is_ws;
use crate::error::{CodecError, SpecError};
use crate::events::{Attr, SpecAttr, SpecEvent, XmlEvent, attrs_view, events_view};

verus! {

/// Index of the first occurrence of `c` at or after `i`, if any.
pub open spec fn find_char(s: Seq<char>, c: char, i: int) -> Option<int>
    decreases s.len() - i,
{
    if i < 0 || i >= s.len() {
        None
    } else if s[i] == c {
        Some(i)
    } else {
        find_char(s, c, i + 1)
    }
}

/// Index of the first non-whitespace character at or after `i`, or the length.
pub open spec fn skip_ws(s: Seq<char>, i: int) -> int
    decreases s.len() - i,
{
    if i < 0 || i >= s.len() {
        s.len() as int
    } else if is_ws(s[i]) {
        skip_ws(s, i + 1)
    } else {
        i
    }
}

/// Index of the first whitespace character at or after `i`, or the length.
pub open spec fn name_end(s: Seq<char>, i: int) -> int
    decreases s.len() - i,
{
    if i < 0 || i >= s.len() {
        s.len() as int
    } else if is_ws(s[i]) {
        i
    } else {
        name_end(s, i + 1)
    }
}

pub proof fn lemma_find_char_props(s: Seq<char>, c: char, i: int)
    requires
        0 <= i,
    ensures
        match find_char(s, c, i) {
            Some(j) => i <= j < s.len() && s[j] == c && (forall|m: int|
                i <= m < j ==> s[m] != c),
            None => forall|m: int| i <= m < s.len() ==> s[m] != c,
        },
    decreases s.len() - i,
{
    if i >= s.len() {
    } else if s[i] == c {
    } else {
        lemma_find_char_props(s, c, i + 1);
    }
}

/// Where a `c`-free region ends at `j` (with `c` there, or the end), the
/// search from its start lands on `j`.
pub proof fn lemma_find_char_region(s: Seq<char>, c: char, i: int, j: int)
    requires
        0 <= i <= j <= s.len(),
        forall|m: int| i <= m < j ==> s[m] != c,
        j == s.len() || s[j] == c,
    ensures
        find_char(s, c, i) == if j == s.len() {
            None::<int>
        } else {
            Some(j)
        },
    decreases j - i,
{
    if i == j {
    } else {
        lemma_find_char_region(s, c, i + 1, j);
    }
}

pub proof fn lemma_skip_ws_region(s: Seq<char>, i: int, j: int)
    requires
        0 <= i <= j <= s.len(),
        forall|m: int| i <= m < j ==> is_ws(s[m]),
        j == s.len() || !is_ws(s[j]),
    ensures
        skip_ws(s, i) == j,
    decreases j - i,
{
    if i == j {
    } else {
        lemma_skip_ws_region(s, i + 1, j);
    }
}

pub proof fn lemma_skip_ws_props(s: Seq<char>, i: int)
    requires
        0 <= i <= s.len(),
    ensures
        i <= skip_ws(s, i) <= s.len(),
    decreases s.len() - i,
{
    if i < s.len() && is_ws(s[i]) {
        lemma_skip_ws_props(s, i + 1);
    }
}

pub proof fn lemma_name_end_region(s: Seq<char>, i: int, j: int)
    requires
        0 <= i <= j <= s.len(),
        forall|m: int| i <= m < j ==> !is_ws(s[m]),
        j == s.len() || is_ws(s[j]),
    ensures
        name_end(s, i) == j,
    decreases j - i,
{
    if i == j {
    } else {
        lemma_name_end_region(s, i + 1, j);
    }
}

/// Attributes parsed from `s` at or after `i`: whitespace, then a key up to
/// `=`, a double-quoted value, and so on until the text runs out.
pub open spec fn parse_attrs(s: Seq<char>, i: int) -> Option<Seq<SpecAttr>>
    decreases s.len() - i,
    via parse_attrs_dec
{
    if i < 0 || i >= s.len() {
        Some(Seq::empty())
    } else {
        let j = skip_ws(s, i);
        if j >= s.len() {
            Some(Seq::empty())
        } else {
            match find_char(s, '=', j) {
                None => None,
                Some(eq) => if eq == j || eq + 1 >= s.len() || s[eq + 1] != '"' {
                    None
                } else {
                    match find_char(s, '"', eq + 2) {
                        None => None,
                        Some(q) => {
                            let a = SpecAttr {
                                key: s.subrange(j, eq),
                                value: s.subrange(eq + 2, q),
                            };
                            match parse_attrs(s, q + 1) {
                                None => None,
                                Some(rest) => Some(seq![a] + rest),
                            }
                        },
                    }
                },
            }
        }
    }
}

#[via_fn]
proof fn parse_attrs_dec(s: Seq<char>, i: int) {
    if 0 <= i < s.len() {
        lemma_skip_ws_props(s, i);
        let j = skip_ws(s, i);
        if j < s.len() {
            lemma_find_char_props(s, '=', j);
            match find_char(s, '=', j) {
                None => {},
                Some(eq) => {
                    if !(eq == j || eq + 1 >= s.len() || s[eq + 1] != '"') {
                        lemma_find_char_props(s, '"', eq + 2);
                    }
                },
            }
        }
    }
}

/// The event encoded by the text between `<` and `>`.
pub open spec fn parse_tag(inner: Seq<char>) -> Option<SpecEvent> {
    if inner.len() == 0 {
        None
    } else if inner[0] == '/' {
        if inner.len() == 1 {
            None
        } else {
            Some(SpecEvent::End(inner.subrange(1, inner.len() as int)))
        }
    } else {
        let empty = inner.last() == '/';
        let content = if empty {
            inner.drop_last()
        } else {
            inner
        };
        let ne = name_end(content, 0);
        if ne == 0 {
            None
        } else {
            let name = content.subrange(0, ne);
            match parse_attrs(content, ne) {
                None => None,
                Some(attrs) => Some(
                    if empty {
                        SpecEvent::Empty(name, attrs)
                    } else {
                        SpecEvent::Start(name, attrs)
                    },
                ),
            }
        }
    }
}

/// Events read from `s` at or after `i`. `None` is a malformed fragment: an
/// unterminated tag, a tag without a name, or a broken attribute.
pub open spec fn read_from(s: Seq<char>, i: int) -> Option<Seq<SpecEvent>>
    decreases s.len() - i,
    via read_from_dec
{
    if i < 0 || i >= s.len() {
        Some(Seq::empty())
    } else if s[i] == '<' {
        match find_char(s, '>', i + 1) {
            None => None,
            Some(j) => match parse_tag(s.subrange(i + 1, j)) {
                None => None,
                Some(e) => match read_from(s, j + 1) {
                    None => None,
                    Some(rest) => Some(seq![e] + rest),
                },
            },
        }
    } else {
        let j = match find_char(s, '<', i) {
            None => s.len() as int,
            Some(j) => j,
        };
        let t = s.subrange(i, j);
        match read_from(s, j) {
            None => None,
            Some(rest) => Some(seq![SpecEvent::Text(t)] + rest),
        }
    }
}

#[via_fn]
proof fn read_from_dec(s: Seq<char>, i: int) {
    if 0 <= i < s.len() {
        if s[i] == '<' {
            lemma_find_char_props(s, '>', i + 1);
        } else {
            lemma_find_char_props(s, '<', i);
        }
    }
}

/// Events read from a whole fragment.
pub open spec fn read_events_spec(s: Seq<char>) -> Option<Seq<SpecEvent>> {
    read_from(s, 0)
}

fn find_char_exec(s: &str, c: char, i: usize) -> (r: Option<usize>)
    ensures
        match r {
            Some(j) => i <= j && (j as int) < s@.len() && find_char(s@, c, i as int) == Some(
                j as int,
            ),
            None => find_char(s@, c, i as int) is None,
        },
{
    let n = s.unicode_len();
    if i >= n {
        return None;
    }
    let mut j = i;
    while j < n
        invariant
            n == s@.len(),
            i <= j <= n,
            find_char(s@, c, i as int) == find_char(s@, c, j as int),
        decreases n - j,
    {
        if s.get_char(j) == c {
            return Some(j);
        }
        j = j + 1;
    }
    None
}

fn skip_ws_exec(s: &str, i: usize) -> (r: usize)
    ensures
        r as int == skip_ws(s@, i as int),
        r as int <= s@.len(),
        i as int <= s@.len() ==> i <= r,
{
    let n = s.unicode_len();
    if i >= n {
        return n;
    }
    let mut j = i;
    while j < n
        invariant
            n == s@.len(),
            i <= j <= n,
            skip_ws(s@, i as int) == skip_ws(s@, j as int),
        decreases n - j,
    {
        if !is_ws_exec(s.get_char(j)) {
            return j;
        }
        j = j + 1;
    }
    n
}

fn name_end_exec(s: &str, i: usize) -> (r: usize)
    ensures
        r as int == name_end(s@, i as int),
        r as int <= s@.len(),
        i as int <= s@.len() ==> i <= r,
{
    let n = s.unicode_len();
    if i >= n {
        return n;
    }
    let mut j = i;
    while j < n
        invariant
            n == s@.len(),
            i <= j <= n,
            name_end(s@, i as int) == name_end(s@, j as int),
        decreases n - j,
    {
        if is_ws_exec(s.get_char(j)) {
            return j;
        }
        j = j + 1;
    }
    n
}

fn is_ws_exec(c: char) -> (r: bool)
    ensures
        r == is_ws(c),
{
    c == ' ' || c == '\t' || c == '\n' || c == '\r'
}

fn parse_attrs_exec(s: &str, i: usize) -> (r: Option<Vec<Attr>>)
    ensures
        match r {
            Some(v) => parse_attrs(s@, i as int) == Some(attrs_view(v@)),
            None => parse_attrs(s@, i as int) is None,
        },
    decreases s@.len() - i,
{
    let n = s.unicode_len();
    if i >= n {
        proof {
            assert(parse_attrs(s@, i as int) =~~= Some(attrs_view(Seq::<Attr>::empty())));
        }
        return Some(Vec::new());
    }
    let j = skip_ws_exec(s, i);
    if j >= n {
        proof {
            assert(parse_attrs(s@, i as int) =~~= Some(attrs_view(Seq::<Attr>::empty())));
        }
        return Some(Vec::new());
    }
    let eq = match find_char_exec(s, '=', j) {
        None => {
            return None;
        },
        Some(e) => e,
    };
    if eq == j {
        return None;
    }
    if eq + 1 >= n {
        return None;
    }
    if s.get_char(eq + 1) != '"' {
        return None;
    }
    let q = match find_char_exec(s, '"', eq + 2) {
        None => {
            return None;
        },
        Some(q) => q,
    };
    let key = String::from_str(s.substring_char(j, eq));
    let value = String::from_str(s.substring_char(eq + 2, q));
    match parse_attrs_exec(s, q + 1) {
        None => None,
        Some(mut rest) => {
            rest.insert(0, Attr { key, value });
            proof {
                let a = SpecAttr { key: s@.subrange(j as int, eq as int), value: s@.subrange(eq + 2, q as int) };
                assert(attrs_view(rest@)[0] == rest@[0]@);
                assert(attrs_view(rest@) =~~= seq![a] + attrs_view(rest@.drop_first()));
            }
            Some(rest)
        },
    }
}

fn parse_tag_exec(inner: &str) -> (r: Option<XmlEvent>)
    ensures
        match r {
            Some(e) => parse_tag(inner@) == Some(e@),
            None => parse_tag(inner@) is None,
        },
{
    let n = inner.unicode_len();
    if n == 0 {
        return None;
    }
    if inner.get_char(0) == '/' {
        if n == 1 {
            return None;
        }
        let name = String::from_str(inner.substring_char(1, n));
        proof {
            assert(parse_tag(inner@) =~~= Some(SpecEvent::End(name@)));
        }
        return Some(XmlEvent::End(name));
    }
    let empty = inner.get_char(n - 1) == '/';
    let clen = if empty {
        n - 1
    } else {
        n
    };
    let content = inner.substring_char(0, clen);
    proof {
        if empty {
            assert(content@ =~= inner@.drop_last());
        } else {
            assert(content@ =~= inner@);
        }
    }
    let ne = name_end_exec(content, 0);
    if ne == 0 {
        return None;
    }
    let name = String::from_str(content.substring_char(0, ne));
    match parse_attrs_exec(content, ne) {
        None => None,
        Some(attrs) => {
            let e = if empty {
                XmlEvent::Empty(name, attrs)
            } else {
                XmlEvent::Start(name, attrs)
            };
            proof {
                assert(parse_tag(inner@) =~~= Some(e@));
            }
            Some(e)
        },
    }
}

fn read_events_from(s: &str, i: usize) -> (r: Result<Vec<XmlEvent>, CodecError>)
    ensures
        match r {
            Ok(v) => read_from(s@, i as int) == Some(events_view(v@)),
            Err(e) => read_from(s@, i as int) is None && e@ == SpecError::ParseFailure,
        },
    decreases s@.len() - i,
{
    let n = s.unicode_len();
    if i >= n {
        proof {
            assert(read_from(s@, i as int) =~~= Some(events_view(Seq::<XmlEvent>::empty())));
        }
        return Ok(Vec::new());
    }
    if s.get_char(i) == '<' {
        let j = match find_char_exec(s, '>', i + 1) {
            None => {
                return Err(CodecError::ParseFailure);
            },
            Some(j) => j,
        };
        let inner = s.substring_char(i + 1, j);
        let e = match parse_tag_exec(inner) {
            None => {
                return Err(CodecError::ParseFailure);
            },
            Some(e) => e,
        };
        match read_events_from(s, j + 1) {
            Err(er) => Err(er),
            Ok(mut rest) => {
                rest.insert(0, e);
                proof {
                    assert(events_view(rest@) =~~= seq![rest@[0]@] + events_view(
                        rest@.drop_first(),
                    ));
                }
                Ok(rest)
            },
        }
    } else {
        proof {
            lemma_find_char_props(s@, '<', i as int);
        }
        let j = match find_char_exec(s, '<', i) {
            None => n,
            Some(j) => j,
        };
        let t = String::from_str(s.substring_char(i, j));
        match read_events_from(s, j) {
            Err(er) => Err(er),
            Ok(mut rest) => {
                rest.insert(0, XmlEvent::Text(t));
                proof {
                    assert(events_view(rest@) =~~= seq![rest@[0]@] + events_view(
                        rest@.drop_first(),
                    ));
                }
                Ok(rest)
            },
        }
    }
}

/// Read a whole fragment into its events.
pub fn read_events(s: &str) -> (r: Result<Vec<XmlEvent>, CodecError>)
    ensures
        match r {
            Ok(v) => read_events_spec(s@) == Some(events_view(v@)),
            Err(e) => read_events_spec(s@) is None && e@ == SpecError::ParseFailure,
        },
{
    read_events_from(s, 0)
}

} // verus!
