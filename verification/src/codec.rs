//! Helpers shared by the stanza codecs: attribute lookup by literal key and
//! the search for the first start tag.

use vstd::prelude::*;
use crate::chars::str_eq;
use crate::events::{Attr, SpecAttr, SpecEvent, attrs_view};

verus! {

/// The value of the attribute with the given key; where a key repeats, the
/// last occurrence wins.
pub open spec fn attr_lookup(attrs: Seq<SpecAttr>, key: Seq<char>) -> Option<Seq<char>>
    decreases attrs.len(),
{
    if attrs.len() == 0 {
        None
    } else if attrs.last().key == key {
        Some(attrs.last().value)
    } else {
        attr_lookup(attrs.drop_last(), key)
    }
}

/// Look an attribute up by key, the last occurrence winning.
pub fn attr_lookup_exec(attrs: &Vec<Attr>, key: &str) -> (r: Option<String>)
    ensures
        match r {
            Some(v) => attr_lookup(attrs_view(attrs@), key@) == Some(v@),
            None => attr_lookup(attrs_view(attrs@), key@) is None,
        },
{
    let n = attrs.len();
    let mut cur: Option<String> = None;
    let mut i: usize = 0;
    while i < n
        invariant
            n == attrs.len(),
            0 <= i <= n,
            match cur {
                Some(v) => attr_lookup(attrs_view(attrs@.subrange(0, i as int)), key@) == Some(v@),
                None => attr_lookup(attrs_view(attrs@.subrange(0, i as int)), key@) is None,
            },
        decreases n - i,
    {
        let hit = str_eq(attrs[i].key.as_str(), key);
        if hit {
            cur = Some(attrs[i].value.clone());
        }
        proof {
            let pre = attrs_view(attrs@.subrange(0, i as int));
            let now = attrs_view(attrs@.subrange(0, i + 1));
            assert(now.last() == attrs@[i as int]@);
            assert(now.drop_last() =~= pre);
        }
        i = i + 1;
    }
    proof {
        assert(attrs@.subrange(0, n as int) =~= attrs@);
    }
    cur
}

/// The name and attributes of the first start tag at or after `i`, if any.
pub open spec fn first_start(evs: Seq<SpecEvent>, i: int) -> Option<(Seq<char>, Seq<SpecAttr>)>
    decreases evs.len() - i,
{
    if i < 0 || i >= evs.len() {
        None
    } else {
        match evs[i] {
            SpecEvent::Start(n, a) => Some((n, a)),
            _ => first_start(evs, i + 1),
        }
    }
}

} // verus!
