//! The persisted text form of the identity-to-label map: one JSON object with
//! identities as keys and label texts as values.

use vstd::prelude::*;
use crate::geo_map::{lookup_text, GeoMap};

verus! {

/// What serde_json writes for a string: the quoted, escaped JSON string.
pub uninterp spec fn json_quoted(s: Seq<char>) -> Seq<char>;

/// What serde_json reads from a text as an object of string values: the
/// (key, value) pairs, or `None` where the text is not such an object.
pub uninterp spec fn parsed_object(text: Seq<char>) -> Option<Seq<(Seq<char>, Seq<char>)>>;

/// The characters of (key, value) string pairs.
pub open spec fn pair_views(s: Seq<(String, String)>) -> Seq<(Seq<char>, Seq<char>)> {
    s.map_values(|e: (String, String)| (e.0@, e.1@))
}

/// No key occurs twice among (key, value) pairs.
pub open spec fn view_keys_unique(s: Seq<(Seq<char>, Seq<char>)>) -> bool {
    forall|i: int, j: int| 0 <= i < j < s.len() ==> s[i].0 != s[j].0
}

/// The value that pairs give a key; a later pair wins over an earlier one.
pub open spec fn lookup_view(s: Seq<(Seq<char>, Seq<char>)>, k: Seq<char>) -> Option<Seq<char>>
    decreases s.len(),
{
    if s.len() == 0 {
        None
    } else if s.last().0 == k {
        Some(s.last().1)
    } else {
        lookup_view(s.drop_last(), k)
    }
}

/// The members of a JSON object, separated by commas.
pub open spec fn object_members(s: Seq<(Seq<char>, Seq<char>)>) -> Seq<char>
    decreases s.len(),
{
    if s.len() == 0 {
        Seq::empty()
    } else {
        let sep = if s.len() > 1 {
            ","@
        } else {
            Seq::empty()
        };
        object_members(s.drop_last()) + sep + json_quoted(s.last().0) + ":"@ + json_quoted(
            s.last().1,
        )
    }
}

/// The JSON object text of (key, value) pairs, in order.
pub open spec fn object_text(s: Seq<(Seq<char>, Seq<char>)>) -> Seq<char> {
    "{"@ + object_members(s) + "}"@
}

/// Relies on serde_json::to_string on a `&str`: the JSON string literal for the
/// text, a function of the text alone.
#[verifier::external_body]
fn quote(s: &str) -> (r: String)
    ensures
        r@ == json_quoted(s@),
{
    match serde_json::to_string(s) {
        Ok(q) => q,
        Err(_) => String::new(),
    }
}

/// Relies on serde_json::from_str into a `BTreeMap<String, String>`: the
/// object's pairs in key order, each key once, or an error where the text is
/// not an object of string values.
#[verifier::external_body]
fn parse_object(text: &str) -> (r: Option<Vec<(String, String)>>)
    ensures
        r is Some <==> parsed_object(text@) is Some,
        r matches Some(v) ==> pair_views(v@) == parsed_object(text@)->0 && view_keys_unique(
            pair_views(v@),
        ),
{
    match serde_json::from_str::<std::collections::BTreeMap<String, String>>(text) {
        Ok(m) => Some(m.into_iter().collect()),
        Err(_) => None,
    }
}

proof fn lemma_lookup_views(s: Seq<(String, String)>, k: Seq<char>)
    ensures
        lookup_text(s, k) == lookup_view(pair_views(s), k),
    decreases s.len(),
{
    if s.len() > 0 {
        assert(pair_views(s).drop_last() =~= pair_views(s.drop_last()));
        lemma_lookup_views(s.drop_last(), k);
    }
}

/// Reads a persisted map. `None` where the text is not a JSON object of
/// string values.
pub fn load_geo_map(text: &str) -> (r: Option<GeoMap>)
    ensures
        r is Some <==> parsed_object(text@) is Some,
        r matches Some(m) ==> m.wf() && forall|k: Seq<char>| #[trigger]
            m.get(k) == lookup_view(parsed_object(text@)->0, k),
{
    match parse_object(text) {
        None => None,
        Some(pairs) => {
            let mut m = GeoMap::new();
            let mut i: usize = 0;
            while i < pairs.len()
                invariant
                    i <= pairs@.len(),
                    m.wf(),
                    forall|k: Seq<char>| #[trigger]
                        m.get(k) == lookup_text(pairs@.take(i as int), k),
                decreases pairs@.len() - i,
            {
                assert(pairs@.take(i as int + 1).drop_last() =~= pairs@.take(i as int));
                let key = pairs[i].0.clone();
                let value = pairs[i].1.clone();
                m.insert(key, value);
                i += 1;
            }
            assert(pairs@.take(pairs@.len() as int) =~= pairs@);
            assert forall|k: Seq<char>| #[trigger]
                m.get(k) == lookup_view(parsed_object(text@)->0, k) by {
                lemma_lookup_views(pairs@, k);
            }
            Some(m)
        },
    }
}

/// Writes a map as its persisted JSON object text, entries in map order.
pub fn geo_map_json(m: &GeoMap) -> (r: String)
    ensures
        r@ == object_text(pair_views(m.entries())),
{
    let entries = m.entries_vec();
    let mut body = String::new();
    let mut i: usize = 0;
    while i < entries.len()
        invariant
            i <= entries@.len(),
            body@ == object_members(pair_views(entries@.take(i as int))),
        decreases entries@.len() - i,
    {
        let ghost prev = pair_views(entries@.take(i as int));
        let ghost next = pair_views(entries@.take(i as int + 1));
        assert(next.drop_last() =~= prev);
        assert(next.last() == (entries@[i as int].0@, entries@[i as int].1@));
        if i > 0 {
            body.append(",");
        }
        let k = quote(entries[i].0.as_str());
        let v = quote(entries[i].1.as_str());
        body.append(k.as_str());
        body.append(":");
        body.append(v.as_str());
        proof {
            if i > 0 {
                assert(body@ =~= object_members(prev) + ","@ + json_quoted(next.last().0) + ":"@ + json_quoted(
                    next.last().1,
                ));
            } else {
                assert(body@ =~= object_members(prev) + Seq::<char>::empty() + json_quoted(next.last().0) + ":"@
                    + json_quoted(next.last().1));
            }
        }
        i += 1;
    }
    assert(entries@.take(entries@.len() as int) =~= entries@);
    let mut r = String::from_str("{");
    r.append(body.as_str());
    r.append("}");
    r
}

} // verus!
