//! The identity-to-label map: built by the generator from the resolved
//! addresses, persisted as text, and read by the router.

use vstd::prelude::*;
use crate::address::{usable_records, Address, ClusterNode};
use crate::geo::{label_text, GeoLabel};
use crate::orchestrator::{find_label, lookup_label};

verus! {

/// The value that a list of (key, value) entries gives a key; a later entry
/// wins over an earlier one.
pub open spec fn lookup_text(s: Seq<(String, String)>, k: Seq<char>) -> Option<Seq<char>>
    decreases s.len(),
{
    if s.len() == 0 {
        None
    } else if s.last().0@ == k {
        Some(s.last().1@)
    } else {
        lookup_text(s.drop_last(), k)
    }
}

/// No key occurs twice.
pub open spec fn keys_unique(s: Seq<(String, String)>) -> bool {
    forall|i: int, j: int| 0 <= i < j < s.len() ==> s[i].0@ != s[j].0@
}

/// Number of entries whose value is a given text.
pub open spec fn count_value(s: Seq<(String, String)>, v: Seq<char>) -> nat
    decreases s.len(),
{
    if s.len() == 0 {
        0
    } else {
        count_value(s.drop_last(), v) + if s.last().1@ == v {
            1nat
        } else {
            0nat
        }
    }
}

proof fn lemma_lookup_push(s: Seq<(String, String)>, e: (String, String), k: Seq<char>)
    ensures
        lookup_text(s.push(e), k) == if e.0@ == k {
            Some(e.1@)
        } else {
            lookup_text(s, k)
        },
{
    assert(s.push(e).drop_last() =~= s);
}

proof fn lemma_lookup_update(s: Seq<(String, String)>, j: int, e: (String, String), k: Seq<char>)
    requires
        keys_unique(s),
        0 <= j < s.len(),
        s[j].0@ == e.0@,
    ensures
        lookup_text(s.update(j, e), k) == if e.0@ == k {
            Some(e.1@)
        } else {
            lookup_text(s, k)
        },
    decreases s.len(),
{
    let t = s.update(j, e);
    if j == s.len() - 1 {
        assert(t.drop_last() =~= s.drop_last());
    } else {
        assert(t.drop_last() =~= s.drop_last().update(j, e));
        assert(t.last() == s.last());
        lemma_lookup_update(s.drop_last(), j, e, k);
    }
}

/// An identity-to-label map, as (identity, label text) entries.
pub struct GeoMap {
    entries: Vec<(String, String)>,
}

impl GeoMap {
    /// The entries, in insertion order.
    pub closed spec fn entries(&self) -> Seq<(String, String)> {
        self.entries@
    }

    /// The label text that the map gives an identity.
    pub open spec fn get(&self, k: Seq<char>) -> Option<Seq<char>> {
        lookup_text(self.entries(), k)
    }

    pub open spec fn wf(&self) -> bool {
        keys_unique(self.entries())
    }

    /// The empty map.
    pub fn new() -> (r: GeoMap)
        ensures
            r.wf(),
            r.entries().len() == 0,
            forall|k: Seq<char>| r.get(k) is None,
    {
        GeoMap { entries: Vec::new() }
    }

    /// Number of identities in the map.
    pub fn len(&self) -> (r: usize)
        ensures
            r == self.entries().len(),
    {
        self.entries.len()
    }

    /// The entries, in insertion order.
    pub fn entries_vec(&self) -> (r: &Vec<(String, String)>)
        ensures
            r@ == self.entries(),
    {
        &self.entries
    }

    /// Sets the label text of an identity, replacing any earlier one.
    pub fn insert(&mut self, key: String, value: String)
        requires
            old(self).wf(),
        ensures
            final(self).wf(),
            forall|k: Seq<char>|
                #[trigger] final(self).get(k) == if k == key@ {
                    Some(value@)
                } else {
                    old(self).get(k)
                },
    {
        let ghost s = self.entries@;
        let ghost e = (key, value);
        let mut i: usize = 0;
        while i < self.entries.len()
            invariant
                self.entries@ == s,
                old(self).entries@ == s,
                e == (key, value),
                keys_unique(s),
                i <= s.len(),
                forall|j: int| 0 <= j < i ==> s[j].0@ != key@,
            decreases s.len() - i,
        {
            if self.entries[i].0 == key {
                let pair = (key, value);
                assert(pair == e);
                self.entries.set(i, pair);
                proof {
                    assert(self.entries@ == s.update(i as int, e));
                    assert forall|k: Seq<char>| #[trigger]
                        self.get(k) == if k == e.0@ {
                            Some(e.1@)
                        } else {
                            old(self).get(k)
                        } by {
                        lemma_lookup_update(s, i as int, e, k);
                    }
                }
                return;
            }
            i += 1;
        }
        self.entries.push((key, value));
        proof {
            assert(self.entries@ == s.push(e));
            assert forall|k: Seq<char>| #[trigger]
                self.get(k) == if k == e.0@ {
                    Some(e.1@)
                } else {
                    old(self).get(k)
                } by {
                lemma_lookup_push(s, e, k);
            }
        }
    }

    /// The label text of an identity, if the map has one.
    pub fn get_label(&self, key: &String) -> (r: Option<String>)
        ensures
            match r {
                Some(v) => self.get(key@) == Some(v@),
                None => self.get(key@) is None,
            },
    {
        let mut i: usize = self.entries.len();
        assert(self.entries@.take(i as int) =~= self.entries@);
        while i > 0
            invariant
                i <= self.entries@.len(),
                lookup_text(self.entries@, key@) == lookup_text(self.entries@.take(i as int), key@),
            decreases i,
        {
            assert(self.entries@.take(i as int).drop_last() =~= self.entries@.take(i as int - 1));
            if self.entries[i - 1].0 == *key {
                return Some(self.entries[i - 1].1.clone());
            }
            i -= 1;
        }
        None
    }
}

/// The label that the generator gives an identity: that of the last record of
/// the identity whose address was resolved.
pub open spec fn built_label(
    records: Seq<(String, Address)>,
    table: Seq<(Address, GeoLabel)>,
    k: Seq<char>,
) -> Option<GeoLabel>
    decreases records.len(),
{
    if records.len() == 0 {
        None
    } else if records.last().0@ == k && find_label(table, records.last().1) is Some {
        find_label(table, records.last().1)
    } else {
        built_label(records.drop_last(), table, k)
    }
}

/// The persisted text of an optional label.
pub open spec fn label_text_of(l: Option<GeoLabel>) -> Option<Seq<char>> {
    match l {
        Some(l) => Some(label_text(l)),
        None => None,
    }
}

/// Joins (identity, address) records with the address-to-label table: an
/// identity gets the label of its address, and is left out where its address
/// was not resolved.
pub fn build_geo_map(records: &Vec<(String, Address)>, table: &Vec<(Address, GeoLabel)>) -> (r:
    GeoMap)
    ensures
        r.wf(),
        forall|k: Seq<char>| #[trigger] r.get(k) == label_text_of(built_label(records@, table@, k)),
{
    let mut m = GeoMap::new();
    let mut i: usize = 0;
    while i < records.len()
        invariant
            i <= records@.len(),
            m.wf(),
            forall|k: Seq<char>| #[trigger]
                m.get(k) == label_text_of(built_label(records@.take(i as int), table@, k)),
        decreases records@.len() - i,
    {
        assert(records@.take(i as int + 1).drop_last() =~= records@.take(i as int));
        assert(records@.take(i as int + 1).last() == records@[i as int]);
        let rec = &records[i];
        match lookup_label(table, rec.1) {
            Some(l) => {
                m.insert(rec.0.clone(), String::from_str(l.as_str()));
            },
            None => {},
        }
        i += 1;
    }
    assert(records@.take(records@.len() as int) =~= records@);
    m
}

/// The whole generator join: usable records of the nodes, then their labels.
pub open spec fn generated_label(
    nodes: Seq<ClusterNode>,
    table: Seq<(Address, GeoLabel)>,
    k: Seq<char>,
) -> Option<GeoLabel> {
    built_label(usable_records(nodes), table, k)
}

/// Number of identities in the map with a given label.
pub fn count_label(m: &GeoMap, l: GeoLabel) -> (r: usize)
    ensures
        r == count_value(m.entries(), label_text(l)),
{
    let text = String::from_str(l.as_str());
    let entries = m.entries_vec();
    let mut n: usize = 0;
    let mut i: usize = 0;
    while i < entries.len()
        invariant
            i <= entries@.len(),
            n == count_value(entries@.take(i as int), label_text(l)),
            n <= i,
            text@ == label_text(l),
        decreases entries@.len() - i,
    {
        assert(entries@.take(i as int + 1).drop_last() =~= entries@.take(i as int));
        if entries[i].1 == text {
            n += 1;
        }
        i += 1;
    }
    assert(entries@.take(entries@.len() as int) =~= entries@);
    n
}

/// Every label, each once.
pub fn all_labels() -> (r: Vec<GeoLabel>)
    ensures
        r@.no_duplicates(),
        forall|l: GeoLabel| r@.contains(l),
{
    let r = vec![
        GeoLabel::Europe,
        GeoLabel::NorthAmerica,
        GeoLabel::SouthAmerica,
        GeoLabel::Africa,
        GeoLabel::Asia,
        GeoLabel::Oceania,
        GeoLabel::MiddleEast,
        GeoLabel::Unknown,
    ];
    assert forall|l: GeoLabel| r@.contains(l) by {
        match l {
            GeoLabel::Europe => assert(r@[0] == l),
            GeoLabel::NorthAmerica => assert(r@[1] == l),
            GeoLabel::SouthAmerica => assert(r@[2] == l),
            GeoLabel::Africa => assert(r@[3] == l),
            GeoLabel::Asia => assert(r@[4] == l),
            GeoLabel::Oceania => assert(r@[5] == l),
            GeoLabel::MiddleEast => assert(r@[6] == l),
            GeoLabel::Unknown => assert(r@[7] == l),
        }
    }
    r
}

/// The label distribution of a map: each label present with its number of
/// identities, most frequent first.
pub fn label_counts(m: &GeoMap) -> (r: Vec<(GeoLabel, usize)>)
    ensures
        forall|i: int|
            0 <= i < r@.len() ==> r@[i].1 == count_value(m.entries(), label_text(r@[i].0))
                && r@[i].1 > 0,
        forall|i: int, j: int| 0 <= i < j < r@.len() ==> r@[i].0 != r@[j].0,
        forall|i: int, j: int| 0 <= i < j < r@.len() ==> r@[i].1 >= r@[j].1,
        forall|l: GeoLabel|
            count_value(m.entries(), label_text(l)) > 0 ==> exists|i: int|
                0 <= i < r@.len() && r@[i].0 == l,
{
    let labels = all_labels();
    let mut r: Vec<(GeoLabel, usize)> = Vec::new();
    let mut k: usize = 0;
    while k < labels.len()
        invariant
            k <= labels@.len(),
            labels@.no_duplicates(),
            forall|l: GeoLabel| labels@.contains(l),
            forall|i: int|
                0 <= i < r@.len() ==> r@[i].1 == count_value(m.entries(), label_text(r@[i].0))
                    && r@[i].1 > 0,
            forall|i: int| 0 <= i < r@.len() ==> labels@.take(k as int).contains(#[trigger] r@[i].0),
            forall|i: int, j: int| 0 <= i < j < r@.len() ==> r@[i].0 != r@[j].0,
            forall|i: int, j: int| 0 <= i < j < r@.len() ==> r@[i].1 >= r@[j].1,
            forall|q: int|
                0 <= q < k && count_value(m.entries(), label_text(labels@[q])) > 0
                    ==> exists|i: int| 0 <= i < r@.len() && r@[i].0 == labels@[q],
        decreases labels@.len() - k,
    {
        let l = labels[k];
        let c = count_label(m, l);
        let ghost before = r@;
        assert(labels@.take(k as int + 1) =~= labels@.take(k as int).push(l));
        assert(!labels@.take(k as int).contains(l));
        if c > 0 {
            let mut p: usize = 0;
            while p < r.len() && r[p].1 >= c
                invariant
                    p <= r@.len(),
                    r@ == before,
                    forall|j: int| 0 <= j < p ==> r@[j].1 >= c,
                decreases r@.len() - p,
            {
                p += 1;
            }
            assert(forall|j: int| p <= j < r@.len() ==> r@[j].1 < c) by {
                if p < r@.len() {
                    assert(r@[p as int].1 < c);
                }
            }
            r.insert(p, (l, c));
            assert(r@ == before.insert(p as int, (l, c)));
            assert forall|i: int| 0 <= i < r@.len() implies labels@.take(
                k as int + 1,
            ).contains(#[trigger] r@[i].0) by {
                if i < p {
                    assert(r@[i] == before[i]);
                    assert(labels@.take(k as int).contains(before[i].0));
                } else if i == p {
                    assert(labels@.take(k as int + 1)[k as int] == l);
                } else {
                    assert(r@[i] == before[i - 1]);
                    assert(labels@.take(k as int).contains(before[i - 1].0));
                }
            }
            assert forall|q: int|
                0 <= q < k + 1 && count_value(m.entries(), label_text(labels@[q])) > 0 implies exists|
                i: int,
            | 0 <= i < r@.len() && r@[i].0 == labels@[q] by {
                if q < k {
                    let i0 = choose|i: int| 0 <= i < before.len() && before[i].0 == labels@[q];
                    if i0 < p {
                        assert(r@[i0].0 == labels@[q]);
                    } else {
                        assert(r@[i0 + 1].0 == labels@[q]);
                    }
                } else {
                    assert(r@[p as int].0 == labels@[q]);
                }
            }
        } else {
            assert forall|i: int| 0 <= i < r@.len() implies labels@.take(
                k as int + 1,
            ).contains(#[trigger] r@[i].0) by {
                assert(labels@.take(k as int).contains(r@[i].0));
                let q = choose|q: int| 0 <= q < k && labels@.take(k as int)[q] == r@[i].0;
                assert(labels@.take(k as int + 1)[q] == r@[i].0);
            }
        }
        k += 1;
    }
    assert forall|l: GeoLabel| count_value(m.entries(), label_text(l)) > 0 implies exists|i: int|
        0 <= i < r@.len() && r@[i].0 == l by {
        assert(labels@.contains(l));
        let q = choose|q: int| 0 <= q < labels@.len() && labels@[q] == l;
    }
    r
}

} // verus!
