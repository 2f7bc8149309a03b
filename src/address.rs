//! Network addresses of cluster nodes, and the per-node records that
//! discovery produces.

use vstd::prelude::*;

verus! {

/// A node's network address: an IPv4 address as its 32-bit value, or an IPv6
/// address as its 128-bit value.
#[derive(Clone, Copy, Debug, PartialEq, Eq, Structural, Hash)]
pub enum Address {
    V4(u32),
    V6(u128),
}

impl Address {
    /// Loopback: 127.0.0.0/8, or ::1.
    pub open spec fn loopback(self) -> bool {
        match self {
            Address::V4(x) => x / 0x0100_0000 == 127,
            Address::V6(x) => x == 1,
        }
    }

    /// Unspecified: 0.0.0.0, or ::.
    pub open spec fn unspecified(self) -> bool {
        match self {
            Address::V4(x) => x == 0,
            Address::V6(x) => x == 0,
        }
    }

    /// An address that can be looked up: neither loopback nor unspecified.
    pub open spec fn usable(self) -> bool {
        !self.loopback() && !self.unspecified()
    }

    /// Whether this address can be looked up.
    pub fn is_usable(&self) -> (r: bool)
        ensures
            r == self.usable(),
    {
        match self {
            Address::V4(x) => *x / 0x0100_0000 != 127 && *x != 0,
            Address::V6(x) => *x != 1 && *x != 0,
        }
    }
}

/// A node found by discovery: its identity and its gossip address, if any.
#[derive(Debug)]
pub struct ClusterNode {
    pub identity: String,
    pub gossip: Option<Address>,
}

/// The nodes' (identity, address) records, in discovery order, for the nodes
/// that have a usable address.
pub open spec fn usable_records(nodes: Seq<ClusterNode>) -> Seq<(String, Address)>
    decreases nodes.len(),
{
    if nodes.len() == 0 {
        Seq::empty()
    } else {
        let prev = usable_records(nodes.drop_last());
        let n = nodes.last();
        match n.gossip {
            Some(a) => if a.usable() {
                prev.push((n.identity, a))
            } else {
                prev
            },
            None => prev,
        }
    }
}

/// Keeps the nodes with a usable address, as (identity, address) records.
pub fn node_records(nodes: &Vec<ClusterNode>) -> (r: Vec<(String, Address)>)
    ensures
        r@ == usable_records(nodes@),
{
    let mut r: Vec<(String, Address)> = Vec::new();
    let mut i: usize = 0;
    while i < nodes.len()
        invariant
            i <= nodes@.len(),
            r@ == usable_records(nodes@.take(i as int)),
        decreases nodes@.len() - i,
    {
        assert(nodes@.take(i as int + 1).drop_last() =~= nodes@.take(i as int));
        let n = &nodes[i];
        match n.gossip {
            Some(a) => {
                if a.is_usable() {
                    r.push((n.identity.clone(), a));
                }
            },
            None => {},
        }
        i += 1;
    }
    assert(nodes@.take(nodes@.len() as int) =~= nodes@);
    r
}

/// Whether an address occurs in a list.
pub fn contains_address(v: &Vec<Address>, a: Address) -> (r: bool)
    ensures
        r == v@.contains(a),
{
    let mut i: usize = 0;
    while i < v.len()
        invariant
            i <= v@.len(),
            forall|j: int| 0 <= j < i ==> v@[j] != a,
        decreases v@.len() - i,
    {
        if v[i] == a {
            return true;
        }
        i += 1;
    }
    false
}

/// The distinct addresses of a list, each once, in order of first occurrence.
pub fn unique_addresses(addresses: &Vec<Address>) -> (r: Vec<Address>)
    ensures
        r@.no_duplicates(),
        forall|a: Address| r@.contains(a) <==> addresses@.contains(a),
        r@.len() <= addresses@.len(),
{
    let mut r: Vec<Address> = Vec::new();
    let mut i: usize = 0;
    while i < addresses.len()
        invariant
            i <= addresses@.len(),
            r@.no_duplicates(),
            r@.len() <= i,
            forall|a: Address| r@.contains(a) <==> addresses@.take(i as int).contains(a),
        decreases addresses@.len() - i,
    {
        let a = addresses[i];
        let ghost prev = r@;
        let ghost seen = addresses@.take(i as int);
        assert(addresses@.take(i as int + 1) =~= seen.push(a));
        if !contains_address(&r, a) {
            r.push(a);
            assert(r@ =~= prev.push(a));
        }
        assert forall|x: Address| r@.contains(x) <==> seen.push(a).contains(x) by {
            if x == a {
                assert(seen.push(a)[seen.len() as int] == a);
                if !prev.contains(a) {
                    assert(r@[prev.len() as int] == a);
                }
            }
            if prev.contains(x) {
                let k = choose|k: int| 0 <= k < prev.len() && prev[k] == x;
                assert(r@[k] == x);
            }
            if seen.contains(x) {
                let k = choose|k: int| 0 <= k < seen.len() && seen[k] == x;
                assert(seen.push(a)[k] == x);
            }
        }
        i += 1;
    }
    assert(addresses@.take(addresses@.len() as int) =~= addresses@);
    r
}

/// The addresses of (identity, address) records, in order.
pub fn record_addresses(records: &Vec<(String, Address)>) -> (r: Vec<Address>)
    ensures
        r@.len() == records@.len(),
        forall|i: int| 0 <= i < records@.len() ==> r@[i] == records@[i].1,
{
    let mut r: Vec<Address> = Vec::new();
    let mut i: usize = 0;
    while i < records.len()
        invariant
            i <= records@.len(),
            r@.len() == i,
            forall|j: int| 0 <= j < i ==> r@[j] == records@[j].1,
        decreases records@.len() - i,
    {
        r.push(records[i].1);
        i += 1;
    }
    r
}

} // verus!
