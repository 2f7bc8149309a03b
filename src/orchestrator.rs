//! Batched resolution of addresses to labels.
//!
//! The orchestrator holds the distinct addresses to resolve and hands them
//! out in fixed-size batches; the caller looks up one batch concurrently,
//! then reports the outcomes in batch order. Successes are merged into the
//! running address-to-label table; failures are left out.

use vstd::prelude::*;
use crate::address::{unique_addresses, Address};
use crate::geo::{classify_spec, field_text, to_geo_label, GeoLabel, IpInfoLite};

verus! {

/// Number of lookups in flight at most: the size of one batch.
pub const BATCH_SIZE: usize = 50;

/// Why one address could not be resolved.
#[derive(Clone, Copy, Debug, PartialEq, Eq, Structural)]
pub enum LookupError {
    /// Transport failure, timeout, or a non-success status.
    Network,
    /// A response that does not have the expected shape.
    Parse,
}

/// What one geolocation request came back with.
#[derive(Debug)]
pub enum LookupResponse {
    /// The request failed or got a non-success status.
    Failed,
    /// The body could not be read as a lookup result.
    Malformed,
    /// The body, read as a lookup result.
    Info(IpInfoLite),
}

/// Outcome of resolving one address.
pub open spec fn resolve_spec(response: LookupResponse) -> Result<GeoLabel, LookupError> {
    match response {
        LookupResponse::Failed => Err(LookupError::Network),
        LookupResponse::Malformed => Err(LookupError::Parse),
        LookupResponse::Info(info) => Ok(
            classify_spec(field_text(info.country_code), field_text(info.continent_code)),
        ),
    }
}

/// Turns one lookup response into a label or a typed failure.
pub fn resolve(response: &LookupResponse) -> (r: Result<GeoLabel, LookupError>)
    ensures
        r == resolve_spec(*response),
{
    match response {
        LookupResponse::Failed => Err(LookupError::Network),
        LookupResponse::Malformed => Err(LookupError::Parse),
        LookupResponse::Info(info) => Ok(to_geo_label(info)),
    }
}

/// The (address, label) pairs of the successful outcomes, in order.
pub open spec fn successes(
    addrs: Seq<Address>,
    outcomes: Seq<Result<GeoLabel, LookupError>>,
) -> Seq<(Address, GeoLabel)>
    decreases outcomes.len(),
{
    if outcomes.len() == 0 || addrs.len() == 0 {
        Seq::empty()
    } else {
        let prev = successes(addrs.drop_last(), outcomes.drop_last());
        match outcomes.last() {
            Ok(l) => prev.push((addrs.last(), l)),
            Err(_) => prev,
        }
    }
}

/// Number of failed outcomes.
pub open spec fn failures(outcomes: Seq<Result<GeoLabel, LookupError>>) -> nat
    decreases outcomes.len(),
{
    if outcomes.len() == 0 {
        0
    } else {
        failures(outcomes.drop_last()) + if outcomes.last() is Err {
            1nat
        } else {
            0nat
        }
    }
}

/// The label that a table of (address, label) pairs gives an address; a later
/// pair wins over an earlier one.
pub open spec fn find_label(s: Seq<(Address, GeoLabel)>, a: Address) -> Option<GeoLabel>
    decreases s.len(),
{
    if s.len() == 0 {
        None
    } else if s.last().0 == a {
        Some(s.last().1)
    } else {
        find_label(s.drop_last(), a)
    }
}

/// Looks up an address in a table of (address, label) pairs.
pub fn lookup_label(table: &Vec<(Address, GeoLabel)>, a: Address) -> (r: Option<GeoLabel>)
    ensures
        r == find_label(table@, a),
{
    let mut i: usize = table.len();
    assert(table@.take(i as int) =~= table@);
    while i > 0
        invariant
            i <= table@.len(),
            find_label(table@, a) == find_label(table@.take(i as int), a),
        decreases i,
    {
        assert(table@.take(i as int).drop_last() =~= table@.take(i as int - 1));
        if table[i - 1].0 == a {
            return Some(table[i - 1].1);
        }
        i -= 1;
    }
    None
}

/// Coordinator of the batched lookups of one run.
pub struct Orchestrator {
    addresses: Vec<Address>,
    cursor: usize,
    resolved: Vec<(Address, GeoLabel)>,
    outcomes: Ghost<Seq<Result<GeoLabel, LookupError>>>,
}

impl Orchestrator {
    /// The distinct addresses of the run, in the order they are handed out.
    pub closed spec fn addresses(&self) -> Seq<Address> {
        self.addresses@
    }

    /// How many addresses have been handed out and reported on.
    pub closed spec fn cursor(&self) -> nat {
        self.cursor as nat
    }

    /// The outcomes reported so far, one per handed-out address.
    pub closed spec fn outcomes(&self) -> Seq<Result<GeoLabel, LookupError>> {
        self.outcomes@
    }

    /// The address-to-label table built so far.
    pub closed spec fn table(&self) -> Seq<(Address, GeoLabel)> {
        self.resolved@
    }

    /// The addresses that have been handed out for lookup.
    pub open spec fn queried(&self) -> Seq<Address> {
        self.addresses().take(self.cursor() as int)
    }

    /// The addresses of the next batch.
    pub open spec fn pending_batch(&self) -> Seq<Address> {
        let end = if self.cursor() + BATCH_SIZE <= self.addresses().len() {
            self.cursor() + BATCH_SIZE
        } else {
            self.addresses().len() as int
        };
        self.addresses().subrange(self.cursor() as int, end)
    }

    pub open spec fn wf(&self) -> bool {
        &&& self.cursor() <= self.addresses().len()
        &&& self.addresses().no_duplicates()
        &&& self.outcomes().len() == self.cursor()
        &&& self.table() == successes(self.queried(), self.outcomes())
    }

    /// Starts a run over the distinct addresses of a list.
    pub fn new(addresses: &Vec<Address>) -> (r: Orchestrator)
        ensures
            r.wf(),
            r.cursor() == 0,
            r.table().len() == 0,
            forall|a: Address| r.addresses().contains(a) <==> addresses@.contains(a),
    {
        let unique = unique_addresses(addresses);
        let r = Orchestrator {
            addresses: unique,
            cursor: 0,
            resolved: Vec::new(),
            outcomes: Ghost(Seq::empty()),
        };
        assert(r.queried().len() == 0);
        r
    }

    /// Whether every address has been handed out and reported on.
    pub fn is_done(&self) -> (r: bool)
        requires
            self.wf(),
        ensures
            r == (self.cursor() == self.addresses().len()),
    {
        self.cursor == self.addresses.len()
    }

    /// Number of distinct addresses in the run.
    pub fn total(&self) -> (r: usize)
        ensures
            r == self.addresses().len(),
    {
        self.addresses.len()
    }

    /// Number of addresses resolved so far.
    pub fn resolved_count(&self) -> (r: usize)
        ensures
            r == self.table().len(),
    {
        self.resolved.len()
    }

    /// The address-to-label table built so far.
    pub fn resolved(&self) -> (r: &Vec<(Address, GeoLabel)>)
        ensures
            r@ == self.table(),
    {
        &self.resolved
    }

    /// The addresses to look up next: at most one batch, empty once done.
    pub fn next_batch(&self) -> (r: Vec<Address>)
        requires
            self.wf(),
        ensures
            r@ == self.pending_batch(),
            r@.len() <= BATCH_SIZE,
            r@.len() == 0 <==> self.cursor() == self.addresses().len(),
    {
        let end: usize = if self.addresses.len() - self.cursor >= BATCH_SIZE {
            self.cursor + BATCH_SIZE
        } else {
            self.addresses.len()
        };
        let mut r: Vec<Address> = Vec::new();
        let mut i: usize = self.cursor;
        while i < end
            invariant
                self.cursor <= i <= end <= self.addresses@.len(),
                r@ == self.addresses@.subrange(self.cursor as int, i as int),
            decreases end - i,
        {
            r.push(self.addresses[i]);
            i += 1;
            assert(r@ =~= self.addresses@.subrange(self.cursor as int, i as int));
        }
        r
    }

    /// Records the outcomes of the pending batch, given in batch order, and
    /// moves past it. Successes join the table; failures are left out.
    pub fn record_batch(&mut self, outcomes: &Vec<Result<GeoLabel, LookupError>>)
        requires
            old(self).wf(),
            outcomes@.len() == old(self).pending_batch().len(),
        ensures
            final(self).wf(),
            final(self).addresses() == old(self).addresses(),
            final(self).cursor() == old(self).cursor() + outcomes@.len(),
            final(self).outcomes() == old(self).outcomes() + outcomes@,
            final(self).table() == old(self).table() + successes(
                old(self).pending_batch(),
                outcomes@,
            ),
    {
        let ghost batch = self.pending_batch();
        let ghost start_table = self.table();
        let ghost start = self.cursor as int;
        let mut k: usize = 0;
        while k < outcomes.len()
            invariant
                0 <= start,
                start + outcomes@.len() <= self.addresses@.len(),
                batch == self.addresses@.subrange(start, start + outcomes@.len()),
                k <= outcomes@.len(),
                self.cursor == start + k,
                self.addresses@.no_duplicates(),
                self.outcomes@.len() == self.cursor,
                self.outcomes@ == old(self).outcomes() + outcomes@.take(k as int),
                self.addresses@ == old(self).addresses(),
                start_table == successes(old(self).queried(), old(self).outcomes()),
                old(self).cursor() == start,
                self.resolved@ == successes(
                    self.addresses@.take(self.cursor as int),
                    self.outcomes@,
                ),
                self.resolved@ == start_table + successes(
                    batch.take(k as int),
                    outcomes@.take(k as int),
                ),
            decreases outcomes@.len() - k,
        {
            let n: usize = self.addresses.len();
            assert(self.cursor < n);
            let a = self.addresses[self.cursor];
            let o = outcomes[k];
            let ghost q0 = self.addresses@.take(self.cursor as int);
            let ghost o0 = self.outcomes@;
            let ghost b0 = batch.take(k as int);
            let ghost p0 = outcomes@.take(k as int);
            match o {
                Ok(l) => {
                    self.resolved.push((a, l));
                },
                Err(_) => {},
            }
            self.cursor = self.cursor + 1;
            self.outcomes = Ghost(self.outcomes@.push(o));
            k += 1;
            proof {
                assert(self.addresses@.take(self.cursor as int).drop_last() =~= q0);
                assert(self.addresses@.take(self.cursor as int).last() == a);
                assert(self.outcomes@.drop_last() =~= o0);
                assert(batch.take(k as int).drop_last() =~= b0);
                assert(batch.take(k as int).last() == a);
                assert(outcomes@.take(k as int).drop_last() =~= p0);
                assert(outcomes@.take(k as int).last() == o);
                assert(self.outcomes@ =~= old(self).outcomes() + outcomes@.take(k as int));
                match o {
                    Ok(l) => {
                        assert(self.resolved@ =~= start_table + successes(
                            batch.take(k as int),
                            outcomes@.take(k as int),
                        ));
                    },
                    Err(_) => {},
                }
            }
        }
        proof {
            assert(batch.take(outcomes@.len() as int) =~= batch);
            assert(outcomes@.take(outcomes@.len() as int) =~= outcomes@);
        }
    }
}

} // verus!
