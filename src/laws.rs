//! Properties that relate the library's functions, proved over their models.

use vstd::prelude::*;
use crate::address::{usable_records, Address, ClusterNode};
use crate::geo::{
    classify_spec, default_region, is_override_country, label_of_text,
    label_text, region_for_text, region_of, GeoLabel, RoutingRegion,
};
use crate::geo_map::{built_label, generated_label, label_text_of, GeoMap};
use crate::orchestrator::{failures, find_label, successes, LookupError, Orchestrator};
use crate::router::{decision_geo, decision_region};

verus! {

/// A country code of the Middle-East override set is classified as Middle
/// East whatever the continent code, empty or contradictory.
pub proof fn lemma_override_wins(cc: Seq<char>, continent: Seq<char>)
    requires
        is_override_country(cc),
    ensures
        classify_spec(cc, continent) == GeoLabel::MiddleEast,
{
}

/// Outside the override set, the continent code alone decides: the six known
/// codes by the fixed table, anything else (the empty code too) as unknown.
pub proof fn lemma_continent_table(cc: Seq<char>, continent: Seq<char>)
    requires
        !is_override_country(cc),
    ensures
        classify_spec(cc, "EU"@) == GeoLabel::Europe,
        classify_spec(cc, "NA"@) == GeoLabel::NorthAmerica,
        classify_spec(cc, "SA"@) == GeoLabel::SouthAmerica,
        classify_spec(cc, "AF"@) == GeoLabel::Africa,
        classify_spec(cc, "AS"@) == GeoLabel::Asia,
        classify_spec(cc, "OC"@) == GeoLabel::Oceania,
        classify_spec(cc, Seq::empty()) == GeoLabel::Unknown,
        continent != "EU"@ && continent != "NA"@ && continent != "SA"@ && continent != "AF"@
            && continent != "AS"@ && continent != "OC"@ ==> classify_spec(cc, continent)
            == GeoLabel::Unknown,
{
    reveal_strlit("EU");
    reveal_strlit("NA");
    reveal_strlit("SA");
    reveal_strlit("AF");
    reveal_strlit("AS");
    reveal_strlit("OC");
    assert("EU"@.len() == 2 && "EU"@[0] == 'E' && "EU"@[1] == 'U');
    assert("NA"@.len() == 2 && "NA"@[0] == 'N' && "NA"@[1] == 'A');
    assert("SA"@.len() == 2 && "SA"@[0] == 'S' && "SA"@[1] == 'A');
    assert("AF"@.len() == 2 && "AF"@[0] == 'A' && "AF"@[1] == 'F');
    assert("AS"@.len() == 2 && "AS"@[0] == 'A' && "AS"@[1] == 'S');
    assert("OC"@.len() == 2 && "OC"@[0] == 'O' && "OC"@[1] == 'C');
}

proof fn lemma_label_texts_read_back(l: GeoLabel)
    ensures
        label_of_text(label_text(l)) == Some(l),
{
    reveal_strlit("Europe");
    reveal_strlit("North America");
    reveal_strlit("South America");
    reveal_strlit("Africa");
    reveal_strlit("Asia");
    reveal_strlit("Oceania");
    reveal_strlit("Middle East");
    reveal_strlit("UNKNOWN");
    assert("Europe"@[0] == 'E' && "Europe"@[1] == 'u');
    assert("North America"@[0] == 'N' && "North America"@[1] == 'o');
    assert("South America"@[0] == 'S' && "South America"@[1] == 'o');
    assert("Africa"@[0] == 'A' && "Africa"@[1] == 'f');
    assert("Asia"@[0] == 'A' && "Asia"@[1] == 's');
    assert("Oceania"@[0] == 'O' && "Oceania"@[1] == 'c');
    assert("Middle East"@[0] == 'M' && "Middle East"@[1] == 'i');
    assert("UNKNOWN"@[0] == 'U' && "UNKNOWN"@[1] == 'N');
}

/// The routing table on label texts: Europe and Africa to Frankfurt, the
/// Americas to New York, Asia and Oceania to Tokyo, Middle East to Dubai, and
/// the unknown label or any text that names no label to the default,
/// Frankfurt.
pub proof fn lemma_region_table(s: Seq<char>)
    ensures
        region_for_text("Europe"@) == RoutingRegion::Frankfurt,
        region_for_text("Africa"@) == RoutingRegion::Frankfurt,
        region_for_text("North America"@) == RoutingRegion::NewYork,
        region_for_text("South America"@) == RoutingRegion::NewYork,
        region_for_text("Asia"@) == RoutingRegion::Tokyo,
        region_for_text("Oceania"@) == RoutingRegion::Tokyo,
        region_for_text("Middle East"@) == RoutingRegion::Dubai,
        region_for_text("UNKNOWN"@) == RoutingRegion::Frankfurt,
        label_of_text(s) is None ==> region_for_text(s) == RoutingRegion::Frankfurt,
        default_region() == RoutingRegion::Frankfurt,
{
    lemma_label_texts_read_back(GeoLabel::Europe);
    lemma_label_texts_read_back(GeoLabel::Africa);
    lemma_label_texts_read_back(GeoLabel::NorthAmerica);
    lemma_label_texts_read_back(GeoLabel::SouthAmerica);
    lemma_label_texts_read_back(GeoLabel::Asia);
    lemma_label_texts_read_back(GeoLabel::Oceania);
    lemma_label_texts_read_back(GeoLabel::MiddleEast);
    lemma_label_texts_read_back(GeoLabel::Unknown);
}

proof fn lemma_successes(
    addrs: Seq<Address>,
    outs: Seq<Result<GeoLabel, LookupError>>,
)
    requires
        addrs.no_duplicates(),
        addrs.len() == outs.len(),
    ensures
        successes(addrs, outs).len() + failures(outs) == addrs.len(),
        forall|i: int|
            0 <= i < addrs.len() ==> #[trigger] find_label(successes(addrs, outs), addrs[i])
                == match outs[i] {
                Ok(l) => Some(l),
                Err(_) => None,
            },
        forall|a: Address| !addrs.contains(a) ==> find_label(successes(addrs, outs), a) is None,
    decreases addrs.len(),
{
    if addrs.len() > 0 {
        let a0 = addrs.drop_last();
        let o0 = outs.drop_last();
        assert(a0.no_duplicates());
        lemma_successes(a0, o0);
        let n = addrs.len() - 1;
        let s0 = successes(a0, o0);
        match outs.last() {
            Ok(l) => {
                assert(successes(addrs, outs) == s0.push((addrs.last(), l)));
                assert(successes(addrs, outs).drop_last() =~= s0);
            },
            Err(_) => {
                assert(successes(addrs, outs) == s0);
            },
        }
        assert forall|i: int| 0 <= i < addrs.len() implies #[trigger] find_label(
            successes(addrs, outs),
            addrs[i],
        ) == match outs[i] {
            Ok(l) => Some(l),
            Err(_) => None,
        } by {
            if i < n {
                assert(addrs[i] != addrs[n]);
                assert(a0[i] == addrs[i]);
                assert(o0[i] == outs[i]);
                assert(find_label(s0, a0[i]) == match o0[i] {
                    Ok(l) => Some(l),
                    Err(_) => None,
                });
            } else {
                assert forall|j: int| 0 <= j < a0.len() implies a0[j] != addrs[n] by {
                    assert(a0[j] == addrs[j]);
                }
                assert(!a0.contains(addrs[n]));
                assert(find_label(s0, addrs[n]) is None);
                assert(outs[i] == outs.last());
            }
        }
        assert forall|a: Address| !addrs.contains(a) implies find_label(
            successes(addrs, outs),
            a,
        ) is None by {
            assert(a != addrs[n]);
            if a0.contains(a) {
                let i = choose|i: int| 0 <= i < a0.len() && a0[i] == a;
                assert(addrs[i] == a);
            }
        }
    }
}

/// A finished run resolves exactly the addresses whose lookup succeeded: the
/// table has one entry per success, N - K entries for N addresses of which K
/// failed, and every address gets the label of its own lookup, unaffected by
/// the others.
pub proof fn lemma_finished_run(o: Orchestrator)
    requires
        o.wf(),
        o.cursor() == o.addresses().len(),
    ensures
        o.table().len() == o.addresses().len() - failures(o.outcomes()),
        (forall|i: int| 0 <= i < o.outcomes().len() ==> o.outcomes()[i] is Ok) ==> o.table().len()
            == o.addresses().len(),
        forall|i: int|
            0 <= i < o.addresses().len() ==> #[trigger] find_label(o.table(), o.addresses()[i])
                == match o.outcomes()[i] {
                Ok(l) => Some(l),
                Err(_) => None,
            },
        forall|a: Address| !o.addresses().contains(a) ==> find_label(o.table(), a) is None,
{
    assert(o.queried() =~= o.addresses());
    lemma_successes(o.addresses(), o.outcomes());
    if forall|i: int| 0 <= i < o.outcomes().len() ==> o.outcomes()[i] is Ok {
        lemma_no_failures(o.outcomes());
    }
}

proof fn lemma_no_failures(outs: Seq<Result<GeoLabel, LookupError>>)
    requires
        forall|i: int| 0 <= i < outs.len() ==> outs[i] is Ok,
    ensures
        failures(outs) == 0,
    decreases outs.len(),
{
    if outs.len() > 0 {
        lemma_no_failures(outs.drop_last());
    }
}

/// No address is handed out twice: the addresses already looked up are
/// distinct, so are those of the next batch, and the two never share one.
pub proof fn lemma_queried_once(o: Orchestrator)
    requires
        o.wf(),
    ensures
        o.queried().no_duplicates(),
        o.pending_batch().no_duplicates(),
        forall|a: Address| o.pending_batch().contains(a) ==> !o.queried().contains(a),
{
    let q = o.queried();
    let p = o.pending_batch();
    let c = o.cursor() as int;
    assert forall|a: Address| p.contains(a) implies !q.contains(a) by {
        let j = choose|j: int| 0 <= j < p.len() && p[j] == a;
        assert(o.addresses()[c + j] == a);
        if q.contains(a) {
            let i = choose|i: int| 0 <= i < q.len() && q[i] == a;
            assert(o.addresses()[i] == a);
        }
    }
    assert forall|i: int, j: int| 0 <= i < p.len() && 0 <= j < p.len() && i != j implies p[i]
        != p[j] by {
        assert(p[i] == o.addresses()[c + i]);
        assert(p[j] == o.addresses()[c + j]);
    }
    assert forall|i: int, j: int| 0 <= i < q.len() && 0 <= j < q.len() && i != j implies q[i]
        != q[j] by {
        assert(q[i] == o.addresses()[i]);
        assert(q[j] == o.addresses()[j]);
    }
}

/// An identity none of whose nodes has a usable address that was resolved
/// gets no label at build time: it is left out, not defaulted.
pub proof fn lemma_unresolved_identity_absent(
    nodes: Seq<ClusterNode>,
    table: Seq<(Address, GeoLabel)>,
    k: Seq<char>,
)
    requires
        forall|i: int|
            0 <= i < nodes.len() && (#[trigger] nodes[i]).identity@ == k ==> match nodes[i].gossip {
                None => true,
                Some(a) => !a.usable() || find_label(table, a) is None,
            },
    ensures
        generated_label(nodes, table, k) is None,
    decreases nodes.len(),
{
    if nodes.len() > 0 {
        let n0 = nodes.drop_last();
        assert forall|i: int|
            0 <= i < n0.len() && (#[trigger] n0[i]).identity@ == k implies match n0[i].gossip {
            None => true,
            Some(a) => !a.usable() || find_label(table, a) is None,
        } by {
            assert(n0[i] == nodes[i]);
        }
        lemma_unresolved_identity_absent(n0, table, k);
        let last = nodes.last();
        let r = usable_records(nodes);
        match last.gossip {
            Some(a) => if a.usable() {
                assert(r.drop_last() =~= usable_records(n0));
                assert(nodes[nodes.len() - 1] == last);
            },
            None => {},
        }
    }
}

/// A leader that the map does not hold is reported as `UNKNOWN` and routed to
/// Frankfurt.
pub proof fn lemma_absent_leader(m: GeoMap, leader: Seq<char>)
    requires
        m.get(leader) is None,
    ensures
        decision_geo(m, leader) == "UNKNOWN"@,
        decision_region(m, leader) == RoutingRegion::Frankfurt,
{
}

/// A map that holds what the generator built routes every identity in it to
/// the label the generator gave it and to that label's region.
pub proof fn lemma_generated_map_routes(
    records: Seq<(String, Address)>,
    table: Seq<(Address, GeoLabel)>,
    m: GeoMap,
    k: Seq<char>,
)
    requires
        forall|j: Seq<char>| #[trigger] m.get(j) == label_text_of(built_label(records, table, j)),
        built_label(records, table, k) is Some,
    ensures
        decision_geo(m, k) == label_text(built_label(records, table, k)->0),
        decision_region(m, k) == region_of(built_label(records, table, k)->0),
{
    lemma_label_texts_read_back(built_label(records, table, k)->0);
    assert(m.get(k) == label_text_of(built_label(records, table, k)));
}

} // verus!
