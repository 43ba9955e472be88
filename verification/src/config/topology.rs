//! What is plugged in.

use crate::text::order::{
    is_before, lemma_irreflexive, lemma_total, lemma_transitive, precedes,
};
use crate::text::space::{trim, trimmed, views};
use vstd::prelude::*;
use vstd::relations::{sorted_by, total_ordering};
use vstd::seq_lib::{lemma_sorted_unique, to_multiset_build, to_multiset_insert};

verus! {

/// A port and what its file says.
#[derive(Debug)]
pub struct Port {
    pub path: String,
    pub status: String,
}

/// How a port is listed.
pub open spec fn port_entry(port: Port) -> Seq<char> {
    port.path@ + "="@ + trimmed(port.status@)
}

/// What is listed, in the order in which it was found.
pub open spec fn found(ports: Seq<Port>, devices: Seq<Seq<char>>) -> Seq<Seq<char>> {
    ports.map_values(|port: Port| port_entry(port)) + devices
}

/// No text stands before an earlier one.
pub open spec fn in_order(texts: Seq<Seq<char>>) -> bool {
    forall|i: int, j: int|
        0 <= i < j < texts.len() ==> !precedes(#[trigger] texts[j], #[trigger] texts[i])
}

/// Puts a text where it belongs.
fn place(texts: &mut Vec<String>, text: String)
    requires
        in_order(views(old(texts)@)),
    ensures
        in_order(views(final(texts)@)),
        views(final(texts)@).to_multiset() == views(old(texts)@).to_multiset().insert(text@),
{
    let ghost before = views(texts@);
    let ghost t = text@;
    let mut i: usize = texts.len();
    while i > 0 && is_before(text.as_str(), texts[i - 1].as_str())
        invariant
            i <= texts@.len(),
            views(texts@) == before,
            text@ == t,
            forall|j: int| i <= j < before.len() ==> precedes(t, #[trigger] before[j]),
        decreases i,
    {
        assert(before[i - 1] == texts@[i - 1]@);
        i = i - 1;
    }
    proof {
        let n = i as int;
        if n > 0 {
            assert(before[n - 1] == texts@[n - 1]@);
        }
        assert forall|j: int| 0 <= j < n implies !precedes(t, #[trigger] before[j]) by {
            if j < n - 1 && precedes(t, before[j]) {
                assert(!precedes(before[n - 1], before[j]));
                lemma_total(before[n - 1], before[j]);
                if precedes(before[j], before[n - 1]) {
                    lemma_transitive(t, before[j], before[n - 1]);
                }
            }
        }
        let after = before.insert(n, t);
        assert forall|j: int, k: int| 0 <= j < k < after.len() implies !precedes(
            #[trigger] after[k],
            #[trigger] after[j],
        ) by {
            if j < n && k > n {
                assert(after[j] == before[j] && after[k] == before[k - 1]);
            } else if j < n && k < n {
                assert(after[j] == before[j] && after[k] == before[k]);
            } else if j > n {
                assert(after[j] == before[j - 1] && after[k] == before[k - 1]);
            } else if j == n {
                assert(after[k] == before[k - 1]);
                if precedes(after[k], t) {
                    lemma_transitive(t, after[k], t);
                    lemma_irreflexive(t);
                }
            }
        }
        to_multiset_insert(before, n, t);
    }
    texts.insert(i, text);
    assert(views(texts@) =~= before.insert(i as int, t));
}

/// What is plugged in: ports with their status, and devices, in the order of their names.
pub fn topology(ports: &Vec<Port>, devices: &Vec<String>) -> (r: Vec<String>)
    ensures
        in_order(views(r@)),
        views(r@).to_multiset() == found(ports@, views(devices@)).to_multiset(),
{
    let ghost all = found(ports@, views(devices@));
    let mut r: Vec<String> = Vec::new();
    assert(views(r@) =~= all.take(0));
    for i in 0..ports.len()
        invariant
            all == found(ports@, views(devices@)),
            in_order(views(r@)),
            views(r@).to_multiset() == all.take(i as int).to_multiset(),
    {
        let mut entry = ports[i].path.clone();
        entry.append("=");
        entry.append(trim(ports[i].status.as_str()).as_str());
        assert(all[i as int] == entry@);
        proof {
            to_multiset_build(all.take(i as int), entry@);
            assert(all.take(i + 1) =~= all.take(i as int).push(entry@));
        }
        place(&mut r, entry);
    }
    let ghost n = ports@.len() as int;
    for i in 0..devices.len()
        invariant
            all == found(ports@, views(devices@)),
            n == ports@.len(),
            in_order(views(r@)),
            views(r@).to_multiset() == all.take(n + i).to_multiset(),
    {
        let entry = devices[i].clone();
        assert(views(devices@)[i as int] == entry@);
        assert(all[n + i] == entry@);
        proof {
            to_multiset_build(all.take(n + i), entry@);
            assert(all.take(n + i + 1) =~= all.take(n + i).push(entry@));
        }
        place(&mut r, entry);
    }
    assert(all.take(all.len() as int) =~= all);
    r
}

/// In which order things are found does not matter: the same things are always listed in the same
/// way, so that a list only changes where something is plugged in or out.
pub proof fn order_of_finding_does_not_matter(first: Seq<Seq<char>>, second: Seq<Seq<char>>)
    requires
        in_order(first),
        in_order(second),
        first.to_multiset() == second.to_multiset(),
    ensures
        first == second,
{
    let leq = |a: Seq<char>, b: Seq<char>| !precedes(b, a);
    assert(total_ordering(leq)) by {
        assert forall|a: Seq<char>| #[trigger] leq(a, a) by {
            lemma_irreflexive(a);
        }
        assert forall|a: Seq<char>, b: Seq<char>| #[trigger] leq(a, b) && #[trigger] leq(
            b,
            a,
        ) implies a == b by {
            lemma_total(a, b);
        }
        assert forall|a: Seq<char>, b: Seq<char>| #[trigger] leq(a, b) || #[trigger] leq(b, a) by {
            if precedes(a, b) && precedes(b, a) {
                lemma_transitive(a, b, a);
                lemma_irreflexive(a);
            }
        }
        assert forall|a: Seq<char>, b: Seq<char>, c: Seq<char>| #[trigger] leq(a, b) && #[trigger] leq(
            b,
            c,
        ) implies leq(a, c) by {
            if precedes(c, a) {
                lemma_total(a, b);
                if precedes(a, b) {
                    lemma_transitive(c, a, b);
                }
            }
        }
    }
    assert(sorted_by(first, leq));
    assert(sorted_by(second, leq));
    lemma_sorted_unique(first, second, leq);
}

/// Each port is listed with its path and its status without white space around it, and each device as
/// it is.
pub proof fn everything_is_listed(ports: Seq<Port>, devices: Seq<Seq<char>>)
    ensures
        found(ports, devices).len() == ports.len() + devices.len(),
        forall|i: int|
            0 <= i < ports.len() ==> #[trigger] found(ports, devices)[i] == ports[i].path@ + "="@
                + trimmed(ports[i].status@),
        forall|i: int|
            0 <= i < devices.len() ==> found(ports, devices)[ports.len() + i]
                == #[trigger] devices[i],
{
}

/// What is listed stands in the order of the texts.
pub proof fn list_is_in_order(texts: Seq<Seq<char>>, i: int, j: int)
    requires
        in_order(texts),
        0 <= i < j < texts.len(),
    ensures
        texts[i] == texts[j] || precedes(texts[i], texts[j]),
{
    lemma_total(texts[i], texts[j]);
}

} // verus!
