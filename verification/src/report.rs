//! Result aggregation: the single consumer's bookkeeping.
//!
//! The consumer owns the whole tally; producers never touch it. It
//! counts every outcome it receives and keeps the ports whose probe
//! succeeded, and once the stream has ended it hands out the finished
//! result with the open ports in ascending order.

use vstd::prelude::*;
use vstd::seq_lib::group_to_multiset_ensures;
use vstd::seq_lib::to_multiset_contains;
use vstd::seq_lib::to_multiset_insert;

verus! {

/// Ascending (non-strict) order.
pub open spec fn sorted(s: Seq<u16>) -> bool {
    forall|i: int, j: int| 0 <= i <= j < s.len() ==> s[i] <= s[j]
}

/// A counter bumped by one outcome; it stays put at its ceiling rather
/// than wrap (the ceiling is unreachable in any real scan, whose
/// outcomes number at most `PORT_MAX`).
pub open spec fn bumped(t: u64) -> u64 {
    if t < u64::MAX {
        (t + 1) as u64
    } else {
        t
    }
}

/// The finished result of one scan run: the ports that answered, in
/// ascending order, and how many outcomes were processed in all. A
/// `total_processed` short of the full port count means some worker
/// stopped early (its channel broke), and the run is incomplete.
#[derive(Debug)]
pub struct ScanResult {
    pub open_ports: Vec<u16>,
    pub total_processed: u64,
}

/// The consumer's running tally while it drains the channel: every
/// outcome counts toward `total_processed`, and a successful probe also
/// records its port.
pub struct Aggregation {
    open_ports: Vec<u16>,
    total_processed: u64,
}

impl Aggregation {
    /// The ports recorded so far, in arrival order.
    pub closed spec fn opens(self) -> Seq<u16> {
        self.open_ports@
    }

    /// How many outcomes were counted so far.
    pub closed spec fn total(self) -> u64 {
        self.total_processed
    }

    pub fn new() -> (r: Aggregation)
        ensures
            r.opens() == Seq::<u16>::empty(),
            r.total() == 0,
    {
        Aggregation { open_ports: Vec::new(), total_processed: 0 }
    }

    /// Counts one failed probe. Failures carry no port into the result;
    /// they only advance the progress count.
    pub fn record_failure(&mut self)
        ensures
            final(self).opens() == old(self).opens(),
            final(self).total() == bumped(old(self).total()),
    {
        if self.total_processed < u64::MAX {
            self.total_processed = self.total_processed + 1;
        }
    }

    /// Counts one successful probe and records its port.
    pub fn record_success(&mut self, port: u16)
        ensures
            final(self).opens() == old(self).opens().push(port),
            final(self).total() == bumped(old(self).total()),
    {
        self.open_ports.push(port);
        if self.total_processed < u64::MAX {
            self.total_processed = self.total_processed + 1;
        }
    }

    /// Closes the tally once the stream has ended: sorts the recorded
    /// ports ascending and returns them with the total count. A port
    /// stands in the result exactly as often as it was recorded.
    pub fn finish(self) -> (r: ScanResult)
        ensures
            r.total_processed == self.total(),
            sorted(r.open_ports@),
            r.open_ports@.to_multiset() == self.opens().to_multiset(),
            r.open_ports@.len() == self.opens().len(),
            forall|p: u16| r.open_ports@.contains(p) <==> self.opens().contains(p),
    {
        let open_ports = sort_ports(&self.open_ports);
        ScanResult { open_ports, total_processed: self.total_processed }
    }
}

/// Inserts `x` into an already sorted vector, keeping it sorted.
fn insert_sorted(v: &mut Vec<u16>, x: u16)
    requires
        sorted(old(v)@),
    ensures
        sorted(final(v)@),
        final(v)@.to_multiset() == old(v)@.to_multiset().insert(x),
        final(v)@.len() == old(v)@.len() + 1,
{
    let mut i: usize = 0;
    while i < v.len() && *v.get(i).unwrap() < x
        invariant
            v@ == old(v)@,
            i <= v@.len(),
            forall|k: int| 0 <= k < i ==> v@[k] < x,
        decreases v@.len() - i,
    {
        i = i + 1;
    }
    proof {
        old(v)@.insert_ensures(i as int, x);
        to_multiset_insert(old(v)@, i as int, x);
    }
    v.insert(i, x);
}

/// Returns the elements of `v` in ascending order: a permutation of the
/// input, so a port stands in the output exactly as often as in the
/// input.
pub fn sort_ports(v: &Vec<u16>) -> (r: Vec<u16>)
    ensures
        sorted(r@),
        r@.to_multiset() == v@.to_multiset(),
        r@.len() == v@.len(),
        forall|p: u16| r@.contains(p) <==> v@.contains(p),
{
    let mut out: Vec<u16> = Vec::new();
    let mut idx: usize = 0;
    proof {
        assert(v@.subrange(0, 0) =~= Seq::<u16>::empty());
        assert(out@.to_multiset() =~= v@.subrange(0, 0).to_multiset());
    }
    while idx < v.len()
        invariant
            idx <= v@.len(),
            sorted(out@),
            out@.len() == idx,
            out@.to_multiset() == v@.subrange(0, idx as int).to_multiset(),
        decreases v@.len() - idx,
    {
        let p: u16 = *v.get(idx).unwrap();
        insert_sorted(&mut out, p);
        idx = idx + 1;
        proof {
            broadcast use group_to_multiset_ensures;

            assert(v@.subrange(0, idx as int) =~= v@.subrange(0, idx as int - 1).push(
                v@[idx as int - 1],
            ));
        }
    }
    proof {
        assert(v@.subrange(0, v@.len() as int) =~= v@);
        assert forall|p: u16| out@.contains(p) <==> v@.contains(p) by {
            broadcast use group_to_multiset_ensures;

            assert(out@.to_multiset().count(p) == v@.to_multiset().count(p));
        }
    }
    out
}

/// Sorted and duplicate-free output: when no port was recorded twice
/// (each port is probed exactly once per run), the sorted result is
/// strictly ascending, and a port stands in it exactly when its probe
/// was recorded open.
pub proof fn lemma_open_ports_strictly_ascending(opens: Seq<u16>, result: Seq<u16>)
    requires
        sorted(result),
        result.to_multiset() == opens.to_multiset(),
        opens.no_duplicates(),
    ensures
        forall|a: int, b: int| 0 <= a < b < result.len() ==> result[a] < result[b],
        forall|p: u16| result.contains(p) <==> opens.contains(p),
{
    opens.lemma_multiset_has_no_duplicates();
    result.lemma_multiset_has_no_duplicates_conv();
    assert forall|a: int, b: int| 0 <= a < b < result.len() implies result[a] < result[b] by {
        assert(result[a] <= result[b]);
    }
    assert forall|p: u16| result.contains(p) <==> opens.contains(p) by {
        to_multiset_contains(result, p);
        to_multiset_contains(opens, p);
    }
}

} // verus!
