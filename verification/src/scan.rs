//! Port partitioning and probe classification.
//!
//! A scan with `worker_count` workers gives worker `i` (counted from 1)
//! the ports `i, i + worker_count, i + 2 * worker_count, ...` up to
//! `PORT_MAX`. The assignments are disjoint and together cover every
//! port in `1..=PORT_MAX` exactly once.

use vstd::prelude::*;
use vstd::arithmetic::div_mod::{
    lemma_div_is_ordered, lemma_div_pos_is_pos, lemma_fundamental_div_mod,
    lemma_fundamental_div_mod_converse, lemma_mod_bound, lemma_mod_multiples_basic,
};
use vstd::arithmetic::mul::{
    lemma_mul_inequality, lemma_mul_nonnegative, lemma_mul_strict_inequality,
};

use crate::PORT_MAX;

verus! {

/// The classification of one connection attempt: the full handshake
/// either succeeded or it did not. Every failure (refused, timed out,
/// unreachable, reset) is folded into `Closed`; no third state exists.
#[derive(Clone, Copy, Debug, PartialEq, Eq, Structural)]
pub enum PortState {
    Open,
    Closed,
}

/// The outcome of probing one port.
#[derive(Clone, Copy, Debug, PartialEq, Eq, Structural)]
pub struct PortOutcome {
    pub port: u16,
    pub state: PortState,
}

/// Classifies one connection attempt: success is `Open`, any failure is
/// `Closed`. Failures are data, not errors; nothing is retried.
pub fn classify_attempt(connected: bool) -> (r: PortState)
    ensures
        r == PortState::Open <==> connected,
        r == PortState::Closed <==> !connected,
{
    if connected {
        PortState::Open
    } else {
        PortState::Closed
    }
}

/// One worker's share of the port space: the ports
/// `start_port, start_port + stride, start_port + 2 * stride, ...`
/// that lie in `1..=PORT_MAX`.
///
/// A `start_port` above `PORT_MAX` is legal and yields no ports at all:
/// a scan may be asked for more workers than there are ports.
#[derive(Clone, Copy, Debug, PartialEq, Eq, Structural)]
pub struct WorkerAssignment {
    pub start_port: u32,
    pub stride: u32,
}

impl WorkerAssignment {
    /// Both fields must be at least 1; a zero stride would never advance.
    pub open spec fn wf(self) -> bool {
        self.start_port >= 1 && self.stride >= 1
    }

    pub fn new(start_port: u32, stride: u32) -> (r: WorkerAssignment)
        requires
            start_port >= 1,
            stride >= 1,
        ensures
            r.wf(),
            r.start_port == start_port,
            r.stride == stride,
    {
        WorkerAssignment { start_port, stride }
    }

    /// The ports this assignment probes, in the order it probes them:
    /// `start_port, start_port + stride, ...`, stopping before the first
    /// value above `PORT_MAX`. Visits at most `⌈PORT_MAX / stride⌉`
    /// ports, so every worker's loop terminates; no port above
    /// `PORT_MAX` is ever attempted.
    pub fn ports(&self) -> (r: Vec<u16>)
        requires
            self.wf(),
        ensures
            r@.len() == port_count(self.start_port as int, self.stride as int),
            forall|k: int|
                0 <= k < r@.len() ==> #[trigger] r@[k] as int == self.start_port + k
                    * self.stride,
            forall|k: int| 0 <= k < r@.len() ==> 1 <= #[trigger] r@[k] <= PORT_MAX,
            forall|k1: int, k2: int|
                0 <= k1 < k2 < r@.len() ==> #[trigger] r@[k1] < #[trigger] r@[k2],
            r@.len() <= (PORT_MAX - 1) as int / self.stride as int + 1,
    {
        let mut out: Vec<u16> = Vec::new();
        let mut port: u64 = self.start_port as u64;
        proof {
            assert(0int * self.stride as int == 0) by (nonlinear_arith);
        }
        while port <= PORT_MAX as u64
            invariant
                self.wf(),
                port == self.start_port as int + out@.len() as int * self.stride as int,
                forall|k: int|
                    0 <= k < out@.len() ==> #[trigger] out@[k] as int == self.start_port + k
                        * self.stride,
                forall|k: int| 0 <= k < out@.len() ==> 1 <= #[trigger] out@[k] <= PORT_MAX,
                out@.len() > 0 ==> self.start_port as int + (out@.len() - 1)
                    * self.stride as int <= PORT_MAX,
            decreases PORT_MAX as int + self.stride as int - port,
        {
            proof {
                let d = self.stride as int;
                let n = out@.len() as int;
                lemma_mul_nonnegative(n, d);
                assert((n + 1) * d == n * d + d) by (nonlinear_arith);
            }
            out.push(port as u16);
            port = port + self.stride as u64;
        }
        proof {
            let s = self.start_port as int;
            let d = self.stride as int;
            let n = out@.len() as int;
            if s > PORT_MAX {
                if n > 0 {
                    lemma_mul_nonnegative(n - 1, d);
                    assert(false);
                }
                lemma_div_pos_is_pos((PORT_MAX - 1) as int, d);
            } else {
                assert(n > 0);
                assert((n - 1) * d == n * d - d) by (nonlinear_arith);
                lemma_fundamental_div_mod_converse(
                    PORT_MAX - s,
                    d,
                    n - 1,
                    PORT_MAX - s - (n - 1) * d,
                );
                lemma_div_is_ordered(PORT_MAX - s, (PORT_MAX - 1) as int, d);
            }
            assert forall|k1: int, k2: int|
                0 <= k1 < k2 < out@.len() implies #[trigger] out@[k1] < #[trigger] out@[k2] by {
                lemma_mul_strict_inequality(k1, k2, d);
            }
        }
        out
    }
}

/// Whether the assignment starting at `start` with stride `stride`
/// probes port `p`.
pub open spec fn visits(start: int, stride: int, p: int) -> bool {
    &&& start >= 1
    &&& stride >= 1
    &&& start <= p <= PORT_MAX
    &&& (p - start) % stride == 0
}

/// How many ports the assignment starting at `start` with stride
/// `stride` probes.
pub open spec fn port_count(start: int, stride: int) -> int {
    if start > PORT_MAX {
        0
    } else {
        (PORT_MAX - start) / stride + 1
    }
}

/// The position of port `p` in the port list of the assignment that
/// starts at `start` with stride `stride`.
pub open spec fn visit_index(start: int, stride: int, p: int) -> int {
    (p - start) / stride
}

/// A port an assignment visits stands in its port list: at position
/// `visit_index`, which lies below `port_count`. Together with
/// `lemma_scheduled_port_is_visited` this says the executable `ports`
/// list holds exactly the ports `visits` describes.
pub proof fn lemma_visited_port_is_scheduled(start: int, stride: int, p: int)
    requires
        visits(start, stride, p),
    ensures
        0 <= visit_index(start, stride, p) < port_count(start, stride),
        p == start + visit_index(start, stride, p) * stride,
{
    let a = p - start;
    let k = a / stride;
    lemma_fundamental_div_mod(a, stride);
    lemma_div_pos_is_pos(a, stride);
    lemma_div_is_ordered(a, PORT_MAX - start, stride);
    assert(stride * (a / stride) == (a / stride) * stride) by (nonlinear_arith);
}

/// Every entry of an assignment's port list is a port the assignment
/// visits: no duplicate work and no port outside `1..=PORT_MAX`.
pub proof fn lemma_scheduled_port_is_visited(start: int, stride: int, k: int)
    requires
        start >= 1,
        stride >= 1,
        0 <= k < port_count(start, stride),
    ensures
        visits(start, stride, start + k * stride),
{
    let p = start + k * stride;
    lemma_mul_nonnegative(k, stride);
    assert(start <= p);
    lemma_mul_inequality(k, port_count(start, stride) - 1, stride);
    lemma_fundamental_div_mod(PORT_MAX - start, stride);
    lemma_mod_bound(PORT_MAX - start, stride);
    assert(stride * ((PORT_MAX - start) / stride) == ((PORT_MAX - start) / stride) * stride)
        by (nonlinear_arith);
    assert(p <= PORT_MAX);
    lemma_mod_multiples_basic(k, stride);
}

/// Coverage, existence half: every port in `1..=PORT_MAX` is visited
/// by one of the `w` assignments of a partition, namely by the worker
/// starting at `1 + (p - 1) % w`.
pub proof fn lemma_partition_covers(w: int, p: int)
    requires
        1 <= w,
        1 <= p <= PORT_MAX,
    ensures
        1 <= 1 + (p - 1) % w <= w,
        visits(1 + (p - 1) % w, w, p),
{
    let r = (p - 1) % w;
    let q = (p - 1) / w;
    lemma_mod_bound(p - 1, w);
    lemma_fundamental_div_mod(p - 1, w);
    lemma_div_pos_is_pos(p - 1, w);
    lemma_mul_nonnegative(q, w);
    assert(p - (1 + r) == w * q);
    assert(w * q == q * w) by (nonlinear_arith);
    lemma_mod_multiples_basic(q, w);
}

/// Coverage: for any worker count `w`, every port in `1..=PORT_MAX`
/// is visited by exactly one of the partition's `w` assignments — the
/// assignments jointly cover the whole port space with no gaps and no
/// overlaps.
pub proof fn lemma_partition_coverage(w: int, p: int)
    requires
        1 <= w,
        1 <= p <= PORT_MAX,
    ensures
        exists|i: int| 1 <= i <= w && #[trigger] visits(i, w, p),
        forall|i: int, j: int|
            1 <= i <= w && 1 <= j <= w && #[trigger] visits(i, w, p) && #[trigger] visits(
                j,
                w,
                p,
            ) ==> i == j,
{
    lemma_partition_covers(w, p);
    assert forall|i: int, j: int|
        1 <= i <= w && 1 <= j <= w && #[trigger] visits(i, w, p) && #[trigger] visits(
            j,
            w,
            p,
        ) implies i == j by {
        lemma_assignments_disjoint(w, i, j, p);
    }
}

/// Coverage, uniqueness half: no port is visited by two distinct
/// assignments of the same partition.
pub proof fn lemma_assignments_disjoint(w: int, i: int, j: int, p: int)
    requires
        1 <= i <= w,
        1 <= j <= w,
        visits(i, w, p),
        visits(j, w, p),
    ensures
        i == j,
{
    let qi = (p - i) / w;
    let qj = (p - j) / w;
    lemma_fundamental_div_mod(p - i, w);
    lemma_fundamental_div_mod(p - j, w);
    assert(i - j == w * (qj - qi)) by (nonlinear_arith)
        requires
            p - i == w * qi + (p - i) % w,
            p - j == w * qj + (p - j) % w,
            (p - i) % w == 0,
            (p - j) % w == 0,
    ;
    if qj - qi >= 1 {
        lemma_mul_inequality(1, qj - qi, w);
        assert(1 * w == w) by (nonlinear_arith);
        assert(false);
    }
    if qi - qj >= 1 {
        lemma_mul_inequality(1, qi - qj, w);
        assert(1 * w == w) by (nonlinear_arith);
        assert(w * (qj - qi) == -((qi - qj) * w)) by (nonlinear_arith);
        assert(false);
    }
}

/// Computes each worker's assignment from the worker count: worker `i`
/// (counted from 1) starts at port `i` and strides by `worker_count`.
/// This ordering carries the coverage guarantee and is never permuted.
pub fn partition(worker_count: u32) -> (r: Vec<WorkerAssignment>)
    requires
        worker_count >= 1,
    ensures
        r@.len() == worker_count,
        forall|i: int|
            0 <= i < r@.len() ==> {
                &&& (#[trigger] r@[i]).start_port == i + 1
                &&& r@[i].stride == worker_count
                &&& r@[i].wf()
            },
{
    let mut assignments: Vec<WorkerAssignment> = Vec::new();
    for i in 0..worker_count
        invariant
            assignments@.len() == i,
            forall|j: int|
                0 <= j < assignments@.len() ==> {
                    &&& (#[trigger] assignments@[j]).start_port == j + 1
                    &&& assignments@[j].stride == worker_count
                    &&& assignments@[j].wf()
                },
            worker_count >= 1,
    {
        assignments.push(WorkerAssignment { start_port: i + 1, stride: worker_count });
    }
    assignments
}

/// Bounds a connection attempt: a configured timeout of zero
/// milliseconds is raised to one; anything else is kept as given.
pub fn effective_timeout_millis(timeout_millis: u64) -> (r: u64)
    ensures
        r == if timeout_millis >= 1 { timeout_millis } else { 1u64 },
{
    if timeout_millis >= 1 {
        timeout_millis
    } else {
        1
    }
}

} // verus!
