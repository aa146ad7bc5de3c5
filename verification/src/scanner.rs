//! The scan engine's decision logic: enumerating the (IP, port, version)
//! work space, the short-circuiting version probe per address/port pair,
//! and the admission gate that bounds how many units may hold a live
//! connection attempt at once. The engine's I/O — opening sockets and
//! awaiting them — lives with the caller, which feeds each outcome back
//! into these state machines.

use vstd::prelude::*;
use crate::config::{Port, spec_port_wf};
use crate::handshake::Outcome;

verus! {

/// The ports one specification entry expands to, in ascending order.
pub open spec fn spec_expand_port(p: Port) -> Seq<u16> {
    match p {
        Port::Single(v) => seq![v],
        Port::Range(pr) => Seq::new((pr.end - pr.start + 1) as nat, |i: int| (pr.start + i) as u16),
    }
}

/// The full expanded port sequence: each entry's ports in the order the
/// entries were given. Duplicates across entries are kept; they are
/// simply scanned again.
pub open spec fn spec_expand_ports(ps: Seq<Port>) -> Seq<u16>
    decreases ps.len(),
{
    if ps.len() == 0 {
        Seq::empty()
    } else {
        spec_expand_port(ps[0]) + spec_expand_ports(ps.drop_first())
    }
}

/// Expanding one more entry appends that entry's ports.
proof fn lemma_expand_ports_take(ps: Seq<Port>, k: int)
    requires
        0 <= k < ps.len(),
    ensures
        spec_expand_ports(ps.take(k + 1)) == spec_expand_ports(ps.take(k)) + spec_expand_port(
            ps[k],
        ),
    decreases k,
{
    if k == 0 {
        assert(ps.take(1).drop_first() =~= Seq::<Port>::empty());
        assert(spec_expand_ports(Seq::<Port>::empty()) == Seq::<u16>::empty());
        assert(ps.take(1)[0] == ps[0]);
        assert(spec_expand_ports(ps.take(1)) == spec_expand_port(ps[0]) + Seq::<u16>::empty());
        assert(ps.take(0) =~= Seq::<Port>::empty());
        assert(spec_expand_port(ps[0]) + Seq::<u16>::empty() =~= Seq::<u16>::empty()
            + spec_expand_port(ps[0]));
    } else {
        lemma_expand_ports_take(ps.drop_first(), k - 1);
        assert(ps.take(k + 1).drop_first() =~= ps.drop_first().take(k));
        assert(ps.take(k).drop_first() =~= ps.drop_first().take(k - 1));
        assert(ps.take(k + 1)[0] == ps[0]);
        assert(ps.take(k)[0] == ps[0]);
        assert(ps.drop_first()[k - 1] == ps[k]);
        assert(spec_expand_ports(ps.take(k + 1)) == spec_expand_port(ps[0]) + spec_expand_ports(
            ps.drop_first().take(k),
        ));
        assert(spec_expand_ports(ps.take(k)) == spec_expand_port(ps[0]) + spec_expand_ports(
            ps.drop_first().take(k - 1),
        ));
        assert(spec_expand_port(ps[0]) + (spec_expand_ports(ps.drop_first().take(k - 1))
            + spec_expand_port(ps[k])) =~= (spec_expand_port(ps[0]) + spec_expand_ports(
            ps.drop_first().take(k - 1),
        )) + spec_expand_port(ps[k]));
    }
}

/// Expand a port specification into the exact port sequence the engine
/// walks, each range in ascending order.
pub fn expand_ports(ports: &Vec<Port>) -> (r: Vec<u16>)
    requires
        forall|i: int| 0 <= i < ports@.len() ==> spec_port_wf(#[trigger] ports@[i]),
    ensures
        r@ == spec_expand_ports(ports@),
{
    let mut out: Vec<u16> = Vec::new();
    let mut k: usize = 0;
    proof {
        assert(ports@.take(0) =~= Seq::<Port>::empty());
    }
    while k < ports.len()
        invariant
            k <= ports@.len(),
            forall|i: int| 0 <= i < ports@.len() ==> spec_port_wf(#[trigger] ports@[i]),
            out@ == spec_expand_ports(ports@.take(k as int)),
        decreases ports@.len() - k,
    {
        match ports[k] {
            Port::Single(v) => {
                out.push(v);
                proof {
                    assert(out@ =~= spec_expand_ports(ports@.take(k as int)) + spec_expand_port(
                        ports@[k as int],
                    ));
                }
            }
            Port::Range(pr) => {
                let ghost base = out@;
                let count: usize = (pr.end - pr.start) as usize + 1;
                let mut j: usize = 0;
                while j < count
                    invariant
                        spec_port_wf(ports@[k as int]),
                        ports@[k as int] == Port::Range(pr),
                        count == pr.end - pr.start + 1,
                        j <= count,
                        out@ == base + spec_expand_port(ports@[k as int]).take(j as int),
                    decreases count - j,
                {
                    out.push(pr.start + (j as u16));
                    j = j + 1;
                    proof {
                        assert(out@ =~= base + spec_expand_port(ports@[k as int]).take(j as int));
                    }
                }
                proof {
                    assert(spec_expand_port(ports@[k as int]).take(count as int)
                        =~= spec_expand_port(ports@[k as int]));
                }
            }
        }
        k = k + 1;
        proof {
            lemma_expand_ports_take(ports@, k - 1);
        }
    }
    proof {
        assert(ports@.take(ports@.len() as int) =~= ports@);
    }
    out
}

/// The ascending numeric values of the inclusive IP range.
pub fn ip_range(start: u32, end: u32) -> (r: Vec<u32>)
    requires
        start <= end,
    ensures
        r@.len() == end - start + 1,
        forall|i: int| 0 <= i < r@.len() ==> r@[i] == start + i,
{
    let mut out: Vec<u32> = Vec::new();
    let mut cur: u32 = start;
    while cur < end
        invariant
            start <= cur <= end,
            out@.len() == cur - start,
            forall|i: int| 0 <= i < out@.len() ==> out@[i] == start + i,
        decreases end - cur,
    {
        out.push(cur);
        cur = cur + 1;
    }
    out.push(end);
    out
}

/// The number of work units a scan enumerates: one per IP, per expanded
/// port, per configured version. `None` exactly when the product does not
/// fit in 64 bits.
pub fn total_units(num_ips: u64, num_ports: u64, num_versions: u64) -> (r: Option<u64>)
    ensures
        r matches Some(t) ==> t == num_ips * num_ports * num_versions,
        r is None ==> num_ips * num_ports * num_versions > u64::MAX,
{
    if num_versions == 0 {
        return Some(0);
    }
    match num_ips.checked_mul(num_ports) {
        None => {
            proof {
                assert(num_ips * num_ports * num_versions >= num_ips * num_ports * 1) by (nonlinear_arith)
                    requires
                        num_versions >= 1,
                        num_ips * num_ports > u64::MAX,
                ;
            }
            None
        }
        Some(ip_ports) => {
            let r = ip_ports.checked_mul(num_versions);
            proof {
                assert(ip_ports * num_versions == num_ips * num_ports * num_versions) by (nonlinear_arith)
                    requires
                        ip_ports == num_ips * num_ports,
                ;
            }
            r
        }
    }
}

/// The version probe for one address/port pair: a short-circuiting OR
/// over the configured versions. The driver asks `current_version` which
/// probe to issue next and feeds the result back through
/// `record_outcome`; on the first grant the pair is recorded for that
/// version and every remaining version is skipped.
pub struct PairScan {
    pub versions: Vec<u8>,
    pub next_idx: usize,
    pub discovered: Option<u8>,
}

impl PairScan {
    /// The probe never runs past the version list, and a discovery ends
    /// it at once.
    pub open spec fn wf(self) -> bool {
        self.next_idx <= self.versions@.len()
    }

    /// The pair is finished: a version was granted, or every version was
    /// tried without one.
    pub open spec fn done(self) -> bool {
        self.discovered is Some || self.next_idx == self.versions@.len()
    }

    /// A fresh probe over the configured versions, in the order supplied.
    pub fn new(versions: Vec<u8>) -> (r: PairScan)
        ensures
            r.wf(),
            r.versions == versions,
            r.next_idx == 0,
            r.discovered is None,
    {
        PairScan { versions, next_idx: 0, discovered: None }
    }

    /// The version to probe next, or nothing if the pair is finished.
    pub fn current_version(&self) -> (r: Option<u8>)
        requires
            self.wf(),
        ensures
            !self.done() ==> r == Some(self.versions@[self.next_idx as int]),
            self.done() ==> r is None,
    {
        if self.discovered.is_some() {
            None
        } else if self.next_idx < self.versions.len() {
            Some(self.versions[self.next_idx])
        } else {
            None
        }
    }

    /// Feed back the outcome of probing the current version. A grant
    /// records the pair for exactly that version — the first granted in
    /// configured order — and finishes the pair, so no later version is
    /// probed; anything else moves on to the next version.
    pub fn record_outcome(&mut self, outcome: &Outcome)
        requires
            old(self).wf(),
            !old(self).done(),
        ensures
            final(self).wf(),
            final(self).versions == old(self).versions,
            *outcome is Granted ==> final(self).discovered == Some(
                old(self).versions@[old(self).next_idx as int],
            ) && final(self).done() && final(self).next_idx == old(self).next_idx,
            !(*outcome is Granted) ==> final(self).discovered is None && final(self).next_idx
                == old(self).next_idx + 1,
    {
        match outcome {
            Outcome::Granted => {
                self.discovered = Some(self.versions[self.next_idx]);
            }
            _ => {
                let n = self.versions.len();
                proof {
                    assert(self.next_idx < n);
                }
                self.next_idx = self.next_idx + 1;
            }
        }
    }
}

/// The admission gate: a counting limiter that bounds how many work
/// units hold a live connection attempt at any instant. A unit acquires
/// a slot before opening its socket and releases it when its outcome is
/// determined, on every exit path. The count never exceeds the limit.
pub struct AdmissionGate {
    pub limit: usize,
    pub in_flight: usize,
}

impl AdmissionGate {
    /// At no point do more units hold a slot than the configured limit.
    pub open spec fn wf(self) -> bool {
        self.in_flight <= self.limit
    }

    /// A gate of the configured size; zero is a configuration error and
    /// is rejected before the engine starts.
    pub fn new(limit: usize) -> (r: AdmissionGate)
        requires
            limit >= 1,
        ensures
            r.wf(),
            r.limit == limit,
            r.in_flight == 0,
    {
        AdmissionGate { limit, in_flight: 0 }
    }

    /// Admit one unit if a slot is free. Succeeds exactly when the count
    /// is below the limit, and never pushes it past the limit.
    pub fn try_acquire(&mut self) -> (r: bool)
        requires
            old(self).wf(),
        ensures
            final(self).wf(),
            final(self).limit == old(self).limit,
            r == (old(self).in_flight < old(self).limit),
            r ==> final(self).in_flight == old(self).in_flight + 1,
            !r ==> final(self).in_flight == old(self).in_flight,
    {
        if self.in_flight < self.limit {
            self.in_flight = self.in_flight + 1;
            true
        } else {
            false
        }
    }

    /// Release the slot of a finished unit, whatever its outcome was.
    pub fn release(&mut self)
        requires
            old(self).wf(),
            old(self).in_flight >= 1,
        ensures
            final(self).wf(),
            final(self).limit == old(self).limit,
            final(self).in_flight == old(self).in_flight - 1,
    {
        self.in_flight = self.in_flight - 1;
    }
}

} // verus!
