//! Target space enumeration.
//!
//! The target space is the ordered cross product of a contiguous local port
//! range (minus an exclusion set) with a list of remote endpoints, itself
//! the cross product of resolved remote addresses with a contiguous remote
//! port range. Enumeration is deterministic: the outer loop walks local
//! ports, the inner loop remote endpoints, so early submissions cover many
//! distinct local ports before any is reused. Address resolution is I/O and
//! happens before the library is called; the library receives the resolved
//! addresses as plain values.

use vstd::prelude::*;

use crate::endpoint::Endpoint;
use crate::endpoint::WorkDescriptor;

verus! {

/// The local ports of `lo..hi`, in increasing order, with every port in
/// `excluded` skipped.
pub open spec fn local_ports(lo: int, hi: int, excluded: Seq<u16>) -> Seq<u16>
    decreases hi - lo,
{
    if hi <= lo {
        Seq::<u16>::empty()
    } else {
        let prefix = local_ports(lo, hi - 1, excluded);
        if excluded.contains((hi - 1) as u16) {
            prefix
        } else {
            prefix.push((hi - 1) as u16)
        }
    }
}

/// The remote endpoints of one resolved address: ports `lo..p`, in
/// increasing order.
pub open spec fn remote_row(ip: u32, lo: int, p: int) -> Seq<Endpoint>
    decreases p - lo,
{
    if p <= lo {
        Seq::<Endpoint>::empty()
    } else {
        remote_row(ip, lo, p - 1).push(Endpoint { ip, port: (p - 1) as u16 })
    }
}

/// The remote endpoints of the first `k` resolved addresses, each crossed
/// with ports `lo..hi`, address order kept.
pub open spec fn remote_endpoints(ips: Seq<u32>, lo: int, hi: int, k: int) -> Seq<Endpoint>
    decreases k,
{
    if k <= 0 {
        Seq::<Endpoint>::empty()
    } else {
        remote_endpoints(ips, lo, hi, k - 1) + remote_row(ips[k - 1], lo, hi)
    }
}

/// The descriptors of one local port: that port, on the unspecified local
/// address, paired with the first `j` remote endpoints in order.
pub open spec fn cross_row(lp: u16, remotes: Seq<Endpoint>, j: int) -> Seq<WorkDescriptor>
    decreases j,
{
    if j <= 0 {
        Seq::<WorkDescriptor>::empty()
    } else {
        cross_row(lp, remotes, j - 1).push(
            WorkDescriptor { local: Endpoint { ip: 0u32, port: lp }, remote: remotes[j - 1] },
        )
    }
}

/// The descriptors of the first `i` local ports, each crossed with every
/// remote endpoint: outer loop by local port, inner loop by remote.
pub open spec fn cross(locals: Seq<u16>, remotes: Seq<Endpoint>, i: int) -> Seq<WorkDescriptor>
    decreases i,
{
    if i <= 0 {
        Seq::<WorkDescriptor>::empty()
    } else {
        cross(locals, remotes, i - 1) + cross_row(locals[i - 1], remotes, remotes.len() as int)
    }
}

/// The whole target space of a run, as a function of its universe
/// description alone.
pub open spec fn target_space(
    local_lo: int,
    local_hi: int,
    excluded: Seq<u16>,
    ips: Seq<u32>,
    remote_lo: int,
    remote_hi: int,
) -> Seq<WorkDescriptor> {
    let locals = local_ports(local_lo, local_hi, excluded);
    let remotes = remote_endpoints(ips, remote_lo, remote_hi, ips.len() as int);
    cross(locals, remotes, locals.len() as int)
}

/// Every port that `local_ports` produces avoids the exclusion set.
pub proof fn lemma_local_ports_not_excluded(lo: int, hi: int, excluded: Seq<u16>)
    ensures
        forall|k: int|
            0 <= k < local_ports(lo, hi, excluded).len() ==> !excluded.contains(
                #[trigger] local_ports(lo, hi, excluded)[k],
            ),
    decreases hi - lo,
{
    if hi <= lo {
    } else {
        lemma_local_ports_not_excluded(lo, hi - 1, excluded);
        let prefix = local_ports(lo, hi - 1, excluded);
        let cur = local_ports(lo, hi, excluded);
        assert forall|k: int| 0 <= k < cur.len() implies !excluded.contains(cur[k]) by {
            if k < prefix.len() {
                assert(cur[k] == prefix[k]);
            } else {
                assert(cur[k] == (hi - 1) as u16);
            }
        }
    }
}

/// One local port's block: one descriptor per remote endpoint, in remote
/// order, all with that local port.
pub proof fn lemma_cross_row(lp: u16, remotes: Seq<Endpoint>, j: int)
    requires
        0 <= j <= remotes.len(),
    ensures
        cross_row(lp, remotes, j).len() == j,
        forall|k: int|
            0 <= k < j ==> #[trigger] cross_row(lp, remotes, j)[k] == (WorkDescriptor {
                local: Endpoint { ip: 0u32, port: lp },
                remote: remotes[k],
            }),
    decreases j,
{
    if j <= 0 {
    } else {
        lemma_cross_row(lp, remotes, j - 1);
    }
}

/// The first `i` local ports contribute exactly `i * remotes.len()`
/// descriptors.
pub proof fn lemma_cross_len(locals: Seq<u16>, remotes: Seq<Endpoint>, i: int)
    requires
        0 <= i <= locals.len(),
    ensures
        cross(locals, remotes, i).len() == i * remotes.len(),
    decreases i,
{
    if i <= 0 {
        assert(0 * remotes.len() == 0) by (nonlinear_arith);
    } else {
        lemma_cross_len(locals, remotes, i - 1);
        lemma_cross_row(locals[i - 1], remotes, remotes.len() as int);
        assert(cross(locals, remotes, i).len() == (i - 1) * remotes.len() + remotes.len());
        assert((i - 1) * remotes.len() + remotes.len() == i * remotes.len()) by (nonlinear_arith);
    }
}

/// The descriptor at block `i`, offset `j` pairs the `i`-th usable local
/// port with the `j`-th remote endpoint: the outer loop walks local ports,
/// the inner loop remotes.
pub proof fn lemma_cross_index(locals: Seq<u16>, remotes: Seq<Endpoint>, n: int, i: int, j: int)
    requires
        0 <= i < n <= locals.len(),
        0 <= j < remotes.len(),
    ensures
        cross(locals, remotes, n).len() == n * remotes.len(),
        0 <= i * remotes.len() + j < n * remotes.len(),
        cross(locals, remotes, n)[i * remotes.len() + j] == (WorkDescriptor {
            local: Endpoint { ip: 0u32, port: locals[i] },
            remote: remotes[j],
        }),
    decreases n,
{
    let m = remotes.len() as int;
    lemma_cross_len(locals, remotes, n);
    lemma_cross_len(locals, remotes, n - 1);
    assert(0 <= i * m + j < n * m) by (nonlinear_arith)
        requires
            0 <= i < n,
            0 <= j < m,
    ;
    if i < n - 1 {
        lemma_cross_index(locals, remotes, n - 1, i, j);
        assert(i * m + j < (n - 1) * m) by (nonlinear_arith)
            requires
                0 <= i < n - 1,
                0 <= j < m,
        ;
    } else {
        lemma_cross_row(locals[n - 1], remotes, m);
        assert(i * m + j - (n - 1) * m == j) by (nonlinear_arith)
            requires
                i == n - 1,
        ;
    }
}

/// Every descriptor's local port is one of the usable local ports.
proof fn lemma_cross_local_ports(locals: Seq<u16>, remotes: Seq<Endpoint>, i: int)
    requires
        0 <= i <= locals.len(),
    ensures
        forall|k: int|
            0 <= k < cross(locals, remotes, i).len() ==> locals.contains(
                (#[trigger] cross(locals, remotes, i)[k]).local.port,
            ),
    decreases i,
{
    if i <= 0 {
    } else {
        lemma_cross_local_ports(locals, remotes, i - 1);
        lemma_cross_row(locals[i - 1], remotes, remotes.len() as int);
        assert forall|k: int|
            0 <= k < cross(locals, remotes, i).len() implies locals.contains(
            (#[trigger] cross(locals, remotes, i)[k]).local.port,
        ) by {
            let prefix = cross(locals, remotes, i - 1);
            if k >= prefix.len() {
                assert(cross(locals, remotes, i)[k] == cross_row(
                    locals[i - 1],
                    remotes,
                    remotes.len() as int,
                )[k - prefix.len()]);
                assert(cross(locals, remotes, i)[k].local.port == locals[i - 1]);
            }
        }
    }
}

/// An excluded local port never appears in any produced descriptor.
pub proof fn lemma_excluded_ports_absent(
    local_lo: int,
    local_hi: int,
    excluded: Seq<u16>,
    ips: Seq<u32>,
    remote_lo: int,
    remote_hi: int,
)
    ensures
        forall|k: int|
            0 <= k < target_space(local_lo, local_hi, excluded, ips, remote_lo, remote_hi).len()
                ==> !excluded.contains(
                (#[trigger] target_space(local_lo, local_hi, excluded, ips, remote_lo, remote_hi)[k]).local.port,
            ),
{
    let locals = local_ports(local_lo, local_hi, excluded);
    let remotes = remote_endpoints(ips, remote_lo, remote_hi, ips.len() as int);
    let space = target_space(local_lo, local_hi, excluded, ips, remote_lo, remote_hi);
    lemma_local_ports_not_excluded(local_lo, local_hi, excluded);
    lemma_cross_local_ports(locals, remotes, locals.len() as int);
    assert forall|k: int| 0 <= k < space.len() implies !excluded.contains(
        (#[trigger] space[k]).local.port,
    ) by {
        let p = space[k].local.port;
        assert(locals.contains(p));
        let m = choose|m: int| 0 <= m < locals.len() && locals[m] == p;
        assert(!excluded.contains(locals[m]));
    }
}

/// Enumeration is deterministic and idempotent: two enumerations of the
/// same local universe, exclusion set and remote universe are the same
/// sequence, element for element.
pub proof fn lemma_enumeration_deterministic(
    local_lo: int,
    local_hi: int,
    excluded: Seq<u16>,
    ips: Seq<u32>,
    remote_lo: int,
    remote_hi: int,
    a: Seq<WorkDescriptor>,
    b: Seq<WorkDescriptor>,
)
    requires
        a == target_space(local_lo, local_hi, excluded, ips, remote_lo, remote_hi),
        b == target_space(local_lo, local_hi, excluded, ips, remote_lo, remote_hi),
    ensures
        a == b,
        a.len() == b.len(),
        forall|k: int| 0 <= k < a.len() ==> a[k] == b[k],
{
}

/// The target space's size is (usable local ports) × (remote endpoints).
pub proof fn lemma_target_space_size(
    local_lo: int,
    local_hi: int,
    excluded: Seq<u16>,
    ips: Seq<u32>,
    remote_lo: int,
    remote_hi: int,
)
    ensures
        target_space(local_lo, local_hi, excluded, ips, remote_lo, remote_hi).len() == local_ports(
            local_lo,
            local_hi,
            excluded,
        ).len() * remote_endpoints(ips, remote_lo, remote_hi, ips.len() as int).len(),
{
    let locals = local_ports(local_lo, local_hi, excluded);
    let remotes = remote_endpoints(ips, remote_lo, remote_hi, ips.len() as int);
    lemma_cross_len(locals, remotes, locals.len() as int);
}

/// Whether `excluded` holds `p`, by a scan.
pub fn contains_port(excluded: &Vec<u16>, p: u16) -> (b: bool)
    ensures
        b == excluded@.contains(p),
{
    let mut i: usize = 0;
    while i < excluded.len()
        invariant
            i <= excluded.len(),
            forall|k: int| 0 <= k < i ==> excluded@[k] != p,
        decreases excluded.len() - i,
    {
        if excluded[i] == p {
            return true;
        }
        i = i + 1;
    }
    false
}

/// The usable local ports: `lo..hi` in increasing order, exclusions
/// skipped. An excluded port outside the range is simply never reached; no
/// error is raised for it.
pub fn local_port_list(lo: u16, hi: u16, excluded: &Vec<u16>) -> (v: Vec<u16>)
    ensures
        v@ == local_ports(lo as int, hi as int, excluded@),
{
    let mut v: Vec<u16> = Vec::new();
    let mut p: u16 = lo;
    if hi <= lo {
        return v;
    }
    while p < hi
        invariant
            lo <= p <= hi,
            v@ == local_ports(lo as int, p as int, excluded@),
        decreases hi - p,
    {
        if !contains_port(excluded, p) {
            v.push(p);
        }
        assert(local_ports(lo as int, p + 1, excluded@) == if excluded@.contains(p) {
            local_ports(lo as int, p as int, excluded@)
        } else {
            local_ports(lo as int, p as int, excluded@).push(p)
        });
        p = p + 1;
    }
    v
}

/// The remote endpoints: each resolved address, in the order given, crossed
/// with ports `lo..hi` in increasing order.
pub fn remote_endpoint_list(ips: &Vec<u32>, lo: u16, hi: u16) -> (v: Vec<Endpoint>)
    ensures
        v@ == remote_endpoints(ips@, lo as int, hi as int, ips@.len() as int),
{
    let mut v: Vec<Endpoint> = Vec::new();
    let mut i: usize = 0;
    while i < ips.len()
        invariant
            i <= ips.len(),
            v@ == remote_endpoints(ips@, lo as int, hi as int, i as int),
        decreases ips.len() - i,
    {
        let ip = ips[i];
        let mut p: u16 = lo;
        if lo < hi {
            while p < hi
                invariant
                    lo <= p <= hi,
                    lo < hi,
                    i < ips.len(),
                    ip == ips@[i as int],
                    v@ == remote_endpoints(ips@, lo as int, hi as int, i as int) + remote_row(
                        ip,
                        lo as int,
                        p as int,
                    ),
                decreases hi - p,
            {
                v.push(Endpoint { ip, port: p });
                p = p + 1;
            }
        }
        proof {
            assert(remote_row(ip, lo as int, p as int) == remote_row(ip, lo as int, hi as int));
            assert(v@ == remote_endpoints(ips@, lo as int, hi as int, i + 1));
        }
        i = i + 1;
    }
    v
}

/// The full ordered target space: every usable local port crossed with
/// every remote endpoint, outer loop by local port.
pub fn cross_targets(locals: &Vec<u16>, remotes: &Vec<Endpoint>) -> (v: Vec<WorkDescriptor>)
    ensures
        v@ == cross(locals@, remotes@, locals@.len() as int),
{
    let mut v: Vec<WorkDescriptor> = Vec::new();
    let mut i: usize = 0;
    while i < locals.len()
        invariant
            i <= locals.len(),
            v@ == cross(locals@, remotes@, i as int),
        decreases locals.len() - i,
    {
        let lp = locals[i];
        let mut j: usize = 0;
        while j < remotes.len()
            invariant
                j <= remotes.len(),
                i < locals.len(),
                lp == locals@[i as int],
                v@ == cross(locals@, remotes@, i as int) + cross_row(lp, remotes@, j as int),
            decreases remotes.len() - j,
        {
            v.push(WorkDescriptor { local: Endpoint { ip: 0, port: lp }, remote: remotes[j] });
            j = j + 1;
        }
        proof {
            assert(v@ == cross(locals@, remotes@, i + 1));
        }
        i = i + 1;
    }
    v
}

/// Enumerate the whole target space for a run, from its universe
/// description: deterministic, finite, identical on identical inputs.
pub fn enumerate_targets(
    local_lo: u16,
    local_hi: u16,
    excluded: &Vec<u16>,
    remote_ips: &Vec<u32>,
    remote_lo: u16,
    remote_hi: u16,
) -> (v: Vec<WorkDescriptor>)
    ensures
        v@ == target_space(
            local_lo as int,
            local_hi as int,
            excluded@,
            remote_ips@,
            remote_lo as int,
            remote_hi as int,
        ),
{
    let locals = local_port_list(local_lo, local_hi, excluded);
    let remotes = remote_endpoint_list(remote_ips, remote_lo, remote_hi);
    cross_targets(&locals, &remotes)
}

} // verus!
