//! FAT entries and cluster chains.
//!
//! A chain walk is a small state machine: it is told, for the cluster it
//! waits on, what looking up that cluster's FAT entry gave, and moves on.
//! The device-backed walk feeds it entries read from disk; the model below
//! feeds it entries from a fixed table, and the lemmas at the end of
//! this file state what every such walk does.
use vstd::prelude::*;

use crate::error::Error;
use crate::layout::{le32, read_u32};

verus! {

/// Only the low 28 bits of a stored FAT entry are significant.
pub const ENTRY_MASK: u32 = 0x0FFF_FFFF;

/// The entry that marks a bad cluster.
pub const BAD_CLUSTER: u32 = 0x0FFF_FFF7;

/// Entries from this value up mark the end of a chain.
pub const END_OF_CHAIN: u32 = 0x0FFF_FFF8;

/// A stored 32-bit entry with its reserved top 4 bits cleared.
pub open spec fn masked_entry(stored: u32) -> u32 {
    stored & ENTRY_MASK
}

/// Data clusters are numbered from 2 to `cluster_count + 1`.
pub open spec fn is_data_cluster(cluster: u32, cluster_count: u32) -> bool {
    2 <= cluster && (cluster as int) < cluster_count as int + 2
}

/// Reads the entry stored little-endian at `offset` in a FAT sector and
/// clears its top 4 bits.
pub fn entry_in_sector(sector: &[u8; 512], offset: u32) -> (r: u32)
    requires
        offset + 4 <= 512,
    ensures
        r == masked_entry(le32(sector@, offset as int) as u32),
        r <= ENTRY_MASK,
{
    let stored = read_u32(sector, offset as usize);
    let r = stored & ENTRY_MASK;
    assert(r <= ENTRY_MASK) by (bit_vector)
        requires
            r == stored & ENTRY_MASK,
    ;
    r
}

/// What a decoded FAT entry says about the cluster that follows.
#[derive(Debug, Clone, Copy, PartialEq, Eq, Structural)]
pub enum ChainLink {
    /// The chain ends here.
    End,
    /// The chain goes on at this data cluster.
    Next(u32),
    /// Free, reserved, bad or out-of-range: no chain may go there.
    Corrupt,
}

/// The meaning of a decoded entry inside a chain.
pub open spec fn link_of(entry: u32, cluster_count: u32) -> ChainLink {
    if entry >= END_OF_CHAIN {
        ChainLink::End
    } else if entry == BAD_CLUSTER {
        ChainLink::Corrupt
    } else if is_data_cluster(entry, cluster_count) {
        ChainLink::Next(entry)
    } else {
        ChainLink::Corrupt
    }
}

/// Classifies a decoded entry.
pub fn classify_entry(entry: u32, cluster_count: u32) -> (r: ChainLink)
    ensures
        r == link_of(entry, cluster_count),
{
    if entry >= END_OF_CHAIN {
        ChainLink::End
    } else if entry == BAD_CLUSTER {
        ChainLink::Corrupt
    } else if 2 <= entry && (entry as u64) < cluster_count as u64 + 2 {
        ChainLink::Next(entry)
    } else {
        ChainLink::Corrupt
    }
}

/// Where a chain walk stands.
#[derive(Debug, Clone, Copy, PartialEq, Eq, Structural)]
pub enum WalkStatus {
    /// The walk waits for the entry of this cluster.
    Pending(u32),
    /// The last cluster's entry marked the end of the chain.
    Finished,
    /// The walk stopped on this error.
    Failed(Error),
}

/// The clusters of a chain walked so far, and where the walk stands.
pub struct ChainWalk {
    pub clusters: Vec<u32>,
    pub status: WalkStatus,
}

impl View for ChainWalk {
    type V = (Seq<u32>, WalkStatus);

    open spec fn view(&self) -> (Seq<u32>, WalkStatus) {
        (self.clusters@, self.status)
    }
}

/// One move of a walk, given the result of looking up the entry of the
/// cluster it waits on. A walk never holds more than `cluster_count`
/// clusters: a chain longer than that revisits a cluster and is corrupt.
pub open spec fn step_spec(
    w: (Seq<u32>, WalkStatus),
    cluster_count: u32,
    entry: Result<u32, Error>,
) -> (Seq<u32>, WalkStatus) {
    match w.1 {
        WalkStatus::Pending(c) => match entry {
            Err(e) => (w.0, WalkStatus::Failed(e)),
            Ok(v) => if w.0.len() >= cluster_count {
                (w.0, WalkStatus::Failed(Error::InvalidFat32Structure))
            } else {
                let s = w.0.push(c);
                match link_of(v, cluster_count) {
                    ChainLink::End => (s, WalkStatus::Finished),
                    ChainLink::Corrupt => (s, WalkStatus::Failed(Error::InvalidFat32Structure)),
                    ChainLink::Next(n) => (s, WalkStatus::Pending(n)),
                }
            },
        },
        _ => w,
    }
}

impl ChainWalk {
    /// A walk that waits on `start`, with no cluster yet.
    pub fn new(start: u32) -> (r: ChainWalk)
        ensures
            r@ == (Seq::<u32>::empty(), WalkStatus::Pending(start)),
    {
        ChainWalk { clusters: Vec::new(), status: WalkStatus::Pending(start) }
    }

    /// Whether the walk still waits for an entry.
    pub fn is_pending(&self) -> (r: bool)
        ensures
            r == self.status is Pending,
    {
        match self.status {
            WalkStatus::Pending(_) => true,
            _ => false,
        }
    }

    /// Moves the walk on with the lookup result of the cluster it waits on.
    pub fn step(&mut self, cluster_count: u32, entry: Result<u32, Error>)
        ensures
            final(self)@ == step_spec(old(self)@, cluster_count, entry),
    {
        if let WalkStatus::Pending(c) = self.status {
            match entry {
                Err(e) => {
                    self.status = WalkStatus::Failed(e);
                },
                Ok(v) => {
                    if self.clusters.len() >= cluster_count as usize {
                        self.status = WalkStatus::Failed(Error::InvalidFat32Structure);
                    } else {
                        self.clusters.push(c);
                        self.status =
                        match classify_entry(v, cluster_count) {
                            ChainLink::End => WalkStatus::Finished,
                            ChainLink::Corrupt => WalkStatus::Failed(Error::InvalidFat32Structure),
                            ChainLink::Next(n) => WalkStatus::Pending(n),
                        };
                    }
                },
            }
        }
    }
}

/// Clearing the reserved bits keeps the stored value modulo 2^28.
pub proof fn lemma_mask_clears_top_bits(stored: u32)
    ensures
        masked_entry(stored) == stored % 0x1000_0000,
        masked_entry(stored) <= ENTRY_MASK,
{
    assert(stored & 0x0FFF_FFFF == stored % 0x1000_0000) by (bit_vector);
    assert(stored & 0x0FFF_FFFF <= 0x0FFF_FFFF) by (bit_vector);
}

/// Looking up a cluster in a FAT whose stored 32-bit values are `stored`.
pub open spec fn table_lookup(stored: spec_fn(u32) -> u32, cluster_count: u32, cluster: u32) -> Result<
    u32,
    Error,
> {
    if is_data_cluster(cluster, cluster_count) {
        Ok(masked_entry(stored(cluster)))
    } else {
        Err(Error::InvalidFat32Structure)
    }
}

/// A walk over the FAT `stored`, run for at most `fuel` moves.
pub open spec fn walk_table(
    stored: spec_fn(u32) -> u32,
    cluster_count: u32,
    w: (Seq<u32>, WalkStatus),
    fuel: nat,
) -> (Seq<u32>, WalkStatus)
    decreases fuel,
{
    if fuel == 0 {
        w
    } else {
        match w.1 {
            WalkStatus::Pending(c) => walk_table(
                stored,
                cluster_count,
                step_spec(w, cluster_count, table_lookup(stored, cluster_count, c)),
                (fuel - 1) as nat,
            ),
            _ => w,
        }
    }
}

/// The walk of the chain from `start` over the FAT `stored`.
pub open spec fn chain_in_table(stored: spec_fn(u32) -> u32, cluster_count: u32, start: u32) -> (
    Seq<u32>,
    WalkStatus,
) {
    walk_table(
        stored,
        cluster_count,
        (Seq::<u32>::empty(), WalkStatus::Pending(start)),
        cluster_count as nat + 1,
    )
}

/// The entry stored for data cluster `a` links it to `b`.
pub open spec fn links_to(stored: spec_fn(u32) -> u32, cluster_count: u32, a: u32, b: u32) -> bool {
    is_data_cluster(a, cluster_count) && link_of(masked_entry(stored(a)), cluster_count)
        == ChainLink::Next(b)
}

/// `s` starts at `start` and each of its clusters links to the next one.
pub open spec fn is_link_path(
    stored: spec_fn(u32) -> u32,
    cluster_count: u32,
    start: u32,
    s: Seq<u32>,
) -> bool {
    &&& s.len() > 0 ==> s[0] == start
    &&& forall|k: int|
        0 <= k < s.len() - 1 ==> #[trigger] links_to(stored, cluster_count, s[k], s[k + 1])
}

spec fn ends_chain(stored: spec_fn(u32) -> u32, cluster_count: u32, c: u32) -> bool {
    is_data_cluster(c, cluster_count) && link_of(masked_entry(stored(c)), cluster_count)
        == ChainLink::End
}

spec fn walk_inv(
    stored: spec_fn(u32) -> u32,
    cluster_count: u32,
    start: u32,
    w: (Seq<u32>, WalkStatus),
) -> bool {
    &&& is_link_path(stored, cluster_count, start, w.0)
    &&& w.0.len() <= cluster_count
    &&& match w.1 {
        WalkStatus::Pending(c) => (w.0.len() == 0 ==> c == start) && (w.0.len() > 0 ==> links_to(
            stored,
            cluster_count,
            w.0.last(),
            c,
        )),
        WalkStatus::Finished => w.0.len() > 0 && ends_chain(stored, cluster_count, w.0.last()),
        WalkStatus::Failed(e) => e == Error::InvalidFat32Structure,
    }
}

proof fn lemma_step_keeps_inv(
    stored: spec_fn(u32) -> u32,
    cluster_count: u32,
    start: u32,
    w: (Seq<u32>, WalkStatus),
    c: u32,
)
    requires
        walk_inv(stored, cluster_count, start, w),
        w.1 == WalkStatus::Pending(c),
    ensures
        walk_inv(
            stored,
            cluster_count,
            start,
            step_spec(w, cluster_count, table_lookup(stored, cluster_count, c)),
        ),
{
    let w2 = step_spec(w, cluster_count, table_lookup(stored, cluster_count, c));
    if is_data_cluster(c, cluster_count) && w.0.len() < cluster_count {
        let s = w.0.push(c);
        assert(w2.0 == s);
        assert forall|k: int| 0 <= k < s.len() - 1 implies #[trigger] links_to(
            stored,
            cluster_count,
            s[k],
            s[k + 1],
        ) by {
            if k < w.0.len() - 1 {
                assert(links_to(stored, cluster_count, w.0[k], w.0[k + 1]));
            } else {
                assert(s[k] == w.0.last());
            }
        }
    }
}

proof fn lemma_walk_keeps_inv(
    stored: spec_fn(u32) -> u32,
    cluster_count: u32,
    start: u32,
    w: (Seq<u32>, WalkStatus),
    fuel: nat,
)
    requires
        walk_inv(stored, cluster_count, start, w),
        w.1 is Pending ==> w.0.len() + fuel > cluster_count,
    ensures
        walk_inv(stored, cluster_count, start, walk_table(stored, cluster_count, w, fuel)),
        !(walk_table(stored, cluster_count, w, fuel).1 is Pending),
    decreases fuel,
{
    if fuel > 0 {
        if let WalkStatus::Pending(c) = w.1 {
            lemma_step_keeps_inv(stored, cluster_count, start, w, c);
            let w2 = step_spec(w, cluster_count, table_lookup(stored, cluster_count, c));
            lemma_walk_keeps_inv(stored, cluster_count, start, w2, (fuel - 1) as nat);
        }
    }
}

/// Two link paths from the same start agree where both are defined.
proof fn lemma_paths_agree(
    stored: spec_fn(u32) -> u32,
    cluster_count: u32,
    start: u32,
    p: Seq<u32>,
    q: Seq<u32>,
    k: int,
)
    requires
        is_link_path(stored, cluster_count, start, p),
        is_link_path(stored, cluster_count, start, q),
        0 <= k < p.len(),
        k < q.len(),
    ensures
        p[k] == q[k],
    decreases k,
{
    if k > 0 {
        lemma_paths_agree(stored, cluster_count, start, p, q, k - 1);
        let m = k - 1;
        assert(links_to(stored, cluster_count, p[m], p[m + 1]));
        assert(links_to(stored, cluster_count, q[m], q[m + 1]));
    }
}

/// Once a link path repeats a cluster, it repeats itself from there on.
proof fn lemma_repeat_shifts(
    stored: spec_fn(u32) -> u32,
    cluster_count: u32,
    start: u32,
    p: Seq<u32>,
    i: int,
    j: int,
    d: int,
)
    requires
        is_link_path(stored, cluster_count, start, p),
        0 <= i < j,
        0 <= d,
        j + d < p.len(),
        p[i] == p[j],
    ensures
        p[i + d] == p[j + d],
    decreases d,
{
    if d > 0 {
        lemma_repeat_shifts(stored, cluster_count, start, p, i, j, d - 1);
        let a = i + d - 1;
        let b = j + d - 1;
        assert(links_to(stored, cluster_count, p[a], p[a + 1]));
        assert(links_to(stored, cluster_count, p[b], p[b + 1]));
    }
}

/// A link path whose last cluster ends the chain repeats no cluster.
proof fn lemma_ended_path_has_no_repeats(
    stored: spec_fn(u32) -> u32,
    cluster_count: u32,
    start: u32,
    p: Seq<u32>,
    i: int,
    j: int,
)
    requires
        is_link_path(stored, cluster_count, start, p),
        p.len() > 0,
        ends_chain(stored, cluster_count, p.last()),
        0 <= i < j < p.len(),
    ensures
        p[i] != p[j],
{
    if p[i] == p[j] {
        let d = p.len() - 1 - j;
        lemma_repeat_shifts(stored, cluster_count, start, p, i, j, d);
        assert(links_to(stored, cluster_count, p[i + d], p[i + d + 1]));
    }
}

/// Every chain walk over a FAT ends: it finishes, or fails with
/// `InvalidFat32Structure`, having yielded at most `cluster_count`
/// clusters, the first of them `start`, each linked to the next.
pub proof fn lemma_chain_walk_ends(stored: spec_fn(u32) -> u32, cluster_count: u32, start: u32)
    ensures
        chain_in_table(stored, cluster_count, start).1 == WalkStatus::Finished
            || chain_in_table(stored, cluster_count, start).1 == WalkStatus::Failed(
            Error::InvalidFat32Structure,
        ),
        chain_in_table(stored, cluster_count, start).0.len() <= cluster_count,
        is_link_path(stored, cluster_count, start, chain_in_table(stored, cluster_count, start).0),
{
    let w0 = (Seq::<u32>::empty(), WalkStatus::Pending(start));
    lemma_walk_keeps_inv(stored, cluster_count, start, w0, cluster_count as nat + 1);
}

/// A walk that starts at a cluster whose entry is `0x0FFFFFFF` yields that
/// cluster alone and finishes.
pub proof fn lemma_end_marker_at_start(stored: spec_fn(u32) -> u32, cluster_count: u32, start: u32)
    requires
        is_data_cluster(start, cluster_count),
        masked_entry(stored(start)) == 0x0FFF_FFFF,
    ensures
        chain_in_table(stored, cluster_count, start) == (seq![start], WalkStatus::Finished),
{
    let w0 = (Seq::<u32>::empty(), WalkStatus::Pending(start));
    let w1 = step_spec(w0, cluster_count, table_lookup(stored, cluster_count, start));
    assert(w1 == (seq![start], WalkStatus::Finished)) by {
        assert(Seq::<u32>::empty().push(start) =~= seq![start]);
    }
    assert(walk_table(stored, cluster_count, w1, cluster_count as nat) == w1);
}

/// A walk over a FAT in which the chain from `start` revisits a cluster
/// before any end-of-chain entry fails with `InvalidFat32Structure`.
pub proof fn lemma_revisiting_chain_fails(
    stored: spec_fn(u32) -> u32,
    cluster_count: u32,
    start: u32,
    path: Seq<u32>,
    i: int,
    j: int,
)
    requires
        is_link_path(stored, cluster_count, start, path),
        0 <= i < j < path.len(),
        path[i] == path[j],
    ensures
        chain_in_table(stored, cluster_count, start).1 == WalkStatus::Failed(
            Error::InvalidFat32Structure,
        ),
{
    let w0 = (Seq::<u32>::empty(), WalkStatus::Pending(start));
    lemma_walk_keeps_inv(stored, cluster_count, start, w0, cluster_count as nat + 1);
    let r = chain_in_table(stored, cluster_count, start);
    if r.1 == WalkStatus::Finished {
        let walked = r.0;
        if walked.len() >= path.len() {
            lemma_paths_agree(stored, cluster_count, start, walked, path, i);
            lemma_paths_agree(stored, cluster_count, start, walked, path, j);
            lemma_ended_path_has_no_repeats(stored, cluster_count, start, walked, i, j);
        } else {
            let last = walked.len() - 1;
            lemma_paths_agree(stored, cluster_count, start, walked, path, last);
            assert(links_to(stored, cluster_count, path[last], path[last + 1]));
        }
    }
}

} // verus!
