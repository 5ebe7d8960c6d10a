//! The cache of accessibility elements.
//!
//! Each snapshot of a window's tree stores the keys of its indexed elements.
//! Beside them the cache remembers, for each process, the most elements that
//! one snapshot ever had. A process whose tree was once populated and is now
//! empty has a modal dialog up; one whose tree never was has never joined the
//! accessibility bus. The first must not be relaunched.
use std::collections::HashMap;
use vstd::prelude::*;

verus! {

broadcast use vstd::std_specs::hash::group_hash_axioms;

/// A window of a process.
#[derive(Debug, Clone, Copy, PartialEq, Eq, Hash, Structural)]
pub struct CacheKey {
    pub pid: u32,
    pub xid: u64,
}

/// The keys of a window's elements, by element index.
#[derive(Debug)]
pub struct CachedSnapshot {
    pub elements: Vec<u64>,
}

/// A node of an accessibility tree.
#[derive(Debug)]
pub struct AtspiNode {
    /// The index by which the element is addressed, if it is.
    pub element_index: Option<usize>,
    pub role: String,
    pub name: Option<String>,
    pub value: Option<String>,
    pub description: Option<String>,
    pub actions: Vec<String>,
    /// A hash of the element's path.
    pub element_key: u64,
}

/// The keys of the nodes that are indexed, in order.
pub open spec fn indexed_keys(nodes: Seq<AtspiNode>) -> Seq<u64>
    decreases nodes.len(),
{
    if nodes.len() == 0 {
        Seq::empty()
    } else {
        let before = indexed_keys(nodes.drop_last());
        if nodes.last().element_index is Some {
            before.push(nodes.last().element_key)
        } else {
            before
        }
    }
}

/// What a cache holds: the last snapshot of each window, and the most elements
/// that a snapshot of each process had.
pub struct CacheModel {
    pub snapshots: Map<CacheKey, Seq<u64>>,
    pub peaks: Map<u32, nat>,
}

impl CacheModel {
    /// A cache with nothing in it.
    pub open spec fn empty() -> CacheModel {
        CacheModel { snapshots: Map::empty(), peaks: Map::empty() }
    }

    /// The most elements that a snapshot of a process had; zero where it had
    /// none.
    pub open spec fn peak(self, pid: u32) -> nat {
        if self.peaks.dom().contains(pid) {
            self.peaks[pid]
        } else {
            0
        }
    }

    /// The elements in the last snapshot of a window; none where it had none.
    pub open spec fn elements(self, key: CacheKey) -> Seq<u64> {
        if self.snapshots.dom().contains(key) {
            self.snapshots[key]
        } else {
            Seq::empty()
        }
    }

    /// No snapshot has more elements than its process's peak.
    pub open spec fn valid(self) -> bool {
        forall|key: CacheKey| #[trigger] self.elements(key).len() <= self.peak(key.pid)
    }

    /// The cache with a new snapshot of a window.
    pub open spec fn updated(self, key: CacheKey, keys: Seq<u64>) -> CacheModel {
        CacheModel {
            snapshots: self.snapshots.insert(key, keys),
            peaks: self.peaks.insert(
                key.pid,
                if keys.len() > self.peak(key.pid) {
                    keys.len()
                } else {
                    self.peak(key.pid)
                },
            ),
        }
    }
}

/// The number under which a window is kept.
spec fn packed(key: CacheKey) -> u128 {
    (key.pid as int * 0x1_0000_0000_0000_0000 + key.xid as int) as u128
}

fn pack(key: CacheKey) -> (r: u128)
    ensures
        r == packed(key),
{
    key.pid as u128 * 0x1_0000_0000_0000_0000u128 + key.xid as u128
}

/// Different windows are kept under different numbers.
proof fn lemma_packed_apart(a: CacheKey, b: CacheKey)
    requires
        packed(a) == packed(b),
    ensures
        a == b,
{
}

/// The cache of accessibility elements.
pub struct ElementCache {
    snapshots: HashMap<u128, CachedSnapshot>,
    peak_elements: HashMap<u32, usize>,
}

impl View for ElementCache {
    type V = CacheModel;

    closed spec fn view(&self) -> CacheModel {
        CacheModel {
            snapshots: Map::new(
                |key: CacheKey| self.snapshots@.dom().contains(packed(key)),
                |key: CacheKey| self.snapshots@[packed(key)].elements@,
            ),
            peaks: Map::new(
                |pid: u32| self.peak_elements@.dom().contains(pid),
                |pid: u32| self.peak_elements@[pid] as nat,
            ),
        }
    }
}

impl ElementCache {
    /// A cache with nothing in it.
    pub fn new() -> (r: ElementCache)
        ensures
            r@ == CacheModel::empty(),
            r@.valid(),
    {
        let r = ElementCache { snapshots: HashMap::new(), peak_elements: HashMap::new() };
        assert(r@.snapshots =~= CacheModel::empty().snapshots);
        assert(r@.peaks =~= CacheModel::empty().peaks);
        r
    }

    /// Stores a snapshot of a window in the place of its last one.
    pub fn update(&mut self, pid: u32, xid: u64, nodes: &[AtspiNode])
        requires
            old(self)@.valid(),
        ensures
            final(self)@ == old(self)@.updated(CacheKey { pid, xid }, indexed_keys(nodes@)),
            final(self)@.valid(),
    {
        let key = CacheKey { pid, xid };
        let mut elements: Vec<u64> = Vec::new();
        let mut i: usize = 0;
        while i < nodes.len()
            invariant
                i <= nodes.len(),
                elements@ == indexed_keys(nodes@.take(i as int)),
            decreases nodes.len() - i,
        {
            assert(nodes@.take(i + 1).drop_last() =~= nodes@.take(i as int));
            if nodes[i].element_index.is_some() {
                elements.push(nodes[i].element_key);
            }
            i += 1;
        }
        assert(nodes@.take(i as int) =~= nodes@);
        let count: usize = elements.len();
        let ghost before = self@;
        let peak: usize = self.peak_element_count(pid);
        self.snapshots.insert(pack(key), CachedSnapshot { elements });
        self.peak_elements.insert(
            pid,
            if count > peak {
                count
            } else {
                peak
            },
        );
        proof {
            let after = before.updated(key, indexed_keys(nodes@));
            assert forall|k: CacheKey| k != key implies packed(k) != packed(key) by {
                if packed(k) == packed(key) {
                    lemma_packed_apart(k, key);
                }
            }
            assert(self@.snapshots =~= after.snapshots);
            assert(self@.peaks =~= after.peaks);
            assert forall|k: CacheKey| #[trigger] after.elements(k).len() <= after.peak(k.pid) by {
                assert(before.elements(k).len() <= before.peak(k.pid));
            }
        }
    }

    /// The most elements that a snapshot of a process ever had; zero where it
    /// never had any.
    pub fn peak_element_count(&self, pid: u32) -> (r: usize)
        ensures
            r == self@.peak(pid),
    {
        match self.peak_elements.get(&pid) {
            Some(n) => *n,
            None => 0,
        }
    }

    /// The key of an element in the last snapshot of a window.
    pub fn get_element_key(&self, pid: u32, xid: u64, idx: usize) -> (r: Option<u64>)
        ensures
            r == (if idx < self@.elements(CacheKey { pid, xid }).len() {
                Some(self@.elements(CacheKey { pid, xid })[idx as int])
            } else {
                None
            }),
    {
        match self.snapshots.get(&pack(CacheKey { pid, xid })) {
            Some(s) => if idx < s.elements.len() {
                Some(s.elements[idx])
            } else {
                None
            },
            None => None,
        }
    }

    /// The number of elements in the last snapshot of a window.
    pub fn element_count(&self, pid: u32, xid: u64) -> (r: usize)
        ensures
            r == self@.elements(CacheKey { pid, xid }).len(),
    {
        match self.snapshots.get(&pack(CacheKey { pid, xid })) {
            Some(s) => s.elements.len(),
            None => 0,
        }
    }
}

impl Default for ElementCache {
    /// A cache with nothing in it.
    fn default() -> (r: ElementCache)
        ensures
            r@ == CacheModel::empty(),
            r@.valid(),
    {
        ElementCache::new()
    }
}

// Laws

/// A snapshot and the window it is of.
pub struct Snapshot {
    pub key: CacheKey,
    pub keys: Seq<u64>,
}

/// A new cache after a series of snapshots.
pub open spec fn after_snapshots(snapshots: Seq<Snapshot>) -> CacheModel
    decreases snapshots.len(),
{
    if snapshots.len() == 0 {
        CacheModel::empty()
    } else {
        after_snapshots(snapshots.drop_last()).updated(snapshots.last().key, snapshots.last().keys)
    }
}

/// A process's peak is the size of the largest snapshot that any of its
/// windows ever had, whatever came after it.
pub proof fn law_the_peak_is_the_most_ever_seen(snapshots: Seq<Snapshot>, pid: u32)
    ensures
        forall|i: int|
            0 <= i < snapshots.len() && #[trigger] snapshots[i].key.pid == pid ==> snapshots[i].keys.len()
                <= after_snapshots(snapshots).peak(pid),
        after_snapshots(snapshots).peak(pid) > 0 ==> exists|i: int|
            0 <= i < snapshots.len() && #[trigger] snapshots[i].key.pid == pid && snapshots[i].keys.len()
                == after_snapshots(snapshots).peak(pid),
    decreases snapshots.len(),
{
    if snapshots.len() > 0 {
        let before = snapshots.drop_last();
        let n = snapshots.len() - 1;
        law_the_peak_is_the_most_ever_seen(before, pid);
        assert forall|i: int|
            0 <= i < snapshots.len() && #[trigger] snapshots[i].key.pid == pid implies snapshots[i].keys.len()
            <= after_snapshots(snapshots).peak(pid) by {
            if i < n {
                assert(before[i].key.pid == pid);
            }
        }
        if after_snapshots(snapshots).peak(pid) > 0 {
            if after_snapshots(snapshots).peak(pid) == after_snapshots(before).peak(pid) {
                let i = choose|i: int|
                    0 <= i < before.len() && #[trigger] before[i].key.pid == pid && before[i].keys.len()
                        == after_snapshots(before).peak(pid);
                assert(snapshots[i].key.pid == pid);
            } else {
                assert(snapshots[n].key.pid == pid);
            }
        }
    }
}

/// A snapshot never lowers a peak, and leaves the peaks of other processes and
/// the snapshots of other windows as they are.
pub proof fn law_collapses_keep_the_peak(m: CacheModel, key: CacheKey, keys: Seq<u64>)
    ensures
        forall|pid: u32| #[trigger] m.updated(key, keys).peak(pid) >= m.peak(pid),
        forall|pid: u32| pid != key.pid ==> #[trigger] m.updated(key, keys).peak(pid) == m.peak(pid),
        forall|k: CacheKey| k != key ==> #[trigger] m.updated(key, keys).elements(k) == m.elements(k),
{
}

/// What was stored last of a window is what is read of it.
pub proof fn law_the_last_snapshot_is_read_back(m: CacheModel, key: CacheKey, keys: Seq<u64>)
    ensures
        m.updated(key, keys).elements(key) == keys,
{
}

/// A snapshot caches the key of each node that has an index, whatever else the
/// node is, in the order of the nodes, and nothing else.
pub proof fn law_indexed_nodes_are_cached(nodes: Seq<AtspiNode>)
    ensures
        indexed_keys(nodes) == nodes.filter(|n: AtspiNode| n.element_index is Some).map_values(
            |n: AtspiNode| n.element_key,
        ),
    decreases nodes.len(),
{
    reveal(Seq::filter);
    let indexed = |n: AtspiNode| n.element_index is Some;
    let key = |n: AtspiNode| n.element_key;
    if nodes.len() > 0 {
        let before = nodes.drop_last();
        law_indexed_nodes_are_cached(before);
        if indexed(nodes.last()) {
            assert(before.filter(indexed).push(nodes.last()).map_values(key) =~= before.filter(
                indexed,
            ).map_values(key).push(nodes.last().element_key));
        }
    }
    assert(indexed_keys(nodes) =~= nodes.filter(indexed).map_values(key));
}

/// How many of some nodes have an index.
pub open spec fn indexed_count(nodes: Seq<AtspiNode>) -> nat {
    nodes.filter(|n: AtspiNode| n.element_index is Some).len()
}

/// The nodes before another with an index come before it in the cache.
proof fn lemma_key_position(nodes: Seq<AtspiNode>, i: int)
    requires
        0 <= i < nodes.len(),
        nodes[i].element_index is Some,
    ensures
        indexed_keys(nodes.take(i)).len() < indexed_keys(nodes).len(),
        indexed_keys(nodes)[indexed_keys(nodes.take(i)).len() as int] == nodes[i].element_key,
    decreases nodes.len(),
{
    let before = nodes.drop_last();
    if i == nodes.len() - 1 {
        assert(nodes.take(i) =~= before);
    } else {
        assert(before.take(i) =~= nodes.take(i));
        lemma_key_position(before, i);
    }
}

/// Where the nodes of a snapshot that have an index are numbered from zero, in
/// order and without a gap, an index leads to the key of the node that carries
/// it, and to that alone; and as many elements are counted as there are nodes
/// with an index.
pub proof fn law_an_index_leads_to_its_node(
    m: CacheModel,
    key: CacheKey,
    nodes: Seq<AtspiNode>,
    i: int,
    k: usize,
)
    requires
        forall|j: int|
            0 <= j < nodes.len() && (#[trigger] nodes[j]).element_index is Some ==> nodes[j].element_index->0
                == indexed_count(nodes.take(j)),
    ensures
        m.updated(key, indexed_keys(nodes)).elements(key).len() == indexed_count(nodes),
        0 <= i < nodes.len() && nodes[i].element_index == Some(k) ==> k < m.updated(
            key,
            indexed_keys(nodes),
        ).elements(key).len() && m.updated(key, indexed_keys(nodes)).elements(key)[k as int]
            == nodes[i].element_key,
{
    law_indexed_nodes_are_cached(nodes);
    if 0 <= i < nodes.len() && nodes[i].element_index == Some(k) {
        law_indexed_nodes_are_cached(nodes.take(i));
        lemma_key_position(nodes, i);
    }
}

/// The snapshots of two parts of a tree, one behind the other, make the
/// snapshot of the whole.
pub proof fn law_snapshots_go_node_by_node(a: Seq<AtspiNode>, b: Seq<AtspiNode>)
    ensures
        indexed_keys(a + b) == indexed_keys(a) + indexed_keys(b),
    decreases b.len(),
{
    if b.len() == 0 {
        assert(a + b =~= a);
    } else {
        assert((a + b).drop_last() =~= a + b.drop_last());
        law_snapshots_go_node_by_node(a, b.drop_last());
    }
    assert(indexed_keys(a + b) =~= indexed_keys(a) + indexed_keys(b));
}

/// A new cache has no elements and no peaks. A snapshot replaces the last one
/// of its window alone, and raises the peak of its process alone, to its own
/// size where that is the larger.
pub proof fn law_a_snapshot_changes_its_window_alone(
    m: CacheModel,
    key: CacheKey,
    keys: Seq<u64>,
    other: CacheKey,
    pid: u32,
)
    ensures
        CacheModel::empty().elements(key).len() == 0,
        CacheModel::empty().peak(pid) == 0,
        m.updated(key, keys).elements(other) == (if other.pid == key.pid && other.xid == key.xid {
            keys
        } else {
            m.elements(other)
        }),
        pid != key.pid ==> m.updated(key, keys).peak(pid) == m.peak(pid),
        m.updated(key, keys).peak(key.pid) >= keys.len(),
        m.updated(key, keys).peak(key.pid) >= m.peak(key.pid),
        m.updated(key, keys).peak(key.pid) == keys.len() || m.updated(key, keys).peak(key.pid)
            == m.peak(key.pid),
{
}

} // verus!
