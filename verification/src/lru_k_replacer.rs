use vstd::prelude::*;
use vstd::set_lib::lemma_len_subset;
use vstd::std_specs::hash::spec_hash_map_iter;
use vstd::std_specs::iter::IteratorSpec;
use std::collections::HashMap;
use std::collections::VecDeque;
use crate::typedef::FrameId;

verus! {

broadcast use vstd::std_specs::hash::group_hash_axioms;

/// What the replacer remembers of one frame: whether it may be evicted, and
/// the timestamps of its most recent accesses, oldest first.
pub struct NodeView {
    pub is_evictable: bool,
    pub history: Seq<u64>,
}

impl NodeView {
    /// A frame that was just met: pinned, with no access on record.
    pub open spec fn fresh() -> NodeView {
        NodeView { is_evictable: false, history: Seq::empty() }
    }

    /// Fewer than `k` accesses are on record, so the backward k-distance is
    /// infinite.
    pub open spec fn has_inf_backward_k_dist(self, k: nat) -> bool {
        self.history.len() < k
    }

    /// The oldest access on record.
    pub open spec fn earliest(self) -> u64
        recommends
            self.history.len() > 0,
    {
        self.history[0]
    }

    /// The time since the k-th most recent access, or `None` for infinity
    /// where fewer than `k` accesses are on record.
    pub open spec fn backward_k_distance(self, k: nat, now: nat) -> Option<int> {
        if self.history.len() < k {
            None
        } else {
            Some(now - self.history[self.history.len() - k])
        }
    }

    /// The node after an access at time `ts`: the timestamp is appended, and
    /// the oldest one leaves where more than `k` would be on record.
    pub open spec fn record(self, ts: u64, k: nat) -> NodeView {
        let pushed = self.history.push(ts);
        NodeView {
            is_evictable: self.is_evictable,
            history: if pushed.len() > k {
                pushed.drop_first()
            } else {
                pushed
            },
        }
    }

    /// At most `k` timestamps are on record, in strictly increasing order, and
    /// all of them lie before `now`.
    pub open spec fn wf(self, k: nat, now: nat) -> bool {
        &&& self.history.len() <= k
        &&& forall|i: int, j: int|
            0 <= i < j < self.history.len() ==> self.history[i] < self.history[j]
        &&& forall|i: int| 0 <= i < self.history.len() ==> (#[trigger] self.history[i]) < now
    }
}

/// `a` is evicted before `b`: its backward k-distance is larger, or the two
/// distances are equal (both infinite, too) and its oldest access on record
/// is older.
pub open spec fn outranks(a: NodeView, b: NodeView, k: nat, now: nat) -> bool {
    match (a.backward_k_distance(k, now), b.backward_k_distance(k, now)) {
        (None, Some(_)) => true,
        (Some(_), None) => false,
        (None, None) => a.earliest() < b.earliest(),
        (Some(x), Some(y)) => x > y || (x == y && a.earliest() < b.earliest()),
    }
}

/// The state of an LRU-K replacer: the number of accesses it remembers per
/// frame, the next timestamp it will hand out, and the frames it knows.
pub struct ReplacerView {
    pub k: nat,
    pub now: nat,
    pub nodes: Map<FrameId, NodeView>,
}

impl ReplacerView {
    pub open spec fn knows(self, frame_id: FrameId) -> bool {
        self.nodes.dom().contains(frame_id)
    }

    pub open spec fn is_evictable(self, frame_id: FrameId) -> bool {
        self.knows(frame_id) && self.nodes[frame_id].is_evictable
    }

    /// The known frames that may be evicted.
    pub open spec fn evictable_frames(self) -> Set<FrameId> {
        Set::new(|f: FrameId| self.is_evictable(f))
    }

    /// The state after an access to `frame_id` at the current timestamp.
    pub open spec fn record_access(self, frame_id: FrameId) -> ReplacerView {
        let node = if self.knows(frame_id) {
            self.nodes[frame_id]
        } else {
            NodeView::fresh()
        };
        ReplacerView {
            k: self.k,
            now: self.now + 1,
            nodes: self.nodes.insert(frame_id, node.record(self.now as u64, self.k)),
        }
    }

    /// The state with the evictable flag of `frame_id` set to `evictable`;
    /// an unknown frame changes nothing.
    pub open spec fn set_evictable(self, frame_id: FrameId, evictable: bool) -> ReplacerView {
        if self.knows(frame_id) {
            ReplacerView {
                k: self.k,
                now: self.now,
                nodes: self.nodes.insert(
                    frame_id,
                    NodeView { is_evictable: evictable, history: self.nodes[frame_id].history },
                ),
            }
        } else {
            self
        }
    }

    pub open spec fn pin(self, frame_id: FrameId) -> ReplacerView {
        self.set_evictable(frame_id, false)
    }

    pub open spec fn unpin(self, frame_id: FrameId) -> ReplacerView {
        self.set_evictable(frame_id, true)
    }

    /// The state without `frame_id`, where it is known and evictable; else
    /// the same state.
    pub open spec fn remove(self, frame_id: FrameId) -> ReplacerView {
        if self.is_evictable(frame_id) {
            self.forget(frame_id)
        } else {
            self
        }
    }

    /// The state without `frame_id`.
    pub open spec fn forget(self, frame_id: FrameId) -> ReplacerView {
        ReplacerView { k: self.k, now: self.now, nodes: self.nodes.remove(frame_id) }
    }

    /// `frame_id` is the frame to evict: it is evictable, and it is evicted
    /// before every other evictable frame.
    pub open spec fn is_victim(self, frame_id: FrameId) -> bool {
        &&& self.is_evictable(frame_id)
        &&& forall|g: FrameId|
            #![trigger self.nodes[g]]
            self.is_evictable(g) && g != frame_id ==> outranks(
                self.nodes[frame_id],
                self.nodes[g],
                self.k,
                self.now,
            )
    }

    /// The replacer remembers at least one access per frame and finitely many
    /// frames; every known frame has an access on record and a well-formed
    /// history; and no timestamp is on record for two frames.
    pub open spec fn wf(self) -> bool {
        &&& self.k >= 1
        &&& self.nodes.dom().finite()
        &&& forall|f: FrameId| #[trigger]
            self.nodes.dom().contains(f) ==> self.nodes[f].history.len() > 0 && self.nodes[f].wf(
                self.k,
                self.now,
            )
        &&& forall|f: FrameId, g: FrameId, i: int, j: int|
            self.nodes.dom().contains(f) && self.nodes.dom().contains(g) && 0 <= i
                < self.nodes[f].history.len() && 0 <= j < self.nodes[g].history.len()
                && #[trigger] self.nodes[f].history[i] == #[trigger] self.nodes[g].history[j]
                ==> f == g
    }
}

/// An access keeps the state well formed and changes no evictable flag.
pub proof fn lemma_record_access(v: ReplacerView, frame_id: FrameId)
    requires
        v.wf(),
        v.now < u64::MAX,
    ensures
        v.record_access(frame_id).wf(),
        v.record_access(frame_id).evictable_frames() == v.evictable_frames(),
        v.record_access(frame_id).knows(frame_id),
{
    let w = v.record_access(frame_id);
    let ts = v.now as u64;
    let before = if v.knows(frame_id) {
        v.nodes[frame_id]
    } else {
        NodeView::fresh()
    };
    let after = before.record(ts, v.k);
    assert(w.nodes[frame_id] == after);
    assert(before.wf(v.k, v.now));
    let pushed = before.history.push(ts);
    assert forall|i: int| 0 <= i < after.history.len() implies (#[trigger] after.history[i])
        < w.now && (after.history[i] == ts || exists|i0: int|
        0 <= i0 < before.history.len() && before.history[i0] == after.history[i]) by {
        let i0 = if pushed.len() > v.k {
            i + 1
        } else {
            i
        };
        assert(after.history[i] == pushed[i0]);
        if i0 < before.history.len() {
            assert(before.history[i0] == after.history[i]);
        }
    }
    assert forall|i: int, j: int| 0 <= i < j < after.history.len() implies after.history[i]
        < after.history[j] by {
        let d = if pushed.len() > v.k {
            1int
        } else {
            0int
        };
        assert(after.history[i] == pushed[i + d]);
        assert(after.history[j] == pushed[j + d]);
        if j + d < before.history.len() {
            assert(before.history[i + d] < before.history[j + d]);
        } else if i + d < before.history.len() {
            assert(before.history[i + d] < v.now);
        }
    }
    assert(after.wf(w.k, w.now));
    assert forall|f: FrameId| #[trigger] w.nodes.dom().contains(f) implies w.nodes[f].history.len()
        > 0 && w.nodes[f].wf(w.k, w.now) by {
        if f != frame_id {
            assert(v.nodes.dom().contains(f));
            assert(w.nodes[f] == v.nodes[f]);
        }
    }
    assert forall|f: FrameId, g: FrameId, i: int, j: int|
        w.nodes.dom().contains(f) && w.nodes.dom().contains(g) && 0 <= i
            < w.nodes[f].history.len() && 0 <= j < w.nodes[g].history.len()
            && #[trigger] w.nodes[f].history[i] == #[trigger] w.nodes[g].history[j] implies f
        == g by {
        if f != g {
            if f != frame_id && g != frame_id {
                assert(v.nodes[f].history[i] == v.nodes[g].history[j]);
            } else if f == frame_id {
                assert(v.nodes.dom().contains(g));
                assert(v.nodes[g].history[j] < v.now);
                assert(after.history[i] != ts);
                let i0 = choose|i0: int|
                    0 <= i0 < before.history.len() && before.history[i0] == after.history[i];
                assert(v.nodes[f].history[i0] == v.nodes[g].history[j]);
            } else {
                assert(v.nodes.dom().contains(f));
                assert(v.nodes[f].history[i] < v.now);
                assert(after.history[j] != ts);
                let j0 = choose|j0: int|
                    0 <= j0 < before.history.len() && before.history[j0] == after.history[j];
                assert(v.nodes[f].history[i] == v.nodes[g].history[j0]);
            }
        }
    }
    assert(w.evictable_frames() =~= v.evictable_frames());
}

/// Setting the evictable flag of a frame keeps the state well formed. A
/// known frame enters or leaves the set of evictable frames; with an unknown
/// frame the state stays as it is.
pub proof fn lemma_set_evictable(v: ReplacerView, frame_id: FrameId, evictable: bool)
    requires
        v.wf(),
    ensures
        v.set_evictable(frame_id, evictable).wf(),
        v.set_evictable(frame_id, evictable).evictable_frames() == if !v.knows(frame_id) {
            v.evictable_frames()
        } else if evictable {
            v.evictable_frames().insert(frame_id)
        } else {
            v.evictable_frames().remove(frame_id)
        },
        v.knows(frame_id) && v.nodes[frame_id].is_evictable == evictable ==> v.set_evictable(
            frame_id,
            evictable,
        ) == v,
{
    let w = v.set_evictable(frame_id, evictable);
    if v.knows(frame_id) {
        assert forall|f: FrameId| #[trigger] w.nodes.dom().contains(f) implies w.nodes[f].history
            == v.nodes[f].history && v.nodes.dom().contains(f) by {}
        assert forall|f: FrameId, g: FrameId, i: int, j: int|
            w.nodes.dom().contains(f) && w.nodes.dom().contains(g) && 0 <= i
                < w.nodes[f].history.len() && 0 <= j < w.nodes[g].history.len()
                && #[trigger] w.nodes[f].history[i] == #[trigger] w.nodes[g].history[j] implies f
            == g by {
            assert(v.nodes[f].history[i] == v.nodes[g].history[j]);
        }
        if evictable {
            assert(w.evictable_frames() =~= v.evictable_frames().insert(frame_id));
        } else {
            assert(w.evictable_frames() =~= v.evictable_frames().remove(frame_id));
        }
        if v.nodes[frame_id].is_evictable == evictable {
            assert(w.nodes =~= v.nodes);
        }
    }
}

/// Pinning a frame that is pinned, and unpinning one that is evictable,
/// changes nothing: neither the state nor the number of evictable frames.
/// So does either of them on a frame that is not known.
pub proof fn lemma_pin_unpin_idempotent(v: ReplacerView, frame_id: FrameId)
    requires
        v.wf(),
    ensures
        v.knows(frame_id) && !v.is_evictable(frame_id) ==> v.pin(frame_id) == v,
        v.is_evictable(frame_id) ==> v.unpin(frame_id) == v,
        !v.knows(frame_id) ==> v.pin(frame_id) == v && v.unpin(frame_id) == v,
        v.pin(frame_id).pin(frame_id) == v.pin(frame_id),
        v.unpin(frame_id).unpin(frame_id) == v.unpin(frame_id),
        v.pin(frame_id).pin(frame_id).evictable_frames().len() == v.pin(
            frame_id,
        ).evictable_frames().len(),
        v.unpin(frame_id).unpin(frame_id).evictable_frames().len() == v.unpin(
            frame_id,
        ).evictable_frames().len(),
{
    lemma_set_evictable(v, frame_id, false);
    lemma_set_evictable(v, frame_id, true);
    lemma_set_evictable(v.pin(frame_id), frame_id, false);
    lemma_set_evictable(v.unpin(frame_id), frame_id, true);
}

/// Dropping a frame keeps the state well formed and takes the frame out of
/// the set of evictable frames.
pub proof fn lemma_forget(v: ReplacerView, frame_id: FrameId)
    requires
        v.wf(),
    ensures
        v.forget(frame_id).wf(),
        v.forget(frame_id).evictable_frames() == v.evictable_frames().remove(frame_id),
        !v.forget(frame_id).knows(frame_id),
{
    let w = v.forget(frame_id);
    assert forall|f: FrameId| #[trigger] w.nodes.dom().contains(f) implies w.nodes[f]
        == v.nodes[f] && v.nodes.dom().contains(f) by {}
    assert forall|f: FrameId, g: FrameId, i: int, j: int|
        w.nodes.dom().contains(f) && w.nodes.dom().contains(g) && 0 <= i
            < w.nodes[f].history.len() && 0 <= j < w.nodes[g].history.len()
            && #[trigger] w.nodes[f].history[i] == #[trigger] w.nodes[g].history[j] implies f
        == g by {
        assert(v.nodes[f].history[i] == v.nodes[g].history[j]);
    }
    assert(w.evictable_frames() =~= v.evictable_frames().remove(frame_id));
}

/// The evictable frames are finitely many, and no more than the known ones.
pub proof fn lemma_evictable_frames_finite(v: ReplacerView)
    requires
        v.wf(),
    ensures
        v.evictable_frames().finite(),
        v.evictable_frames().len() <= v.nodes.dom().len(),
{
    assert(v.evictable_frames().subset_of(v.nodes.dom()));
    lemma_len_subset(v.evictable_frames(), v.nodes.dom());
}

/// Of two distinct known frames one is evicted before the other.
pub proof fn lemma_outranks_total(v: ReplacerView, f: FrameId, g: FrameId)
    requires
        v.wf(),
        v.knows(f),
        v.knows(g),
        f != g,
    ensures
        outranks(v.nodes[f], v.nodes[g], v.k, v.now) != outranks(
            v.nodes[g],
            v.nodes[f],
            v.k,
            v.now,
        ),
{
    assert(v.nodes.dom().contains(f) && v.nodes.dom().contains(g));
    assert(v.nodes[f].history[0] != v.nodes[g].history[0]);
}

/// The order in which frames are evicted is transitive.
pub proof fn lemma_outranks_transitive(v: ReplacerView, f: FrameId, g: FrameId, h: FrameId)
    requires
        v.wf(),
        v.knows(f),
        v.knows(g),
        v.knows(h),
        outranks(v.nodes[f], v.nodes[g], v.k, v.now),
        outranks(v.nodes[g], v.nodes[h], v.k, v.now),
    ensures
        outranks(v.nodes[f], v.nodes[h], v.k, v.now),
{
    assert(v.nodes.dom().contains(f) && v.nodes.dom().contains(g) && v.nodes.dom().contains(h));
}

/// One frame as the replacer tracks it.
#[derive(Debug)]
pub struct LrukNode {
    frame_id: FrameId,
    is_evictable: bool,
    history: VecDeque<u64>,
    k: usize,
}

impl View for LrukNode {
    type V = NodeView;

    closed spec fn view(&self) -> NodeView {
        NodeView { is_evictable: self.is_evictable, history: self.history@ }
    }
}

impl LrukNode {
    /// The frame that this node stands for.
    pub closed spec fn spec_frame_id(&self) -> FrameId {
        self.frame_id
    }

    /// The number of accesses that this node remembers.
    pub closed spec fn spec_k(&self) -> usize {
        self.k
    }

    /// A node for a frame that was just met. It is not evictable.
    pub fn new(frame_id: FrameId, k: usize) -> (node: Self)
        ensures
            node@ == NodeView::fresh(),
            node.spec_frame_id() == frame_id,
            node.spec_k() == k,
    {
        LrukNode { frame_id, is_evictable: false, history: VecDeque::new(), k }
    }

    /// Whether the backward k-distance is infinite.
    pub fn has_inf_backward_k_dist(&self) -> (inf: bool)
        ensures
            inf == self@.has_inf_backward_k_dist(self.spec_k() as nat),
    {
        self.history.len() < self.k
    }

    /// The oldest access on record.
    pub fn get_earliest_timestamp(&self) -> (ts: u64)
        requires
            self@.history.len() > 0,
        ensures
            ts == self@.earliest(),
    {
        self.history[0]
    }

    /// The backward k-distance at time `current_timestamp`, with `u64::MAX`
    /// for infinity.
    pub fn get_backwards_k_distance(&self, current_timestamp: u64) -> (dist: u64)
        requires
            self.spec_k() >= 1,
            self@.wf(self.spec_k() as nat, current_timestamp as nat),
        ensures
            match self@.backward_k_distance(self.spec_k() as nat, current_timestamp as nat) {
                None => dist == u64::MAX,
                Some(d) => dist == d,
            },
    {
        if self.has_inf_backward_k_dist() {
            return u64::MAX;
        }
        current_timestamp - self.get_earliest_timestamp()
    }

    /// Puts an access at time `current_timestamp` on record and keeps the
    /// `k` most recent ones.
    pub fn insert_history_timestamp(&mut self, current_timestamp: u64)
        requires
            old(self).spec_k() >= 1,
            old(self)@.wf(old(self).spec_k() as nat, current_timestamp as nat),
        ensures
            final(self)@ == old(self)@.record(current_timestamp, old(self).spec_k() as nat),
            final(self)@.wf(old(self).spec_k() as nat, current_timestamp as nat + 1),
            final(self)@.history.len() > 0,
            final(self).spec_k() == old(self).spec_k(),
            final(self).spec_frame_id() == old(self).spec_frame_id(),
    {
        self.history.push_back(current_timestamp);
        if self.history.len() > self.k {
            self.history.pop_front();
        }
    }
}

/// Frame replacer with the LRU-K policy: the victim is the evictable frame
/// whose k-th most recent access lies furthest back.
#[derive(Debug)]
pub struct LrukReplacer {
    node_store: HashMap<FrameId, LrukNode>,
    evictable_size: usize,
    current_timestamp: u64,
    k: usize,
}

impl View for LrukReplacer {
    type V = ReplacerView;

    closed spec fn view(&self) -> ReplacerView {
        ReplacerView {
            k: self.k as nat,
            now: self.current_timestamp as nat,
            nodes: self.node_store@.map_values(|n: LrukNode| n@),
        }
    }
}

impl LrukReplacer {
    /// The state is well formed, the counter holds the number of evictable
    /// frames, and every node is stored under its own frame.
    pub closed spec fn inv(&self) -> bool {
        &&& self@.wf()
        &&& self.evictable_size == self@.evictable_frames().len()
        &&& forall|f: FrameId| #[trigger]
            self.node_store@.contains_key(f) ==> self.node_store@[f].k == self.k
                && self.node_store@[f].frame_id == f
    }

    /// A replacer that knows no frame and remembers `k` accesses per frame.
    pub fn new(k: usize) -> (replacer: Self)
        requires
            k >= 1,
        ensures
            replacer.inv(),
            replacer@ == (ReplacerView { k: k as nat, now: 0, nodes: Map::empty() }),
    {
        let replacer = LrukReplacer {
            node_store: HashMap::new(),
            evictable_size: 0,
            current_timestamp: 0,
            k,
        };
        proof {
            assert(replacer@.nodes =~= Map::<FrameId, NodeView>::empty());
            assert(replacer@.evictable_frames() =~= Set::<FrameId>::empty());
        }
        replacer
    }

    /// Hands out the current timestamp and moves the clock on by one.
    fn advance_timestamp(&mut self) -> (ts: u64)
        requires
            old(self).current_timestamp < u64::MAX,
        ensures
            ts == old(self).current_timestamp,
            final(self).current_timestamp == ts + 1,
            final(self).node_store == old(self).node_store,
            final(self).evictable_size == old(self).evictable_size,
            final(self).k == old(self).k,
    {
        let old_timestamp = self.current_timestamp;
        self.current_timestamp += 1;
        old_timestamp
    }

    /// Records an access to `frame_id` at the current timestamp. A frame that
    /// is not known yet becomes known, and is not evictable.
    pub fn record_access(&mut self, frame_id: FrameId)
        requires
            old(self).inv(),
            old(self)@.now < u64::MAX,
        ensures
            final(self).inv(),
            final(self)@ == old(self)@.record_access(frame_id),
    {
        let mut node = match self.node_store.remove(&frame_id) {
            Some(node) => node,
            None => LrukNode::new(frame_id, self.k),
        };
        proof {
            if old(self)@.knows(frame_id) {
                assert(old(self).node_store@.contains_key(frame_id));
                assert(node@ == old(self)@.nodes[frame_id]);
            }
        }
        node.insert_history_timestamp(self.current_timestamp);
        self.node_store.insert(frame_id, node);
        self.advance_timestamp();
        proof {
            lemma_record_access(old(self)@, frame_id);
            assert(self@.nodes =~= old(self)@.record_access(frame_id).nodes);
        }
    }

    /// Marks `frame_id` as not evictable. Nothing changes where the frame is
    /// unknown or already pinned.
    pub fn pin(&mut self, frame_id: FrameId)
        requires
            old(self).inv(),
        ensures
            final(self).inv(),
            final(self)@ == old(self)@.pin(frame_id),
    {
        self.set_evictable(frame_id, false);
    }

    /// Marks `frame_id` as evictable. Nothing changes where the frame is
    /// unknown or already evictable.
    pub fn unpin(&mut self, frame_id: FrameId)
        requires
            old(self).inv(),
        ensures
            final(self).inv(),
            final(self)@ == old(self)@.unpin(frame_id),
    {
        self.set_evictable(frame_id, true);
    }

    fn set_evictable(&mut self, frame_id: FrameId, evictable: bool)
        requires
            old(self).inv(),
        ensures
            final(self).inv(),
            final(self)@ == old(self)@.set_evictable(frame_id, evictable),
    {
        proof {
            lemma_set_evictable(self@, frame_id, evictable);
            lemma_evictable_frames_finite(self@);
            lemma_evictable_frames_finite(self@.set_evictable(frame_id, evictable));
        }
        // no more frames are evictable than the map holds, and the map holds no
        // more than a `usize` can count: the counter does not overflow
        let _known: usize = self.node_store.len();
        match self.node_store.remove(&frame_id) {
            Some(node) => {
                let mut node = node;
                if node.is_evictable != evictable {
                    node.is_evictable = evictable;
                    proof {
                        let w = old(self)@.set_evictable(frame_id, evictable);
                        assert(old(self).node_store@.contains_key(frame_id));
                        assert(w.nodes.dom() =~= old(self).node_store@.dom());
                        assert(old(self)@.evictable_frames().contains(frame_id) == !evictable);
                    }
                    if evictable {
                        self.evictable_size += 1;
                    } else {
                        self.evictable_size -= 1;
                    }
                }
                self.node_store.insert(frame_id, node);
                proof {
                    assert(self@.nodes =~= old(self)@.set_evictable(frame_id, evictable).nodes);
                }
            },
            None => {
                proof {
                    assert(self.node_store@ =~= old(self).node_store@);
                }
            },
        }
    }

    /// Drops `frame_id` where it is known and evictable. A frame that is
    /// unknown or pinned stays as it is.
    pub fn remove(&mut self, frame_id: FrameId)
        requires
            old(self).inv(),
        ensures
            final(self).inv(),
            final(self)@ == old(self)@.remove(frame_id),
    {
        proof {
            lemma_forget(self@, frame_id);
            lemma_evictable_frames_finite(self@);
        }
        let evictable = match self.node_store.get(&frame_id) {
            Some(node) => node.is_evictable,
            None => false,
        };
        if evictable {
            self.node_store.remove(&frame_id);
            self.evictable_size -= 1;
            proof {
                assert(self@.nodes =~= old(self)@.forget(frame_id).nodes);
            }
        }
    }

    /// Evicts the evictable frame with the largest backward k-distance; among
    /// frames with the same distance, the one whose oldest access on record is
    /// the oldest. Returns `None`, and changes nothing, where no frame is
    /// evictable.
    pub fn evict(&mut self) -> (victim: Option<FrameId>)
        requires
            old(self).inv(),
        ensures
            final(self).inv(),
            match victim {
                Some(f) => old(self)@.is_victim(f) && final(self)@ == old(self)@.forget(f),
                None => old(self)@.evictable_frames() == Set::<FrameId>::empty() && final(self)@
                    == old(self)@,
            },
    {
        let mut found = false;
        let mut best_id: FrameId = 0;
        let mut best_inf = false;
        let mut best_earliest: u64 = 0;
        let ghost v = self@;
        let ghost entries = spec_hash_map_iter(&self.node_store).remaining();
        let ghost mut seen: int = 0;
        for entry in it: self.node_store.iter()
            invariant
                self.inv(),
                v == self@,
                it.seq() == entries,
                it.index() == seen,
                found ==> v.is_evictable(best_id) && best_inf == v.nodes[best_id].has_inf_backward_k_dist(
                    v.k,
                ) && best_earliest == v.nodes[best_id].earliest(),
                forall|j: int|
                    0 <= j < it.index() && v.is_evictable(*(#[trigger] it.seq()[j]).0) ==> found && (
                    *it.seq()[j].0 == best_id || outranks(
                        v.nodes[best_id],
                        v.nodes[*it.seq()[j].0],
                        v.k,
                        v.now,
                    )),
        {
            let (frame_id, node) = entry;
            proof {
                assert(self.node_store@.contains_key(*frame_id));
                assert(self.node_store@[*frame_id] == *node);
                assert(v.nodes.dom().contains(*frame_id));
                assert(v.nodes[*frame_id] == node@);
                if found && *frame_id != best_id {
                    lemma_outranks_total(v, *frame_id, best_id);
                }
            }
            if node.is_evictable {
                let inf = node.has_inf_backward_k_dist();
                let earliest = node.get_earliest_timestamp();
                let better = if !found {
                    true
                } else if inf != best_inf {
                    inf
                } else {
                    earliest < best_earliest
                };
                if better {
                    proof {
                        let ghost prev = best_id;
                        let ghost was_found = found;
                        assert forall|j: int|
                            0 <= j < it.index() && v.is_evictable(
                                *(#[trigger] it.seq()[j]).0,
                            ) implies *it.seq()[j].0 == *frame_id || outranks(
                            v.nodes[*frame_id],
                            v.nodes[*it.seq()[j].0],
                            v.k,
                            v.now,
                        ) by {
                            let g = *it.seq()[j].0;
                            assert(was_found);
                            if g != prev && g != *frame_id {
                                lemma_outranks_transitive(v, *frame_id, prev, g);
                            }
                        }
                    }
                    found = true;
                    best_id = *frame_id;
                    best_inf = inf;
                    best_earliest = earliest;
                }
            }
            proof {
                seen = seen + 1;
            }
        }
        assert(seen == entries.len());
        if found {
            proof {
                lemma_forget(v, best_id);
                lemma_evictable_frames_finite(v);
                assert forall|g: FrameId|
                    #![trigger v.nodes[g]]
                    v.is_evictable(g) && g != best_id implies outranks(
                    v.nodes[best_id],
                    v.nodes[g],
                    v.k,
                    v.now,
                ) by {
                    assert(self.node_store@.contains_key(g));
                    let pair = (&g, &self.node_store@[g]);
                    assert(entries.contains(pair));
                    let j = choose|j: int| 0 <= j < entries.len() && entries[j] == pair;
                    assert(*entries[j].0 == g);
                }
            }
            self.node_store.remove(&best_id);
            self.evictable_size -= 1;
            proof {
                assert(self@.nodes =~= v.forget(best_id).nodes);
            }
            Some(best_id)
        } else {
            proof {
                assert forall|g: FrameId| !v.is_evictable(g) by {
                    if v.is_evictable(g) {
                        assert(self.node_store@.contains_key(g));
                        let pair = (&g, &self.node_store@[g]);
                        assert(entries.contains(pair));
                        let j = choose|j: int| 0 <= j < entries.len() && entries[j] == pair;
                        assert(*entries[j].0 == g);
                    }
                }
                assert(v.evictable_frames() =~= Set::<FrameId>::empty());
            }
            None
        }
    }

    /// The timestamp that the next access will get.
    pub fn timestamp(&self) -> (ts: u64)
        ensures
            ts == self@.now,
    {
        self.current_timestamp
    }

    /// The number of evictable frames.
    pub fn evictable_count(&self) -> (count: usize)
        requires
            self.inv(),
        ensures
            count == self@.evictable_frames().len(),
    {
        self.evictable_size
    }
}

} // verus!
