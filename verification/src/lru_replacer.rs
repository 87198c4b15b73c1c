use vstd::prelude::*;
use vstd::set_lib::lemma_len_subset;
use vstd::std_specs::hash::spec_hash_map_iter;
use vstd::std_specs::iter::IteratorSpec;
use std::collections::HashMap;
use crate::typedef::FrameId;

verus! {

broadcast use vstd::std_specs::hash::group_hash_axioms;

/// One frame as the LRU replacer tracks it: whether it may be evicted, and
/// the timestamp of its last access.
#[derive(Debug, Clone, Copy, PartialEq, Eq, Structural)]
pub struct LruNode {
    pub frame_id: FrameId,
    pub is_evictable: bool,
    pub last_accessed_timestamp: u64,
}

/// The state of an LRU replacer: the next timestamp that it will hand out,
/// and the frames that it knows.
pub struct LruView {
    pub now: nat,
    pub nodes: Map<FrameId, LruNode>,
}

impl LruView {
    pub open spec fn knows(self, frame_id: FrameId) -> bool {
        self.nodes.dom().contains(frame_id)
    }

    pub open spec fn is_evictable(self, frame_id: FrameId) -> bool {
        self.knows(frame_id) && self.nodes[frame_id].is_evictable
    }

    /// The known frames that may be evicted.
    pub open spec fn evictable_frames(self) -> Set<FrameId> {
        Set::new(|f: FrameId| self.is_evictable(f))
    }

    /// The state after an access to `frame_id` at the current timestamp. A
    /// frame that was not known is evictable.
    pub open spec fn record_access(self, frame_id: FrameId) -> LruView {
        LruView {
            now: self.now + 1,
            nodes: self.nodes.insert(
                frame_id,
                LruNode {
                    frame_id,
                    is_evictable: if self.knows(frame_id) {
                        self.nodes[frame_id].is_evictable
                    } else {
                        true
                    },
                    last_accessed_timestamp: self.now as u64,
                },
            ),
        }
    }

    /// The state with the evictable flag of `frame_id` set to `evictable`;
    /// an unknown frame changes nothing.
    pub open spec fn set_evictable(self, frame_id: FrameId, evictable: bool) -> LruView {
        if self.knows(frame_id) {
            LruView {
                now: self.now,
                nodes: self.nodes.insert(
                    frame_id,
                    LruNode { is_evictable: evictable, ..self.nodes[frame_id] },
                ),
            }
        } else {
            self
        }
    }

    pub open spec fn pin(self, frame_id: FrameId) -> LruView {
        self.set_evictable(frame_id, false)
    }

    pub open spec fn unpin(self, frame_id: FrameId) -> LruView {
        self.set_evictable(frame_id, true)
    }

    /// The state without `frame_id`.
    pub open spec fn remove(self, frame_id: FrameId) -> LruView {
        LruView { now: self.now, nodes: self.nodes.remove(frame_id) }
    }

    /// `frame_id` is the frame to evict: it is evictable, and every other
    /// evictable frame was accessed after it.
    pub open spec fn is_victim(self, frame_id: FrameId) -> bool {
        &&& self.is_evictable(frame_id)
        &&& forall|g: FrameId|
            #![trigger self.nodes[g]]
            self.is_evictable(g) && g != frame_id ==> self.nodes[frame_id].last_accessed_timestamp
                < self.nodes[g].last_accessed_timestamp
    }

    /// Finitely many frames are known, each under its own id and with a last
    /// access before the current timestamp, and no two were last accessed at
    /// the same time.
    pub open spec fn wf(self) -> bool {
        &&& self.nodes.dom().finite()
        &&& forall|f: FrameId| #[trigger]
            self.nodes.dom().contains(f) ==> self.nodes[f].frame_id == f
                && self.nodes[f].last_accessed_timestamp < self.now
        &&& forall|f: FrameId, g: FrameId|
            self.nodes.dom().contains(f) && self.nodes.dom().contains(g) && (
            #[trigger] self.nodes[f]).last_accessed_timestamp == (
            #[trigger] self.nodes[g]).last_accessed_timestamp ==> f == g
    }
}

/// An access keeps the state well formed. A frame that was not known joins
/// the evictable frames; no other flag changes.
pub proof fn lemma_lru_record_access(v: LruView, frame_id: FrameId)
    requires
        v.wf(),
        v.now < u64::MAX,
    ensures
        v.record_access(frame_id).wf(),
        v.record_access(frame_id).evictable_frames() == if v.knows(frame_id) {
            v.evictable_frames()
        } else {
            v.evictable_frames().insert(frame_id)
        },
{
    let w = v.record_access(frame_id);
    assert forall|f: FrameId, g: FrameId|
        w.nodes.dom().contains(f) && w.nodes.dom().contains(g) && (
        #[trigger] w.nodes[f]).last_accessed_timestamp == (
        #[trigger] w.nodes[g]).last_accessed_timestamp implies f == g by {
        if f != frame_id {
            assert(v.nodes.dom().contains(f));
            assert(w.nodes[f] == v.nodes[f]);
        }
        if g != frame_id {
            assert(v.nodes.dom().contains(g));
            assert(w.nodes[g] == v.nodes[g]);
        }
    }
    if v.knows(frame_id) {
        assert(w.evictable_frames() =~= v.evictable_frames());
    } else {
        assert(w.evictable_frames() =~= v.evictable_frames().insert(frame_id));
    }
}

/// Setting the evictable flag of a frame keeps the state well formed. A
/// known frame enters or leaves the set of evictable frames; with an unknown
/// frame, or one whose flag is set that way already, the state stays as it
/// is.
pub proof fn lemma_lru_set_evictable(v: LruView, frame_id: FrameId, evictable: bool)
    requires
        v.wf(),
    ensures
        v.set_evictable(frame_id, evictable).wf(),
        v.set_evictable(frame_id, evictable).evictable_frames() == if !v.knows(frame_id) {
            v.evictable_frames()
        } else if evictable {
            v.evictable_frames().insert(frame_id)
        } else {
            v.evictable_frames().remove(frame_id)
        },
        v.knows(frame_id) && v.nodes[frame_id].is_evictable == evictable ==> v.set_evictable(
            frame_id,
            evictable,
        ) == v,
{
    let w = v.set_evictable(frame_id, evictable);
    if v.knows(frame_id) {
        assert forall|f: FrameId| #[trigger] w.nodes.dom().contains(f) implies v.nodes.dom().contains(
            f,
        ) && w.nodes[f].last_accessed_timestamp == v.nodes[f].last_accessed_timestamp
            && w.nodes[f].frame_id == v.nodes[f].frame_id by {}
        assert forall|f: FrameId, g: FrameId|
            w.nodes.dom().contains(f) && w.nodes.dom().contains(g) && (
            #[trigger] w.nodes[f]).last_accessed_timestamp == (
            #[trigger] w.nodes[g]).last_accessed_timestamp implies f == g by {
            assert(v.nodes[f].last_accessed_timestamp == v.nodes[g].last_accessed_timestamp);
        }
        if evictable {
            assert(w.evictable_frames() =~= v.evictable_frames().insert(frame_id));
        } else {
            assert(w.evictable_frames() =~= v.evictable_frames().remove(frame_id));
        }
        if v.nodes[frame_id].is_evictable == evictable {
            assert(w.nodes =~= v.nodes);
        }
    }
}

/// Dropping a frame keeps the state well formed and takes the frame out of
/// the set of evictable frames.
pub proof fn lemma_lru_remove(v: LruView, frame_id: FrameId)
    requires
        v.wf(),
    ensures
        v.remove(frame_id).wf(),
        v.remove(frame_id).evictable_frames() == v.evictable_frames().remove(frame_id),
{
    let w = v.remove(frame_id);
    assert forall|f: FrameId| #[trigger] w.nodes.dom().contains(f) implies w.nodes[f]
        == v.nodes[f] && v.nodes.dom().contains(f) by {}
    assert forall|f: FrameId, g: FrameId|
        w.nodes.dom().contains(f) && w.nodes.dom().contains(g) && (
        #[trigger] w.nodes[f]).last_accessed_timestamp == (
        #[trigger] w.nodes[g]).last_accessed_timestamp implies f == g by {
        assert(v.nodes[f].last_accessed_timestamp == v.nodes[g].last_accessed_timestamp);
    }
    assert(w.evictable_frames() =~= v.evictable_frames().remove(frame_id));
}

/// The evictable frames are finitely many, and no more than the known ones.
pub proof fn lemma_lru_evictable_frames_finite(v: LruView)
    requires
        v.wf(),
    ensures
        v.evictable_frames().finite(),
        v.evictable_frames().len() <= v.nodes.dom().len(),
{
    assert(v.evictable_frames().subset_of(v.nodes.dom()));
    lemma_len_subset(v.evictable_frames(), v.nodes.dom());
}

/// Frame replacer with the LRU policy: the victim is the evictable frame
/// whose last access lies furthest back.
#[derive(Debug)]
pub struct LruReplacer {
    node_store: HashMap<FrameId, LruNode>,
    evictable_count: usize,
    current_timestamp: u64,
}

impl View for LruReplacer {
    type V = LruView;

    closed spec fn view(&self) -> LruView {
        LruView { now: self.current_timestamp as nat, nodes: self.node_store@ }
    }
}

impl LruReplacer {
    /// The state is well formed, and the counter holds the number of
    /// evictable frames.
    pub closed spec fn inv(&self) -> bool {
        &&& self@.wf()
        &&& self.evictable_count == self@.evictable_frames().len()
    }

    /// A replacer that knows no frame.
    pub fn new() -> (replacer: Self)
        ensures
            replacer.inv(),
            replacer@ == (LruView { now: 0, nodes: Map::empty() }),
    {
        let replacer = LruReplacer {
            node_store: HashMap::new(),
            evictable_count: 0,
            current_timestamp: 0,
        };
        proof {
            assert(replacer@.evictable_frames() =~= Set::<FrameId>::empty());
        }
        replacer
    }

    /// Hands out the current timestamp and moves the clock on by one.
    fn current_timestamp(&mut self) -> (ts: u64)
        requires
            old(self).current_timestamp < u64::MAX,
        ensures
            ts == old(self).current_timestamp,
            final(self).current_timestamp == ts + 1,
            final(self).node_store == old(self).node_store,
            final(self).evictable_count == old(self).evictable_count,
    {
        let old_timestamp = self.current_timestamp;
        self.current_timestamp += 1;
        return old_timestamp;
    }

    /// Records an access to `frame_id` at the current timestamp. A frame that
    /// is not known yet becomes known, and is evictable.
    pub fn record_access(&mut self, frame_id: FrameId)
        requires
            old(self).inv(),
            old(self)@.now < u64::MAX,
        ensures
            final(self).inv(),
            final(self)@ == old(self)@.record_access(frame_id),
    {
        proof {
            lemma_lru_record_access(self@, frame_id);
            lemma_lru_evictable_frames_finite(self@);
            lemma_lru_evictable_frames_finite(self@.record_access(frame_id));
        }
        let was_evictable = match self.node_store.get(&frame_id) {
            Some(node) => Some(node.is_evictable),
            None => None,
        };
        let ts = self.current_timestamp();
        let is_evictable = match was_evictable {
            Some(flag) => flag,
            None => true,
        };
        self.node_store.insert(
            frame_id,
            LruNode { frame_id, is_evictable, last_accessed_timestamp: ts },
        );
        proof {
            assert(self@.nodes =~= old(self)@.record_access(frame_id).nodes);
        }
        if was_evictable.is_none() {
            // no more frames are evictable than the map holds, and the map holds no
            // more than a `usize` can count: the counter does not overflow
            let _known: usize = self.node_store.len();
            self.evictable_count += 1;
        }
    }

    /// Marks `frame_id` as not evictable. Nothing changes where the frame is
    /// unknown or already pinned.
    pub fn pin(&mut self, frame_id: FrameId)
        requires
            old(self).inv(),
        ensures
            final(self).inv(),
            final(self)@ == old(self)@.pin(frame_id),
    {
        self.set_evictable(frame_id, false);
    }

    /// Marks `frame_id` as evictable. Nothing changes where the frame is
    /// unknown or already evictable.
    pub fn unpin(&mut self, frame_id: FrameId)
        requires
            old(self).inv(),
        ensures
            final(self).inv(),
            final(self)@ == old(self)@.unpin(frame_id),
    {
        self.set_evictable(frame_id, true);
    }

    fn set_evictable(&mut self, frame_id: FrameId, evictable: bool)
        requires
            old(self).inv(),
        ensures
            final(self).inv(),
            final(self)@ == old(self)@.set_evictable(frame_id, evictable),
    {
        proof {
            lemma_lru_set_evictable(self@, frame_id, evictable);
            lemma_lru_evictable_frames_finite(self@);
            lemma_lru_evictable_frames_finite(self@.set_evictable(frame_id, evictable));
        }
        // no more frames are evictable than the map holds, and the map holds no
        // more than a `usize` can count: the counter does not overflow
        let _known: usize = self.node_store.len();
        let found = match self.node_store.get(&frame_id) {
            Some(node) => Some(*node),
            None => None,
        };
        match found {
            Some(node) => {
                if node.is_evictable != evictable {
                    proof {
                        let w = old(self)@.set_evictable(frame_id, evictable);
                        assert(w.nodes.dom() =~= old(self).node_store@.dom());
                        assert(old(self)@.evictable_frames().contains(frame_id) == !evictable);
                    }
                    if evictable {
                        self.evictable_count += 1;
                    } else {
                        self.evictable_count -= 1;
                    }
                    self.node_store.insert(
                        frame_id,
                        LruNode {
                            frame_id: node.frame_id,
                            is_evictable: evictable,
                            last_accessed_timestamp: node.last_accessed_timestamp,
                        },
                    );
                    proof {
                        assert(self@.nodes =~= old(self)@.set_evictable(frame_id, evictable).nodes);
                    }
                }
            },
            None => {},
        }
    }

    /// Drops `frame_id`, evictable or not. Nothing changes where the frame
    /// is unknown.
    pub fn remove(&mut self, frame_id: FrameId)
        requires
            old(self).inv(),
        ensures
            final(self).inv(),
            final(self)@ == old(self)@.remove(frame_id),
    {
        proof {
            lemma_lru_remove(self@, frame_id);
            lemma_lru_evictable_frames_finite(self@);
        }
        match self.node_store.remove(&frame_id) {
            Some(node) => {
                if node.is_evictable {
                    self.evictable_count -= 1;
                }
            },
            None => {
                proof {
                    assert(self.node_store@ =~= old(self).node_store@);
                    assert(old(self)@.remove(frame_id).nodes =~= old(self)@.nodes);
                }
            },
        }
    }

    /// Evicts the evictable frame whose last access lies furthest back.
    /// Returns `None`, and changes nothing, where no frame is evictable.
    pub fn evict(&mut self) -> (victim: Option<FrameId>)
        requires
            old(self).inv(),
        ensures
            final(self).inv(),
            match victim {
                Some(f) => old(self)@.is_victim(f) && final(self)@ == old(self)@.remove(f),
                None => old(self)@.evictable_frames() == Set::<FrameId>::empty() && final(self)@
                    == old(self)@,
            },
    {
        let mut found = false;
        let mut best_id: FrameId = 0;
        let mut best_timestamp: u64 = 0;
        let ghost v = self@;
        let ghost entries = spec_hash_map_iter(&self.node_store).remaining();
        let ghost mut seen: int = 0;
        for entry in it: self.node_store.iter()
            invariant
                self.inv(),
                v == self@,
                it.seq() == entries,
                it.index() == seen,
                found ==> v.is_evictable(best_id) && best_timestamp
                    == v.nodes[best_id].last_accessed_timestamp,
                forall|j: int|
                    0 <= j < it.index() && v.is_evictable(*(#[trigger] it.seq()[j]).0) ==> found && (
                    *it.seq()[j].0 == best_id || best_timestamp
                        < v.nodes[*it.seq()[j].0].last_accessed_timestamp),
        {
            let (frame_id, node) = entry;
            proof {
                assert(self.node_store@.contains_key(*frame_id));
                assert(self.node_store@[*frame_id] == *node);
            }
            if node.is_evictable && (!found || node.last_accessed_timestamp < best_timestamp) {
                found = true;
                best_id = *frame_id;
                best_timestamp = node.last_accessed_timestamp;
            }
            proof {
                seen = seen + 1;
            }
        }
        assert(seen == entries.len());
        if found {
            proof {
                lemma_lru_remove(v, best_id);
                lemma_lru_evictable_frames_finite(v);
                assert forall|g: FrameId|
                    #![trigger v.nodes[g]]
                    v.is_evictable(g) && g != best_id implies v.nodes[best_id].last_accessed_timestamp
                    < v.nodes[g].last_accessed_timestamp by {
                    assert(self.node_store@.contains_key(g));
                    let pair = (&g, &self.node_store@[g]);
                    assert(entries.contains(pair));
                    let j = choose|j: int| 0 <= j < entries.len() && entries[j] == pair;
                    assert(*entries[j].0 == g);
                }
            }
            self.node_store.remove(&best_id);
            self.evictable_count -= 1;
            Some(best_id)
        } else {
            proof {
                assert forall|g: FrameId| !v.is_evictable(g) by {
                    if v.is_evictable(g) {
                        assert(self.node_store@.contains_key(g));
                        let pair = (&g, &self.node_store@[g]);
                        assert(entries.contains(pair));
                        let j = choose|j: int| 0 <= j < entries.len() && entries[j] == pair;
                        assert(*entries[j].0 == g);
                    }
                }
                assert(v.evictable_frames() =~= Set::<FrameId>::empty());
            }
            None
        }
    }

    /// The timestamp that the next access will get.
    pub fn timestamp(&self) -> (ts: u64)
        ensures
            ts == self@.now,
    {
        self.current_timestamp
    }

    /// The number of evictable frames.
    pub fn evictable_count(&self) -> (count: usize)
        requires
            self.inv(),
        ensures
            count == self@.evictable_frames().len(),
    {
        self.evictable_count
    }
}

} // verus!
