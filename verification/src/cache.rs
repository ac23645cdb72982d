//! Chunk cache feeding the audio callback.
//!
//! Decoded audio is stored in fixed-size chunks of stereo-interleaved samples.
//! The cache holds a fixed number of slots; loading a chunk into a full cache
//! evicts the least recently read chunk. Reads copy as many contiguous frames
//! as the cache holds from a start position and stop at the first frame that
//! is not cached.

use vstd::prelude::*;
use vstd::arithmetic::div_mod::lemma_fundamental_div_mod_converse;
use vstd::arithmetic::div_mod::lemma_fundamental_div_mod;
use vstd::arithmetic::div_mod::lemma_div_is_ordered;

verus! {

/// Default chunk size in frames.
pub const DEFAULT_CHUNK_SIZE: usize = 8192;

/// Default maximum number of cached chunks.
pub const DEFAULT_MAX_CHUNKS: usize = 64;

/// Number of chunks pre-read ahead of a hinted position.
pub const LOOKAHEAD_CHUNKS: u64 = 3;

/// Priority level of a read hint.
#[derive(Debug, Clone, Copy, PartialEq, Eq, Structural)]
pub enum HintPriority {
    /// Where playback is right now.
    CurrentPosition,
    /// Upcoming chunks after the current position.
    LookAhead,
}

/// A hint about which audio will be needed next.
#[derive(Debug, Clone, Copy)]
pub struct ReadHint {
    /// Frame position that will be needed.
    pub frame: u64,
    /// How urgently it is needed.
    pub priority: HintPriority,
}

/// Whether slot `i` of `slots` holds chunk `c`.
spec fn holds_chunk<T>(slots: Seq<CacheSlot<T>>, i: int, c: u64) -> bool {
    0 <= i < slots.len() && slots[i].occupied && slots[i].chunk_index == c
}

/// A slot of `slots` holding chunk `c`, if any.
spec fn slot_of<T>(slots: Seq<CacheSlot<T>>, c: u64) -> int {
    choose|i: int| holds_chunk(slots, i, c)
}

/// The chunks held by the first `n` slots of `slots`.
spec fn chunk_set<T>(slots: Seq<CacheSlot<T>>, n: int) -> Set<u64>
    decreases n,
{
    if n <= 0 {
        Set::empty()
    } else {
        let s = chunk_set(slots, n - 1);
        if slots[n - 1].occupied {
            s.insert(slots[n - 1].chunk_index)
        } else {
            s
        }
    }
}

proof fn lemma_chunk_set<T>(slots: Seq<CacheSlot<T>>, n: int)
    requires
        0 <= n <= slots.len(),
    ensures
        chunk_set(slots, n).finite(),
        chunk_set(slots, n).len() <= n,
        forall|c: u64|
            #[trigger] chunk_set(slots, n).contains(c) <==> exists|i: int|
                0 <= i < n && holds_chunk(slots, i, c),
    decreases n,
{
    if n > 0 {
        lemma_chunk_set(slots, n - 1);
        assert forall|c: u64| #[trigger] chunk_set(slots, n).contains(c) <==> exists|i: int|
            0 <= i < n && holds_chunk(slots, i, c) by {
            if chunk_set(slots, n).contains(c) {
                if !chunk_set(slots, n - 1).contains(c) {
                    assert(holds_chunk(slots, n - 1, c));
                }
            }
            if exists|i: int| 0 <= i < n && holds_chunk(slots, i, c) {
                let i = choose|i: int| 0 <= i < n && holds_chunk(slots, i, c);
                if i < n - 1 {
                    assert(chunk_set(slots, n - 1).contains(c));
                }
            }
        }
    }
}

/// One slot of the cache.
pub struct CacheSlot<T> {
    /// Which chunk this slot holds.
    chunk_index: u64,
    /// Number of valid frames in the chunk.
    frame_count: usize,
    /// Whether the slot holds a chunk.
    occupied: bool,
    /// Stereo-interleaved samples, two per frame.
    samples: Vec<T>,
}

impl<T> CacheSlot<T> {
    /// An empty slot.
    fn new() -> (r: Self)
        ensures
            !r.occupied,
            r.chunk_index == u64::MAX,
            r.frame_count == 0,
    {
        CacheSlot { chunk_index: u64::MAX, frame_count: 0, occupied: false, samples: Vec::new() }
    }
}

/// Outcome of decoding a chunk, handed to [`ChunkCache::load_chunk`].
pub enum ChunkLoad<T> {
    /// The decoder produced these stereo-interleaved samples.
    Decoded(Vec<T>),
    /// Seeking or decoding failed.
    Failed,
}

/// Fixed-size cache mapping chunk indices to decoded audio, with
/// least-recently-read eviction.
pub struct ChunkCache<T> {
    slots: Vec<CacheSlot<T>>,
    /// Access stamp of each slot (parallel to `slots`).
    last_access: Vec<u64>,
    chunk_size: usize,
    access_counter: u64,
}

impl<T> ChunkCache<T> {
    /// The cache's internal invariant: slots hold well-sized chunks and no
    /// chunk is held twice.
    pub closed spec fn wf(self) -> bool {
        &&& self.chunk_size > 0
        &&& self.last_access@.len() == self.slots@.len()
        &&& forall|i: int|
            0 <= i < self.slots@.len() && (#[trigger] self.slots@[i]).occupied ==> {
                &&& self.slots@[i].samples@.len() == 2 * self.slots@[i].frame_count
                &&& self.slots@[i].frame_count <= self.chunk_size
            }
        &&& forall|i: int, j: int|
            0 <= i < self.slots@.len() && 0 <= j < self.slots@.len() && i != j
                && (#[trigger] self.slots@[i]).occupied && (#[trigger] self.slots@[j]).occupied
                ==> self.slots@[i].chunk_index != self.slots@[j].chunk_index
    }

    /// Frames per chunk.
    pub closed spec fn spec_chunk_size(self) -> nat {
        self.chunk_size as nat
    }

    /// Number of slots.
    pub closed spec fn capacity(self) -> nat {
        self.slots@.len()
    }

    /// Whether slot `i` holds chunk `c`.
    closed spec fn slot_holds(self, i: int, c: u64) -> bool {
        holds_chunk(self.slots@, i, c)
    }

    /// The slot holding chunk `c`, if any.
    closed spec fn slot_for(self, c: u64) -> int {
        slot_of(self.slots@, c)
    }

    /// Whether some slot is free.
    pub closed spec fn has_free_slot(self) -> bool {
        exists|i: int| 0 <= i < self.slots@.len() && !(#[trigger] self.slots@[i]).occupied
    }

    /// The cached chunks and their stereo-interleaved samples.
    pub closed spec fn contents(self) -> Map<u64, Seq<T>> {
        Map::new(
            |c: u64| exists|i: int| holds_chunk(self.slots@, i, c),
            |c: u64| self.slots@[self.slot_for(c)].samples@,
        )
    }

    /// Access stamp of the read that last touched chunk `c` (or of its load).
    pub closed spec fn last_used(self, c: u64) -> u64 {
        self.last_access@[self.slot_for(c)]
    }

    /// The access clock: the stamp the next read of a chunk receives.
    pub closed spec fn clock(self) -> u64 {
        self.access_counter
    }

    /// Every slot's access stamp is older than the clock (it holds until
    /// the clock wraps around, after 2^64 chunk reads).
    pub closed spec fn fresh(self) -> bool {
        forall|i: int| 0 <= i < self.last_access@.len() ==> #[trigger] self.last_access@[i] < self.access_counter
    }

    /// Whether a read of `frames` frames from frame `pos` that copied `n`
    /// frames touched chunk `c`: `c` holds one of the copied frames, or the
    /// read stopped inside the cached chunk `c` (at a frame past its end).
    pub open spec fn read_touches(self, pos: int, n: int, frames: int, c: u64) -> bool {
        let cs = self.spec_chunk_size() as int;
        ||| (n > 0 && pos / cs <= c && c <= (pos + n - 1) / cs)
        ||| (n < frames && pos + n <= u64::MAX && c == (pos + n) / cs && self.contents().contains_key(
            c,
        ))
    }

    /// Whether frame `pos` can be read from the cache.
    pub open spec fn frame_available(self, pos: int) -> bool {
        let cs = self.spec_chunk_size() as int;
        let c = pos / cs;
        &&& 0 <= pos <= u64::MAX
        &&& self.contents().contains_key(c as u64)
        &&& 2 * (pos % cs) < self.contents()[c as u64].len()
    }

    /// Sample `ch` (0 = left, 1 = right) of frame `pos`.
    pub open spec fn frame_sample(self, pos: int, ch: int) -> T {
        let cs = self.spec_chunk_size() as int;
        self.contents()[(pos / cs) as u64][2 * (pos % cs) + ch]
    }

    /// Frame `pos + j` is cached and its two samples stand at `2 * j` and
    /// `2 * j + 1` of `out`.
    pub open spec fn frame_copied(self, out: Seq<T>, pos: int, j: int) -> bool {
        &&& self.frame_available(pos + j)
        &&& out[2 * j] == self.frame_sample(pos + j, 0)
        &&& out[2 * j + 1] == self.frame_sample(pos + j, 1)
    }

    /// The cache's view is a function of its slots and chunk size.
    proof fn lemma_same_slots(self, other: Self)
        requires
            self.slots@ == other.slots@,
            self.chunk_size == other.chunk_size,
            self.last_access@.len() == other.last_access@.len(),
        ensures
            self.contents() == other.contents(),
            self.wf() == other.wf(),
            self.has_free_slot() == other.has_free_slot(),
    {
        assert(self.contents() =~= other.contents());
    }

    proof fn lemma_slot_for(self, k: int)
        requires
            self.wf(),
            0 <= k < self.slots@.len(),
            self.slots@[k].occupied,
        ensures
            self.slot_for(self.slots@[k].chunk_index) == k,
            self.contents().contains_key(self.slots@[k].chunk_index),
            self.contents()[self.slots@[k].chunk_index] == self.slots@[k].samples@,
    {
        let c = self.slots@[k].chunk_index;
        assert(self.slot_holds(k, c));
        let i = self.slot_for(c);
        assert(self.slot_holds(i, c));
        if i != k {
            assert(self.slots@[i].occupied && self.slots@[k].occupied);
        }
    }

    /// An empty cache of `max_chunks` slots of `chunk_size` frames each.
    pub fn new(max_chunks: usize, chunk_size: usize) -> (r: Self)
        requires
            chunk_size > 0,
        ensures
            r.wf(),
            r.contents() == Map::<u64, Seq<T>>::empty(),
            r.capacity() == max_chunks,
            r.spec_chunk_size() == chunk_size,
            max_chunks > 0 ==> r.has_free_slot(),
            r.fresh(),
    {
        let mut slots: Vec<CacheSlot<T>> = Vec::new();
        let mut last_access: Vec<u64> = Vec::new();
        let mut i: usize = 0;
        while i < max_chunks
            invariant
                i <= max_chunks,
                slots@.len() == i,
                last_access@.len() == i,
                forall|j: int| 0 <= j < i ==> !(#[trigger] slots@[j]).occupied,
                forall|j: int| 0 <= j < i ==> #[trigger] last_access@[j] == 0,
            decreases max_chunks - i,
        {
            slots.push(CacheSlot::new());
            last_access.push(0);
            i += 1;
        }
        let r = ChunkCache { slots, last_access, chunk_size, access_counter: 1 };
        assert(r.contents() =~= Map::<u64, Seq<T>>::empty());
        if max_chunks > 0 {
            assert(!r.slots@[0].occupied);
        }
        r
    }

    /// Frames per chunk.
    pub fn chunk_size(&self) -> (r: usize)
        requires
            self.wf(),
        ensures
            r == self.spec_chunk_size(),
            r > 0,
    {
        self.chunk_size
    }

    /// The slot holding chunk `chunk_index`, if it is cached.
    fn find_ready_slot(&self, chunk_index: u64) -> (r: Option<usize>)
        requires
            self.wf(),
        ensures
            r matches Some(i) ==> self.slot_holds(i as int, chunk_index)
                && self.contents().contains_key(chunk_index)
                && self.contents()[chunk_index] == self.slots@[i as int].samples@,
            r is None ==> !self.contents().contains_key(chunk_index),
    {
        let mut i: usize = 0;
        while i < self.slots.len()
            invariant
                self.wf(),
                i <= self.slots@.len(),
                forall|j: int| 0 <= j < i ==> !holds_chunk(self.slots@, j, chunk_index),
            decreases self.slots@.len() - i,
        {
            if self.slots[i].occupied && self.slots[i].chunk_index == chunk_index {
                proof {
                    self.lemma_slot_for(i as int);
                }
                return Some(i);
            }
            i += 1;
        }
        None
    }

    /// The slot to load a new chunk into: the first free slot, or else the
    /// first slot whose chunk was used least recently.
    fn allocate_slot(&self) -> (r: usize)
        requires
            self.wf(),
            self.capacity() > 0,
        ensures
            r < self.capacity(),
            self.has_free_slot() ==> !self.slots@[r as int].occupied && forall|i: int|
                0 <= i < r ==> (#[trigger] self.slots@[i]).occupied,
            !self.has_free_slot() ==> (forall|i: int|
                0 <= i < self.capacity() ==> self.last_access@[r as int] <= #[trigger] self.last_access@[i])
                && (forall|i: int| 0 <= i < r ==> self.last_access@[r as int] < #[trigger] self.last_access@[i]),
    {
        let mut i: usize = 0;
        while i < self.slots.len()
            invariant
                self.wf(),
                i <= self.slots@.len(),
                forall|j: int| 0 <= j < i ==> (#[trigger] self.slots@[j]).occupied,
            decreases self.slots@.len() - i,
        {
            if !self.slots[i].occupied {
                return i;
            }
            i += 1;
        }
        assert(!self.has_free_slot());
        let mut min_access: u64 = u64::MAX;
        let mut min_idx: usize = 0;
        let mut j: usize = 0;
        while j < self.last_access.len()
            invariant
                self.wf(),
                self.capacity() > 0,
                j <= self.last_access@.len(),
                forall|k: int| 0 <= k < j ==> #[trigger] self.last_access@[k] >= min_access,
                (min_idx < j && self.last_access@[min_idx as int] == min_access) || (min_access
                    == u64::MAX && min_idx == 0),
                forall|k: int| 0 <= k < min_idx ==> #[trigger] self.last_access@[k] > min_access,
            decreases self.last_access@.len() - j,
        {
            let access = self.last_access[j];
            if access < min_access {
                min_access = access;
                min_idx = j;
            }
            j += 1;
        }
        min_idx
    }

    /// Install the outcome of decoding chunk `chunk_index`. An already cached
    /// chunk is left as it is and `true` is returned. Otherwise a slot is
    /// taken (a free one if any, else the least recently used one, whose chunk
    /// is evicted); decoded samples are stored in it and `true` is returned,
    /// while a failed decode leaves the slot empty and returns `false`.
    pub fn load_chunk(&mut self, chunk_index: u64, outcome: ChunkLoad<T>) -> (r: bool)
        requires
            old(self).wf(),
            old(self).capacity() > 0,
            outcome matches ChunkLoad::Decoded(s) ==> s@.len() % 2 == 0 && s@.len() <= 2
                * old(self).spec_chunk_size(),
        ensures
            final(self).wf(),
            final(self).capacity() == old(self).capacity(),
            final(self).spec_chunk_size() == old(self).spec_chunk_size(),
            final(self).clock() == old(self).clock(),
            old(self).fresh() ==> final(self).fresh(),
            forall|k: u64|
                k != chunk_index && #[trigger] final(self).contents().contains_key(k) ==> final(self).last_used(k)
                    == old(self).last_used(k),
            ({
                let o = old(self).contents();
                let f = final(self).contents();
                &&& o.contains_key(chunk_index) ==> r && f == o
                &&& !o.contains_key(chunk_index) ==> {
                    &&& r == (outcome is Decoded)
                    &&& outcome matches ChunkLoad::Decoded(s) ==> f.contains_key(chunk_index)
                        && f[chunk_index] == s@
                    &&& outcome is Failed ==> !f.contains_key(chunk_index)
                    &&& forall|k: u64|
                        k != chunk_index && #[trigger] f.contains_key(k) ==> o.contains_key(k)
                            && f[k] == o[k]
                    &&& forall|k1: u64, k2: u64|
                        #![trigger o.contains_key(k1), o.contains_key(k2)]
                        o.contains_key(k1) && !f.contains_key(k1) && o.contains_key(k2)
                            && !f.contains_key(k2) ==> k1 == k2
                    &&& old(self).has_free_slot() ==> forall|k: u64|
                        #[trigger] o.contains_key(k) ==> f.contains_key(k)
                    &&& !old(self).has_free_slot() ==> exists|e: u64|
                        #[trigger] o.contains_key(e) && !f.contains_key(e)
                    &&& !old(self).has_free_slot() ==> forall|e: u64, k: u64|
                        #![trigger o.contains_key(e), o.contains_key(k)]
                        o.contains_key(e) && !f.contains_key(e) && o.contains_key(k)
                            ==> old(self).last_used(e) <= old(self).last_used(k)
                }
            }),
    {
        if self.is_cached(chunk_index) {
            proof {
                assert forall|k: u64| k != chunk_index && #[trigger] self.contents().contains_key(k) implies self.last_used(k)
                    == old(self).last_used(k) by {}
            }
            return true;
        }
        let slot = self.allocate_slot();
        let ghost old_self = *self;
        proof {
            if old_self.slots@[slot as int].occupied {
                old_self.lemma_slot_for(slot as int);
            }
        }
        let result = match outcome {
            ChunkLoad::Decoded(samples) => {
                let frame_count = samples.len() / 2;
                self.slots.set(slot, CacheSlot { chunk_index, frame_count, occupied: true, samples });
                true
            },
            ChunkLoad::Failed => {
                self.slots.set(
                    slot,
                    CacheSlot { chunk_index, frame_count: 0, occupied: false, samples: Vec::new() },
                );
                false
            },
        };
        proof {
            let os = old_self.slots@;
            let ns = self.slots@;
            let r = slot as int;
            assert forall|i: int, j: int|
                0 <= i < ns.len() && 0 <= j < ns.len() && i != j && (#[trigger] ns[i]).occupied
                    && (#[trigger] ns[j]).occupied implies ns[i].chunk_index != ns[j].chunk_index by {
                if i == r {
                    assert(!holds_chunk(os, j, chunk_index));
                } else if j == r {
                    assert(!holds_chunk(os, i, chunk_index));
                }
            }
            assert(self.wf());
            assert forall|k: u64|
                k != chunk_index && #[trigger] self.contents().contains_key(k) implies old_self.contents().contains_key(k)
                    && self.contents()[k] == old_self.contents()[k] && self.last_used(k) == old_self.last_used(k) by {
                let i = slot_of(ns, k);
                assert(holds_chunk(ns, i, k));
                assert(i != r);
                assert(holds_chunk(os, i, k));
                self.lemma_slot_for(i);
                old_self.lemma_slot_for(i);
            }
            // A chunk of the old contents other than the evicted one is kept.
            assert forall|k: u64|
                #[trigger] old_self.contents().contains_key(k) && !self.contents().contains_key(k) implies
                    os[r].occupied && os[r].chunk_index == k by {
                let i = slot_of(os, k);
                assert(holds_chunk(os, i, k));
                if i != r {
                    assert(holds_chunk(ns, i, k));
                }
            }
            if ns[r].occupied {
                self.lemma_slot_for(r);
            } else {
                if self.contents().contains_key(chunk_index) {
                    let i = slot_of(ns, chunk_index);
                    assert(holds_chunk(ns, i, chunk_index));
                    assert(holds_chunk(os, i, chunk_index));
                }
            }
            if !old_self.has_free_slot() {
                assert(os[r].occupied);
                let e = os[r].chunk_index;
                assert(old_self.contents().contains_key(e));
                if self.contents().contains_key(e) {
                    let i = slot_of(ns, e);
                    assert(holds_chunk(ns, i, e));
                    if i == r {
                        assert(e == chunk_index);
                    } else {
                        assert(holds_chunk(os, i, e));
                    }
                }
                assert forall|k: u64| #[trigger] old_self.contents().contains_key(k) implies old_self.last_used(e) <= old_self.last_used(k) by {
                    let i = slot_of(os, k);
                    assert(holds_chunk(os, i, k));
                }
            }
        }
        result
    }

    /// The cache never holds more chunks than it has slots.
    pub proof fn law_within_capacity(self)
        requires
            self.wf(),
        ensures
            self.contents().dom().finite(),
            self.contents().dom().len() <= self.capacity(),
    {
        lemma_chunk_set(self.slots@, self.slots@.len() as int);
        assert(self.contents().dom() =~= chunk_set(self.slots@, self.slots@.len() as int));
    }

    /// Whether chunk `chunk_index` is cached.
    pub fn is_cached(&self, chunk_index: u64) -> (r: bool)
        requires
            self.wf(),
        ensures
            r == self.contents().contains_key(chunk_index),
    {
        self.find_ready_slot(chunk_index).is_some()
    }

    /// Whether the chunk holding frame `frame` is cached.
    pub fn is_frame_cached(&self, frame: u64) -> (r: bool)
        requires
            self.wf(),
        ensures
            r == self.contents().contains_key(frame / (self.spec_chunk_size() as u64)),
    {
        let cs = self.chunk_size() as u64;
        self.is_cached(frame / cs)
    }
}

/// Number of chunks of a track of `total_frames` frames split into chunks of
/// `chunk_size` frames; a track of unknown length (0 frames) counts as
/// unbounded.
pub fn total_chunks(total_frames: u64, chunk_size: usize) -> (r: u64)
    requires
        chunk_size > 0,
    ensures
        total_frames > 0 ==> r == (total_frames + chunk_size - 1) / (chunk_size as int),
        total_frames == 0 ==> r == u64::MAX,
{
    if total_frames == 0 {
        return u64::MAX;
    }
    let cs = chunk_size as u64;
    let q = total_frames / cs;
    let rem = total_frames % cs;
    proof {
        let t = total_frames as int;
        let d = cs as int;
        lemma_fundamental_div_mod(t, d);
        if rem == 0 {
            assert(t + d - 1 == q * d + (d - 1)) by (nonlinear_arith)
                requires
                    t == d * q + rem,
                    rem == 0,
            ;
            lemma_fundamental_div_mod_converse(t + d - 1, d, q as int, d - 1);
        } else {
            assert(t + d - 1 == (q + 1) * d + (rem - 1)) by (nonlinear_arith)
                requires
                    t == d * q + rem,
            ;
            lemma_fundamental_div_mod_converse(t + d - 1, d, q + 1, rem - 1);
            assert(q < u64::MAX) by (nonlinear_arith)
                requires
                    t == d * q + rem,
                    0 < rem < d,
                    t <= u64::MAX,
                    q >= 0,
            ;
        }
    }
    if rem != 0 {
        q + 1
    } else {
        q
    }
}

/// Chunks to load for a hint at frame `frame`: the chunk holding the frame,
/// then up to [`LOOKAHEAD_CHUNKS`] following chunks that lie before
/// `total_chunks`.
pub fn hint_chunks(frame: u64, chunk_size: usize, total_chunks: u64) -> (r: Vec<u64>)
    requires
        chunk_size > 0,
        (frame as int) / (chunk_size as int) + LOOKAHEAD_CHUNKS <= u64::MAX,
    ensures
        ({
            let c = (frame as int) / (chunk_size as int);
            let ahead = if total_chunks <= c + 1 {
                0
            } else if total_chunks - c - 1 < LOOKAHEAD_CHUNKS {
                total_chunks - c - 1
            } else {
                LOOKAHEAD_CHUNKS as int
            };
            &&& r@.len() == 1 + ahead
            &&& forall|j: int| 0 <= j < r@.len() ==> #[trigger] r@[j] == c + j
        }),
{
    let chunk_index = frame / (chunk_size as u64);
    let mut chunks: Vec<u64> = Vec::new();
    chunks.push(chunk_index);
    let mut i: u64 = 1;
    while i <= LOOKAHEAD_CHUNKS
        invariant_except_break
            1 <= i <= LOOKAHEAD_CHUNKS + 1,
            chunks@.len() == i,
            chunk_index + i - 1 < total_chunks || i == 1,
        invariant
            chunk_index == (frame as int) / (chunk_size as int),
            chunk_index + LOOKAHEAD_CHUNKS <= u64::MAX,
            1 <= i <= LOOKAHEAD_CHUNKS + 1,
            chunks@.len() == i,
            forall|j: int| 0 <= j < chunks@.len() ==> #[trigger] chunks@[j] == chunk_index + j,
        ensures
            1 <= chunks@.len() <= LOOKAHEAD_CHUNKS + 1,
            chunks@.len() == LOOKAHEAD_CHUNKS + 1 || chunk_index + chunks@.len() >= total_chunks,
            chunks@.len() == 1 || chunk_index + chunks@.len() - 1 < total_chunks,
            forall|j: int| 0 <= j < chunks@.len() ==> #[trigger] chunks@[j] == chunk_index + j,
        decreases LOOKAHEAD_CHUNKS + 1 - i,
    {
        let la = chunk_index + i;
        if la >= total_chunks {
            break;
        }
        chunks.push(la);
        i += 1;
    }
    chunks
}

/// Frame `pos + j` lies in the same chunk as `pos`, `j` frames further in,
/// when it does not cross the chunk's end.
proof fn lemma_same_chunk(pos: int, cs: int, j: int)
    requires
        cs > 0,
        pos >= 0,
        0 <= j,
        pos % cs + j < cs,
    ensures
        (pos + j) / cs == pos / cs,
        (pos + j) % cs == pos % cs + j,
{
    lemma_fundamental_div_mod(pos, cs);
    assert(pos + j == (pos / cs) * cs + (pos % cs + j)) by (nonlinear_arith)
        requires
            pos == cs * (pos / cs) + pos % cs,
    ;
    lemma_fundamental_div_mod_converse(pos + j, cs, pos / cs, pos % cs + j);
}

/// Chunk `c` holds one of the frames `pos .. pos + n` (chunks of `cs`
/// frames).
spec fn chunk_in_span(pos: int, cs: int, n: int, c: int) -> bool {
    n > 0 && pos / cs <= c && c <= (pos + n - 1) / cs
}

/// Frames `pos .. pos + n + t` span the chunks of `pos .. pos + n` and the
/// chunk of frame `pos + n`, when the `t` frames from `pos + n` lie in one
/// chunk.
proof fn lemma_span_extend(pos: int, cs: int, n: int, t: int, c: int)
    requires
        cs > 0,
        pos >= 0,
        n >= 0,
        t >= 1,
        (pos + n + t - 1) / cs == (pos + n) / cs,
    ensures
        chunk_in_span(pos, cs, n + t, c) <==> (chunk_in_span(pos, cs, n, c) || c == (pos + n) / cs),
{
    lemma_div_is_ordered(pos, pos + n, cs);
    if n > 0 {
        let x = pos + n - 1;
        lemma_div_is_ordered(pos, x, cs);
        lemma_fundamental_div_mod(x, cs);
        let q = x / cs;
        let r = x % cs;
        if r + 1 < cs {
            lemma_fundamental_div_mod_converse(x + 1, cs, q, r + 1);
        } else {
            assert(x + 1 == (q + 1) * cs + 0) by (nonlinear_arith)
                requires
                    x == cs * q + r,
                    r + 1 == cs,
            ;
            lemma_fundamental_div_mod_converse(x + 1, cs, q + 1, 0);
        }
    }
}

impl<T: Copy> ChunkCache<T> {
    /// Copy cached frames starting at frame `pos` into `output` (two samples
    /// per frame) and return how many frames were copied: the longest run of
    /// cached frames from `pos`, at most `frames`. A miss at `pos` copies
    /// nothing. Each chunk read from becomes the most recently used.
    pub fn read(&mut self, pos: u64, output: &mut [T], frames: usize) -> (n: usize)
        requires
            old(self).wf(),
            old(output)@.len() >= 2 * frames,
        ensures
            final(self).wf(),
            n <= frames,
            final(output)@.len() == old(output)@.len(),
            final(self).contents() == old(self).contents(),
            final(self).capacity() == old(self).capacity(),
            final(self).spec_chunk_size() == old(self).spec_chunk_size(),
            final(self).has_free_slot() == old(self).has_free_slot(),
            forall|j: int| 0 <= j < n ==> #[trigger] old(self).frame_copied(final(output)@, pos as int, j),
            forall|k: int|
                2 * n <= k < final(output)@.len() ==> final(output)@[k] == old(output)@[k],
            n < frames ==> !old(self).frame_available(pos + n),
            forall|c: u64|
                #[trigger] old(self).contents().contains_key(c) && !old(self).read_touches(
                    pos as int,
                    n as int,
                    frames as int,
                    c,
                ) ==> final(self).last_used(c) == old(self).last_used(c),
            old(self).clock() + frames + 1 <= u64::MAX ==> {
                &&& old(self).clock() <= final(self).clock()
                &&& forall|c: u64|
                    #[trigger] old(self).contents().contains_key(c) && old(self).read_touches(
                        pos as int,
                        n as int,
                        frames as int,
                        c,
                    ) ==> old(self).clock() <= final(self).last_used(c) < final(self).clock()
                &&& old(self).fresh() ==> final(self).fresh()
                &&& old(self).fresh() ==> forall|c: u64, d: u64|
                    #![trigger old(self).contents().contains_key(c), old(self).contents().contains_key(d)]
                    old(self).contents().contains_key(c) && old(self).contents().contains_key(d)
                        && old(self).read_touches(pos as int, n as int, frames as int, c)
                        && !old(self).read_touches(pos as int, n as int, frames as int, d)
                        ==> final(self).last_used(d) < final(self).last_used(c)
            },
    {
        let ghost old_self = *self;
        let ghost old_out = output@;
        let ghost old_la = self.last_access@;
        let ghost c0 = self.access_counter as int;
        let ghost no_wrap = c0 + frames + 1 <= u64::MAX;
        let ghost mut iters: int = 0;
        let cs = self.chunk_size;
        let out_len = output.len();
        let mut frames_read: usize = 0;
        let mut current_pos: u64 = pos;
        while frames_read < frames
            invariant_except_break
                frames_read <= frames,
                0 <= iters <= frames_read,
                no_wrap ==> self.access_counter == c0 + iters,
                forall|i: int|
                    0 <= i < self.slots@.len() && !(self.slots@[i].occupied && chunk_in_span(
                        pos as int,
                        cs as int,
                        frames_read as int,
                        self.slots@[i].chunk_index as int,
                    )) ==> #[trigger] self.last_access@[i] == old_la[i],
                no_wrap ==> forall|i: int|
                    0 <= i < self.slots@.len() && self.slots@[i].occupied && chunk_in_span(
                        pos as int,
                        cs as int,
                        frames_read as int,
                        self.slots@[i].chunk_index as int,
                    ) ==> c0 <= #[trigger] self.last_access@[i] < self.access_counter,
                current_pos == pos + frames_read,
            invariant
                frames_read <= frames,
                no_wrap == (c0 + frames + 1 <= u64::MAX),
                c0 == old_self.access_counter,
                old_la == old_self.last_access@,
                cs == old_self.chunk_size,
                cs > 0,
                self.chunk_size == cs,
                self.slots@ == old_self.slots@,
                self.last_access@.len() == self.slots@.len(),
                old_self.wf(),
                self.wf(),
                output@.len() == old_out.len(),
                old_out.len() >= 2 * frames,
                out_len == old_out.len(),
                forall|j: int| 0 <= j < frames_read ==> #[trigger] old_self.frame_copied(output@, pos as int, j),
                forall|k: int| 2 * frames_read <= k < output@.len() ==> output@[k] == old_out[k],
            ensures
                frames_read <= frames,
                frames_read < frames ==> !old_self.frame_available(pos + frames_read),
                0 <= iters <= frames_read + 1,
                no_wrap ==> self.access_counter == c0 + iters,
                forall|i: int|
                    0 <= i < self.slots@.len() && !(self.slots@[i].occupied && (chunk_in_span(
                        pos as int,
                        cs as int,
                        frames_read as int,
                        self.slots@[i].chunk_index as int,
                    ) || (frames_read < frames && pos + frames_read <= u64::MAX && self.slots@[i].chunk_index == (pos + frames_read) / (
                    cs as int)))) ==> #[trigger] self.last_access@[i] == old_la[i],
                no_wrap ==> forall|i: int|
                    0 <= i < self.slots@.len() && self.slots@[i].occupied && (chunk_in_span(
                        pos as int,
                        cs as int,
                        frames_read as int,
                        self.slots@[i].chunk_index as int,
                    ) || (frames_read < frames && pos + frames_read <= u64::MAX && self.slots@[i].chunk_index == (pos + frames_read) / (
                    cs as int))) ==> c0 <= #[trigger] self.last_access@[i] < self.access_counter,
                self.chunk_size == cs,
                self.slots@ == old_self.slots@,
                self.last_access@.len() == self.slots@.len(),
                output@.len() == old_out.len(),
                forall|j: int| 0 <= j < frames_read ==> #[trigger] old_self.frame_copied(output@, pos as int, j),
                forall|k: int| 2 * frames_read <= k < output@.len() ==> output@[k] == old_out[k],
            decreases frames - frames_read,
        {
            proof {
                self.lemma_same_slots(old_self);
            }
            let chunk_index = current_pos / (cs as u64);
            let offset = (current_pos % (cs as u64)) as usize;
            assert(chunk_index as int == (pos + frames_read) / (cs as int));
            let slot_idx = match self.find_ready_slot(chunk_index) {
                Some(i) => i,
                None => {
                    proof {
                        assert forall|i: int|
                            0 <= i < self.slots@.len() && self.slots@[i].occupied implies self.slots@[i].chunk_index
                            != chunk_index by {
                            if self.slots@[i].chunk_index == chunk_index {
                                assert(holds_chunk(self.slots@, i, chunk_index));
                            }
                        }
                    }
                    break;
                },
            };
            let ghost la_before = self.last_access@;
            let ghost counter_before = self.access_counter as int;
            let access = self.access_counter;
            self.access_counter = self.access_counter.wrapping_add(1);
            self.last_access.set(slot_idx, access);
            proof {
                self.lemma_same_slots(old_self);
                iters = iters + 1;
                // Only the slot of `chunk_index` holds it.
                assert forall|i: int|
                    0 <= i < self.slots@.len() && i != slot_idx && self.slots@[i].occupied implies
                    self.slots@[i].chunk_index != chunk_index by {
                    assert(self.slots@[slot_idx as int].occupied);
                }
                if no_wrap {
                    assert(self.access_counter == c0 + iters);
                }
            }
            let valid_frames = self.slots[slot_idx].frame_count;
            let available = valid_frames.saturating_sub(offset);
            let remaining = frames - frames_read;
            let wanted = if available < remaining {
                available
            } else {
                remaining
            };
            // Frames past `u64::MAX` do not exist: copy at most up to it.
            let room: u64 = u64::MAX - current_pos;
            let to_copy: usize = if wanted > 0 && (wanted - 1) as u64 > room {
                (room + 1) as usize
            } else {
                wanted
            };
            let at_end: bool = to_copy > 0 && (to_copy - 1) as u64 == room;
            if to_copy == 0 {
                proof {
                    if no_wrap {
                        assert(self.last_access@[slot_idx as int] == counter_before);
                        assert forall|i: int|
                            0 <= i < self.slots@.len() && self.slots@[i].occupied && (chunk_in_span(
                                pos as int,
                                cs as int,
                                frames_read as int,
                                self.slots@[i].chunk_index as int,
                            ) || (frames_read < frames && pos + frames_read <= u64::MAX && self.slots@[i].chunk_index == (pos + frames_read) / (
                            cs as int))) implies c0 <= #[trigger] self.last_access@[i] < self.access_counter by {
                            if i != slot_idx {
                                assert(self.last_access@[i] == la_before[i]);
                            }
                        }
                    }
                }
                break;
            }
            proof {
                old_self.lemma_slot_for(slot_idx as int);
            }
            let ghost old_out_round = output@;
            let sample_len = self.slots[slot_idx].samples.len();
            assert(sample_len == 2 * valid_frames);
            let src_start = offset * 2;
            let dst_start = frames_read * 2;
            let mut k: usize = 0;
            while k < to_copy * 2
                invariant
                    k <= to_copy * 2,
                    src_start == offset * 2,
                    dst_start == frames_read * 2,
                    offset + to_copy <= valid_frames,
                    valid_frames == self.slots@[slot_idx as int].frame_count,
                    slot_idx < self.slots@.len(),
                    self.slots@[slot_idx as int].samples@.len() == 2 * valid_frames,
                    frames_read + to_copy <= frames,
                    output@.len() == old_out.len(),
                    old_out.len() >= 2 * frames,
                    out_len == old_out.len(),
                    sample_len == 2 * valid_frames,
                    forall|d: int|
                        dst_start <= d < dst_start + k ==> #[trigger] output@[d]
                            == self.slots@[slot_idx as int].samples@[src_start + (d - dst_start)],
                    forall|i: int| 0 <= i < dst_start ==> output@[i] == old_out_round[i],
                    forall|i: int| dst_start + k <= i < output@.len() ==> output@[i] == old_out_round[i],
                decreases to_copy * 2 - k,
            {
                output[dst_start + k] = self.slots[slot_idx].samples[src_start + k];
                k += 1;
            }
            proof {
                let cur = current_pos as int;
                let c = cs as int;
                assert forall|j: int| 0 <= j < frames_read + to_copy implies #[trigger] old_self.frame_copied(output@, pos as int, j) by {
                    if j >= frames_read {
                        let jj = j - frames_read;
                        lemma_same_chunk(cur, c, jj);
                        assert(output@[dst_start + 2 * jj] == self.slots@[slot_idx as int].samples@[src_start + 2 * jj]);
                        assert(output@[dst_start + 2 * jj + 1] == self.slots@[slot_idx as int].samples@[src_start + 2 * jj + 1]);
                    } else {
                        assert(2 * j + 1 < dst_start);
                        assert(old_self.frame_copied(old_out_round, pos as int, j));
                    }
                }
            }
            proof {
                let c = cs as int;
                lemma_same_chunk(current_pos as int, c, to_copy - 1);
                assert forall|ci: int| #[trigger] chunk_in_span(pos as int, c, frames_read + to_copy, ci) <==> (
                chunk_in_span(pos as int, c, frames_read as int, ci) || ci == (pos + frames_read) / c) by {
                    lemma_span_extend(pos as int, c, frames_read as int, to_copy as int, ci);
                }
            }
            frames_read += to_copy;
            if at_end {
                break;
            }
            current_pos += to_copy as u64;
        }
        proof {
            self.lemma_same_slots(old_self);
            let nn = frames_read as int;
            let c = cs as int;
            assert forall|k: u64| #[trigger] old_self.contents().contains_key(k) implies {
                let i = old_self.slot_for(k);
                &&& 0 <= i < self.slots@.len()
                &&& self.slots@[i].occupied
                &&& self.slots@[i].chunk_index == k
                &&& self.last_used(k) == self.last_access@[i]
                &&& old_self.last_used(k) == old_la[i]
                &&& (old_self.read_touches(pos as int, nn, frames as int, k) <==> (chunk_in_span(
                    pos as int,
                    c,
                    nn,
                    k as int,
                ) || (nn < frames && pos + nn <= u64::MAX && k == (pos + nn) / c)))
            } by {
                let i = slot_of(old_self.slots@, k);
                assert(holds_chunk(old_self.slots@, i, k));
                old_self.lemma_slot_for(i);
                self.lemma_slot_for(i);
            }
            if old_self.has_free_slot() {
                let i = choose|i: int| 0 <= i < old_self.slots@.len() && !(#[trigger] old_self.slots@[i]).occupied;
                assert(!self.slots@[i].occupied);
            }
            if self.has_free_slot() {
                let i = choose|i: int| 0 <= i < self.slots@.len() && !(#[trigger] self.slots@[i]).occupied;
                assert(!old_self.slots@[i].occupied);
            }
        }
        frames_read
    }
}

/// What a read gives back of a load: while chunk `c` is cached with samples
/// `s`, frame `k` of the chunk (frame `c * chunk_size + k` of the track) is
/// available and its samples are `s[2k]` and `s[2k + 1]`.
pub proof fn law_read_gives_back_loaded<T>(cache: ChunkCache<T>, c: u64, k: int)
    requires
        cache.wf(),
        cache.contents().contains_key(c),
        0 <= k < cache.spec_chunk_size(),
        2 * k + 1 < cache.contents()[c].len(),
        c * cache.spec_chunk_size() + k <= u64::MAX,
    ensures
        cache.frame_available(c * cache.spec_chunk_size() + k),
        cache.frame_sample(c * cache.spec_chunk_size() + k, 0) == cache.contents()[c][2 * k],
        cache.frame_sample(c * cache.spec_chunk_size() + k, 1) == cache.contents()[c][2 * k + 1],
{
    let cs = cache.spec_chunk_size() as int;
    let pos = c * cs + k;
    lemma_fundamental_div_mod_converse(pos, cs, c as int, k);
}

} // verus!
