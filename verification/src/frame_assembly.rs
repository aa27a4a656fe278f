//! Reassembly of camera frames from their chunks on the receiving side.
//!
//! The sender first announces a frame (its number and how many chunks it
//! has), then sends the chunks, which may arrive in any order, twice, or not
//! at all. A frame is handed out once every chunk has arrived; frames that
//! stay incomplete for too long are dropped.
use std::collections::HashMap;
use vstd::prelude::*;
use vstd::std_specs::iter::IteratorSpec;
use crate::camera::{
    all_received, chunk_count, concat_chunks, law_split_then_concat, split_spec, CHUNK_SIZE,
};

verus! {

broadcast use vstd::std_specs::hash::group_hash_axioms;

/// A frame under reassembly, as the specifications see it.
pub struct FrameProgress<T> {
    pub total_chunks: u32,
    pub chunks: Seq<Option<Seq<u8>>>,
    pub start_us: u64,
    pub meta: T,
}

/// A frame whose chunks have all arrived.
pub struct CompletedFrame<T> {
    pub frame_number: u64,
    pub meta: T,
    pub data: Vec<u8>,
}

/// Every chunk has arrived.
pub open spec fn is_complete(chunks: Seq<Option<Seq<u8>>>) -> bool {
    forall|i: int| 0 <= i < chunks.len() ==> (#[trigger] chunks[i]) is Some
}

/// Number of chunks that have arrived.
pub open spec fn count_received(chunks: Seq<Option<Seq<u8>>>) -> nat
    decreases chunks.len(),
{
    if chunks.len() == 0 {
        0
    } else {
        count_received(chunks.drop_last()) + if chunks.last() is Some {
            1nat
        } else {
            0nat
        }
    }
}

/// The frame after the chunk `index` arrives with `bytes`; the first copy of a
/// chunk is kept.
pub open spec fn with_chunk<T>(f: FrameProgress<T>, index: int, bytes: Seq<u8>) -> FrameProgress<T> {
    FrameProgress {
        chunks: if f.chunks[index] is None {
            f.chunks.update(index, Some(bytes))
        } else {
            f.chunks
        },
        ..f
    }
}

/// Time elapsed from `start_us` to `now_us`, zero if `now_us` is earlier.
pub open spec fn elapsed_us(now_us: u64, start_us: u64) -> u64 {
    if now_us >= start_us {
        (now_us - start_us) as u64
    } else {
        0
    }
}

/// A frame's state.
struct InProgressFrame<T> {
    total_chunks: u32,
    chunks: Vec<Option<Vec<u8>>>,
    received_count: u32,
    start_us: u64,
    meta: T,
}

spec fn chunk_views(chunks: Seq<Option<Vec<u8>>>) -> Seq<Option<Seq<u8>>> {
    chunks.map_values(
        |o: Option<Vec<u8>>|
            match o {
                Some(v) => Some(v@),
                None => None,
            },
    )
}

impl<T> InProgressFrame<T> {
    spec fn progress(&self) -> FrameProgress<T> {
        FrameProgress {
            total_chunks: self.total_chunks,
            chunks: chunk_views(self.chunks@),
            start_us: self.start_us,
            meta: self.meta,
        }
    }

    spec fn wf(&self) -> bool {
        &&& self.chunks@.len() == self.total_chunks
        &&& self.received_count == count_received(chunk_views(self.chunks@))
    }
}

/// The frames under reassembly, by frame number.
pub struct FrameAssembler<T> {
    in_progress: HashMap<u64, InProgressFrame<T>>,
}

/// A frame is stale at `now_us` when it has been under reassembly for longer
/// than `max_age_us`.
spec fn is_stale<T>(f: InProgressFrame<T>, now_us: u64, max_age_us: u64) -> bool {
    elapsed_us(now_us, f.start_us) > max_age_us
}

proof fn lemma_count_received<T>(chunks: Seq<Option<Seq<u8>>>)
    ensures
        count_received(chunks) <= chunks.len(),
        count_received(chunks) == chunks.len() <==> is_complete(chunks),
    decreases chunks.len(),
{
    if chunks.len() > 0 {
        let d = chunks.drop_last();
        lemma_count_received::<T>(d);
        if is_complete(chunks) {
            assert forall|i: int| 0 <= i < d.len() implies (#[trigger] d[i]) is Some by {
                assert(d[i] == chunks[i]);
            }
        }
        if is_complete(d) && chunks.last() is Some {
            assert forall|i: int| 0 <= i < chunks.len() implies (#[trigger] chunks[i]) is Some by {
                if i < d.len() {
                    assert(d[i] == chunks[i]);
                }
            }
        }
    }
}

proof fn lemma_count_update(chunks: Seq<Option<Seq<u8>>>, k: int, b: Seq<u8>)
    requires
        0 <= k < chunks.len(),
        chunks[k] is None,
    ensures
        count_received(chunks.update(k, Some(b))) == count_received(chunks) + 1,
    decreases chunks.len(),
{
    let u = chunks.update(k, Some(b));
    if k == chunks.len() - 1 {
        assert(u.drop_last() =~= chunks.drop_last());
    } else {
        assert(u.drop_last() =~= chunks.drop_last().update(k, Some(b)));
        lemma_count_update(chunks.drop_last(), k, b);
    }
}

proof fn lemma_concat_all_some(chunks: Seq<Option<Vec<u8>>>, k: int, acc: Seq<u8>)
    requires
        0 <= k <= chunks.len(),
        acc == concat_chunks(chunk_views(chunks.take(k))),
    ensures
        k < chunks.len() ==> acc + match chunks[k] {
            Some(v) => v@,
            None => Seq::<u8>::empty(),
        } == concat_chunks(chunk_views(chunks.take(k + 1))),
{
    if k < chunks.len() {
        let t = chunk_views(chunks.take(k + 1));
        assert(t.drop_last() =~= chunk_views(chunks.take(k)));
        assert(t.last() == chunk_views(chunks)[k]);
    }
}

impl<T> FrameAssembler<T> {
    /// The frames under reassembly, by frame number.
    pub closed spec fn view(&self) -> Map<u64, FrameProgress<T>> {
        self.in_progress@.map_values(|f: InProgressFrame<T>| f.progress())
    }

    pub closed spec fn wf(&self) -> bool {
        forall|n: u64| #[trigger] self.in_progress@.contains_key(n) ==> self.in_progress@[n].wf()
    }

    /// No frame under reassembly.
    pub fn new() -> (r: Self)
        ensures
            r.wf(),
            r@ == Map::<u64, FrameProgress<T>>::empty(),
    {
        let r = FrameAssembler { in_progress: HashMap::new() };
        assert(r@ =~= Map::<u64, FrameProgress<T>>::empty());
        r
    }

    /// Announces frame `frame_number` with `total_chunks` chunks, none of them
    /// arrived yet; an earlier announcement of the same frame is dropped.
    pub fn begin_frame(&mut self, frame_number: u64, total_chunks: u32, now_us: u64, meta: T)
        requires
            old(self).wf(),
        ensures
            final(self).wf(),
            final(self)@ == old(self)@.insert(
                frame_number,
                FrameProgress {
                    total_chunks,
                    chunks: Seq::new(total_chunks as nat, |i: int| None),
                    start_us: now_us,
                    meta,
                },
            ),
    {
        let mut chunks: Vec<Option<Vec<u8>>> = Vec::new();
        let mut k: u32 = 0;
        while k < total_chunks
            invariant
                k <= total_chunks,
                chunks@.len() == k,
                forall|j: int| 0 <= j < k ==> chunks@[j] is None,
            decreases total_chunks - k,
        {
            chunks.push(None);
            k = k + 1;
        }
        proof {
            assert(chunk_views(chunks@) =~= Seq::new(total_chunks as nat, |i: int| None));
            assert(count_received(chunk_views(chunks@)) == 0) by {
                lemma_count_zero(chunk_views(chunks@));
            }
        }
        let entry = InProgressFrame {
            total_chunks,
            chunks,
            received_count: 0,
            start_us: now_us,
            meta,
        };
        self.in_progress.insert(frame_number, entry);
        assert(self@ =~= old(self)@.insert(frame_number, entry.progress()));
    }

    /// Records that chunk `chunk_index` of frame `frame_number` arrived with
    /// `bytes`. Chunks of frames that were not announced and chunks whose
    /// index is out of range are ignored; of two copies of a chunk the first
    /// is kept. When the last missing chunk arrives, the frame leaves the
    /// assembler and is handed out with its chunks joined in index order.
    pub fn accept_chunk(&mut self, frame_number: u64, chunk_index: u32, bytes: &[u8]) -> (r:
        Option<CompletedFrame<T>>)
        requires
            old(self).wf(),
        ensures
            final(self).wf(),
            !old(self)@.dom().contains(frame_number) ==> r is None && final(self)@ == old(self)@,
            old(self)@.dom().contains(frame_number) && chunk_index >= old(
                self,
            )@[frame_number].total_chunks ==> r is None && final(self)@ == old(self)@,
            old(self)@.dom().contains(frame_number) && chunk_index < old(
                self,
            )@[frame_number].total_chunks ==> {
                let f = with_chunk(old(self)@[frame_number], chunk_index as int, bytes@);
                if is_complete(f.chunks) {
                    &&& r matches Some(c)
                    &&& c.frame_number == frame_number
                    &&& c.meta == f.meta
                    &&& c.data@ == concat_chunks(f.chunks)
                    &&& final(self)@ == old(self)@.remove(frame_number)
                } else {
                    &&& r is None
                    &&& final(self)@ == old(self)@.insert(frame_number, f)
                }
            },
    {
        let ghost before = self.in_progress@;
        let removed = self.in_progress.remove(&frame_number);
        let mut entry = match removed {
            Some(entry) => entry,
            None => {
                assert(self.in_progress@ =~= before);
                return None;
            },
        };
        let ghost old_entry = entry;
        assert(before.contains_key(frame_number) && before[frame_number] == old_entry);
        assert(old_entry.wf());
        let idx = chunk_index as usize;
        if idx >= entry.chunks.len() {
            self.in_progress.insert(frame_number, entry);
            assert(self.in_progress@ =~= before);
            return None;
        }
        if entry.chunks[idx].is_none() {
            let mut v: Vec<u8> = Vec::new();
            v.extend_from_slice(bytes);
            assert(v@ =~= bytes@);
            proof {
                lemma_count_received::<T>(chunk_views(entry.chunks@));
            }
            entry.chunks.set(idx, Some(v));
            proof {
                assert(chunk_views(entry.chunks@) =~= chunk_views(old_entry.chunks@).update(
                    idx as int,
                    Some(bytes@),
                ));
                lemma_count_update(chunk_views(old_entry.chunks@), idx as int, bytes@);
            }
            entry.received_count = entry.received_count + 1;
        }
        let ghost f = with_chunk(old_entry.progress(), idx as int, bytes@);
        proof {
            assert(entry.progress().chunks =~= f.chunks);
            lemma_count_received::<T>(chunk_views(entry.chunks@));
        }
        if entry.received_count == entry.total_chunks {
            let mut jpeg_data: Vec<u8> = Vec::new();
            let mut k: usize = 0;
            proof {
                assert(chunk_views(entry.chunks@.take(0)) =~= Seq::<Option<Seq<u8>>>::empty());
            }
            while k < entry.chunks.len()
                invariant
                    k <= entry.chunks@.len(),
                    jpeg_data@ == concat_chunks(chunk_views(entry.chunks@.take(k as int))),
                decreases entry.chunks@.len() - k,
            {
                proof {
                    lemma_concat_all_some(entry.chunks@, k as int, jpeg_data@);
                }
                let ghost acc = jpeg_data@;
                match &entry.chunks[k] {
                    Some(b) => {
                        jpeg_data.extend_from_slice(b.as_slice());
                        assert(jpeg_data@ =~= acc + b@);
                    },
                    None => {
                        assert(acc + Seq::<u8>::empty() =~= acc);
                    },
                }
                k = k + 1;
            }
            proof {
                assert(entry.chunks@.take(k as int) =~= entry.chunks@);
                assert(self@ =~= old(self)@.remove(frame_number));
            }
            return Some(CompletedFrame { frame_number, meta: entry.meta, data: jpeg_data });
        }
        let ghost new_entry = entry;
        self.in_progress.insert(frame_number, entry);
        proof {
            assert(new_entry.progress() == f);
            assert(self@ =~= old(self)@.insert(frame_number, f));
        }
        None
    }

    /// Drops the frames that have been under reassembly for longer than
    /// `max_age_us`, and returns their numbers.
    pub fn discard_stale(&mut self, now_us: u64, max_age_us: u64) -> (dropped: Vec<u64>)
        requires
            old(self).wf(),
        ensures
            final(self).wf(),
            final(self)@ == old(self)@.restrict(
                old(self)@.dom().filter(
                    |n: u64| elapsed_us(now_us, old(self)@[n].start_us) <= max_age_us,
                ),
            ),
            forall|n: u64|
                #[trigger] dropped@.contains(n) <==> old(self)@.dom().contains(n) && elapsed_us(
                    now_us,
                    old(self)@[n].start_us,
                ) > max_age_us,
    {
        let ghost before = self.in_progress@;
        let mut numbers: Vec<u64> = Vec::new();
        let keys = self.in_progress.keys();
        let ghost all = IteratorSpec::remaining(&keys);
        for k in it: keys
            invariant
                numbers@ == it.seq().take(it.index() as int).map_values(|r: &u64| *r),
                it.seq() == all,
                all.unref().to_set() == before.dom(),
                all.no_duplicates(),
        {
            numbers.push(*k);
        }
        proof {
            assert(numbers@ =~= all.unref());
            assert forall|a: int, b: int|
                0 <= a < numbers@.len() && 0 <= b < numbers@.len() && a != b implies numbers@[a]
                != numbers@[b] by {
                assert(all[a] != all[b]);
            }
            assert forall|n: u64| before.dom().contains(n) <==> numbers@.contains(n) by {
                assert(numbers@.to_set().contains(n) <==> numbers@.contains(n));
            }
        }
        let mut dropped: Vec<u64> = Vec::new();
        let mut i: usize = 0;
        while i < numbers.len()
            invariant
                i <= numbers@.len(),
                numbers@.no_duplicates(),
                forall|n: u64| before.dom().contains(n) <==> numbers@.contains(n),
                forall|n: u64| #[trigger] before.contains_key(n) ==> before[n].wf(),
                forall|n: u64|
                    #[trigger] self.in_progress@.contains_key(n) <==> before.contains_key(n) && !(
                    numbers@.take(i as int).contains(n) && is_stale(before[n], now_us, max_age_us)),
                forall|n: u64| #[trigger]
                    self.in_progress@.contains_key(n) ==> self.in_progress@[n] == before[n],
                forall|n: u64| #[trigger]
                    dropped@.contains(n) <==> numbers@.take(i as int).contains(n) && is_stale(
                        before[n],
                        now_us,
                        max_age_us,
                    ),
            decreases numbers@.len() - i,
        {
            let n = numbers[i];
            let ghost old_map = self.in_progress@;
            let ghost old_dropped = dropped@;
            proof {
                assert(numbers@.contains(n));
                assert(!numbers@.take(i as int).contains(n)) by {
                    if numbers@.take(i as int).contains(n) {
                        let j = choose|j: int| 0 <= j < i && numbers@.take(i as int)[j] == n;
                        assert(numbers@[j] == numbers@[i as int]);
                    }
                }
                assert(numbers@.take(i + 1) =~= numbers@.take(i as int).push(n));
                assert(before.contains_key(n));
                assert(self.in_progress@.contains_key(n));
                assert(self.in_progress@[n] == before[n]);
            }
            let stale = match self.in_progress.get(&n) {
                Some(f) => {
                    let age = if now_us >= f.start_us {
                        now_us - f.start_us
                    } else {
                        0
                    };
                    age > max_age_us
                },
                None => false,
            };
            assert(stale == is_stale(before[n], now_us, max_age_us));
            if stale {
                self.in_progress.remove(&n);
                dropped.push(n);
            }
            proof {
                assert forall|m: u64|
                    #[trigger] self.in_progress@.contains_key(m) <==> before.contains_key(m) && !(
                    numbers@.take(i + 1).contains(m) && is_stale(before[m], now_us, max_age_us)) by {
                    if m != n {
                        assert(numbers@.take(i + 1).contains(m) <==> numbers@.take(i as int).contains(m));
                        assert(self.in_progress@.contains_key(m) <==> old_map.contains_key(m));
                    } else {
                        assert(numbers@.take(i + 1)[i as int] == n);
                    }
                }
                assert forall|m: u64| #[trigger]
                    dropped@.contains(m) <==> numbers@.take(i + 1).contains(m) && is_stale(
                        before[m],
                        now_us,
                        max_age_us,
                    ) by {
                    if m == n {
                        assert(numbers@.take(i + 1)[i as int] == n);
                        assert(!old_dropped.contains(n));
                    } else {
                        assert(numbers@.take(i + 1).contains(m) <==> numbers@.take(i as int).contains(m));
                    }
                    if stale && m == n {
                        assert(dropped@[dropped@.len() - 1] == n);
                    }
                    if dropped@.contains(m) && m != n {
                        let j = choose|j: int| 0 <= j < dropped@.len() && dropped@[j] == m;
                        if stale {
                            assert(old_dropped[j] == m);
                        }
                        assert(old_dropped.contains(m));
                    }
                    if m != n && old_dropped.contains(m) {
                        let j = choose|j: int| 0 <= j < old_dropped.len() && old_dropped[j] == m;
                        assert(dropped@[j] == m);
                    }
                }
            }
            i = i + 1;
        }
        proof {
            assert(numbers@.take(i as int) =~= numbers@);
            assert(self@ =~= old(self)@.restrict(
                old(self)@.dom().filter(
                    |n: u64| elapsed_us(now_us, old(self)@[n].start_us) <= max_age_us,
                ),
            ));
        }
        dropped
    }
}

proof fn lemma_count_zero(chunks: Seq<Option<Seq<u8>>>)
    requires
        forall|i: int| 0 <= i < chunks.len() ==> (#[trigger] chunks[i]) is None,
    ensures
        count_received(chunks) == 0,
    decreases chunks.len(),
{
    if chunks.len() > 0 {
        let d = chunks.drop_last();
        assert forall|i: int| 0 <= i < d.len() implies (#[trigger] d[i]) is None by {
            assert(d[i] == chunks[i]);
        }
        lemma_count_zero(d);
    }
}

/// What the viewer does with a new frame at time `now_us`.
#[derive(Debug, Clone, Copy, PartialEq, Eq, Structural)]
pub enum FramePacing {
    /// Too early: keep the frame waiting.
    Wait,
    /// Show the frame; the next one is due at `next_render_after_us`.
    /// `lagged` says that the viewer fell behind and the schedule restarted
    /// from now.
    Render { next_render_after_us: u64, lagged: bool },
}

/// Paces the display of frames that arrive every `frame_interval_us`: a frame
/// is shown only once `now_us` is past `render_after_us`; the next frame is
/// then due one interval later, or one interval after now if that moment has
/// already passed.
pub fn pace_frame(now_us: u64, render_after_us: u64, frame_interval_us: u64) -> (p: FramePacing)
    requires
        render_after_us + frame_interval_us <= u64::MAX,
        now_us + frame_interval_us <= u64::MAX,
    ensures
        now_us <= render_after_us ==> p == FramePacing::Wait,
        now_us > render_after_us && now_us <= render_after_us + frame_interval_us ==> p
            == (FramePacing::Render {
            next_render_after_us: (render_after_us + frame_interval_us) as u64,
            lagged: false,
        }),
        now_us > render_after_us + frame_interval_us ==> p == (FramePacing::Render {
            next_render_after_us: (now_us + frame_interval_us) as u64,
            lagged: true,
        }),
{
    if now_us > render_after_us {
        let next = render_after_us + frame_interval_us;
        if now_us > next {
            FramePacing::Render { next_render_after_us: now_us + frame_interval_us, lagged: true }
        } else {
            FramePacing::Render { next_render_after_us: next, lagged: false }
        }
    } else {
        FramePacing::Wait
    }
}

/// How long to wait before the next repaint: the time until `render_after_us`,
/// or zero if it has passed.
pub fn repaint_delay_us(render_after_us: u64, now_us: u64) -> (d: u64)
    ensures
        d == elapsed_us(render_after_us, now_us),
{
    if render_after_us >= now_us {
        render_after_us - now_us
    } else {
        0
    }
}

/// A frame just announced with `total_chunks` chunks, none of them arrived.
pub open spec fn announced<T>(total_chunks: u32, start_us: u64, meta: T) -> FrameProgress<T> {
    FrameProgress {
        total_chunks,
        chunks: Seq::new(total_chunks as nat, |i: int| None),
        start_us,
        meta,
    }
}

/// The frame `f` after the chunks with the indices of `order` arrived, in that
/// order, each with its piece of `pieces`.
pub open spec fn deliver<T>(f: FrameProgress<T>, order: Seq<int>, pieces: Seq<Seq<u8>>) -> FrameProgress<T>
    decreases order.len(),
{
    if order.len() == 0 {
        f
    } else {
        with_chunk(deliver(f, order.drop_last(), pieces), order.last(), pieces[order.last()])
    }
}

proof fn lemma_deliver<T>(f: FrameProgress<T>, order: Seq<int>, pieces: Seq<Seq<u8>>)
    requires
        f.chunks.len() == pieces.len(),
        forall|i: int| 0 <= i < f.chunks.len() ==> (#[trigger] f.chunks[i]) is None,
        forall|k: int| 0 <= k < order.len() ==> 0 <= #[trigger] order[k] < pieces.len(),
    ensures
        deliver(f, order, pieces).chunks.len() == pieces.len(),
        deliver(f, order, pieces).total_chunks == f.total_chunks,
        deliver(f, order, pieces).start_us == f.start_us,
        deliver(f, order, pieces).meta == f.meta,
        forall|i: int|
            0 <= i < pieces.len() ==> #[trigger] deliver(f, order, pieces).chunks[i] == if order.contains(i) {
                Some(pieces[i])
            } else {
                None
            },
    decreases order.len(),
{
    if order.len() > 0 {
        let d = order.drop_last();
        lemma_deliver(f, d, pieces);
        let k = order.last();
        assert forall|i: int| 0 <= i < pieces.len() implies #[trigger] deliver(f, order, pieces).chunks[i]
            == if order.contains(i) {
            Some(pieces[i])
        } else {
            None
        } by {
            if i == k {
                assert(order[order.len() - 1] == k);
            } else {
                if order.contains(i) {
                    let w = choose|w: int| 0 <= w < order.len() && order[w] == i;
                    assert(d[w] == i);
                }
                if d.contains(i) {
                    let w = choose|w: int| 0 <= w < d.len() && d[w] == i;
                    assert(order[w] == i);
                }
            }
        }
    }
}

/// A frame split by the sender comes out of the assembler unchanged, whatever
/// the order in which its chunks arrive and however often each arrives: it is
/// complete exactly when every chunk has arrived at least once, and its bytes
/// are then the frame's bytes.
pub proof fn law_reassembly_in_any_order<T>(b: Seq<u8>, order: Seq<int>, start_us: u64, meta: T)
    requires
        b.len() + CHUNK_SIZE - 1 <= u32::MAX,
        forall|k: int|
            0 <= k < order.len() ==> 0 <= #[trigger] order[k] < chunk_count(
                b.len(),
                CHUNK_SIZE as nat,
            ),
    ensures
        ({
            let f = deliver(
                announced(chunk_count(b.len(), CHUNK_SIZE as nat) as u32, start_us, meta),
                order,
                split_spec(b, CHUNK_SIZE as nat),
            );
            &&& is_complete(f.chunks) <==> forall|i: int|
                0 <= i < chunk_count(b.len(), CHUNK_SIZE as nat) ==> #[trigger] order.contains(i)
            &&& is_complete(f.chunks) ==> concat_chunks(f.chunks) == b
        }),
{
    let n = chunk_count(b.len(), CHUNK_SIZE as nat);
    let pieces = split_spec(b, CHUNK_SIZE as nat);
    law_split_then_concat(b, CHUNK_SIZE as nat);
    assert(n <= u32::MAX) by (nonlinear_arith)
        requires
            n == (b.len() + 1024 - 1) / 1024,
            b.len() + 1023 <= u32::MAX,
    ;
    let f0 = announced(n as u32, start_us, meta);
    lemma_deliver(f0, order, pieces);
    let f = deliver(f0, order, pieces);
    if is_complete(f.chunks) {
        assert forall|i: int| 0 <= i < n implies #[trigger] order.contains(i) by {
            assert(f.chunks[i] is Some);
        }
        assert(f.chunks =~= all_received(pieces));
    }
    if forall|i: int| 0 <= i < n ==> #[trigger] order.contains(i) {
        assert forall|i: int| 0 <= i < f.chunks.len() implies (#[trigger] f.chunks[i]) is Some by {
            assert(order.contains(i));
        }
    }
}

} // verus!
