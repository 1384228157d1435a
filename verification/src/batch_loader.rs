//! The batch chunker.
//!
//! [`BatchSourceLoader`] wraps the enumerator's frame sequence and groups it
//! into fixed-size batches, padding the final group with placeholder slots so
//! that every batch has exactly the requested length. Padding exists only
//! inside the chunker: a yielded batch holds the decoded images and metadata
//! of its live slots alone, so the image and metadata vectors of the last
//! batch may be shorter than the batch size. Decoding stays deferred to
//! iteration time, one batch at a time.

use vstd::prelude::*;

use crate::collab::ImageDecoder;
use crate::error::AppError;
use crate::loader::{build_frames, clone_frame, spec_source_frames, FrameData};
use crate::source::{DirListing, Source, SourceMeta};

verus! {

/// The batch size an invocation actually runs with: the requested one when it
/// is at least one, and one otherwise.
pub open spec fn spec_batch_size(requested: Option<usize>) -> int {
    match requested {
        Option::Some(s) => if s >= 1 {
            s as int
        } else {
            1
        },
        Option::None => 1,
    }
}

/// How many padding slots bring a frame count up to a multiple of the batch
/// size.
pub open spec fn num_pads(n: int, bs: int) -> int {
    if n % bs == 0 {
        0
    } else {
        bs - n % bs
    }
}

/// The frame sequence with padding appended.
pub open spec fn padded(frames: Seq<FrameData>, bs: int) -> Seq<FrameData> {
    frames + Seq::new(num_pads(frames.len() as int, bs) as nat, |i: int| FrameData::Pad)
}

/// The slot sequence split into groups of `bs`, front to back; a final group
/// shorter than `bs` is kept whole (the chunker never builds one, since it
/// pads first).
pub open spec fn chunks_of(slots: Seq<FrameData>, bs: int) -> Seq<Seq<FrameData>>
    decreases slots.len(),
{
    if bs < 1 || slots.len() == 0 {
        Seq::<Seq<FrameData>>::empty()
    } else if slots.len() <= bs {
        seq![slots]
    } else {
        seq![slots.take(bs)] + chunks_of(slots.skip(bs), bs)
    }
}

/// What the chunker builds from a frame sequence: the padded sequence, in
/// groups of `bs`.
pub open spec fn batch_plan(frames: Seq<FrameData>, bs: int) -> Seq<Seq<FrameData>> {
    chunks_of(padded(frames, bs), bs)
}

/// How many slots of one batch are live (not padding).
pub open spec fn live_count(batch: Seq<FrameData>) -> int
    decreases batch.len(),
{
    if batch.len() == 0 {
        0
    } else {
        live_count(batch.drop_last()) + if batch.last().is_live() {
            1int
        } else {
            0int
        }
    }
}

/// How many live slots a sequence of batches holds in all.
pub open spec fn total_live(batches: Seq<Seq<FrameData>>) -> int
    decreases batches.len(),
{
    if batches.len() == 0 {
        0
    } else {
        total_live(batches.drop_last()) + live_count(batches.last())
    }
}

/// The contents of a vector of batches.
pub open spec fn views_of(batches: Seq<Vec<FrameData>>) -> Seq<Seq<FrameData>> {
    batches.map_values(|b: Vec<FrameData>| b@)
}

pub proof fn lemma_live_count_bounds(s: Seq<FrameData>)
    ensures
        0 <= live_count(s) <= s.len(),
    decreases s.len(),
{
    if s.len() > 0 {
        lemma_live_count_bounds(s.drop_last());
    }
}

/// A sequence without padding is all live.
pub proof fn lemma_live_count_all_live(s: Seq<FrameData>)
    requires
        forall|k: int| 0 <= k < s.len() ==> (#[trigger] s[k]).is_live(),
    ensures
        live_count(s) == s.len(),
    decreases s.len(),
{
    if s.len() > 0 {
        lemma_live_count_all_live(s.drop_last());
    }
}

pub proof fn lemma_live_count_concat(a: Seq<FrameData>, b: Seq<FrameData>)
    ensures
        live_count(a + b) == live_count(a) + live_count(b),
    decreases b.len(),
{
    if b.len() == 0 {
        assert(a + b =~= a);
    } else {
        assert((a + b).drop_last() =~= a + b.drop_last());
        assert((a + b).last() == b.last());
        lemma_live_count_concat(a, b.drop_last());
    }
}

/// Padding slots contribute nothing.
pub proof fn lemma_live_count_pads(n: nat)
    ensures
        live_count(Seq::new(n, |i: int| FrameData::Pad)) == 0,
    decreases n,
{
    if n > 0 {
        assert(Seq::new(n, |i: int| FrameData::Pad).drop_last() =~= Seq::new(
            (n - 1) as nat,
            |i: int| FrameData::Pad,
        ));
        lemma_live_count_pads((n - 1) as nat);
    }
}

pub proof fn lemma_total_live_singleton(c: Seq<FrameData>)
    ensures
        total_live(seq![c]) == live_count(c),
{
    let s = seq![c];
    assert(s.last() == c);
    assert(s.drop_last() =~= Seq::<Seq<FrameData>>::empty());
    assert(total_live(s.drop_last()) == 0);
    assert(total_live(s) == total_live(s.drop_last()) + live_count(s.last()));
}

pub proof fn lemma_total_live_prepend(c: Seq<FrameData>, rest: Seq<Seq<FrameData>>)
    ensures
        total_live(seq![c] + rest) == live_count(c) + total_live(rest),
    decreases rest.len(),
{
    if rest.len() == 0 {
        assert(seq![c] + rest =~= seq![c]);
        lemma_total_live_singleton(c);
    } else {
        assert((seq![c] + rest).drop_last() =~= seq![c] + rest.drop_last());
        assert((seq![c] + rest).last() == rest.last());
        lemma_total_live_prepend(c, rest.drop_last());
    }
}

/// Chunking rearranges the slots but loses none: the groups hold exactly the
/// live slots of the sequence.
pub proof fn lemma_total_live_chunks(slots: Seq<FrameData>, bs: int)
    requires
        bs >= 1,
    ensures
        total_live(chunks_of(slots, bs)) == live_count(slots),
    decreases slots.len(),
{
    if slots.len() == 0 {
    } else if slots.len() <= bs {
        assert(chunks_of(slots, bs) =~= seq![slots]);
        lemma_total_live_singleton(slots);
    } else {
        lemma_total_live_chunks(slots.skip(bs), bs);
        lemma_total_live_prepend(slots.take(bs), chunks_of(slots.skip(bs), bs));
        assert(slots =~= slots.take(bs) + slots.skip(bs));
        lemma_live_count_concat(slots.take(bs), slots.skip(bs));
    }
}

/// On a slot count that is a multiple of `bs`, every chunk has length `bs`
/// exactly, and the chunk count times `bs` gives the slot count back.
pub proof fn lemma_chunks_shape(slots: Seq<FrameData>, bs: int)
    requires
        bs >= 1,
        slots.len() as int % bs == 0,
    ensures
        forall|b: int|
            0 <= b < chunks_of(slots, bs).len() ==> (#[trigger] chunks_of(slots, bs)[b]).len()
                == bs,
        chunks_of(slots, bs).len() * bs == slots.len(),
    decreases slots.len(),
{
    if slots.len() == 0 {
        assert(chunks_of(slots, bs).len() * bs == slots.len());
    } else if slots.len() <= bs {
        assert(slots.len() == bs) by (nonlinear_arith)
            requires
                bs >= 1,
                slots.len() as int % bs == 0,
                0 < slots.len() <= bs,
        ;
        assert(chunks_of(slots, bs) =~= seq![slots]);
        assert(chunks_of(slots, bs).len() == 1);
        assert(chunks_of(slots, bs).len() * bs == slots.len());
    } else {
        assert(slots.skip(bs).len() as int % bs == 0) by (nonlinear_arith)
            requires
                bs >= 1,
                slots.len() as int % bs == 0,
                slots.len() > bs,
                slots.skip(bs).len() == slots.len() - bs,
        ;
        lemma_chunks_shape(slots.skip(bs), bs);
        let whole = chunks_of(slots, bs);
        let rest = chunks_of(slots.skip(bs), bs);
        assert forall|b: int| 0 <= b < whole.len() implies (#[trigger] whole[b]).len() == bs by {
            if b == 0 {
                assert(whole[0] == slots.take(bs));
            } else {
                assert(whole[b] == rest[b - 1]);
            }
        }
        assert(whole.len() == 1 + rest.len());
        assert(rest.len() * bs == slots.skip(bs).len());
        assert((1 + rest.len()) * bs == bs + rest.len() * bs) by (nonlinear_arith);
        assert(whole.len() * bs == (1 + rest.len()) * bs);
        assert(chunks_of(slots, bs).len() * bs == slots.len());
    }
}

/// What the batch plan of a padding-free frame sequence guarantees: full
/// batches, exact conservation of the frames, and a slot total that matches.
pub proof fn lemma_batch_plan_conserves(frames: Seq<FrameData>, bs: int)
    requires
        bs >= 1,
        forall|k: int| 0 <= k < frames.len() ==> (#[trigger] frames[k]).is_live(),
    ensures
        total_live(batch_plan(frames, bs)) == frames.len(),
        forall|b: int|
            0 <= b < batch_plan(frames, bs).len() ==> (#[trigger] batch_plan(frames, bs)[b]).len()
                == bs,
        batch_plan(frames, bs).len() * bs == frames.len() + num_pads(frames.len() as int, bs),
{
    let p = padded(frames, bs);
    let pads = Seq::new(num_pads(frames.len() as int, bs) as nat, |i: int| FrameData::Pad);
    assert(0 <= num_pads(frames.len() as int, bs) < bs) by (nonlinear_arith)
        requires
            bs >= 1,
            frames.len() >= 0,
    ;
    lemma_live_count_all_live(frames);
    lemma_live_count_pads(pads.len());
    lemma_live_count_concat(frames, pads);
    lemma_total_live_chunks(p, bs);
    assert(p.len() as int % bs == 0) by (nonlinear_arith)
        requires
            bs >= 1,
            p.len() == frames.len() + num_pads(frames.len() as int, bs),
            num_pads(frames.len() as int, bs) == if frames.len() as int % bs == 0 {
                0int
            } else {
                bs - frames.len() as int % bs
            },
    ;
    lemma_chunks_shape(p, bs);
}

/// Clamp a requested batch size to at least one.
fn sanitize_batch_size(requested: Option<usize>) -> (r: usize)
    ensures
        r as int == spec_batch_size(requested),
        r >= 1,
{
    match requested {
        Option::Some(s) => if s >= 1 {
            s
        } else {
            1
        },
        Option::None => 1,
    }
}

/// Pad `frames` with placeholder slots to a multiple of `batch_size`, then
/// split into groups of exactly `batch_size`. Returns the groups and how many
/// placeholders were added.
pub fn pad_and_chunk(frames: Vec<FrameData>, batch_size: usize) -> (r: (
    Vec<Vec<FrameData>>,
    usize,
))
    requires
        batch_size >= 1,
    ensures
        views_of(r.0@) == batch_plan(frames@, batch_size as int),
        r.1 == num_pads(frames@.len() as int, batch_size as int),
        r.0@.len() * batch_size == frames@.len() + r.1,
        r.0@.len() * batch_size <= usize::MAX,
{
    let ghost orig = frames@;
    let bs = batch_size;
    let mut fv = frames;
    let mut pads: usize = 0;
    proof {
        assert(0 <= num_pads(orig.len() as int, bs as int) < bs) by (nonlinear_arith)
            requires
                bs >= 1,
        ;
    }
    while fv.len() % bs != 0
        invariant
            bs >= 1,
            pads <= num_pads(orig.len() as int, bs as int),
            fv@ =~= orig + Seq::new(pads as nat, |i: int| FrameData::Pad),
            fv@.len() == orig.len() + pads,
            num_pads(orig.len() as int, bs as int) < bs,
        decreases num_pads(orig.len() as int, bs as int) - pads,
    {
        proof {
            assert(Seq::new((pads + 1) as nat, |i: int| FrameData::Pad).drop_last() =~= Seq::new(
                pads as nat,
                |i: int| FrameData::Pad,
            ));
            assert(fv@.push(FrameData::Pad) =~= orig + Seq::new(
                (pads + 1) as nat,
                |i: int| FrameData::Pad,
            ));
            assert(pads < num_pads(orig.len() as int, bs as int)) by (nonlinear_arith)
                requires
                    bs >= 1,
                    fv@.len() as int % (bs as int) != 0,
                    fv@.len() == orig.len() + pads,
                    pads <= num_pads(orig.len() as int, bs as int),
                    num_pads(orig.len() as int, bs as int) == if orig.len() as int % (bs as int)
                        == 0 {
                        0int
                    } else {
                        bs - orig.len() as int % (bs as int)
                    },
            ;
        }
        fv.push(FrameData::Pad);
        pads += 1;
    }
    proof {
        assert(pads == num_pads(orig.len() as int, bs as int)) by (nonlinear_arith)
            requires
                bs >= 1,
                fv@.len() as int % (bs as int) == 0,
                fv@.len() == orig.len() + pads,
                pads <= num_pads(orig.len() as int, bs as int),
                num_pads(orig.len() as int, bs as int) == if orig.len() as int % (bs as int) == 0 {
                    0int
                } else {
                    bs - orig.len() as int % (bs as int)
                },
        ;
        assert(fv@ =~= padded(orig, bs as int));
    }
    let padded_len = fv.len();
    let mut batches: Vec<Vec<FrameData>> = Vec::new();
    let mut start: usize = 0;
    proof {
        assert(views_of(batches@) =~= Seq::<Seq<FrameData>>::empty());
        assert(fv@.skip(0) =~= fv@);
        assert(views_of(batches@) + chunks_of(fv@, bs as int) =~= chunks_of(fv@, bs as int));
    }
    while start < padded_len
        invariant
            bs >= 1,
            padded_len == fv@.len(),
            fv@.len() as int % (bs as int) == 0,
            start <= padded_len,
            (padded_len - start) % (bs as int) == 0,
            views_of(batches@) + chunks_of(fv@.skip(start as int), bs as int) =~= chunks_of(
                fv@,
                bs as int,
            ),
            batches@.len() * bs == start,
        decreases padded_len - start,
    {
        proof {
            assert(padded_len - start >= bs) by (nonlinear_arith)
                requires
                    bs >= 1,
                    start < padded_len,
                    (padded_len - start) % (bs as int) == 0,
            ;
        }
        let mut chunk: Vec<FrameData> = Vec::new();
        let mut k: usize = 0;
        while k < bs
            invariant
                bs >= 1,
                k <= bs,
                start + bs <= fv@.len(),
                padded_len == fv@.len(),
                chunk@ =~= fv@.subrange(start as int, start + k),
            decreases bs - k,
        {
            chunk.push(clone_frame(&fv[start + k]));
            k += 1;
        }
        proof {
            let rest = fv@.skip(start as int);
            assert(rest.len() == padded_len - start);
            if padded_len - start == bs {
                assert(chunks_of(rest, bs as int) =~= seq![rest]);
                assert(rest =~= fv@.subrange(start as int, start + bs));
                assert(fv@.skip(start + bs).len() == 0);
                assert(chunks_of(fv@.skip(start + bs), bs as int)
                    =~= Seq::<Seq<FrameData>>::empty());
            } else {
                assert(rest.take(bs as int) =~= fv@.subrange(start as int, start + bs));
                assert(rest.skip(bs as int) =~= fv@.skip(start + bs));
            }
            assert(chunks_of(fv@.skip(start as int), bs as int) =~= seq![
                fv@.subrange(start as int, start + bs),
            ] + chunks_of(fv@.skip(start + bs), bs as int));
            assert(views_of(batches@.push(chunk)) =~= views_of(batches@) + seq![chunk@]);
            assert((views_of(batches@) + seq![chunk@]) + chunks_of(fv@.skip(start + bs), bs as int)
                =~= views_of(batches@) + (seq![chunk@] + chunks_of(
                fv@.skip(start + bs),
                bs as int,
            )));
            assert(views_of(batches@.push(chunk)) + chunks_of(fv@.skip(start + bs), bs as int)
                =~= chunks_of(fv@, bs as int));
            assert((padded_len - (start + bs)) % (bs as int) == 0) by (nonlinear_arith)
                requires
                    bs >= 1,
                    (padded_len - start) % (bs as int) == 0,
            ;
            assert((batches@.len() + 1) * bs == batches@.len() * bs + bs) by (nonlinear_arith);
        }
        batches.push(chunk);
        start += bs;
    }
    proof {
        assert(fv@.skip(padded_len as int).len() == 0);
        assert(chunks_of(fv@.skip(padded_len as int), bs as int)
            =~= Seq::<Seq<FrameData>>::empty());
        assert(views_of(batches@) + chunks_of(fv@.skip(padded_len as int), bs as int) =~= views_of(
            batches@,
        ));
        assert(views_of(batches@) =~= batch_plan(orig, bs as int));
    }
    (batches, pads)
}

/// A batching enumerator over the frames of one source: the enumerator's
/// sequence, pre-grouped into fixed-size batches and decoded one batch at a
/// time.
pub struct BatchSourceLoader {
    current_idx: usize,
    batches: Vec<Vec<FrameData>>,
    len: usize,
    batch_size: usize,
    total_frames: usize,
    /// How many frames were yielded so far.
    produced: Ghost<nat>,
    /// How many frames were passed over because their decode failed.
    skipped: Ghost<nat>,
}

impl BatchSourceLoader {
    /// The planned batches, padding included.
    pub closed spec fn batches_seq(&self) -> Seq<Seq<FrameData>> {
        views_of(self.batches@)
    }

    /// How many batches the plan holds.
    pub open spec fn num_batches(&self) -> int {
        self.batches_seq().len() as int
    }

    /// How many batches have been consumed.
    pub closed spec fn consumed_batches(&self) -> int {
        self.current_idx as int
    }

    /// The batch size every planned batch has.
    pub closed spec fn batch_size_spec(&self) -> int {
        self.batch_size as int
    }

    /// The exact number of frames the plan holds (padding not counted).
    pub closed spec fn total_spec(&self) -> int {
        self.total_frames as int
    }

    /// How many frames were yielded so far.
    pub closed spec fn produced_frames(&self) -> int {
        self.produced@ as int
    }

    /// How many frames were passed over because their decode failed.
    pub closed spec fn skipped_frames(&self) -> int {
        self.skipped@ as int
    }

    /// The chunker's invariant: every planned batch is exactly one batch size
    /// long, the batch total and the frame total agree, and the frames
    /// yielded or skipped so far account exactly for the live slots of the
    /// batches consumed so far.
    pub closed spec fn wf(&self) -> bool {
        &&& self.batch_size >= 1
        &&& self.len == self.batches@.len()
        &&& self.current_idx <= self.len
        &&& forall|b: int|
            0 <= b < self.batches@.len() ==> (#[trigger] self.batches@[b])@.len()
                == self.batch_size
        &&& self.len * self.batch_size <= usize::MAX
        &&& total_live(self.batches_seq()) == self.total_frames
        &&& self.produced@ + self.skipped@ == total_live(
            self.batches_seq().take(self.current_idx as int),
        )
    }

    /// Chunk `source` into batches of `batch_size` (clamped to at least one).
    /// The only error is a directory source whose directory does not exist.
    pub fn new(source: &Source, batch_size: Option<usize>, listing: &DirListing) -> (r: Result<
        BatchSourceLoader,
        AppError,
    >)
        ensures
            match r {
                Result::Ok(loader) => {
                    &&& loader.wf()
                    &&& loader.consumed_batches() == 0
                    &&& loader.produced_frames() == 0
                    &&& loader.skipped_frames() == 0
                    &&& loader.batch_size_spec() == spec_batch_size(batch_size)
                    &&& spec_source_frames(*source, *listing) matches Option::Some(frames)
                        && loader.batches_seq() == batch_plan(frames, loader.batch_size_spec())
                        && loader.total_spec() == frames.len()
                },
                Result::Err(e) => {
                    &&& source is Directory
                    &&& listing is NotFound
                    &&& e is ImageCollection
                },
            },
    {
        let bs = sanitize_batch_size(batch_size);
        let frames = match build_frames(source, listing) {
            Result::Ok(frames) => frames,
            Result::Err(e) => {
                return Result::Err(e);
            },
        };
        let total_frames = frames.len();
        proof {
            crate::loader::lemma_source_frames_live(*source, *listing);
            lemma_batch_plan_conserves(frames@, bs as int);
        }
        let (batches, _pads) = pad_and_chunk(frames, bs);
        let len = batches.len();
        proof {
            assert(views_of(batches@).take(0) =~= Seq::<Seq<FrameData>>::empty());
            assert(total_live(Seq::<Seq<FrameData>>::empty()) == 0);
            assert forall|b: int| 0 <= b < batches@.len() implies (#[trigger] batches@[b])@.len()
                == bs by {
                assert(views_of(batches@)[b] == batches@[b]@);
            }
        }
        Result::Ok(
            BatchSourceLoader {
                current_idx: 0,
                batches,
                len,
                batch_size: bs,
                total_frames,
                produced: Ghost(0),
                skipped: Ghost(0),
            },
        )
    }

    /// How many batches iteration will yield.
    pub fn len(&self) -> (r: usize)
        requires
            self.wf(),
        ensures
            r == self.num_batches(),
    {
        self.len
    }

    /// The exact number of frames across all batches, padding not counted:
    /// what iteration yields in all when every decode succeeds, and an upper
    /// bound on it otherwise.
    pub fn total_frames(&self) -> (r: usize)
        requires
            self.wf(),
        ensures
            r == self.total_spec(),
    {
        self.total_frames
    }

    /// The next batch: the decoded images and metadata of its live slots, in
    /// slot order. A padding slot is silently omitted; a path slot whose
    /// decode fails is skipped; an in-memory slot always yields. The metadata
    /// of slot `i` of batch `b` carries global frame index `b * batch_size +
    /// i`. `None` means every batch has been consumed.
    pub fn next<D: ImageDecoder>(&mut self, decoder: &D) -> (r: Option<
        (Vec<image::DynamicImage>, Vec<SourceMeta>),
    >)
        requires
            old(self).wf(),
        ensures
            final(self).wf(),
            final(self).batches_seq() == old(self).batches_seq(),
            final(self).batch_size_spec() == old(self).batch_size_spec(),
            final(self).total_spec() == old(self).total_spec(),
            match r {
                Option::Some((images, metas)) => {
                    let b = old(self).consumed_batches();
                    let batch = old(self).batches_seq()[b];
                    let base = b * old(self).batch_size_spec();
                    &&& b < old(self).num_batches()
                    &&& final(self).consumed_batches() == b + 1
                    &&& images@.len() == metas@.len()
                    &&& final(self).produced_frames() == old(self).produced_frames()
                        + metas@.len()
                    &&& final(self).skipped_frames() >= old(self).skipped_frames()
                    &&& final(self).produced_frames() + final(self).skipped_frames() == old(
                        self,
                    ).produced_frames() + old(self).skipped_frames() + live_count(batch)
                    &&& forall|j: int|
                        0 <= j < metas@.len() ==> base <= (#[trigger] metas@[j]).frame_idx < base
                            + batch.len()
                    &&& forall|j1: int, j2: int|
                        0 <= j1 < j2 < metas@.len() ==> (#[trigger] metas@[j1]).frame_idx < (
                        #[trigger] metas@[j2]).frame_idx
                    &&& forall|j: int|
                        0 <= j < metas@.len() ==> match batch[(#[trigger] metas@[j]).frame_idx
                            - base] {
                            FrameData::Path(p) => metas@[j].source_path == Option::Some(p),
                            FrameData::Image(img) => metas@[j].source_path is None && images@[j]
                                == img,
                            FrameData::Pad => false,
                        }
                    &&& forall|j: int|
                        0 <= j < metas@.len() ==> (#[trigger] metas@[j]).total_frames == old(
                            self,
                        ).total_spec()
                    &&& (forall|i: int| 0 <= i < batch.len() ==> !((#[trigger] batch[i]) is Path))
                        ==> final(self).skipped_frames() == old(self).skipped_frames()
                },
                Option::None => {
                    &&& *final(self) == *old(self)
                    &&& old(self).consumed_batches() == old(self).num_batches()
                },
            },
    {
        if self.current_idx >= self.len {
            return Option::None;
        }
        let cur = self.current_idx;
        let bs = self.batch_size;
        proof {
            vstd::arithmetic::mul::lemma_mul_inequality(
                cur as int + 1,
                self.len as int,
                bs as int,
            );
            vstd::arithmetic::mul::lemma_mul_is_distributive_add_other_way(
                bs as int,
                cur as int,
                1,
            );
        }
        let base = cur * bs;
        let mut images: Vec<image::DynamicImage> = Vec::new();
        let mut metas: Vec<SourceMeta> = Vec::new();
        let ghost batch = self.batches_seq()[cur as int];
        let ghost produced0 = self.produced@;
        let ghost skipped0 = self.skipped@;
        let ghost mut skipped_here: nat = 0;
        let mut i: usize = 0;
        proof {
            assert(batch.take(0) =~= Seq::<FrameData>::empty());
        }
        while i < bs
            invariant
                *self == *old(self),
                self.wf(),
                cur == self.current_idx,
                bs == self.batch_size,
                base == cur * bs,
                cur < self.len,
                i <= bs,
                batch == self.batches_seq()[cur as int],
                batch.len() == bs,
                base + bs <= usize::MAX,
                images@.len() == metas@.len(),
                metas@.len() + skipped_here == live_count(batch.take(i as int)),
                forall|j: int|
                    0 <= j < metas@.len() ==> base <= (#[trigger] metas@[j]).frame_idx < base + i,
                forall|j1: int, j2: int|
                    0 <= j1 < j2 < metas@.len() ==> (#[trigger] metas@[j1]).frame_idx < (
                    #[trigger] metas@[j2]).frame_idx,
                forall|j: int|
                    0 <= j < metas@.len() ==> match batch[(#[trigger] metas@[j]).frame_idx
                        - base] {
                        FrameData::Path(p) => metas@[j].source_path == Option::Some(p),
                        FrameData::Image(img) => metas@[j].source_path is None && images@[j]
                            == img,
                        FrameData::Pad => false,
                    },
                forall|j: int|
                    0 <= j < metas@.len() ==> (#[trigger] metas@[j]).total_frames
                        == self.total_frames,
                (forall|k: int| 0 <= k < i ==> !((#[trigger] batch[k]) is Path)) ==> skipped_here
                    == 0,
            decreases bs - i,
        {
            proof {
                assert(batch.take(i + 1).drop_last() =~= batch.take(i as int));
                assert(batch.take(i + 1).last() == batch[i as int]);
            }
            match &self.batches[cur][i] {
                FrameData::Path(p) => {
                    match decoder.decode(p) {
                        Option::Some(image) => {
                            let meta = SourceMeta {
                                frame_idx: base + i,
                                total_frames: self.total_frames,
                                source_path: Option::Some(p.clone()),
                            };
                            images.push(image);
                            metas.push(meta);
                        },
                        Option::None => {
                            proof {
                                skipped_here = skipped_here + 1;
                            }
                        },
                    }
                },
                FrameData::Image(img) => {
                    let image = img.clone();
                    let meta = SourceMeta {
                        frame_idx: base + i,
                        total_frames: self.total_frames,
                        source_path: Option::None,
                    };
                    images.push(image);
                    metas.push(meta);
                },
                FrameData::Pad => {},
            }
            i += 1;
        }
        proof {
            assert(batch.take(bs as int) =~= batch);
        }
        self.current_idx = cur + 1;
        self.produced = Ghost(produced0 + metas@.len());
        self.skipped = Ghost(skipped0 + skipped_here);
        proof {
            assert(self.batches_seq().take(cur + 1).drop_last() =~= self.batches_seq().take(
                cur as int,
            ));
            assert(self.batches_seq().take(cur + 1).last() == batch);
        }
        Option::Some((images, metas))
    }
}

pub proof fn lemma_total_live_nonneg(batches: Seq<Seq<FrameData>>)
    ensures
        total_live(batches) >= 0,
    decreases batches.len(),
{
    if batches.len() > 0 {
        lemma_total_live_nonneg(batches.drop_last());
        lemma_live_count_bounds(batches.last());
    }
}

pub proof fn lemma_total_live_take_bound(batches: Seq<Seq<FrameData>>, k: int)
    requires
        0 <= k <= batches.len(),
    ensures
        0 <= total_live(batches.take(k)) <= total_live(batches),
    decreases batches.len() - k,
{
    if k == batches.len() {
        assert(batches.take(k) =~= batches);
        lemma_total_live_nonneg(batches);
    } else {
        lemma_total_live_take_bound(batches, k + 1);
        assert(batches.take(k + 1).drop_last() =~= batches.take(k));
        assert(batches.take(k + 1).last() == batches[k]);
        lemma_live_count_bounds(batches[k]);
        lemma_total_live_nonneg(batches.take(k));
    }
}

/// Each chunk's slot `i` is the slot `b * bs + i` of the sequence.
pub proof fn lemma_chunks_index(slots: Seq<FrameData>, bs: int, b: int, i: int)
    requires
        bs >= 1,
        slots.len() as int % bs == 0,
        0 <= b < chunks_of(slots, bs).len(),
        0 <= i < bs,
    ensures
        b * bs + i < slots.len(),
        chunks_of(slots, bs)[b] == slots.subrange(b * bs, (b + 1) * bs),
    decreases slots.len(),
{
    lemma_chunks_shape(slots, bs);
    vstd::arithmetic::mul::lemma_mul_inequality(b + 1, chunks_of(slots, bs).len() as int, bs);
    assert((b + 1) * bs == b * bs + bs) by (nonlinear_arith);
    if slots.len() <= bs {
        assert(chunks_of(slots, bs)[0] == slots);
        assert(slots.subrange(0, bs) =~= slots);
    } else {
        assert(slots.skip(bs).len() as int % bs == 0) by (nonlinear_arith)
            requires
                bs >= 1,
                slots.len() as int % bs == 0,
                slots.len() > bs,
                slots.skip(bs).len() == slots.len() - bs,
        ;
        if b == 0 {
            assert(chunks_of(slots, bs)[0] == slots.take(bs));
            assert(slots.take(bs) =~= slots.subrange(0, bs));
        } else {
            lemma_chunks_index(slots.skip(bs), bs, b - 1, i);
            assert(chunks_of(slots, bs)[b] == chunks_of(slots.skip(bs), bs)[b - 1]);
            assert((b - 1) * bs == b * bs - bs) by (nonlinear_arith);
            assert(slots.skip(bs).subrange((b - 1) * bs, b * bs) =~= slots.subrange(
                b * bs,
                (b + 1) * bs,
            ));
        }
    }
}

/// A live slot of the plan sits below the frame total: padding fills the
/// plan's tail alone, so the live slots occupy exactly the first
/// `frames.len()` global positions.
pub proof fn lemma_plan_live_positions(frames: Seq<FrameData>, bs: int)
    requires
        bs >= 1,
        forall|k: int| 0 <= k < frames.len() ==> (#[trigger] frames[k]).is_live(),
    ensures
        forall|b: int, i: int|
            0 <= b < batch_plan(frames, bs).len() && 0 <= i < bs && (#[trigger] batch_plan(
                frames,
                bs,
            )[b][i]).is_live() ==> b * bs + i < frames.len(),
{
    let p = padded(frames, bs);
    lemma_batch_plan_conserves(frames, bs);
    assert(p.len() as int % bs == 0) by (nonlinear_arith)
        requires
            bs >= 1,
            p.len() == frames.len() + num_pads(frames.len() as int, bs),
            num_pads(frames.len() as int, bs) == if frames.len() as int % bs == 0 {
                0int
            } else {
                bs - frames.len() as int % bs
            },
    ;
    assert forall|b: int, i: int|
        0 <= b < batch_plan(frames, bs).len() && 0 <= i < bs && (#[trigger] batch_plan(
            frames,
            bs,
        )[b][i]).is_live() implies b * bs + i < frames.len() by {
        lemma_chunks_index(p, bs, b, i);
        lemma_chunks_shape(p, bs);
        vstd::arithmetic::mul::lemma_mul_inequality(b + 1, chunks_of(p, bs).len() as int, bs);
        vstd::arithmetic::mul::lemma_mul_nonnegative(b, bs);
        assert((b + 1) * bs == b * bs + bs) by (nonlinear_arith);
        assert(chunks_of(p, bs)[b] == p.subrange(b * bs, (b + 1) * bs));
        assert(p.subrange(b * bs, (b + 1) * bs)[i] == p[b * bs + i]);
        assert(batch_plan(frames, bs)[b][i] == p[b * bs + i]);
        if b * bs + i >= frames.len() {
            assert(p[b * bs + i] == FrameData::Pad);
        }
    }
}

/// While iteration runs, the frames yielded or skipped so far never exceed
/// the plan's frame total, and the batch shape stays fixed.
pub proof fn lemma_chunker_running_bound(loader: BatchSourceLoader)
    requires
        loader.wf(),
    ensures
        0 <= loader.produced_frames(),
        0 <= loader.skipped_frames(),
        loader.produced_frames() + loader.skipped_frames() <= loader.total_spec(),
        0 <= loader.consumed_batches() <= loader.num_batches(),
        loader.batch_size_spec() >= 1,
        loader.num_batches() * loader.batch_size_spec() <= usize::MAX,
        forall|b: int|
            0 <= b < loader.num_batches() ==> (#[trigger] loader.batches_seq()[b]).len()
                == loader.batch_size_spec(),
{
    lemma_total_live_take_bound(loader.batches_seq(), loader.consumed_batches());
    assert forall|b: int|
        0 <= b < loader.num_batches() implies (#[trigger] loader.batches_seq()[b]).len()
        == loader.batch_size_spec() by {
        assert(loader.batches_seq()[b] == loader.batches@[b]@);
    }
}

/// Once every batch is consumed, the frames yielded plus the frames skipped
/// account exactly for the plan's frame total; with no decode failure the
/// yield alone reaches it.
pub proof fn lemma_chunker_accounting(loader: BatchSourceLoader)
    requires
        loader.wf(),
        loader.consumed_batches() == loader.num_batches(),
    ensures
        loader.produced_frames() + loader.skipped_frames() == loader.total_spec(),
        loader.skipped_frames() == 0 ==> loader.produced_frames() == loader.total_spec(),
{
    assert(loader.batches_seq().take(loader.consumed_batches()) =~= loader.batches_seq());
}

} // verus!
