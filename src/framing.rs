//! Re-framing of a sample stream into fixed-size frames, with an optional
//! fixed-size input stage for a block resampler.

use vstd::prelude::*;
use vstd::seq_lib::*;
use crate::vad::{frames_have_len, vec_views};

verus! {

/// Input block size handed to the resampler when the rates differ.
pub const RESAMPLER_CHUNK_SIZE: usize = 1024;

/// Appends `data` to `buf` and cuts off every complete block of `n`
/// samples: the blocks, in order, followed by what is left in `buf`, are
/// the old contents of `buf` followed by `data`.
pub fn cut_blocks<T: Copy>(buf: &mut Vec<T>, data: &[T], n: usize) -> (blocks: Vec<Vec<T>>)
    requires
        n > 0,
        old(buf)@.len() < n,
    ensures
        vec_views(blocks@).flatten() + final(buf)@ == old(buf)@ + data@,
        frames_have_len(vec_views(blocks@), n as nat),
        final(buf)@.len() < n,
{
    let mut blocks: Vec<Vec<T>> = Vec::new();
    let ghost start = buf@;
    let mut i: usize = 0;
    while i < data.len()
        invariant
            n > 0,
            0 <= i <= data@.len(),
            buf@.len() < n,
            vec_views(blocks@).flatten() + buf@ == start + data@.take(i as int),
            frames_have_len(vec_views(blocks@), n as nat),
        decreases data@.len() - i,
    {
        let ghost before_blocks = vec_views(blocks@);
        let ghost before_buf = buf@;
        buf.push(data[i]);
        proof {
            assert(data@.take(i + 1) =~= data@.take(i as int).push(data@[i as int]));
            assert(buf@ == before_buf.push(data@[i as int]));
            assert(before_blocks.flatten() + before_buf == start + data@.take(i as int));
            assert((before_blocks.flatten() + before_buf).push(data@[i as int])
                =~= before_blocks.flatten() + before_buf.push(data@[i as int]));
            assert((start + data@.take(i as int)).push(data@[i as int]) =~= start + data@.take(i + 1));
        }
        if buf.len() == n {
            let mut full: Vec<T> = Vec::new();
            core::mem::swap(&mut full, buf);
            let ghost fv = full@;
            blocks.push(full);
            proof {
                assert(vec_views(blocks@) =~= before_blocks.push(fv));
                before_blocks.lemma_flatten_push(fv);
                assert(vec_views(blocks@).flatten() + buf@ =~= start + data@.take(i + 1));
                assert forall|j: int| 0 <= j < vec_views(blocks@).len() implies #[trigger] vec_views(blocks@)[j].len() == n by {
                    if j < before_blocks.len() {
                        assert(vec_views(blocks@)[j] == before_blocks[j]);
                    }
                }
            }
        }
        i = i + 1;
    }
    proof {
        assert(data@.take(i as int) =~= data@);
    }
    blocks
}

/// `s` extended with `pad` up to `n` samples.
pub open spec fn padded<T>(s: Seq<T>, n: nat, pad: T) -> Seq<T> {
    s + Seq::new((n - s.len()) as nat, |i: int| pad)
}

/// Takes the contents of `buf`, padded with `pad` to `n` samples, and leaves
/// `buf` empty.
fn take_padded<T: Copy>(buf: &mut Vec<T>, n: usize, pad: T) -> (r: Vec<T>)
    requires
        old(buf)@.len() <= n,
    ensures
        r@ == padded(old(buf)@, n as nat, pad),
        final(buf)@.len() == 0,
{
    let mut out: Vec<T> = Vec::new();
    core::mem::swap(&mut out, buf);
    let ghost start = out@;
    while out.len() < n
        invariant
            start.len() <= out@.len() <= n,
            out@ == start + Seq::new((out@.len() - start.len()) as nat, |i: int| pad),
        decreases n - out@.len(),
    {
        out.push(pad);
        proof {
            assert(out@ =~= start + Seq::new((out@.len() - start.len()) as nat, |i: int| pad));
        }
    }
    out
}

/// The state of a frame resampler, as plain values.
pub struct ResamplerModel<T> {
    /// Whether input passes through a block resampler (the rates differ).
    pub resampling: bool,
    pub chunk_in: nat,
    pub frame_samples: nat,
    /// Input waiting for a complete resampler block.
    pub in_buf: Seq<T>,
    /// Output waiting for a complete frame.
    pub pending: Seq<T>,
}

/// Samples per frame: `out_hz * frame_ms / 1000`, rounded to nearest.
pub open spec fn frame_len_for(out_hz: nat, frame_ms: nat) -> nat {
    (out_hz * frame_ms + 500) / 1000
}

/// Turns a stream of samples at an input rate into frames of a fixed number
/// of samples at the output rate. When the rates are equal the stream is
/// only re-framed. Otherwise input is gathered into blocks of
/// `RESAMPLER_CHUNK_SIZE` samples; the caller runs each block through a
/// block resampler and hands the output back to `emit_frames`.
pub struct FrameResampler<T> {
    resampling: bool,
    chunk_in: usize,
    in_buf: Vec<T>,
    frame_samples: usize,
    pending: Vec<T>,
}

impl<T> View for FrameResampler<T> {
    type V = ResamplerModel<T>;

    closed spec fn view(&self) -> ResamplerModel<T> {
        ResamplerModel {
            resampling: self.resampling,
            chunk_in: self.chunk_in as nat,
            frame_samples: self.frame_samples as nat,
            in_buf: self.in_buf@,
            pending: self.pending@,
        }
    }
}

/// Well-formedness of a resampler model: positive sizes, partial buffers.
pub open spec fn resampler_wf<T>(m: ResamplerModel<T>) -> bool {
    &&& m.chunk_in > 0
    &&& m.frame_samples > 0
    &&& m.in_buf.len() < m.chunk_in
    &&& m.pending.len() < m.frame_samples
    &&& (!m.resampling ==> m.in_buf.len() == 0)
}

/// The frame length for `out_hz` and `frame_ms`, or `None` when the
/// computation would not fit in a `usize`.
pub fn frame_len_for_rates(out_hz: usize, frame_ms: usize) -> (r: Option<usize>)
    ensures
        match r {
            Some(n) => out_hz * frame_ms + 500 <= usize::MAX && n == frame_len_for(out_hz as nat, frame_ms as nat),
            None => out_hz * frame_ms + 500 > usize::MAX,
        },
{
    proof {
        assert((out_hz as u128) * (frame_ms as u128) <= 0xffff_ffff_ffff_ffff * 0xffff_ffff_ffff_ffff) by (nonlinear_arith)
            requires out_hz <= 0xffff_ffff_ffff_ffff, frame_ms <= 0xffff_ffff_ffff_ffff;
    }
    let p: u128 = (out_hz as u128) * (frame_ms as u128) + 500;
    if p > usize::MAX as u128 {
        None
    } else {
        Some((p / 1000) as usize)
    }
}

impl<T: Copy> FrameResampler<T> {
    pub open spec fn wf(&self) -> bool {
        resampler_wf(self@)
    }

    /// A resampler from `in_hz` to `out_hz` with frames of `frame_ms`
    /// milliseconds. The frame must hold at least one sample.
    pub fn new(in_hz: usize, out_hz: usize, frame_ms: usize) -> (r: Self)
        requires
            out_hz * frame_ms + 500 <= usize::MAX,
            frame_len_for(out_hz as nat, frame_ms as nat) > 0,
        ensures
            r.wf(),
            r@.resampling == (in_hz != out_hz),
            r@.chunk_in == RESAMPLER_CHUNK_SIZE,
            r@.frame_samples == frame_len_for(out_hz as nat, frame_ms as nat),
            r@.in_buf.len() == 0,
            r@.pending.len() == 0,
    {
        let frame_samples = (out_hz * frame_ms + 500) / 1000;
        FrameResampler {
            resampling: in_hz != out_hz,
            chunk_in: RESAMPLER_CHUNK_SIZE,
            in_buf: Vec::new(),
            frame_samples,
            pending: Vec::new(),
        }
    }

    pub fn frame_samples(&self) -> (r: usize)
        ensures
            r == self@.frame_samples,
    {
        self.frame_samples
    }

    pub fn needs_resampling(&self) -> (r: bool)
        ensures
            r == self@.resampling,
    {
        self.resampling
    }

    /// Feeds input samples. Without resampling the result is the complete
    /// frames now available. With resampling it is the complete input blocks
    /// now available, each to be resampled and passed to `emit_frames`.
    pub fn push(&mut self, src: &[T]) -> (r: Vec<Vec<T>>)
        requires
            old(self).wf(),
        ensures
            final(self).wf(),
            final(self)@.pending.len() < final(self)@.frame_samples,
            final(self)@.in_buf.len() < final(self)@.chunk_in,
            final(self)@.resampling == old(self)@.resampling,
            final(self)@.chunk_in == old(self)@.chunk_in,
            final(self)@.frame_samples == old(self)@.frame_samples,
            !old(self)@.resampling ==> {
                &&& vec_views(r@).flatten() + final(self)@.pending == old(self)@.pending + src@
                &&& frames_have_len(vec_views(r@), old(self)@.frame_samples)
                &&& final(self)@.in_buf == old(self)@.in_buf
            },
            old(self)@.resampling ==> {
                &&& vec_views(r@).flatten() + final(self)@.in_buf == old(self)@.in_buf + src@
                &&& frames_have_len(vec_views(r@), old(self)@.chunk_in)
                &&& final(self)@.pending == old(self)@.pending
            },
    {
        if !self.resampling {
            cut_blocks(&mut self.pending, src, self.frame_samples)
        } else {
            cut_blocks(&mut self.in_buf, src, self.chunk_in)
        }
    }

    /// Cuts resampler output into complete frames; the tail waits in
    /// `pending`.
    pub fn emit_frames(&mut self, data: &[T]) -> (r: Vec<Vec<T>>)
        requires
            old(self).wf(),
        ensures
            final(self).wf(),
            final(self)@.pending.len() < final(self)@.frame_samples,
            final(self)@ == (ResamplerModel { pending: final(self)@.pending, ..old(self)@ }),
            vec_views(r@).flatten() + final(self)@.pending == old(self)@.pending + data@,
            frames_have_len(vec_views(r@), old(self)@.frame_samples),
    {
        cut_blocks(&mut self.pending, data, self.frame_samples)
    }

    /// Forgets any partial block and partial frame, so that nothing fed
    /// before reaches a later frame.
    pub fn reset(&mut self)
        requires
            old(self).wf(),
        ensures
            final(self).wf(),
            final(self)@ == (ResamplerModel { pending: Seq::empty(), in_buf: Seq::empty(), ..old(self)@ }),
    {
        self.pending.clear();
        self.in_buf.clear();
        proof {
            assert(self.pending@ =~= Seq::<T>::empty());
            assert(self.in_buf@ =~= Seq::<T>::empty());
        }
    }

    /// At the end of input: the partial resampler block, padded with `pad`
    /// to a full block, if any input waits for one.
    pub fn finish_input(&mut self, pad: T) -> (r: Option<Vec<T>>)
        requires
            old(self).wf(),
        ensures
            final(self).wf(),
            final(self)@ == (ResamplerModel { in_buf: Seq::empty(), ..old(self)@ }),
            old(self)@.in_buf.len() == 0 ==> r is None,
            old(self)@.in_buf.len() > 0 ==> r is Some
                && r.unwrap()@ == padded(old(self)@.in_buf, old(self)@.chunk_in, pad),
            r is Some ==> r.unwrap()@.len() == old(self)@.chunk_in,
    {
        if self.in_buf.len() == 0 {
            proof {
                assert(self.in_buf@ =~= Seq::<T>::empty());
            }
            None
        } else {
            let block = take_padded(&mut self.in_buf, self.chunk_in, pad);
            proof {
                assert(self.in_buf@ =~= Seq::<T>::empty());
            }
            Some(block)
        }
    }

    /// At the end of output: the partial frame, padded with `pad` to a full
    /// frame, if any output waits for one.
    pub fn finish(&mut self, pad: T) -> (r: Option<Vec<T>>)
        requires
            old(self).wf(),
        ensures
            final(self).wf(),
            final(self)@ == (ResamplerModel { pending: Seq::empty(), ..old(self)@ }),
            old(self)@.pending.len() == 0 ==> r is None,
            old(self)@.pending.len() > 0 ==> r is Some
                && r.unwrap()@ == padded(old(self)@.pending, old(self)@.frame_samples, pad),
            r is Some ==> r.unwrap()@.len() == old(self)@.frame_samples,
    {
        if self.pending.len() == 0 {
            proof {
                assert(self.pending@ =~= Seq::<T>::empty());
            }
            None
        } else {
            let frame = take_padded(&mut self.pending, self.frame_samples, pad);
            proof {
                assert(self.pending@ =~= Seq::<T>::empty());
            }
            Some(frame)
        }
    }
}


/// Feeding a stream in two parts: the frames of both calls, in order,
/// followed by what is left pending, are the earlier pending samples
/// followed by both parts.
pub proof fn lemma_feed_compose<T>(
    p0: Seq<T>,
    a: Seq<T>,
    frames_a: Seq<Seq<T>>,
    p1: Seq<T>,
    b: Seq<T>,
    frames_b: Seq<Seq<T>>,
    p2: Seq<T>,
)
    requires
        frames_a.flatten() + p1 == p0 + a,
        frames_b.flatten() + p2 == p1 + b,
    ensures
        (frames_a + frames_b).flatten() + p2 == p0 + (a + b),
{
    lemma_flatten_concat(frames_a, frames_b);
    assert((frames_a + frames_b).flatten() + p2 =~= frames_a.flatten() + (p1 + b));
    assert(frames_a.flatten() + (p1 + b) =~= (frames_a.flatten() + p1) + b);
    assert((p0 + a) + b =~= p0 + (a + b));
}

/// Frame count: once a stream of `stream.len()` samples has been cut into
/// frames of `f` samples and the tail has been padded into one more frame,
/// exactly `ceil(stream.len() / f) * f` samples have been emitted.
pub proof fn lemma_total_emitted<T>(frames: Seq<Seq<T>>, pending: Seq<T>, stream: Seq<T>, f: nat)
    requires
        f > 0,
        frames.flatten() + pending == stream,
        frames_have_len(frames, f),
        pending.len() < f,
    ensures
        frames.len() * f + (if pending.len() > 0 { f } else { 0 }) == ((stream.len() + f - 1) as int / f as int) * f,
{
    crate::vad::lemma_flatten_len(frames, f);
    let k: int = frames.len() as int;
    let p: int = pending.len() as int;
    let fi: int = f as int;
    assert(stream.len() == k * fi + p);
    if p > 0 {
        assert((k + 1) * fi == k * fi + fi) by (nonlinear_arith);
        vstd::arithmetic::div_mod::lemma_fundamental_div_mod_converse(k * fi + p + fi - 1, fi, k + 1, p - 1);
    } else {
        vstd::arithmetic::div_mod::lemma_fundamental_div_mod_converse(k * fi + fi - 1, fi, k, fi - 1);
    }
}

} // verus!
