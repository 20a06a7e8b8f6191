//! Smoothing of a per-frame speech/noise classifier: onset debouncing,
//! pre-roll buffering and hangover.

use vstd::prelude::*;
use vstd::seq_lib::*;

verus! {

/// What the smoother hands downstream for one frame.
pub enum VadFrame<T> {
    /// Speech: the current frame, or at the onset the buffered pre-roll
    /// followed by the current frame.
    Speech(Vec<T>),
    /// Silence or noise; downstream code discards it.
    Noise,
}

/// Why a frame could not be classified.
#[derive(Debug, Clone, Copy, PartialEq, Eq, Structural)]
pub enum VadError {
    /// The frame does not hold the number of samples the classifier expects.
    InvalidFrame,
}

impl<T> VadFrame<T> {
    pub open spec fn payload(self) -> Option<Seq<T>> {
        match self {
            VadFrame::Speech(v) => Some(v@),
            VadFrame::Noise => None,
        }
    }

    pub fn is_speech(&self) -> (r: bool)
        ensures
            r == self.payload().is_some(),
    {
        match self {
            VadFrame::Speech(_) => true,
            VadFrame::Noise => false,
        }
    }
}

/// The classifier's check on its input: a frame must hold exactly
/// `expected` samples.
pub fn check_frame(frame_len: usize, expected: usize) -> (r: Result<(), VadError>)
    ensures
        r is Ok <==> frame_len == expected,
        r is Err ==> r == Err::<(), VadError>(VadError::InvalidFrame),
{
    if frame_len != expected {
        Err(VadError::InvalidFrame)
    } else {
        Ok(())
    }
}

/// The state of a smoother, as plain values.
pub struct VadModel<T> {
    pub prefill_frames: nat,
    pub hangover_frames: nat,
    pub onset_frames: nat,
    /// The most recent frames, oldest first, at most `prefill_frames + 1`.
    pub ring: Seq<Seq<T>>,
    pub in_speech: bool,
    pub onset_counter: nat,
    pub hangover_counter: nat,
}

/// The ring after `frame` arrives: appended, and the oldest evicted when it
/// would exceed `prefill + 1` frames.
pub open spec fn ring_after<T>(ring: Seq<Seq<T>>, frame: Seq<T>, prefill: nat) -> Seq<Seq<T>> {
    let r = ring.push(frame);
    if r.len() > prefill + 1 {
        r.drop_first()
    } else {
        r
    }
}

/// One step of the smoother: the next state and the payload emitted
/// (`None` for noise), given the base classifier's verdict on `frame`.
pub open spec fn vad_step<T>(m: VadModel<T>, frame: Seq<T>, is_voice: bool) -> (VadModel<T>, Option<Seq<T>>) {
    let ring = ring_after(m.ring, frame, m.prefill_frames);
    let m1 = VadModel { ring, ..m };
    if !m.in_speech && is_voice {
        if m.onset_counter + 1 >= m.onset_frames {
            (
                VadModel { in_speech: true, hangover_counter: m.hangover_frames, onset_counter: 0, ..m1 },
                Some(ring.flatten()),
            )
        } else {
            (VadModel { onset_counter: m.onset_counter + 1, ..m1 }, None)
        }
    } else if m.in_speech && is_voice {
        (VadModel { hangover_counter: m.hangover_frames, ..m1 }, Some(frame))
    } else if m.in_speech && !is_voice {
        if m.hangover_counter > 0 {
            (VadModel { hangover_counter: (m.hangover_counter - 1) as nat, ..m1 }, Some(frame))
        } else {
            (VadModel { in_speech: false, ..m1 }, None)
        }
    } else {
        (VadModel { onset_counter: 0, ..m1 }, None)
    }
}

/// The state right after construction or `reset`.
pub open spec fn vad_fresh<T>(m: VadModel<T>) -> bool {
    &&& m.ring.len() == 0
    &&& !m.in_speech
    &&& m.onset_counter == 0
    &&& m.hangover_counter == 0
}

/// Every buffered frame holds exactly `n` samples.
pub open spec fn frames_have_len<T>(ring: Seq<Seq<T>>, n: nat) -> bool {
    forall|i: int| 0 <= i < ring.len() ==> #[trigger] ring[i].len() == n
}

/// Wraps a per-frame classifier with onset debouncing (`onset_frames`
/// consecutive voiced frames open speech), a pre-roll of `prefill_frames`
/// frames prepended to the first speech payload, and a hangover of
/// `hangover_frames` unvoiced frames still passed as speech.
pub struct SmoothedVad<T> {
    prefill_frames: usize,
    hangover_frames: usize,
    onset_frames: usize,
    frame_buffer: Vec<Vec<T>>,
    hangover_counter: usize,
    onset_counter: usize,
    in_speech: bool,
}

pub open spec fn vec_views<T>(s: Seq<Vec<T>>) -> Seq<Seq<T>> {
    s.map_values(|v: Vec<T>| v@)
}

impl<T> View for SmoothedVad<T> {
    type V = VadModel<T>;

    closed spec fn view(&self) -> VadModel<T> {
        VadModel {
            prefill_frames: self.prefill_frames as nat,
            hangover_frames: self.hangover_frames as nat,
            onset_frames: self.onset_frames as nat,
            ring: vec_views(self.frame_buffer@),
            in_speech: self.in_speech,
            onset_counter: self.onset_counter as nat,
            hangover_counter: self.hangover_counter as nat,
        }
    }
}

impl<T: Copy> SmoothedVad<T> {
    /// Well-formedness: the ring never exceeds `prefill_frames + 1` frames,
    /// and the onset counter stays below the onset threshold.
    pub closed spec fn wf(&self) -> bool {
        &&& self.frame_buffer@.len() <= self.prefill_frames + 1
        &&& self.prefill_frames < usize::MAX
        &&& (self.onset_counter == 0 || self.onset_counter < self.onset_frames)
        &&& self.hangover_counter <= self.hangover_frames
    }

    pub fn new(prefill_frames: usize, hangover_frames: usize, onset_frames: usize) -> (r: Self)
        requires
            prefill_frames < usize::MAX,
        ensures
            r.wf(),
            vad_fresh(r@),
            r@.prefill_frames == prefill_frames,
            r@.hangover_frames == hangover_frames,
            r@.onset_frames == onset_frames,
    {
        let r = SmoothedVad {
            prefill_frames,
            hangover_frames,
            onset_frames,
            frame_buffer: Vec::new(),
            hangover_counter: 0,
            onset_counter: 0,
            in_speech: false,
        };
        proof {
            assert(vec_views(r.frame_buffer@) =~= Seq::<Seq<T>>::empty());
        }
        r
    }

    pub fn prefill_frames(&self) -> (r: usize)
        requires
            self.wf(),
        ensures
            r == self@.prefill_frames,
            r < usize::MAX,
    {
        self.prefill_frames
    }

    /// Concatenation of the buffered frames, oldest first.
    fn collect_ring(&self) -> (out: Vec<T>)
        ensures
            out@ == vec_views(self.frame_buffer@).flatten(),
    {
        let mut out: Vec<T> = Vec::new();
        let mut i: usize = 0;
        let ghost ring = vec_views(self.frame_buffer@);
        while i < self.frame_buffer.len()
            invariant
                0 <= i <= self.frame_buffer@.len(),
                ring == vec_views(self.frame_buffer@),
                out@ == ring.take(i as int).flatten(),
            decreases self.frame_buffer@.len() - i,
        {
            let frame = &self.frame_buffer[i];
            let mut j: usize = 0;
            let ghost before = out@;
            while j < frame.len()
                invariant
                    0 <= j <= frame@.len(),
                    out@ == before + frame@.take(j as int),
                decreases frame@.len() - j,
            {
                out.push(frame[j]);
                j = j + 1;
                proof {
                    assert(out@ =~= before + frame@.take(j as int));
                }
            }
            proof {
                assert(frame@.take(j as int) =~= frame@);
                assert(ring.take(i + 1) =~= ring.take(i as int).push(ring[i as int]));
                ring.take(i as int).lemma_flatten_push(ring[i as int]);
            }
            i = i + 1;
        }
        proof {
            assert(ring.take(i as int) =~= ring);
        }
        out
    }

    /// Feeds one frame together with the base classifier's verdict on it.
    /// A failed classification is passed on after the frame has entered the
    /// pre-roll ring; nothing else changes.
    pub fn push_frame(&mut self, frame: &[T], verdict: Result<bool, VadError>) -> (r: Result<VadFrame<T>, VadError>)
        requires
            old(self).wf(),
        ensures
            final(self).wf(),
            final(self)@.ring.len() <= final(self)@.prefill_frames + 1,
            match verdict {
                Ok(v) => r.is_ok() && (final(self)@, r.unwrap().payload()) == vad_step(old(self)@, frame@, v),
                Err(e) => r == Err::<VadFrame<T>, VadError>(e)
                    && final(self)@ == (VadModel { ring: ring_after(old(self)@.ring, frame@, old(self)@.prefill_frames), ..old(self)@ }),
            },
    {
        let ghost old_ring = vec_views(self.frame_buffer@);
        self.frame_buffer.push(vstd::slice::slice_to_vec(frame));
        if self.frame_buffer.len() > self.prefill_frames + 1 {
            self.frame_buffer.remove(0);
        }
        proof {
            let pushed = old_ring.push(frame@);
            if pushed.len() > self@.prefill_frames + 1 {
                assert(vec_views(self.frame_buffer@) =~= pushed.drop_first());
            } else {
                assert(vec_views(self.frame_buffer@) =~= pushed);
            }
        }
        let is_voice = match verdict {
            Ok(v) => v,
            Err(e) => {
                return Err(e);
            },
        };
        if !self.in_speech && is_voice {
            self.onset_counter = self.onset_counter + 1;
            if self.onset_counter >= self.onset_frames {
                self.in_speech = true;
                self.hangover_counter = self.hangover_frames;
                self.onset_counter = 0;
                let out = self.collect_ring();
                Ok(VadFrame::Speech(out))
            } else {
                Ok(VadFrame::Noise)
            }
        } else if self.in_speech && is_voice {
            self.hangover_counter = self.hangover_frames;
            Ok(VadFrame::Speech(vstd::slice::slice_to_vec(frame)))
        } else if self.in_speech && !is_voice {
            if self.hangover_counter > 0 {
                self.hangover_counter = self.hangover_counter - 1;
                Ok(VadFrame::Speech(vstd::slice::slice_to_vec(frame)))
            } else {
                self.in_speech = false;
                Ok(VadFrame::Noise)
            }
        } else {
            self.onset_counter = 0;
            Ok(VadFrame::Noise)
        }
    }

    /// Clears the ring, the counters and the speech flag.
    pub fn reset(&mut self)
        requires
            old(self).wf(),
        ensures
            final(self).wf(),
            vad_fresh(final(self)@),
            final(self)@.prefill_frames == old(self)@.prefill_frames,
            final(self)@.hangover_frames == old(self)@.hangover_frames,
            final(self)@.onset_frames == old(self)@.onset_frames,
    {
        self.frame_buffer.clear();
        self.hangover_counter = 0;
        self.onset_counter = 0;
        self.in_speech = false;
        proof {
            assert(vec_views(self.frame_buffer@) =~= Seq::<Seq<T>>::empty());
        }
    }
}


/// Whether each frame of a run is passed on as speech, starting from `m`,
/// with `verdicts[i]` the base classifier's verdict on `frames[i]`.
pub open spec fn speech_tags<T>(m: VadModel<T>, frames: Seq<Seq<T>>, verdicts: Seq<bool>) -> Seq<bool>
    decreases frames.len(),
{
    if frames.len() == 0 || verdicts.len() == 0 {
        Seq::empty()
    } else {
        let (next, out) = vad_step(m, frames[0], verdicts[0]);
        seq![out.is_some()] + speech_tags(next, frames.drop_first(), verdicts.drop_first())
    }
}

/// Frames of `n` samples each flatten to `ring.len() * n` samples.
pub proof fn lemma_flatten_len<T>(ring: Seq<Seq<T>>, n: nat)
    requires
        frames_have_len(ring, n),
    ensures
        ring.flatten().len() == ring.len() * n,
    decreases ring.len(),
{
    if ring.len() > 0 {
        assert(frames_have_len(ring.drop_first(), n)) by {
            assert forall|i: int| 0 <= i < ring.drop_first().len() implies #[trigger] ring.drop_first()[i].len() == n by {
                assert(ring.drop_first()[i] == ring[i + 1]);
            }
        }
        lemma_flatten_len(ring.drop_first(), n);
        assert(ring[0].len() == n);
        assert((ring.len() - 1) * n + n == ring.len() * n) by (nonlinear_arith);
    }
}

/// A speech payload holds the current frame or the whole pre-roll ring.
/// When every frame holds `n` samples the ring keeps that property, and once
/// the ring is full (at least `prefill_frames` frames were buffered before
/// this one) a payload holds exactly `n` or `(prefill_frames + 1) * n`
/// samples.
pub proof fn lemma_speech_payload_len<T>(m: VadModel<T>, frame: Seq<T>, is_voice: bool, n: nat)
    requires
        frames_have_len(m.ring, n),
        frame.len() == n,
        m.ring.len() <= m.prefill_frames + 1,
    ensures
        frames_have_len(vad_step(m, frame, is_voice).0.ring, n),
        vad_step(m, frame, is_voice).0.ring.len() <= m.prefill_frames + 1,
        vad_step(m, frame, is_voice).1 is Some ==> {
            let g = vad_step(m, frame, is_voice).1.unwrap();
            g.len() == n || g.len() == vad_step(m, frame, is_voice).0.ring.len() * n
        },
        m.ring.len() >= m.prefill_frames && vad_step(m, frame, is_voice).1 is Some ==> {
            let g = vad_step(m, frame, is_voice).1.unwrap();
            g.len() == n || g.len() == (m.prefill_frames + 1) * n
        },
{
    let pushed = m.ring.push(frame);
    let ring = ring_after(m.ring, frame, m.prefill_frames);
    assert(frames_have_len(pushed, n)) by {
        assert forall|i: int| 0 <= i < pushed.len() implies #[trigger] pushed[i].len() == n by {
            if i < m.ring.len() {
                assert(pushed[i] == m.ring[i]);
            }
        }
    }
    assert(frames_have_len(ring, n)) by {
        assert forall|i: int| 0 <= i < ring.len() implies #[trigger] ring[i].len() == n by {
            if pushed.len() > m.prefill_frames + 1 {
                assert(ring[i] == pushed[i + 1]);
            }
        }
    }
    lemma_flatten_len(ring, n);
}

proof fn lemma_hangover_run<T>(s: VadModel<T>, frames: Seq<Seq<T>>)
    requires
        s.in_speech,
        frames.len() == s.hangover_counter + 1,
    ensures
        speech_tags(s, frames, Seq::new(frames.len(), |i: int| false))
            == Seq::new(s.hangover_counter, |i: int| true).push(false),
    decreases frames.len(),
{
    let verdicts = Seq::new(frames.len(), |i: int| false);
    let (next, out) = vad_step(s, frames[0], false);
    if s.hangover_counter == 0 {
        assert(out is None);
        assert(frames.drop_first().len() == 0);
        assert(speech_tags(next, frames.drop_first(), verdicts.drop_first()) == Seq::<bool>::empty());
        assert(speech_tags(s, frames, verdicts) =~= Seq::new(s.hangover_counter, |i: int| true).push(false));
    } else {
        assert(out is Some);
        assert(next.in_speech && next.hangover_counter == s.hangover_counter - 1);
        lemma_hangover_run(next, frames.drop_first());
        assert(verdicts.drop_first() =~= Seq::new(frames.drop_first().len(), |i: int| false));
        assert(speech_tags(s, frames, verdicts) =~= Seq::new(s.hangover_counter, |i: int| true).push(false));
    }
}

/// Hangover: once a voiced frame is passed as speech, a run of unvoiced
/// frames yields exactly `hangover_frames` more speech frames before the
/// first noise frame.
pub proof fn lemma_hangover<T>(m: VadModel<T>, frames: Seq<Seq<T>>)
    requires
        frames.len() == m.hangover_frames + 2,
        vad_step(m, frames[0], true).1 is Some,
    ensures
        speech_tags(m, frames, seq![true] + Seq::new((m.hangover_frames + 1) as nat, |i: int| false))
            == Seq::new((m.hangover_frames + 1) as nat, |i: int| true).push(false),
{
    let verdicts = seq![true] + Seq::new((m.hangover_frames + 1) as nat, |i: int| false);
    let (next, out) = vad_step(m, frames[0], true);
    assert(next.in_speech && next.hangover_counter == m.hangover_frames);
    assert(verdicts[0] == true);
    assert(verdicts.drop_first() =~= Seq::new(frames.drop_first().len(), |i: int| false));
    lemma_hangover_run(next, frames.drop_first());
    assert(speech_tags(m, frames, verdicts) =~= Seq::new((m.hangover_frames + 1) as nat, |i: int| true).push(false));
}


proof fn lemma_speech_tags_len<T>(m: VadModel<T>, frames: Seq<Seq<T>>, verdicts: Seq<bool>)
    ensures
        speech_tags(m, frames, verdicts).len() == if frames.len() <= verdicts.len() { frames.len() } else { verdicts.len() },
    decreases frames.len(),
{
    if frames.len() > 0 && verdicts.len() > 0 {
        let (next, out) = vad_step(m, frames[0], verdicts[0]);
        lemma_speech_tags_len(next, frames.drop_first(), verdicts.drop_first());
    }
}

proof fn lemma_speech_tags_take<T>(m: VadModel<T>, frames: Seq<Seq<T>>, verdicts: Seq<bool>, k: int)
    requires
        0 <= k <= frames.len(),
        k <= verdicts.len(),
    ensures
        speech_tags(m, frames, verdicts).take(k) == speech_tags(m, frames.take(k), verdicts.take(k)),
    decreases k,
{
    if k == 0 {
        assert(speech_tags(m, frames, verdicts).take(0) =~= Seq::<bool>::empty());
    } else {
        let (next, out) = vad_step(m, frames[0], verdicts[0]);
        assert(frames.take(k)[0] == frames[0]);
        assert(verdicts.take(k)[0] == verdicts[0]);
        assert(frames.take(k).drop_first() =~= frames.drop_first().take(k - 1));
        assert(verdicts.take(k).drop_first() =~= verdicts.drop_first().take(k - 1));
        lemma_speech_tags_take(next, frames.drop_first(), verdicts.drop_first(), k - 1);
        lemma_speech_tags_len(next, frames.drop_first(), verdicts.drop_first());
        let rest = speech_tags(next, frames.drop_first(), verdicts.drop_first());
        assert((seq![out.is_some()] + rest).take(k) =~= seq![out.is_some()] + rest.take(k - 1));
    }
}

/// Hangover over any longer run: once a voiced frame is passed as speech,
/// the next `hangover_frames` unvoiced frames are still speech and the one
/// after them is noise, however many unvoiced frames follow.
pub proof fn lemma_hangover_in_longer_run<T>(m: VadModel<T>, frames: Seq<Seq<T>>)
    requires
        frames.len() >= m.hangover_frames + 2,
        vad_step(m, frames[0], true).1 is Some,
    ensures
        speech_tags(m, frames, seq![true] + Seq::new((frames.len() - 1) as nat, |i: int| false))
            .take((m.hangover_frames + 2) as int)
            == Seq::new((m.hangover_frames + 1) as nat, |i: int| true).push(false),
{
    let k = m.hangover_frames + 2;
    let verdicts = seq![true] + Seq::new((frames.len() - 1) as nat, |i: int| false);
    lemma_speech_tags_take(m, frames, verdicts, k as int);
    assert(verdicts.take(k as int) =~= seq![true] + Seq::new((m.hangover_frames + 1) as nat, |i: int| false));
    assert(frames.take(k as int)[0] == frames[0]);
    lemma_hangover(m, frames.take(k as int));
}

} // verus!
