//! The recorder's decisions: what the capture worker keeps of each frame,
//! the start/stop protocol, and the per-binding recording session.

use vstd::prelude::*;
use vstd::string::StringExecFns;
use crate::vad::{SmoothedVad, VadError, VadFrame, VadModel, vad_step, ring_after, frames_have_len};

verus! {

/// The capture worker's state, as plain values.
pub struct WorkerModel<T> {
    pub frame_samples: nat,
    pub vad: Option<VadModel<T>>,
    /// Samples kept since the last `Start`.
    pub processed: Seq<T>,
    pub recording: bool,
    /// A `Stop` has ended a recording and its tail is being flushed.
    pub flushing: bool,
}

/// Whether frames are kept: while recording, and while the tail of a
/// stopped recording is flushed.
pub open spec fn collecting<T>(m: WorkerModel<T>) -> bool {
    m.recording || m.flushing
}

/// What handling one frame does to the worker, given the base classifier's
/// verdict on it (consulted only while collecting, with a smoother).
/// A failed classification keeps the frame, so that no speech is lost.
pub open spec fn frame_outcome<T>(m: WorkerModel<T>, frame: Seq<T>, verdict: Result<bool, VadError>) -> WorkerModel<T> {
    if !collecting(m) {
        m
    } else {
        match m.vad {
            None => WorkerModel { processed: m.processed + frame, ..m },
            Some(v) => match verdict {
                Ok(b) => {
                    let (v2, out) = vad_step(v, frame, b);
                    WorkerModel {
                        vad: Some(v2),
                        processed: match out {
                            Some(g) => m.processed + g,
                            None => m.processed,
                        },
                        ..m
                    }
                },
                Err(_) => WorkerModel {
                    vad: Some(VadModel { ring: ring_after(v.ring, frame, v.prefill_frames), ..v }),
                    processed: m.processed + frame,
                    ..m
                },
            },
        }
    }
}

/// The worker right after `Start`: nothing kept, recording, smoother reset.
pub open spec fn started<T>(old_m: WorkerModel<T>, m: WorkerModel<T>) -> bool {
    &&& m.frame_samples == old_m.frame_samples
    &&& m.processed.len() == 0
    &&& m.recording
    &&& !m.flushing
    &&& match (old_m.vad, m.vad) {
        (None, None) => true,
        (Some(a), Some(b)) => {
            &&& b.ring.len() == 0
            &&& !b.in_speech
            &&& b.onset_counter == 0
            &&& b.hangover_counter == 0
            &&& b.prefill_frames == a.prefill_frames
            &&& b.hangover_frames == a.hangover_frames
            &&& b.onset_frames == a.onset_frames
        },
        _ => false,
    }
}

/// Runs captured frames through the optional smoother into the utterance
/// buffer, under the `Start` / `Stop` protocol. Frames arrive already cut to
/// `frame_samples` samples.
pub struct RecorderWorker<T> {
    frame_samples: usize,
    vad: Option<SmoothedVad<T>>,
    processed: Vec<T>,
    recording: bool,
    flushing: bool,
}

impl<T> View for RecorderWorker<T> {
    type V = WorkerModel<T>;

    closed spec fn view(&self) -> WorkerModel<T> {
        WorkerModel {
            frame_samples: self.frame_samples as nat,
            vad: match &self.vad {
                Some(v) => Some(v@),
                None => None,
            },
            processed: self.processed@,
            recording: self.recording,
            flushing: self.flushing,
        }
    }
}

impl<T: Copy> RecorderWorker<T> {
    /// Well-formedness: a positive frame size, a well-formed smoother whose
    /// ring holds whole frames, and a whole number of frames kept.
    pub closed spec fn wf(&self) -> bool {
        &&& self.frame_samples > 0
        &&& self.processed@.len() % (self.frame_samples as nat) == 0
        &&& (!self.recording && !self.flushing ==> self.processed@.len() == 0)
        &&& match &self.vad {
            Some(v) => v.wf() && frames_have_len(v@.ring, self.frame_samples as nat)
                && v@.ring.len() <= v@.prefill_frames + 1,
            None => true,
        }
    }

    /// A worker for frames of `frame_samples` samples, with or without a
    /// smoother. The smoother must hold no frame yet.
    pub fn new(frame_samples: usize, vad: Option<SmoothedVad<T>>) -> (r: Self)
        requires
            frame_samples > 0,
            match vad {
                Some(v) => v.wf() && crate::vad::vad_fresh(v@),
                None => true,
            },
        ensures
            r.wf(),
            r@.frame_samples == frame_samples,
            r@.processed.len() == 0,
            !r@.recording,
            !r@.flushing,
            r@.vad == match vad {
                Some(v) => Some(v@),
                None => None::<VadModel<T>>,
            },
    {
        let r = RecorderWorker { frame_samples, vad, processed: Vec::new(), recording: false, flushing: false };
        proof {
            assert(r.processed@.len() == 0);
            assert(0nat % (frame_samples as nat) == 0) by (nonlinear_arith)
                requires frame_samples > 0;
        }
        r
    }

    pub fn is_recording(&self) -> (r: bool)
        ensures
            r == self@.recording,
    {
        self.recording
    }

    /// Whether handling a frame now consults the base classifier; when it
    /// does not, the verdict passed is ignored.
    pub fn needs_verdict(&self) -> (r: bool)
        ensures
            r == (collecting(self@) && self@.vad is Some),
    {
        (self.recording || self.flushing) && self.vad.is_some()
    }

    /// Whether the utterance has room for the largest payload a frame of
    /// `frame_samples` samples can add.
    pub fn has_room(&self) -> (r: bool)
        requires
            self.wf(),
        ensures
            r == (self@.processed.len() + (if self@.vad is Some { self@.vad.unwrap().prefill_frames + 1 } else { 1 }) * self@.frame_samples <= usize::MAX),
    {
        let k: u128 = match &self.vad {
            Some(v) => v.prefill_frames() as u128 + 1,
            None => 1,
        };
        proof {
            assert(k * (self.frame_samples as u128) <= 0xffff_ffff_ffff_ffff * 0xffff_ffff_ffff_ffff) by (nonlinear_arith)
                requires k <= 0xffff_ffff_ffff_ffff, self.frame_samples <= 0xffff_ffff_ffff_ffff;
        }
        (self.processed.len() as u128) + k * (self.frame_samples as u128) <= usize::MAX as u128
    }

    /// Handles one frame: nothing unless recording or flushing the tail of
    /// a stopped recording; otherwise the frame goes through the smoother,
    /// if any, and what it passes as speech is appended to the utterance.
    pub fn handle_frame(&mut self, frame: &[T], verdict: Result<bool, VadError>)
        requires
            old(self).wf(),
            frame@.len() == old(self)@.frame_samples,
            old(self)@.processed.len() + (if old(self)@.vad is Some { old(self)@.vad.unwrap().prefill_frames + 1 } else { 1 }) * frame@.len() <= usize::MAX,
        ensures
            final(self).wf(),
            final(self)@ == frame_outcome(old(self)@, frame@, verdict),
    {
        if !(self.recording || self.flushing) {
            return;
        }
        let ghost f: int = self.frame_samples as int;
        let ghost old_len: int = self.processed@.len() as int;
        match &mut self.vad {
            Some(det) => {
                proof {
                    if verdict is Ok {
                        crate::vad::lemma_speech_payload_len(det@, frame@, verdict.unwrap(), f as nat);
                    }
                }
                let ghost before = det@;
                proof {
                    assert((before.prefill_frames + 1) * f >= f) by (nonlinear_arith)
                        requires f > 0;
                }
                match det.push_frame(frame, verdict) {
                    Ok(VadFrame::Speech(buf)) => {
                        proof {
                            let g = buf@;
                            let k: int = if g.len() == f { 1 } else { vad_step(before, frame@, verdict.unwrap()).0.ring.len() as int };
                            assert(g.len() == k * f);
                            assert(k <= before.prefill_frames + 1);
                            assert(g.len() <= (before.prefill_frames + 1) * f) by (nonlinear_arith)
                                requires g.len() == k * f, k <= before.prefill_frames + 1, f > 0;
                        }
                        append_samples(&mut self.processed, &buf);
                        proof {
                            let g = buf@;
                            let k: int = if g.len() == f { 1 } else { vad_step(before, frame@, verdict.unwrap()).0.ring.len() as int };
                            vstd::arithmetic::div_mod::lemma_mod_multiples_vanish(k, old_len, f);
                            assert(f * k == k * f) by (nonlinear_arith);
                        }
                    },
                    Ok(VadFrame::Noise) => {},
                    Err(_) => {
                        append_samples(&mut self.processed, frame);
                        proof {
                            assert((old_len + 1 * f) % f == old_len % f) by (nonlinear_arith)
                                requires f > 0;
                        }
                    },
                }
                proof {
                    if verdict is Err {
                        let pushed = before.ring.push(frame@);
                        let ring = ring_after(before.ring, frame@, before.prefill_frames);
                        assert(frames_have_len(ring, f as nat)) by {
                            assert forall|i: int| 0 <= i < ring.len() implies #[trigger] ring[i].len() == f by {
                                if pushed.len() > before.prefill_frames + 1 {
                                    assert(ring[i] == pushed[i + 1]);
                                } else if i < before.ring.len() {
                                    assert(ring[i] == before.ring[i]);
                                }
                            }
                        }
                    }
                }
            },
            None => {
                append_samples(&mut self.processed, frame);
                proof {
                    assert((old_len + 1 * f) % f == old_len % f) by (nonlinear_arith)
                        requires f > 0;
                }
            },
        }
    }

    /// `Start`: clears the utterance, starts recording, resets the smoother.
    pub fn start(&mut self)
        requires
            old(self).wf(),
        ensures
            final(self).wf(),
            started(old(self)@, final(self)@),
    {
        self.processed.clear();
        self.recording = true;
        self.flushing = false;
        match &mut self.vad {
            Some(det) => det.reset(),
            None => {},
        }
        proof {
            assert(0nat % (self.frame_samples as nat) == 0) by (nonlinear_arith)
                requires self.frame_samples > 0;
        }
    }

    /// First half of `Stop`: recording ends. If a recording was in flight
    /// the resampler's tail is still kept: the caller flushes it through
    /// `handle_frame`, then collects the utterance with `take_samples`.
    /// Without a recording in flight nothing more is kept.
    pub fn begin_stop(&mut self) -> (r: bool)
        requires
            old(self).wf(),
        ensures
            final(self).wf(),
            r == collecting(old(self)@),
            final(self)@ == (WorkerModel { recording: false, flushing: collecting(old(self)@), ..old(self)@ }),
    {
        self.flushing = self.recording || self.flushing;
        self.recording = false;
        self.flushing
    }

    /// Hands over the utterance, a whole number of frames, and empties it;
    /// the flush of a stopped recording is over. Without a recording since
    /// the last hand-over the utterance is empty.
    pub fn take_samples(&mut self) -> (r: Vec<T>)
        requires
            old(self).wf(),
        ensures
            final(self).wf(),
            r@ == old(self)@.processed,
            r@.len() % old(self)@.frame_samples == 0,
            !collecting(old(self)@) ==> r@.len() == 0,
            final(self)@ == (WorkerModel { processed: Seq::empty(), flushing: false, ..old(self)@ }),
    {
        let mut out: Vec<T> = Vec::new();
        core::mem::swap(&mut out, &mut self.processed);
        self.flushing = false;
        proof {
            assert(self.processed@ =~= Seq::<T>::empty());
            assert(0nat % (self.frame_samples as nat) == 0) by (nonlinear_arith)
                requires self.frame_samples > 0;
        }
        out
    }
}

/// Appends `data` to `buf`.
fn append_samples<T: Copy>(buf: &mut Vec<T>, data: &[T])
    requires
        old(buf)@.len() + data@.len() <= usize::MAX,
    ensures
        final(buf)@ == old(buf)@ + data@,
{
    let ghost start = buf@;
    let mut i: usize = 0;
    while i < data.len()
        invariant
            0 <= i <= data@.len(),
            buf@ == start + data@.take(i as int),
        decreases data@.len() - i,
    {
        buf.push(data[i]);
        i = i + 1;
        proof {
            assert(buf@ =~= start + data@.take(i as int));
        }
    }
    proof {
        assert(data@.take(i as int) =~= data@);
    }
}


/// The worker after a run of frames, `verdicts[i]` being the classifier's
/// verdict on `frames[i]`.
pub open spec fn feed_frames<T>(m: WorkerModel<T>, frames: Seq<Seq<T>>, verdicts: Seq<Result<bool, VadError>>) -> WorkerModel<T>
    decreases frames.len(),
{
    if frames.len() == 0 || verdicts.len() == 0 {
        m
    } else {
        feed_frames(frame_outcome(m, frames[0], verdicts[0]), frames.drop_first(), verdicts.drop_first())
    }
}

/// The worker after the first half of `Stop`.
pub open spec fn stopped<T>(m: WorkerModel<T>) -> WorkerModel<T> {
    WorkerModel { recording: false, flushing: collecting(m), ..m }
}

proof fn lemma_idle_frames_ignored<T>(m: WorkerModel<T>, frames: Seq<Seq<T>>, verdicts: Seq<Result<bool, VadError>>)
    requires
        !collecting(m),
    ensures
        feed_frames(m, frames, verdicts) == m,
    decreases frames.len(),
{
    if frames.len() > 0 && verdicts.len() > 0 {
        lemma_idle_frames_ignored(m, frames.drop_first(), verdicts.drop_first());
    }
}

/// Stop without Start: on a worker with no recording in flight and nothing
/// kept (a new one, or one whose utterance was handed over), whatever the
/// device delivers before the `Stop` and whatever tail is flushed after it,
/// the utterance handed over is empty.
pub proof fn lemma_no_start_no_samples<T>(
    m: WorkerModel<T>,
    frames: Seq<Seq<T>>,
    verdicts: Seq<Result<bool, VadError>>,
    tail: Seq<Seq<T>>,
    tail_verdicts: Seq<Result<bool, VadError>>,
)
    requires
        !collecting(m),
        m.processed.len() == 0,
    ensures
        feed_frames(stopped(feed_frames(m, frames, verdicts)), tail, tail_verdicts).processed.len() == 0,
{
    lemma_idle_frames_ignored(m, frames, verdicts);
    lemma_idle_frames_ignored(stopped(m), tail, tail_verdicts);
}

/// Whether a recording is in flight, and for which shortcut binding.
#[derive(Debug)]
pub enum RecordingState {
    Idle,
    Recording { binding_id: String },
}

/// Whether the input stream stays open between recordings.
#[derive(Debug, Clone, Copy, PartialEq, Eq, Structural)]
pub enum MicrophoneMode {
    AlwaysOn,
    OnDemand,
}

/// What the caller must do to the input stream after a mode change.
#[derive(Debug, Clone, Copy, PartialEq, Eq, Structural)]
pub enum StreamAction {
    Nothing,
    Open,
    Close,
}

/// The session's state, as plain values.
pub struct SessionModel {
    /// The binding of the recording in flight, if any.
    pub active: Option<Seq<char>>,
    pub mode: MicrophoneMode,
}

/// At most one recording in flight, owned by the binding that started it.
/// A start while recording is refused; a stop from another binding is
/// ignored.
pub struct AudioRecordingManager {
    state: RecordingState,
    mode: MicrophoneMode,
}

impl View for AudioRecordingManager {
    type V = SessionModel;

    closed spec fn view(&self) -> SessionModel {
        SessionModel {
            active: match &self.state {
                RecordingState::Idle => None,
                RecordingState::Recording { binding_id } => Some(binding_id@),
            },
            mode: self.mode,
        }
    }
}

impl AudioRecordingManager {
    pub fn new(mode: MicrophoneMode) -> (r: Self)
        ensures
            r@.active is None,
            r@.mode == mode,
    {
        AudioRecordingManager { state: RecordingState::Idle, mode }
    }

    /// The mode chosen by the `always_on_microphone` setting.
    pub fn mode_for(always_on: bool) -> (r: MicrophoneMode)
        ensures
            r == (if always_on { MicrophoneMode::AlwaysOn } else { MicrophoneMode::OnDemand }),
    {
        if always_on {
            MicrophoneMode::AlwaysOn
        } else {
            MicrophoneMode::OnDemand
        }
    }

    pub fn mode(&self) -> (r: MicrophoneMode)
        ensures
            r == self@.mode,
    {
        self.mode
    }

    pub fn is_recording(&self) -> (r: bool)
        ensures
            r == self@.active is Some,
    {
        match &self.state {
            RecordingState::Idle => false,
            RecordingState::Recording { .. } => true,
        }
    }

    /// Whether starting now must first open the input stream (idle, on
    /// demand).
    pub fn start_opens_stream(&self) -> (r: bool)
        ensures
            r == (self@.active is None && self@.mode == MicrophoneMode::OnDemand),
    {
        !self.is_recording() && self.mode == MicrophoneMode::OnDemand
    }

    /// Whether a matched stop closes the input stream (on demand).
    pub fn stop_closes_stream(&self) -> (r: bool)
        ensures
            r == (self@.mode == MicrophoneMode::OnDemand),
    {
        self.mode == MicrophoneMode::OnDemand
    }

    /// Starts a recording for `binding_id` if none is in flight and the
    /// input stream is available (`stream_ready`: the stream that
    /// `start_opens_stream` asked for did open, or none was needed).
    pub fn try_start_recording(&mut self, binding_id: &str, stream_ready: bool) -> (r: bool)
        ensures
            r == (old(self)@.active is None && stream_ready),
            r ==> final(self)@ == (SessionModel { active: Some(binding_id@), ..old(self)@ }),
            !r ==> final(self)@ == old(self)@,
    {
        match &self.state {
            RecordingState::Idle => {
                if !stream_ready {
                    return false;
                }
                self.state = RecordingState::Recording { binding_id: String::from_str(binding_id) };
                true
            },
            RecordingState::Recording { .. } => false,
        }
    }

    /// Ends the recording if `binding_id` started it; otherwise nothing
    /// changes. The result says whether it ended.
    pub fn stop_recording(&mut self, binding_id: &str) -> (r: bool)
        ensures
            r == (old(self)@.active == Some(binding_id@)),
            r ==> final(self)@ == (SessionModel { active: None, ..old(self)@ }),
            !r ==> final(self)@ == old(self)@,
    {
        let matched = match &self.state {
            RecordingState::Idle => false,
            RecordingState::Recording { binding_id: active } => {
                let asked = String::from_str(binding_id);
                *active == asked
            },
        };
        if matched {
            self.state = RecordingState::Idle;
        }
        matched
    }

    /// Ends any recording in flight, whichever binding started it.
    pub fn cancel_recording(&mut self) -> (r: bool)
        ensures
            r == old(self)@.active is Some,
            final(self)@ == (SessionModel { active: None, ..old(self)@ }),
    {
        let was = self.is_recording();
        self.state = RecordingState::Idle;
        was
    }

    /// Switches the mode. Leaving always-on while idle closes the stream;
    /// entering always-on opens it.
    pub fn update_mode(&mut self, new_mode: MicrophoneMode) -> (r: StreamAction)
        ensures
            final(self)@ == (SessionModel { mode: new_mode, ..old(self)@ }),
            r == (if old(self)@.mode == MicrophoneMode::AlwaysOn && new_mode == MicrophoneMode::OnDemand {
                if old(self)@.active is None { StreamAction::Close } else { StreamAction::Nothing }
            } else if old(self)@.mode == MicrophoneMode::OnDemand && new_mode == MicrophoneMode::AlwaysOn {
                StreamAction::Open
            } else {
                StreamAction::Nothing
            }),
    {
        let action = if self.mode == MicrophoneMode::AlwaysOn && new_mode == MicrophoneMode::OnDemand {
            if !self.is_recording() {
                StreamAction::Close
            } else {
                StreamAction::Nothing
            }
        } else if self.mode == MicrophoneMode::OnDemand && new_mode == MicrophoneMode::AlwaysOn {
            StreamAction::Open
        } else {
            StreamAction::Nothing
        };
        self.mode = new_mode;
        action
    }
}

} // verus!
