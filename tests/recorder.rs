use handy::framing::FrameResampler;
use handy::recorder::{AudioRecordingManager, MicrophoneMode, RecorderWorker, StreamAction};
use handy::transcription::{TranscribeGate, TranscriptionManager};
use handy::vad::{SmoothedVad, VadError};

/// Feeds `input` through a pass-through framer into the worker, with the
/// given classifier verdict for every frame.
fn feed(worker: &mut RecorderWorker<f32>, framer: &mut FrameResampler<f32>, input: &[f32], voiced: bool) {
    for frame in framer.push(input) {
        worker.handle_frame(&frame, Ok(voiced));
    }
}

fn stop(worker: &mut RecorderWorker<f32>, framer: &mut FrameResampler<f32>, voiced: bool) -> Vec<f32> {
    if worker.begin_stop() {
        if let Some(frame) = framer.finish(0.0) {
            worker.handle_frame(&frame, Ok(voiced));
        }
    } else {
        framer.reset();
    }
    worker.take_samples()
}

#[test]
fn silence_after_start_yields_nothing_with_a_detector() {
    let vad = SmoothedVad::<f32>::new(15, 15, 2);
    let mut worker = RecorderWorker::new(480, Some(vad));
    let mut framer = FrameResampler::<f32>::new(16000, 16000, 30);
    worker.start();
    feed(&mut worker, &mut framer, &vec![0.0f32; 32000], false);
    let out = stop(&mut worker, &mut framer, false);
    assert!(out.len() == 0 || out.len() == 480);
    assert_eq!(out.len() % 480, 0);
    // an empty utterance transcribes to the empty string without a decode
    let mut tm = TranscriptionManager::<u8>::new(0);
    tm.install_engine(1, "m");
    if out.is_empty() {
        assert_eq!(tm.begin_transcribe(1, out.len()), TranscribeGate::Empty);
    }
}

#[test]
fn without_start_stop_returns_nothing() {
    let mut worker = RecorderWorker::<f32>::new(480, None);
    let mut framer = FrameResampler::<f32>::new(16000, 16000, 30);
    feed(&mut worker, &mut framer, &vec![0.3f32; 4800], true);
    let out = stop(&mut worker, &mut framer, true);
    assert!(out.is_empty());
    feed(&mut worker, &mut framer, &vec![0.3f32; 100], true);
    let tail = stop(&mut worker, &mut framer, true);
    assert!(tail.is_empty());
    // even a tail pushed straight through the worker after a Stop is ignored
    worker.begin_stop();
    worker.handle_frame(&vec![0.5f32; 480], Ok(true));
    assert!(worker.take_samples().is_empty());
}

#[test]
fn stop_returns_whole_frames() {
    let vad = SmoothedVad::<f32>::new(2, 1, 1);
    let mut worker = RecorderWorker::new(480, Some(vad));
    let mut framer = FrameResampler::<f32>::new(16000, 16000, 30);
    worker.start();
    feed(&mut worker, &mut framer, &vec![0.1f32; 1000], false);
    feed(&mut worker, &mut framer, &vec![0.2f32; 1000], true);
    let out = stop(&mut worker, &mut framer, true);
    assert!(out.len() > 0);
    assert_eq!(out.len() % 480, 0);
}

#[test]
fn without_detector_every_frame_is_kept_while_recording() {
    let mut worker = RecorderWorker::<f32>::new(480, None);
    let mut framer = FrameResampler::<f32>::new(16000, 16000, 30);
    feed(&mut worker, &mut framer, &vec![1.0f32; 500], true);
    // Start drops the partial frame captured before it
    framer.reset();
    worker.start();
    feed(&mut worker, &mut framer, &vec![2.0f32; 1000], true);
    let out = stop(&mut worker, &mut framer, true);
    assert_eq!(out.len(), 1440);
    assert!(out[..1000].iter().all(|&x| x == 2.0));
    assert!(out[1000..].iter().all(|&x| x == 0.0));
}

#[test]
fn failed_classification_keeps_the_frame() {
    let vad = SmoothedVad::<f32>::new(0, 0, 5);
    let mut worker = RecorderWorker::new(3, Some(vad));
    worker.start();
    assert!(worker.needs_verdict());
    worker.handle_frame(&[1.0, 2.0, 3.0], Err(VadError::InvalidFrame));
    worker.handle_frame(&[4.0, 5.0, 6.0], Ok(true));
    assert_eq!(worker.take_samples(), vec![1.0, 2.0, 3.0]);
}

#[test]
fn start_clears_an_earlier_utterance() {
    let mut worker = RecorderWorker::<u8>::new(2, None);
    worker.start();
    worker.handle_frame(&[1, 2], Ok(true));
    worker.start();
    worker.handle_frame(&[3, 4], Ok(true));
    assert_eq!(worker.take_samples(), vec![3, 4]);
}

#[test]
fn second_start_is_rejected_and_foreign_stop_ignored() {
    let mut m = AudioRecordingManager::new(MicrophoneMode::AlwaysOn);
    assert!(m.try_start_recording("A", true));
    assert!(!m.try_start_recording("B", true));
    assert!(!m.stop_recording("B"));
    assert!(m.is_recording());
    assert!(m.stop_recording("A"));
    assert!(!m.is_recording());
    assert!(!m.stop_recording("A"));
}

#[test]
fn on_demand_start_needs_the_stream() {
    let mut m = AudioRecordingManager::new(AudioRecordingManager::mode_for(false));
    assert_eq!(m.mode(), MicrophoneMode::OnDemand);
    assert!(m.start_opens_stream());
    assert!(!m.try_start_recording("A", false));
    assert!(!m.is_recording());
    assert!(m.try_start_recording("A", true));
    assert!(!m.start_opens_stream());
    assert!(m.stop_closes_stream());
}

#[test]
fn mode_changes_ask_for_stream_actions() {
    let mut m = AudioRecordingManager::new(MicrophoneMode::AlwaysOn);
    assert_eq!(m.update_mode(MicrophoneMode::OnDemand), StreamAction::Close);
    assert_eq!(m.update_mode(MicrophoneMode::AlwaysOn), StreamAction::Open);
    assert!(m.try_start_recording("x", true));
    assert_eq!(m.update_mode(MicrophoneMode::OnDemand), StreamAction::Nothing);
    assert_eq!(m.update_mode(MicrophoneMode::OnDemand), StreamAction::Nothing);
    assert!(m.cancel_recording());
    assert!(!m.is_recording());
}

#[test]
fn room_check_counts_the_full_pre_roll() {
    let vad = SmoothedVad::<u8>::new(3, 0, 1);
    let worker = RecorderWorker::new(480, Some(vad));
    assert!(worker.has_room());
    let huge = RecorderWorker::<u8>::new(usize::MAX, Some(SmoothedVad::new(1, 0, 1)));
    assert!(!huge.has_room());
}

#[test]
fn stop_keeps_the_tail_of_a_recording_in_flight() {
    let mut worker = RecorderWorker::<f32>::new(480, None);
    let mut framer = FrameResampler::<f32>::new(16000, 16000, 30);
    worker.start();
    feed(&mut worker, &mut framer, &vec![0.5f32; 100], true);
    let out = stop(&mut worker, &mut framer, true);
    assert_eq!(out.len(), 480);
    assert_eq!(out[99], 0.5);
    assert_eq!(out[100], 0.0);
    // after the hand-over the worker keeps nothing until the next Start
    worker.handle_frame(&vec![0.5f32; 480], Ok(true));
    assert!(worker.take_samples().is_empty());
}
