use handy::framing::frame_len_for_rates;
use handy::framing::{FrameResampler, RESAMPLER_CHUNK_SIZE};
use rubato::{FftFixedIn, Resampler};

#[test]
fn pass_through_reframes_and_pads_the_tail() {
    let mut r = FrameResampler::<f32>::new(16000, 16000, 30);
    assert!(!r.needs_resampling());
    assert_eq!(r.frame_samples(), 480);
    let input: Vec<f32> = (0..2000).map(|i| i as f32).collect();
    let mut frames = r.push(&input);
    if let Some(last) = r.finish(0.0) {
        frames.push(last);
    }
    let lens: Vec<usize> = frames.iter().map(|f| f.len()).collect();
    assert_eq!(lens, vec![480, 480, 480, 480, 480]);
    assert_eq!(lens.iter().sum::<usize>(), 2400);
    assert_eq!(frames[4][79], 1999.0);
    assert_eq!(frames[4][80], 0.0);
    assert_eq!(frames[1][0], 480.0);
}

#[test]
fn pass_through_in_small_pieces_matches_one_piece() {
    let mut r = FrameResampler::<u32>::new(16000, 16000, 30);
    let mut frames = Vec::new();
    for start in (0..1000u32).step_by(7) {
        let end = (start + 7).min(1000);
        let piece: Vec<u32> = (start..end).collect();
        frames.extend(r.push(&piece));
    }
    frames.extend(r.finish(0));
    let flat: Vec<u32> = frames.concat();
    assert_eq!(flat.len(), 1440);
    assert_eq!(&flat[..1000], &(0..1000u32).collect::<Vec<_>>()[..]);
    assert!(flat[1000..].iter().all(|&x| x == 0));
}

#[test]
fn exact_multiple_leaves_no_tail() {
    let mut r = FrameResampler::<i16>::new(16000, 16000, 30);
    let frames = r.push(&vec![1i16; 960]);
    assert_eq!(frames.len(), 2);
    assert!(r.finish(0).is_none());
}

#[test]
fn frame_length_rounds_to_nearest() {
    assert_eq!(FrameResampler::<f32>::new(8000, 16000, 10).frame_samples(), 160);
    assert_eq!(FrameResampler::<f32>::new(44100, 44100, 1).frame_samples(), 44);
    assert_eq!(FrameResampler::<f32>::new(44100, 22050, 1).frame_samples(), 22);
}

fn run_resampled(in_hz: usize, out_hz: usize, n: usize) -> Vec<Vec<f32>> {
    let mut r = FrameResampler::<f32>::new(in_hz, out_hz, 30);
    assert!(r.needs_resampling());
    let mut rs = FftFixedIn::<f32>::new(in_hz, out_hz, RESAMPLER_CHUNK_SIZE, 1, 1).unwrap();
    let input: Vec<f32> = (0..n).map(|i| ((i as f32) * 0.01).sin()).collect();
    let mut frames = Vec::new();
    for block in r.push(&input) {
        let out = rs.process(&[&block[..]], None).unwrap();
        frames.extend(r.emit_frames(&out[0]));
    }
    if let Some(block) = r.finish_input(0.0) {
        let out = rs.process(&[&block[..]], None).unwrap();
        frames.extend(r.emit_frames(&out[0]));
    }
    frames.extend(r.finish(0.0));
    frames
}

#[test]
fn upsampling_yields_whole_frames() {
    let frames = run_resampled(8000, 16000, 1000);
    let total: usize = frames.iter().map(|f| f.len()).sum();
    assert!(frames.iter().all(|f| f.len() == 480));
    assert!(total >= 2000);
    assert_eq!(total % 480, 0);
}

#[test]
fn input_blocks_have_the_chunk_size() {
    let mut r = FrameResampler::<f32>::new(48000, 16000, 30);
    let blocks = r.push(&vec![0.5f32; 2500]);
    assert_eq!(blocks.len(), 2);
    assert!(blocks.iter().all(|b| b.len() == RESAMPLER_CHUNK_SIZE));
    let last = r.finish_input(0.0).unwrap();
    assert_eq!(last.len(), RESAMPLER_CHUNK_SIZE);
    assert_eq!(last[451], 0.5);
    assert_eq!(last[452], 0.0);
    assert!(r.finish_input(0.0).is_none());
}

#[test]
fn frame_length_helper_reports_overflow() {
    assert_eq!(frame_len_for_rates(16000, 30), Some(480));
    assert_eq!(frame_len_for_rates(usize::MAX, 2), None);
}

#[test]
fn reset_forgets_partial_frames_and_blocks() {
    let mut r = FrameResampler::<f32>::new(16000, 16000, 30);
    assert!(r.push(&vec![1.0f32; 100]).is_empty());
    r.reset();
    let frames = r.push(&vec![2.0f32; 480]);
    assert_eq!(frames.len(), 1);
    assert!(frames[0].iter().all(|&x| x == 2.0));
    assert!(r.finish(0.0).is_none());
    let mut q = FrameResampler::<f32>::new(48000, 16000, 30);
    assert!(q.push(&vec![1.0f32; 10]).is_empty());
    q.reset();
    assert!(q.finish_input(0.0).is_none());
}
