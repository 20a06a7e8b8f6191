use handy::vad::{check_frame, SmoothedVad, VadError, VadFrame};

fn tag<T>(f: &Result<VadFrame<T>, VadError>) -> &'static str {
    match f {
        Ok(VadFrame::Speech(_)) => "S",
        Ok(VadFrame::Noise) => "N",
        Err(_) => "E",
    }
}

#[test]
fn onset_prefill_and_hangover_sequence() {
    let mut vad = SmoothedVad::<f32>::new(2, 2, 3);
    let verdicts = [false, false, true, true, true, false, false, false, false];
    let mut tags = Vec::new();
    let mut lens = Vec::new();
    for (i, v) in verdicts.iter().enumerate() {
        let frame = vec![i as f32; 480];
        let out = vad.push_frame(&frame, Ok(*v));
        tags.push(tag(&out));
        if let Ok(VadFrame::Speech(g)) = out {
            lens.push(g.len());
        }
    }
    assert_eq!(tags, vec!["N", "N", "N", "N", "S", "S", "S", "N", "N"]);
    // onset carries the pre-roll (two earlier frames) and the current frame
    assert_eq!(lens, vec![1440, 480, 480]);
}

#[test]
fn onset_payload_is_the_ring_in_order() {
    let mut vad = SmoothedVad::<i32>::new(1, 0, 2);
    assert!(matches!(vad.push_frame(&[1, 1], Ok(false)), Ok(VadFrame::Noise)));
    assert!(matches!(vad.push_frame(&[2, 2], Ok(true)), Ok(VadFrame::Noise)));
    match vad.push_frame(&[3, 3], Ok(true)) {
        Ok(VadFrame::Speech(g)) => assert_eq!(g, vec![2, 2, 3, 3]),
        _ => panic!("expected speech"),
    }
}

#[test]
fn payload_lengths_are_one_frame_or_full_ring() {
    let mut vad = SmoothedVad::<f32>::new(3, 1, 1);
    let pattern = [false, false, false, false, true, true, false, false, true, false];
    for v in pattern {
        let frame = vec![0.25f32; 480];
        if let Ok(VadFrame::Speech(g)) = vad.push_frame(&frame, Ok(v)) {
            assert!(g.len() == 480 || g.len() == 4 * 480);
        }
    }
}

#[test]
fn hangover_counts_unvoiced_frames() {
    let mut vad = SmoothedVad::<u8>::new(0, 3, 1);
    let mut tags = Vec::new();
    for v in [true, false, false, false, false, false] {
        tags.push(tag(&vad.push_frame(&[7], Ok(v))));
    }
    assert_eq!(tags, vec!["S", "S", "S", "S", "N", "N"]);
}

#[test]
fn failed_classification_is_passed_on() {
    let mut vad = SmoothedVad::<u8>::new(1, 0, 1);
    let out = vad.push_frame(&[1, 2, 3], Err(VadError::InvalidFrame));
    assert!(matches!(out, Err(VadError::InvalidFrame)));
    // the frame still entered the pre-roll
    match vad.push_frame(&[4, 5, 6], Ok(true)) {
        Ok(VadFrame::Speech(g)) => assert_eq!(g, vec![1, 2, 3, 4, 5, 6]),
        _ => panic!("expected speech"),
    }
}

#[test]
fn reset_forgets_the_ring_and_speech() {
    let mut vad = SmoothedVad::<u8>::new(2, 5, 1);
    assert!(vad.push_frame(&[1], Ok(true)).unwrap().is_speech());
    vad.reset();
    assert!(!vad.push_frame(&[2], Ok(false)).unwrap().is_speech());
    match vad.push_frame(&[3], Ok(true)) {
        Ok(VadFrame::Speech(g)) => assert_eq!(g, vec![2, 3]),
        _ => panic!("expected speech"),
    }
}

#[test]
fn classifier_rejects_frames_of_the_wrong_length() {
    assert_eq!(check_frame(480, 480), Ok(()));
    assert_eq!(check_frame(479, 480), Err(VadError::InvalidFrame));
}
