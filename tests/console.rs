use handy::console::{parse_command, parse_mode_word, ConsoleCommand, ConsoleError, RecorderOp, RecorderState};
use handy::recorder::MicrophoneMode;

#[test]
fn parses_commands() {
    assert_eq!(parse_command("  \n"), ConsoleCommand::Empty);
    assert_eq!(parse_command("start\n"), ConsoleCommand::Start(None));
    assert_eq!(parse_command("S 2"), ConsoleCommand::Start(Some(2)));
    assert_eq!(parse_command("start x"), ConsoleCommand::BadDeviceIndex);
    assert_eq!(parse_command("stop"), ConsoleCommand::Stop);
    assert_eq!(parse_command("mode"), ConsoleCommand::Mode(None));
    assert_eq!(parse_command("mode On-Demand"), ConsoleCommand::Mode(Some(Some(MicrophoneMode::OnDemand))));
    assert_eq!(parse_command("mode sideways"), ConsoleCommand::Mode(Some(None)));
    assert_eq!(parse_command("dev"), ConsoleCommand::Devices);
    assert_eq!(parse_command("QUIT"), ConsoleCommand::Quit);
    assert_eq!(parse_command("dance"), ConsoleCommand::Unknown);
    assert_eq!(parse_mode_word("a"), Some(MicrophoneMode::AlwaysOn));
}

#[test]
fn always_on_opens_once() {
    let mut s = RecorderState::new();
    assert_eq!(s.start_recording(None, 2), Ok(vec![RecorderOp::Open(None), RecorderOp::Start]));
    assert_eq!(s.start_recording(None, 2), Err(ConsoleError::AlreadyRecording));
    assert_eq!(s.stop_recording(), Ok(vec![RecorderOp::Stop]));
    assert!(s.is_open());
    assert_eq!(s.start_recording(None, 2), Ok(vec![RecorderOp::Start]));
    assert_eq!(s.stop_recording(), Ok(vec![RecorderOp::Stop]));
    assert_eq!(
        s.start_recording(Some(1), 2),
        Ok(vec![RecorderOp::Close, RecorderOp::Open(Some(1)), RecorderOp::Start])
    );
    assert_eq!(s.stop_recording(), Ok(vec![RecorderOp::Stop]));
    assert_eq!(s.stop_recording(), Err(ConsoleError::NotRecording));
    assert_eq!(s.start_recording(Some(2), 2), Err(ConsoleError::InvalidDevice));
}

#[test]
fn on_demand_opens_per_recording() {
    let mut s = RecorderState::new();
    assert!(s.switch_mode(MicrophoneMode::OnDemand).is_empty());
    assert_eq!(s.start_recording(Some(0), 1), Ok(vec![RecorderOp::Open(Some(0)), RecorderOp::Start]));
    assert_eq!(s.stop_recording(), Ok(vec![RecorderOp::Stop, RecorderOp::Close]));
    assert!(!s.is_open());
    assert_eq!(s.current_device_index(), None);
}

#[test]
fn switching_modes_stops_and_closes() {
    let mut s = RecorderState::new();
    s.start_recording(None, 1).unwrap();
    assert_eq!(s.switch_mode(MicrophoneMode::OnDemand), vec![RecorderOp::Stop, RecorderOp::Close]);
    assert!(!s.is_recording());
    assert!(s.switch_mode(MicrophoneMode::OnDemand).is_empty());
    s.start_recording(None, 1).unwrap();
    assert_eq!(s.close(), vec![RecorderOp::Stop, RecorderOp::Close]);
    assert!(s.close().is_empty());
    let before = s.recording_index();
    s.note_saved();
    assert_eq!(s.recording_index(), before + 1);
}

#[test]
fn device_index_reads_like_unsigned_parse() {
    assert_eq!(parse_command("start +3"), ConsoleCommand::Start(Some(3)));
    assert_eq!(parse_command("start 007"), ConsoleCommand::Start(Some(7)));
    assert_eq!(parse_command("start 18446744073709551615"), ConsoleCommand::Start(Some(usize::MAX)));
    assert_eq!(parse_command("start 18446744073709551616"), ConsoleCommand::BadDeviceIndex);
    assert_eq!(parse_command("start -1"), ConsoleCommand::BadDeviceIndex);
    assert_eq!(parse_command("start +"), ConsoleCommand::BadDeviceIndex);
    assert_eq!(parse_command("start ++1"), ConsoleCommand::BadDeviceIndex);
    assert_eq!(parse_command("start \u{ff13}"), ConsoleCommand::BadDeviceIndex);
    assert_eq!(parse_command("start 1x"), ConsoleCommand::BadDeviceIndex);
}
