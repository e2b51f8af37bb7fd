use wayfarer::event::{note_channel, KEY_COUNT};
use wayfarer::ingest::{ingest_message, ConnectOutcome, IngestAction, IngestOutcome, InputPort, RETRY_DELAY_MS};
use wayfarer::synth::Synth;

#[test]
fn no_input_port_reports_dash() {
    let mut port = InputPort::new();
    assert_eq!(port.get_name(), "-");
    assert_eq!(port.on_connect(ConnectOutcome::NoPort), IngestAction::RetryAfter(RETRY_DELAY_MS));
    assert_eq!(port.get_name(), "-");
    assert_eq!(
        port.on_connect(ConnectOutcome::Failed("busy".to_string())),
        IngestAction::RetryAfter(1000)
    );
    // the engine still takes programmatic note events
    let (tx, rx) = note_channel();
    let mut synth = Synth::new(rx);
    tx.try_send(wayfarer::event::NoteEvent::On { note: 60, millihertz: 261_626, velocity: 127 }).unwrap();
    let mut out = vec![0i32; 64];
    synth.play(48000, 2, &mut out);
    assert!(out.iter().any(|&s| s != 0));
}

#[test]
fn connected_port_reports_name() {
    let mut port = InputPort::new();
    assert_eq!(port.on_connect(ConnectOutcome::Connected("Keys".to_string())), IngestAction::Idle);
    assert_eq!(port.get_name(), "Keys");
}

#[test]
fn messages_are_queued_ignored_or_rejected() {
    let pitches: Vec<u32> = (0..KEY_COUNT as u32).collect();
    let (tx, rx) = crossbeam::channel::bounded(1);
    assert_eq!(ingest_message(&tx, &[0x90, 60, 90], &pitches), IngestOutcome::Queued);
    assert_eq!(ingest_message(&tx, &[0x80, 60, 0], &pitches), IngestOutcome::Dropped);
    assert_eq!(ingest_message(&tx, &[0xb0, 1, 2], &pitches), IngestOutcome::Ignored);
    assert_eq!(ingest_message(&tx, &[0x12], &pitches), IngestOutcome::Malformed);
    assert_eq!(rx.len(), 1);
}
