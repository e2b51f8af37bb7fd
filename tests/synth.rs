use wayfarer::event::NoteEvent;
use wayfarer::synth::{EngineState, Synth, SAMPLE_ONE};

fn engine() -> (crossbeam::channel::Sender<NoteEvent>, Synth) {
    let (tx, rx) = crossbeam::channel::bounded(256);
    (tx, Synth::new(rx))
}

fn to_float(samples: &[i32]) -> Vec<f32> {
    samples.iter().map(|&s| s as f32 / SAMPLE_ONE as f32).collect()
}

#[test]
fn silence() {
    let (_tx, rx) = crossbeam::channel::bounded(1);
    let mut synth = Synth::new(rx);
    let mut data = vec![0i32; 512];
    synth.play(48000, 2, &mut data);
    assert_eq!([0f32; 512].to_vec(), to_float(&data));
}

#[test]
fn silence_advances_clock() {
    let (_tx, mut synth) = engine();
    let mut data = vec![7i32; 512];
    synth.play(48000, 2, &mut data);
    assert!(data.iter().all(|&s| s == 0));
    assert_eq!(synth.state.clock, 256);
    assert!(synth.state.active.is_none());
}

#[test]
fn silence_resumes_unchanged() {
    let (_tx, mut synth) = engine();
    let mut first = vec![1i32; 300];
    synth.play(44100, 3, &mut first);
    let mut second = vec![5i32; 300];
    synth.play(44100, 3, &mut second);
    assert_eq!(first, second);
    assert!(second.iter().all(|&s| s == 0));
    assert_eq!(synth.state.clock, 200);
}

#[test]
fn note_on_then_off_ramps() {
    let (tx, mut synth) = engine();
    tx.try_send(NoteEvent::On { note: 69, millihertz: 440_000, velocity: 127 }).unwrap();
    let mut data = vec![0i32; 96];
    synth.play(48000, 2, &mut data);
    assert!(data.iter().any(|&s| s != 0));
    for frame in data.chunks(2) {
        assert_eq!(frame[0], frame[1]);
    }
    assert_eq!(data[0], 0);
    let mags: Vec<i64> = data.chunks(2).map(|f| (f[0] as i64).abs()).collect();
    for w in mags.windows(2) {
        assert!(w[0] <= w[1], "attack not rising: {:?}", w);
    }

    tx.try_send(NoteEvent::Off { note: 69 }).unwrap();
    let mut data = vec![0i32; 96];
    synth.play(48000, 2, &mut data);
    for frame in data.chunks(2) {
        assert_eq!(frame[0], frame[1]);
    }
    let mags: Vec<i64> = data.chunks(2).map(|f| (f[0] as i64).abs()).collect();
    for w in mags.windows(2) {
        assert!(w[0] >= w[1], "release not falling: {:?}", w);
    }
    assert!(mags[0] > 0);
    assert_eq!(mags[47], 0);
    assert!(synth.state.active.is_none());
    let mut rest = vec![1i32; 64];
    synth.play(48000, 2, &mut rest);
    assert!(rest.iter().all(|&s| s == 0));
    assert!(synth.state.active.is_none());
}

#[test]
fn channels_hold_same_sample() {
    let (tx, mut synth) = engine();
    tx.try_send(NoteEvent::On { note: 60, millihertz: 261_626, velocity: 90 }).unwrap();
    let mut data = vec![0i32; 4 * 500];
    synth.play(44100, 4, &mut data);
    for frame in data.chunks(4) {
        assert!(frame.iter().all(|&s| s == frame[0]));
    }
    assert!(data.iter().any(|&s| s != 0));
}

#[test]
fn partial_frame_is_zeroed() {
    let (tx, mut synth) = engine();
    tx.try_send(NoteEvent::On { note: 60, millihertz: 261_626, velocity: 127 }).unwrap();
    let mut data = vec![9i32; 301];
    synth.play(48000, 2, &mut data);
    assert_eq!(data[300], 0);
    assert_eq!(synth.state.clock, 150);
}

#[test]
fn off_for_other_note_is_ignored() {
    let mut s = EngineState::new();
    s.apply_event(NoteEvent::On { note: 60, millihertz: 261_626, velocity: 100 });
    s.apply_event(NoteEvent::Off { note: 61 });
    let a = s.active.unwrap();
    assert_eq!(a.released, None);
    s.apply_event(NoteEvent::Off { note: 60 });
    assert_eq!(s.active.unwrap().released, Some(0));
}

#[test]
fn second_on_replaces_note() {
    let mut s = EngineState::new();
    s.apply_event(NoteEvent::On { note: 60, millihertz: 261_626, velocity: 100 });
    let mut buf = vec![0i32; 20];
    s.render(48000, 2, &mut buf);
    s.apply_event(NoteEvent::Off { note: 60 });
    s.apply_event(NoteEvent::On { note: 64, millihertz: 329_628, velocity: 200 });
    let a = s.active.unwrap();
    assert_eq!(a.note, 64);
    assert_eq!(a.pressed, 10);
    assert_eq!(a.released, None);
    assert_eq!(a.velocity, 127);
}

#[test]
fn sawtooth_value_exact() {
    // 1 kHz at 8 kHz: frame 2 is a quarter period in; the attack is full
    // after 8 frames, so frames 1 and 2 are scaled by 1/8 and 2/8 of full.
    let mut s = EngineState::new();
    s.apply_event(NoteEvent::On { note: 84, millihertz: 1_000_000, velocity: 127 });
    let mut buf = vec![0i32; 3];
    s.render(8000, 1, &mut buf);
    // frame 0: attack gain zero
    assert_eq!(buf[0], 0);
    // frame 1: saw = 2^24 / 8 = 2097152; filter memory = 2097152 * 100 / 8000 = 26214;
    // (2097152 - 26214) * 1000 / 8000 = 258867
    assert_eq!(buf[1], 258867);
    // frame 2: saw = 4194304; memory = (4194304*100 + 26214*7900)/8000 = 78315;
    // (4194304 - 78315) * 2000 / 8000 = 1028997
    assert_eq!(buf[2], 1028997);
    assert_eq!(s.lopass, 78315);
}

#[test]
fn release_reaches_zero_exactly() {
    let mut s = EngineState::new();
    s.apply_event(NoteEvent::On { note: 84, millihertz: 1_000_000, velocity: 127 });
    let mut buf = vec![0i32; 16];
    s.render(8000, 1, &mut buf);
    s.apply_event(NoteEvent::Off { note: 84 });
    let mut buf = vec![0i32; 12];
    s.render(8000, 1, &mut buf);
    // the fade lasts 8 frames: the 8th frame after the release is zero
    assert!(buf[..7].iter().all(|&x| x != 0));
    assert!(buf[7..].iter().all(|&x| x == 0));
    assert!(s.active.is_none());
}
