use wayfarer::audio::AudioManager;
use wayfarer::session::{BufferRange, BufferSetting, SampleKind, SetupError, StreamFormat};
use wayfarer::synth::Synth;

fn formats() -> Vec<StreamFormat> {
    vec![StreamFormat {
        channels: 2,
        min_sample_rate: 8000,
        max_sample_rate: 48000,
        sample_kind: SampleKind::F32,
        buffer_size: Some(BufferRange { min: 32, max: 2048 }),
    }]
}

#[test]
fn manager_starts_empty() {
    let mut m = AudioManager::new();
    assert_eq!(m.get_name(), None);
    assert_eq!(m.get_buffer_size(), None);
    assert_eq!(m.get_buffer_size_range(), None);
    assert!(m.pop_each_left_vis_buffer().is_empty());
}

#[test]
fn manager_prepares_session() {
    let mut m = AudioManager::new();
    assert!(m.set_device(Some("card".to_string())));
    assert_eq!(m.get_name(), Some("card".to_string()));
    assert!(m.set_forced_buffer_size(Some(4096)));
    let (_tx, rx) = crossbeam::channel::bounded(4);
    let (config, mut renderer) = m.prepare_stream(&formats(), 96000, Synth::new(rx)).ok().unwrap();
    assert_eq!(config.sample_rate, 48000);
    assert_eq!(config.buffer_size, BufferSetting::Fixed(2048));
    assert_eq!(m.get_buffer_size_range(), Some((32, 2048)));
    let mut out = vec![0i32; 2048 * 2];
    renderer.process(&mut out);
    assert_eq!(m.get_buffer_size(), Some(2048));
    assert_eq!(m.pop_each_left_vis_buffer().len(), 2048);
}

#[test]
fn manager_reports_incompatible_device() {
    let mut m = AudioManager::new();
    let (_tx, rx) = crossbeam::channel::bounded(4);
    let mono = vec![StreamFormat { channels: 1, ..formats()[0] }];
    assert_eq!(m.prepare_stream(&mono, 48000, Synth::new(rx)).err(), Some(SetupError::NoCompatibleFormat));
}

#[test]
fn unchanged_settings_keep_unread_samples() {
    let mut m = AudioManager::new();
    m.set_device(Some("card".to_string()));
    let (_tx, rx) = crossbeam::channel::bounded(4);
    let (_config, mut renderer) = m.prepare_stream(&formats(), 48000, Synth::new(rx)).ok().unwrap();
    let mut out = vec![0i32; 64];
    renderer.process(&mut out);
    assert!(!m.set_device(Some("card".to_string())));
    assert!(!m.set_forced_buffer_size(None));
    let drained = m.pop_each_left_vis_buffer();
    assert_eq!(drained.len(), 32);
    assert!(m.pop_each_left_vis_buffer().is_empty());
}

#[test]
fn rebuild_starts_with_empty_tap() {
    let mut m = AudioManager::new();
    let (_tx, rx) = crossbeam::channel::bounded(4);
    let (_c, mut renderer) = m.prepare_stream(&formats(), 48000, Synth::new(rx.clone())).ok().unwrap();
    let mut out = vec![0i32; 64];
    renderer.process(&mut out);
    assert!(m.set_forced_buffer_size(Some(16)));
    let (c, _renderer) = m.prepare_stream(&formats(), 48000, Synth::new(rx)).ok().unwrap();
    assert_eq!(c.buffer_size, BufferSetting::Fixed(32));
    assert!(m.pop_each_left_vis_buffer().is_empty());
}

#[test]
fn failed_setup_leaves_no_range() {
    let mut m = AudioManager::new();
    let (_tx, rx) = crossbeam::channel::bounded(4);
    let mono = vec![StreamFormat { channels: 1, ..formats()[0] }];
    assert!(m.prepare_stream(&mono, 48000, Synth::new(rx)).is_err());
    assert_eq!(m.get_buffer_size_range(), None);
    assert!(m.pop_each_left_vis_buffer().is_empty());
}

#[test]
fn zero_rate_is_a_setup_error() {
    let mut m = AudioManager::new();
    let (_tx, rx) = crossbeam::channel::bounded(4);
    let zero = vec![StreamFormat { min_sample_rate: 0, max_sample_rate: 0, ..formats()[0] }];
    assert_eq!(m.prepare_stream(&zero, 44100, Synth::new(rx.clone())).err(), Some(SetupError::ZeroSampleRate));
    assert_eq!(m.get_buffer_size_range(), None);
    let low = vec![StreamFormat { min_sample_rate: 0, max_sample_rate: 48000, ..formats()[0] }];
    let (c, _r) = m.prepare_stream(&low, 44100, Synth::new(rx)).ok().unwrap();
    assert_eq!(c.sample_rate, 44100);
}
