use std::sync::Arc;
use wayfarer::event::NoteEvent;
use wayfarer::session::{
    buffer_size_reading, negotiate, select_format, BufferRange, BufferSetting, SampleKind,
    SessionSettings, SetupError, StreamFormat, StreamRenderer,
};
use wayfarer::synth::Synth;
use wayfarer::tap::VisualizationTap;

fn format(kind: SampleKind, channels: u16, range: Option<(u32, u32)>) -> StreamFormat {
    StreamFormat {
        channels,
        min_sample_rate: 44100,
        max_sample_rate: 96000,
        sample_kind: kind,
        buffer_size: range.map(|(min, max)| BufferRange { min, max }),
    }
}

#[test]
fn first_stereo_float_format_is_chosen() {
    let formats = vec![
        format(SampleKind::I16, 2, None),
        format(SampleKind::F32, 1, None),
        format(SampleKind::F32, 2, Some((64, 4096))),
        format(SampleKind::F32, 2, None),
    ];
    assert_eq!(select_format(&formats), Some(2));
    assert_eq!(select_format(&formats[..2].to_vec()), None);
    assert_eq!(select_format(&vec![]), None);
}

#[test]
fn sample_rate_is_clamped() {
    let f = format(SampleKind::F32, 2, None);
    assert_eq!(negotiate(&f, 48000, None).sample_rate, 48000);
    assert_eq!(negotiate(&f, 22050, None).sample_rate, 44100);
    assert_eq!(negotiate(&f, 192000, None).sample_rate, 96000);
}

#[test]
fn forced_buffer_size_is_clamped() {
    let f = format(SampleKind::F32, 2, Some((64, 4096)));
    assert_eq!(negotiate(&f, 48000, Some(16)).buffer_size, BufferSetting::Fixed(64));
    assert_eq!(negotiate(&f, 48000, Some(10000)).buffer_size, BufferSetting::Fixed(4096));
    assert_eq!(negotiate(&f, 48000, Some(256)).buffer_size, BufferSetting::Fixed(256));
    assert_eq!(negotiate(&f, 48000, None).buffer_size, BufferSetting::Default);
    let g = format(SampleKind::F32, 2, None);
    assert_eq!(negotiate(&g, 48000, Some(256)).buffer_size, BufferSetting::Default);
}

#[test]
fn buffer_size_zero_means_unknown() {
    assert_eq!(buffer_size_reading(0), None);
    assert_eq!(buffer_size_reading(512), Some(512));
}

#[test]
fn same_device_does_not_rebuild() {
    let mut s = SessionSettings::new();
    assert!(!s.select_device(None));
    assert!(s.select_device(Some("card".to_string())));
    assert!(!s.select_device(Some("card".to_string())));
    assert!(s.select_device(Some("other".to_string())));
    assert_eq!(s.device_name, Some("other".to_string()));
}

#[test]
fn device_change_keeps_forced_size_and_drops_format() {
    let mut s = SessionSettings::new();
    assert!(s.set_forced_buffer_size(Some(128)));
    assert!(!s.set_forced_buffer_size(Some(128)));
    let formats = vec![format(SampleKind::F32, 2, Some((64, 4096)))];
    assert!(s.choose_format(&formats).is_ok());
    assert!(s.select_device(Some("b".to_string())));
    assert_eq!(s.format, None);
    assert_eq!(s.forced_buffer_size, Some(128));
    assert!(s.set_forced_buffer_size(None));
}

#[test]
fn no_compatible_format_is_reported() {
    let mut s = SessionSettings::new();
    let formats = vec![format(SampleKind::I16, 2, None)];
    assert_eq!(s.choose_format(&formats), Err(SetupError::NoCompatibleFormat));
    assert_eq!(SetupError::NoCompatibleFormat.message(), "no valid output audio config found");
    let inverted = vec![
        StreamFormat { min_sample_rate: 96000, max_sample_rate: 44100, ..format(SampleKind::F32, 2, None) },
        format(SampleKind::F32, 2, None),
    ];
    assert_eq!(s.choose_format(&inverted), Err(SetupError::InvalidRange));
    assert_eq!(s.format, None);
    assert_eq!(SetupError::InvalidRange.message(), "output audio config reports an empty range");
    assert_eq!(SetupError::ZeroSampleRate.message(), "output audio config has a sample rate of zero");
}

#[test]
fn format_with_zero_minimum_rate_is_chosen() {
    let mut s = SessionSettings::new();
    let zero_min = StreamFormat { min_sample_rate: 0, max_sample_rate: 48000, ..format(SampleKind::F32, 2, None) };
    let formats = vec![format(SampleKind::I16, 2, None), zero_min, format(SampleKind::F32, 2, None)];
    assert_eq!(select_format(&formats), Some(1));
    assert_eq!(s.choose_format(&formats), Ok(zero_min));
    assert_eq!(s.stream_config(44100).unwrap().sample_rate, 44100);
}

#[test]
fn stream_config_and_range_follow_format() {
    let mut s = SessionSettings::new();
    assert_eq!(s.stream_config(48000), None);
    assert_eq!(s.buffer_size_range(), None);
    s.set_forced_buffer_size(Some(1));
    let formats = vec![format(SampleKind::F32, 2, Some((64, 4096)))];
    s.choose_format(&formats).unwrap();
    let c = s.stream_config(48000).unwrap();
    assert_eq!(c.channels, 2);
    assert_eq!(c.sample_rate, 48000);
    assert_eq!(c.buffer_size, BufferSetting::Fixed(64));
    assert_eq!(s.buffer_size_range(), Some((64, 4096)));
}

#[test]
fn renderer_reports_frames_and_taps_left_channel() {
    let (tx, rx) = crossbeam::channel::bounded(8);
    let (producer, mut tap) = VisualizationTap::new(1024);
    let cell = Arc::new(crossbeam::atomic::AtomicCell::new(0u32));
    let mut r = StreamRenderer::new(Synth::new(rx), producer, cell.clone(), 48000, 2);
    tx.try_send(NoteEvent::On { note: 69, millihertz: 440_000, velocity: 127 }).unwrap();
    let mut out = vec![0i32; 200];
    assert_eq!(r.process(&mut out), 100);
    assert_eq!(cell.load(), 100);
    let left: Vec<i32> = out.chunks(2).map(|f| f[0]).collect();
    assert_eq!(tap.drain(), left);
}

#[test]
fn renderer_drops_what_does_not_fit() {
    let (_tx, rx) = crossbeam::channel::bounded(8);
    let (mut producer, mut tap) = VisualizationTap::new(8);
    for i in 0..5 {
        producer.push(100 + i).unwrap();
    }
    let cell = Arc::new(crossbeam::atomic::AtomicCell::new(0u32));
    let mut r = StreamRenderer::new(Synth::new(rx), producer, cell, 48000, 2);
    let mut out = vec![1i32; 20];
    assert_eq!(r.process(&mut out), 10);
    // room for three of the ten frames
    assert_eq!(tap.drain(), vec![100, 101, 102, 103, 104, 0, 0, 0]);
}
