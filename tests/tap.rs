use wayfarer::tap::{VisualizationTap, VISUALIZATION_CAPACITY};

#[test]
fn overflow_drops_newest_and_drain_is_bounded() {
    let (mut producer, mut tap) = VisualizationTap::new(4);
    for i in 0..10 {
        let pushed = producer.push(i).is_ok();
        assert_eq!(pushed, i < 4);
    }
    let drained = tap.drain();
    assert_eq!(drained, vec![0, 1, 2, 3]);
    assert!(tap.drain().is_empty());
}

#[test]
fn full_size_overflow() {
    let (mut producer, mut tap) = VisualizationTap::new(VISUALIZATION_CAPACITY);
    for i in 0..(VISUALIZATION_CAPACITY as i32 + 100) {
        let _ = producer.push(i);
    }
    let drained = tap.drain();
    assert_eq!(drained.len(), VISUALIZATION_CAPACITY);
    assert_eq!(drained[0], 0);
    assert_eq!(drained[VISUALIZATION_CAPACITY - 1], VISUALIZATION_CAPACITY as i32 - 1);
}

#[test]
fn empty_tap_drains_nothing() {
    let (_producer, mut tap) = VisualizationTap::new(8);
    assert!(tap.drain().is_empty());
}

#[test]
fn drain_returns_everything_in_order() {
    let (mut producer, mut tap) = VisualizationTap::new(16);
    for i in 0..5 {
        producer.push(i * 3).unwrap();
    }
    assert_eq!(tap.drain(), vec![0, 3, 6, 9, 12]);
    producer.push(42).unwrap();
    assert_eq!(tap.drain(), vec![42]);
}
