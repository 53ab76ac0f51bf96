use audioviz::analyzer::BlockCounter;

#[test]
fn counter_fires_once_per_block() {
    let mut c = BlockCounter::new(128);
    assert_eq!(c.block_size(), 128);
    assert!(!c.add(100));
    assert_eq!(c.sample_count(), 100);
    assert!(c.add(28));
    assert_eq!(c.sample_count(), 0);
    assert!(!c.add(127));
    assert!(c.add(1));
}

#[test]
fn counter_fires_on_overshoot() {
    let mut c = BlockCounter::new(64);
    assert!(c.add(100));
    assert_eq!(c.sample_count(), 0);
}

#[test]
fn zero_block_size_fires_every_frame() {
    let mut c = BlockCounter::new(0);
    assert!(c.add(0));
    assert!(c.add(3));
    assert_eq!(c.sample_count(), 0);
}
