use audioviz::features::Features;

#[test]
fn ring_lookback_addresses_recent_frames() {
    let mut f = Features::new(2, 3, 0f64);
    for n in 1..=5 {
        f.increment_index();
        f.set_amplitudes(vec![n as f64, -(n as f64)]);
    }
    assert_eq!(f.get_frame_count(), 5);
    assert_eq!(f.get_amplitudes(0), &vec![5., -5.]);
    assert_eq!(f.get_amplitudes(1), &vec![4., -4.]);
    assert_eq!(f.get_amplitudes(2), &vec![3., -3.]);
    // a lookback of a full ring turn lands on the newest frame again
    assert_eq!(f.get_amplitudes(3), &vec![5., -5.]);
}

#[test]
fn cursor_follows_frame_count_modulo_length() {
    let mut f = Features::new(1, 4, 0f64);
    assert_eq!(f.get_index(), 0);
    for n in 1..=9 {
        f.increment_index();
        assert_eq!(f.get_frame_count(), n);
        assert_eq!(f.get_index(), n % 4);
    }
}

#[test]
fn fresh_store_is_filled() {
    let f = Features::new(3, 2, 0f64);
    assert_eq!(f.get_size(), (3, 2));
    assert_eq!(f.get_frame_count(), 0);
    assert_eq!(f.get_amplitudes(0), &vec![0., 0., 0.]);
    assert_eq!(f.get_amplitudes(1), &vec![0., 0., 0.]);
    assert_eq!(f.get_scales(), &vec![0., 0., 0.]);
    assert_eq!(f.get_diff(), &vec![0., 0., 0.]);
    assert_eq!(f.get_energy(), &vec![0., 0., 0.]);
}

#[test]
fn flat_vectors_update_independently() {
    let mut f = Features::new(2, 2, 0f64);
    f.increment_index();
    f.set_amplitudes(vec![10., 20.]);
    f.set_scales(vec![1., 2.]);
    f.set_diff(vec![3., 4.]);
    f.set_energy(vec![5., 6.]);
    assert_eq!(f.get_scales(), &vec![1., 2.]);
    assert_eq!(f.get_diff(), &vec![3., 4.]);
    assert_eq!(f.get_energy(), &vec![5., 6.]);
    assert_eq!(f.get_amplitudes(0), &vec![10., 20.]);
    assert_eq!(f.get_index(), 1);
}
