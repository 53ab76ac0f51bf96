use audioviz::buffer::WindowBuffer;

#[test]
fn buffer_it_works() {
    let mut b = WindowBuffer::new(4, 0f64);

    let v = vec![0f64, 1., 2., 3.];
    b.push(&v);
    assert_eq!(b.get(4), v);

    b.push(&vec![69., 420.]);
    assert_eq!(b.get(4), vec![2., 3., 69., 420.]);
}

#[test]
fn partial_push_then_get() {
    let mut b = WindowBuffer::new(5, 0f64);
    let v = vec![7., 8., 9.];
    b.push(&v);
    assert_eq!(b.get(3), v);
}

#[test]
fn pushes_summing_to_capacity_keep_order() {
    let mut b = WindowBuffer::new(6, 0f64);
    b.push(&vec![1., 2.]);
    b.push(&vec![3., 4., 5.]);
    b.push(&vec![6.]);
    assert_eq!(b.get(6), vec![1., 2., 3., 4., 5., 6.]);
}

#[test]
fn push_of_full_capacity_replaces_window() {
    let mut b = WindowBuffer::new(3, 0f64);
    b.push(&vec![1., 2., 3.]);
    b.push(&vec![4., 5., 6.]);
    assert_eq!(b.get(3), vec![4., 5., 6.]);
}

#[test]
fn repeated_wraparound() {
    let mut b = WindowBuffer::new(4, 0i64);
    for k in 0..10i64 {
        b.push(&vec![2 * k, 2 * k + 1]);
    }
    assert_eq!(b.get(4), vec![16, 17, 18, 19]);
    assert_eq!(b.get(2), vec![18, 19]);
}

#[test]
fn get_zero_is_empty() {
    let mut b = WindowBuffer::new(4, 0f64);
    b.push(&vec![1., 2., 3.]);
    assert_eq!(b.get(0), Vec::<f64>::new());
}

#[test]
fn empty_push_changes_nothing() {
    let mut b = WindowBuffer::new(3, 1f64);
    b.push(&Vec::new());
    assert_eq!(b.get(3), vec![1., 1., 1.]);
    assert_eq!(b.capacity(), 3);
}
