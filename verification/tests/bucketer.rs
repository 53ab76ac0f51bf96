use audioviz::bucketer::Bucketer;

fn to_log_scale(x: f64) -> f64 {
    (x + 1.).log2()
}

fn from_log_scale(x: f64) -> f64 {
    (2f64).powf(x) + 1.
}

/// Drives the boundary placer with the log-scale proposals the analysis
/// pipeline uses, folding the placer's offset accumulator back into each
/// proposal.
fn build_bucketer(input_size: usize, buckets: usize, f_min: f64, f_max: f64) -> Bucketer {
    let mut b = Bucketer::new(input_size, buckets);

    let s_min = to_log_scale(f_min);
    let s_max = to_log_scale(f_max);

    let buckets_f = buckets as f64;
    let input_size_f = input_size as f64;
    let space = (s_max - s_min) / buckets_f;
    let delta = (s_max - s_min) / input_size_f;

    for i in 0..buckets - 1 {
        let offset = b.offset() as f64;
        let adj = space - delta * offset / buckets_f;

        let v = from_log_scale((i + 1) as f64 * adj + s_min + offset * delta);
        let raw = (input_size_f * v / f_max).ceil() as usize;

        b.push_boundary(raw);
    }
    b
}

/// Averages the spectrum bins of each band's range, as the analysis pipeline
/// does.
fn bucket(b: &Bucketer, input: &Vec<f64>) -> Vec<f64> {
    let n = b.buckets();
    let mut out = vec![0f64; n];
    for i in 0..n {
        let (start, mut stop) = b.range(i);
        if i == n - 1 {
            stop = input.len();
        }
        let sum: f64 = input[start..stop].iter().sum();
        out[i] = sum / (stop - start) as f64;
    }
    out
}

#[test]
fn bucketer_it_works() {
    let b = build_bucketer(16, 16, 32., 16000.);
    let d = vec![1f64; 16];

    let out = bucket(&b, &d);
    assert_eq!(out, d);

    let b = build_bucketer(16, 4, 32., 16000.);
    let out = bucket(&b, &d);
    assert_eq!(out, vec![1f64; 4]);

    let out = bucket(&b, &(0u8..16).map(f64::from).collect::<Vec<f64>>());
    assert_eq!(out, vec![0f64, 1., 2.5, 9.5]);
}

#[test]
fn boundaries_strictly_increase() {
    let b = build_bucketer(64, 8, 32., 16000.);
    let indices = b.indices();
    assert_eq!(indices.len(), 7);
    for k in 0..indices.len() {
        assert!(1 <= indices[k] && indices[k] <= 63);
        if k > 0 {
            assert!(indices[k - 1] < indices[k]);
        }
    }
    // consecutive bands tile the spectrum, ending exactly at the input size
    assert_eq!(b.range(0).0, 0);
    for i in 1..8 {
        assert_eq!(b.range(i - 1).1, b.range(i).0);
    }
    assert_eq!(b.range(7).1, 64);
}

#[test]
fn stalled_proposal_is_forced_up() {
    let mut b = Bucketer::new(16, 4);
    b.push_boundary(3);
    b.push_boundary(2);
    assert_eq!(b.indices(), &vec![3, 4]);
    assert_eq!(b.offset(), 1);
    b.push_boundary(4);
    assert_eq!(b.indices(), &vec![3, 4, 5]);
    assert_eq!(b.offset(), 2);
}

#[test]
fn oversized_proposal_clamps_to_last_bin() {
    let mut b = Bucketer::new(16, 3);
    b.push_boundary(100);
    b.push_boundary(100);
    assert_eq!(b.indices(), &vec![15, 15]);
    assert_eq!(b.offset(), 0);
    assert_eq!(b.range(2), (15, 16));
}
