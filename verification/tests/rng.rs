use autoresearch_rs::{sample_batch, SimpleRng};

#[test]
fn next_u64_is_xorshift_star() {
    let mut r = SimpleRng::seed(1);
    assert_eq!(r.next_u64(), 5180492295206395165);
}

#[test]
fn seed_zero_uses_fixed_state() {
    let mut r = SimpleRng::seed(0);
    assert_eq!(r.next_u64(), 973819730272012410);
}

#[test]
fn gen_range_sequence_and_bounds() {
    let mut r = SimpleRng::seed(42);
    let got: Vec<usize> = (0..5).map(|_| r.gen_range(10)).collect();
    assert_eq!(got, vec![0, 8, 6, 5, 8]);
    let mut r = SimpleRng::seed(7);
    for upper in 1..200 {
        assert!(r.gen_range(upper) < upper);
    }
}

#[test]
fn gen_range_zero_returns_zero_without_advancing() {
    let mut a = SimpleRng::seed(42);
    let mut b = SimpleRng::seed(42);
    assert_eq!(a.gen_range(0), 0);
    assert_eq!(a.next_u64(), b.next_u64());
}

#[test]
fn same_seed_same_sequence() {
    let mut a = SimpleRng::seed(99);
    let mut b = SimpleRng::seed(99);
    for _ in 0..100 {
        assert_eq!(a.gen_range(1000), b.gen_range(1000));
    }
}

#[test]
fn next_u24_is_top_bits() {
    let mut r = SimpleRng::seed(7);
    let v = r.next_u24();
    assert_eq!(v, 13761455);
    assert!(v < (1 << 24));
}

#[test]
fn sample_batch_windows_and_shift() {
    let data: Vec<u16> = (100..120).collect();
    let mut r = SimpleRng::seed(987654321);
    let (x, y) = sample_batch(&data, 2, 3, &mut r);
    assert_eq!(x, vec![101, 102, 103, 113, 114, 115]);
    assert_eq!(y, vec![102, 103, 104, 114, 115, 116]);
    for i in 0..x.len() {
        if i % 3 + 1 < 3 {
            assert_eq!(y[i], x[i + 1]);
        }
    }
}

#[test]
fn sample_batch_with_exact_window_length() {
    let data: Vec<u16> = vec![5, 6, 7, 8];
    let mut r = SimpleRng::seed(3);
    let (x, y) = sample_batch(&data, 2, 3, &mut r);
    assert_eq!(x, vec![5, 6, 7, 5, 6, 7]);
    assert_eq!(y, vec![6, 7, 8, 6, 7, 8]);
}
