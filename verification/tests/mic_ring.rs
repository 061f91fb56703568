use camille::mic::{is_started, pos, since, window, Ring, BUFFER_SECS, TARGET_RATE};

#[test]
fn new_ring_is_empty() {
    let r: Ring<f32> = Ring::new(4, 0.0);
    assert_eq!(r.pos(), 0);
    let mut out = vec![9.0f32];
    assert_eq!(r.last(3, &mut out), 0);
    assert!(out.is_empty());
}

#[test]
fn push_then_last_reads_back() {
    let mut r: Ring<i32> = Ring::new(5, 0);
    r.push(&[1, 2, 3]);
    assert_eq!(r.pos(), 3);
    let mut out = Vec::new();
    assert_eq!(r.last(2, &mut out), 2);
    assert_eq!(out, vec![2, 3]);
    assert_eq!(r.last(10, &mut out), 3);
    assert_eq!(out, vec![1, 2, 3]);
}

#[test]
fn wraparound_keeps_latest() {
    let mut r: Ring<i32> = Ring::new(4, 0);
    r.push(&[1, 2, 3]);
    r.push(&[4, 5, 6]);
    assert_eq!(r.pos(), 6);
    let mut out = Vec::new();
    assert_eq!(r.last(100, &mut out), 4);
    assert_eq!(out, vec![3, 4, 5, 6]);
    assert_eq!(r.last(1, &mut out), 1);
    assert_eq!(out, vec![6]);
}

#[test]
fn push_more_than_capacity_at_once() {
    let mut r: Ring<i32> = Ring::new(3, 0);
    r.push(&[1, 2, 3, 4, 5, 6, 7]);
    let mut out = Vec::new();
    assert_eq!(r.last(3, &mut out), 3);
    assert_eq!(out, vec![5, 6, 7]);
    assert_eq!(r.pos(), 7);
}

#[test]
fn since_returns_samples_after_position() {
    let mut r: Ring<i32> = Ring::new(8, 0);
    r.push(&[1, 2, 3]);
    let p = r.pos();
    r.push(&[4, 5]);
    let mut out = Vec::new();
    assert_eq!(r.since(p, &mut out), 2);
    assert_eq!(out, vec![4, 5]);
    assert_eq!(r.since(0, &mut out), 5);
    assert_eq!(out, vec![1, 2, 3, 4, 5]);
}

#[test]
fn since_clamps_to_retained() {
    let mut r: Ring<i32> = Ring::new(3, 0);
    r.push(&[1, 2]);
    let p = r.pos();
    r.push(&[3, 4, 5, 6]);
    let mut out = Vec::new();
    // Only the last three are retained; 3 was pushed after p but is lost.
    assert_eq!(r.since(p, &mut out), 3);
    assert_eq!(out, vec![4, 5, 6]);
}

#[test]
fn since_now_is_empty() {
    let mut r: Ring<i32> = Ring::new(3, 0);
    r.push(&[1, 2, 3, 4]);
    let mut out = vec![7];
    assert_eq!(r.since(r.pos(), &mut out), 0);
    assert!(out.is_empty());
}

#[test]
fn zero_capacity_ring_accepts_empty_pushes() {
    let mut r: Ring<i32> = Ring::new(0, 0);
    r.push(&[]);
    let mut out = Vec::new();
    assert_eq!(r.last(4, &mut out), 0);
    assert_eq!(r.pos(), 0);
}

#[test]
fn capture_facade_before_start() {
    let none: Option<&Ring<f32>> = None;
    assert!(!is_started(none));
    assert_eq!(pos(none), None);
    let mut out = vec![1.0f32];
    assert_eq!(window(none, 10, &mut out), 0);
    assert_eq!(out, vec![1.0f32]);
    assert_eq!(since(none, 0, &mut out), 0);
    assert_eq!(out, vec![1.0f32]);
}

#[test]
fn capture_facade_after_start() {
    let mut r: Ring<f32> = Ring::new(TARGET_RATE * BUFFER_SECS, 0.0);
    r.push(&[0.5, -0.5, 0.25]);
    assert!(is_started(Some(&r)));
    assert_eq!(pos(Some(&r)), Some(3));
    let mut out = Vec::new();
    assert_eq!(window(Some(&r), 2, &mut out), 2);
    assert_eq!(out, vec![-0.5, 0.25]);
    assert_eq!(since(Some(&r), 1, &mut out), 2);
    assert_eq!(out, vec![-0.5, 0.25]);
}

#[test]
fn ring_long_run_matches_model() {
    let cap = 7usize;
    let mut r: Ring<u32> = Ring::new(cap, 0);
    let mut history: Vec<u32> = Vec::new();
    let mut next = 0u32;
    for step in 0..30usize {
        let n = step % 5;
        let chunk: Vec<u32> = (0..n).map(|k| next + k as u32).collect();
        next += n as u32;
        let before = r.pos();
        r.push(&chunk);
        history.extend_from_slice(&chunk);
        assert_eq!(r.pos(), history.len() as u64);
        let mut out = Vec::new();
        let got = r.last(cap, &mut out);
        let keep = history.len().min(cap);
        assert_eq!(got, keep);
        assert_eq!(out, history[history.len() - keep..].to_vec());
        let got = r.since(before, &mut out);
        let fresh = chunk.len().min(cap);
        assert_eq!(got, fresh);
        assert_eq!(out, chunk[chunk.len() - fresh..].to_vec());
    }
}

#[test]
fn two_pushes_equal_one() {
    let mut r1: Ring<i32> = Ring::new(4, 0);
    let mut r2: Ring<i32> = Ring::new(4, 0);
    r1.push(&[1, 2, 3]);
    r1.push(&[4, 5]);
    r2.push(&[1, 2, 3, 4, 5]);
    assert_eq!(r1.pos(), r2.pos());
    let (mut o1, mut o2) = (Vec::new(), Vec::new());
    assert_eq!(r1.last(9, &mut o1), r2.last(9, &mut o2));
    assert_eq!(o1, o2);
}
