use matmul::{rust_mm_auto, rust_mm_blocked, rust_mm_optimized, select_kernel, Kernel, MatrixView};

fn mul_add(acc: f64, x: f64, y: f64) -> f64 {
    acc + x * y
}

fn add(s: f64, t: f64) -> f64 {
    s + t
}

fn direct(a: &[f64], b: &[f64], m: usize, k: usize, n: usize) -> Vec<f64> {
    let mut c = vec![f64::NAN; m * n];
    rust_mm_optimized(a, b, &mut c, m as i32, k as i32, n as i32, 0.0, mul_add);
    c
}

fn blocked(a: &[f64], b: &[f64], m: usize, k: usize, n: usize) -> Vec<f64> {
    let mut c = vec![f64::NAN; m * n];
    rust_mm_blocked(a, b, &mut c, m as i32, k as i32, n as i32, 0.0, mul_add, add);
    c
}

fn auto(a: &[f64], b: &[f64], m: usize, k: usize, n: usize) -> Vec<f64> {
    let mut c = vec![f64::NAN; m * n];
    rust_mm_auto(a, b, &mut c, m as i32, k as i32, n as i32, 0.0, mul_add, add);
    c
}

/// The plain triple loop over column-major buffers.
fn reference(a: &[f64], b: &[f64], m: usize, k: usize, n: usize) -> Vec<f64> {
    let mut c = vec![0.0; m * n];
    for i in 0..m {
        for j in 0..n {
            let mut s = 0.0;
            for l in 0..k {
                s += a[i + l * m] * b[l + j * k];
            }
            c[i + j * m] = s;
        }
    }
    c
}

/// Deterministic pseudo-random values in [-1, 1).
fn random(len: usize, seed: u64) -> Vec<f64> {
    let mut state = seed.wrapping_mul(6364136223846793005).wrapping_add(1442695040888963407);
    let mut out = Vec::with_capacity(len);
    for _ in 0..len {
        state = state.wrapping_mul(6364136223846793005).wrapping_add(1442695040888963407);
        out.push(((state >> 11) as f64) / ((1u64 << 53) as f64) * 2.0 - 1.0);
    }
    out
}

fn assert_close(x: &[f64], y: &[f64]) {
    assert_eq!(x.len(), y.len());
    for (p, q) in x.iter().zip(y.iter()) {
        let scale = p.abs().max(q.abs()).max(1.0);
        assert!((p - q).abs() <= 1e-9 * scale, "{} vs {}", p, q);
    }
}

fn assert_bits_equal(x: &[f64], y: &[f64]) {
    assert_eq!(x.len(), y.len());
    for (p, q) in x.iter().zip(y.iter()) {
        assert_eq!(p.to_bits(), q.to_bits());
    }
}

const SIZES: [(usize, usize, usize); 14] = [
    (1, 1, 1),
    (2, 3, 2),
    (3, 17, 2),
    (17, 3, 64),
    (64, 64, 64),
    (65, 65, 65),
    (64, 65, 17),
    (200, 17, 3),
    (3, 200, 65),
    (513, 3, 2),
    (2, 600, 3),
    (3, 1, 513),
    (65, 200, 17),
    (17, 129, 200),
];

#[test]
fn column_major_offsets() {
    let v = MatrixView::column_major(4, 3);
    assert_eq!(v.offset(0, 0), 0);
    assert_eq!(v.offset(1, 0), 1);
    assert_eq!(v.offset(1, 2), 9);
    assert_eq!(v.offset(3, 2), 11);
}

#[test]
fn row_major_offsets() {
    let v = MatrixView::row_major(4, 3);
    assert_eq!(v.offset(1, 2), 5);
    assert_eq!(v.offset(3, 0), 9);
    assert_eq!(v.offset(3, 2), 11);
}

#[test]
fn transpose_of_row_major_is_column_major() {
    let t = MatrixView::row_major(3, 4).t();
    assert_eq!(t, MatrixView::column_major(4, 3));
    assert_eq!((t.rows, t.cols), (4, 3));
    assert_eq!(t.offset(2, 1), MatrixView::row_major(3, 4).offset(1, 2));
}

#[test]
fn column_major_offsets_cover_buffer_once() {
    let v = MatrixView::column_major(5, 7);
    let mut seen = vec![false; 35];
    for r in 0..5 {
        for c in 0..7 {
            let o = v.offset(r, c);
            assert!(!seen[o]);
            seen[o] = true;
        }
    }
    assert!(seen.iter().all(|s| *s));
}

#[test]
fn dispatcher_threshold() {
    assert_eq!(select_kernel(512, 512, 512), Kernel::Direct);
    assert_eq!(select_kernel(0, 0, 0), Kernel::Direct);
    assert_eq!(select_kernel(513, 1, 1), Kernel::Blocked);
    assert_eq!(select_kernel(1, 513, 1), Kernel::Blocked);
    assert_eq!(select_kernel(1, 1, 513), Kernel::Blocked);
    assert_eq!(select_kernel(600, 600, 600), Kernel::Blocked);
}

#[test]
fn layout_two_by_three_times_three_by_two() {
    // A = [[1, 2, 3], [4, 5, 6]], B = [[7, 8], [9, 10], [11, 12]], column-major.
    let a = [1.0, 4.0, 2.0, 5.0, 3.0, 6.0];
    let b = [7.0, 9.0, 11.0, 8.0, 10.0, 12.0];
    // A * B = [[58, 64], [139, 154]], column-major.
    let expected = vec![58.0, 139.0, 64.0, 154.0];
    assert_eq!(direct(&a, &b, 2, 3, 2), expected);
    assert_eq!(blocked(&a, &b, 2, 3, 2), expected);
    assert_eq!(auto(&a, &b, 2, 3, 2), expected);
}

#[test]
fn direct_matches_reference() {
    for (s, &(m, k, n)) in SIZES.iter().enumerate() {
        let a = random(m * k, 2 * s as u64);
        let b = random(k * n, 2 * s as u64 + 1);
        assert_close(&direct(&a, &b, m, k, n), &reference(&a, &b, m, k, n));
    }
}

#[test]
fn direct_sums_in_increasing_depth() {
    let (m, k, n) = (7, 129, 5);
    let a = random(m * k, 11);
    let b = random(k * n, 12);
    assert_bits_equal(&direct(&a, &b, m, k, n), &reference(&a, &b, m, k, n));
}

#[test]
fn blocked_agrees_with_direct() {
    for (s, &(m, k, n)) in SIZES.iter().enumerate() {
        let a = random(m * k, 100 + s as u64);
        let b = random(k * n, 200 + s as u64);
        assert_close(&blocked(&a, &b, m, k, n), &direct(&a, &b, m, k, n));
    }
}

#[test]
fn blocked_tile_sums_in_order() {
    // Depth 65: one full tile, then a tile of one product, added in that order.
    let (m, k, n) = (3, 65, 2);
    let a = random(m * k, 21);
    let b = random(k * n, 22);
    let c = blocked(&a, &b, m, k, n);
    for i in 0..m {
        for j in 0..n {
            let mut first = 0.0;
            for l in 0..64 {
                first += a[i + l * m] * b[l + j * k];
            }
            let second = 0.0 + a[i + 64 * m] * b[64 + j * k];
            assert_eq!(c[i + j * m].to_bits(), (first + second).to_bits());
        }
    }
}

#[test]
fn blocked_exact_on_integers() {
    let (m, k, n) = (70, 130, 66);
    let a: Vec<i64> = (0..m * k).map(|x| (x as i64 * 7919) % 101 - 50).collect();
    let b: Vec<i64> = (0..k * n).map(|x| (x as i64 * 104729) % 97 - 48).collect();
    let mut d = vec![0i64; m * n];
    let mut c = vec![0i64; m * n];
    rust_mm_optimized(&a, &b, &mut d, m as i32, k as i32, n as i32, 0, |s: i64, x: i64, y: i64| s + x * y);
    rust_mm_blocked(&a, &b, &mut c, m as i32, k as i32, n as i32, 0, |s: i64, x: i64, y: i64| s + x * y, |s: i64, t: i64| s + t);
    assert_eq!(c, d);
    let mut expected = 0i64;
    for l in 0..k {
        expected += a[5 + l * m] * b[l + 9 * k];
    }
    assert_eq!(c[5 + 9 * m], expected);
}

#[test]
fn auto_is_direct_at_or_below_threshold() {
    for (s, &(m, k, n)) in SIZES.iter().enumerate() {
        if m <= 512 && k <= 512 && n <= 512 {
            let a = random(m * k, 300 + s as u64);
            let b = random(k * n, 400 + s as u64);
            assert_bits_equal(&auto(&a, &b, m, k, n), &direct(&a, &b, m, k, n));
        }
    }
}

#[test]
fn auto_is_blocked_above_threshold() {
    for (s, &(m, k, n)) in SIZES.iter().enumerate() {
        if m > 512 || k > 512 || n > 512 {
            let a = random(m * k, 500 + s as u64);
            let b = random(k * n, 600 + s as u64);
            assert_bits_equal(&auto(&a, &b, m, k, n), &blocked(&a, &b, m, k, n));
        }
    }
}

#[test]
fn empty_rows_or_columns() {
    let a = random(0, 1);
    let b = random(3 * 4, 2);
    assert!(direct(&a, &b, 0, 3, 4).is_empty());
    assert!(blocked(&a, &b, 0, 3, 4).is_empty());
    assert!(auto(&a, &b, 0, 3, 4).is_empty());
    let a = random(4 * 3, 3);
    let b = random(0, 4);
    assert!(direct(&a, &b, 4, 3, 0).is_empty());
    assert!(blocked(&a, &b, 4, 3, 0).is_empty());
    assert!(auto(&a, &b, 4, 3, 0).is_empty());
    assert!(auto(&[], &[], 0, 0, 0).is_empty());
}

#[test]
fn zero_depth_gives_zeros() {
    for &(m, n) in &[(1, 1), (3, 5), (65, 2), (600, 2)] {
        assert_eq!(direct(&[], &[], m, 0, n), vec![0.0; m * n]);
        assert_eq!(blocked(&[], &[], m, 0, n), vec![0.0; m * n]);
        assert_eq!(auto(&[], &[], m, 0, n), vec![0.0; m * n]);
    }
}

fn identity(n: usize) -> Vec<f64> {
    let mut a = vec![0.0; n * n];
    for i in 0..n {
        a[i + i * n] = 1.0;
    }
    a
}

#[test]
fn identity_below_threshold() {
    for &n in &[1, 3, 65] {
        let b = random(n * n, n as u64);
        let a = identity(n);
        assert_eq!(direct(&a, &b, n, n, n), b);
        assert_eq!(blocked(&a, &b, n, n, n), b);
        assert_eq!(auto(&a, &b, n, n, n), b);
    }
}

#[test]
fn identity_above_threshold() {
    let n = 513;
    let b = random(n * n, 7);
    let a = identity(n);
    assert_eq!(select_kernel(n as i32, n as i32, n as i32), Kernel::Blocked);
    assert_eq!(auto(&a, &b, n, n, n), b);
}

#[test]
fn concurrent_calls_do_not_interfere() {
    let (m1, k1, n1) = (40, 30, 20);
    let (m2, k2, n2) = (70, 90, 3);
    let a1 = random(m1 * k1, 31);
    let b1 = random(k1 * n1, 32);
    let a2 = random(m2 * k2, 33);
    let b2 = random(k2 * n2, 34);
    let (c1, c2) = rayon::join(
        || auto(&a1, &b1, m1, k1, n1),
        || blocked(&a2, &b2, m2, k2, n2),
    );
    assert_bits_equal(&c1, &direct(&a1, &b1, m1, k1, n1));
    assert_bits_equal(&c2, &blocked(&a2, &b2, m2, k2, n2));
    assert_close(&c2, &reference(&a2, &b2, m2, k2, n2));
}

const GRID: [usize; 10] = [0, 1, 2, 3, 17, 64, 65, 200, 513, 600];

/// Every combination of the grid sizes whose product stays small enough to run quickly.
fn grid() -> Vec<(usize, usize, usize)> {
    let mut out = Vec::new();
    for &m in &GRID {
        for &k in &GRID {
            for &n in &GRID {
                if m * k * n <= 300_000 {
                    out.push((m, k, n));
                }
            }
        }
    }
    out
}

#[test]
fn direct_matches_reference_on_size_grid() {
    for (s, (m, k, n)) in grid().into_iter().enumerate() {
        let a = random(m * k, 1000 + s as u64);
        let b = random(k * n, 5000 + s as u64);
        assert_close(&direct(&a, &b, m, k, n), &reference(&a, &b, m, k, n));
    }
}

#[test]
fn blocked_agrees_with_direct_on_size_grid() {
    for (s, (m, k, n)) in grid().into_iter().enumerate() {
        let a = random(m * k, 9000 + s as u64);
        let b = random(k * n, 13000 + s as u64);
        assert_close(&blocked(&a, &b, m, k, n), &direct(&a, &b, m, k, n));
    }
}
