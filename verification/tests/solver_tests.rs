//! Solver behaviour against a plain double-precision replication of the
//! algorithm, plus the result-record guarantees.

use recon::matrix::ModelMatrix;
use recon::solver::{execute_cgnr, isqrt, precondition, Algorithm};

fn bits_of(v: &[f64]) -> Vec<u64> {
    v.iter().map(|x| x.to_bits()).collect()
}

fn matrix(s: usize, n: usize, elems: &[f64]) -> ModelMatrix {
    assert_eq!(elems.len(), s * n);
    ModelMatrix { s, n, data: bits_of(elems) }
}

/// A plain-f64 replication of the library's CGNR: same operation order,
/// same stopping rules.
fn reference_cgnr(s: usize, n: usize, h: &[f64], g: &[f64]) -> (Vec<f64>, usize) {
    let mut gp = vec![0.0f64; s];
    for l in 0..s {
        let lf = l as f64;
        gp[l] = g[l] * (100.0 + 0.05 * (lf * lf)).sqrt();
    }
    let dot = |a: &[f64], b: &[f64]| -> f64 {
        let mut acc = 0.0f64;
        for i in 0..a.len() {
            acc = acc + a[i] * b[i];
        }
        acc
    };
    let matvec = |x: &[f64]| -> Vec<f64> {
        let mut out = Vec::new();
        for i in 0..s {
            out.push(dot(&h[i * n..(i + 1) * n], x));
        }
        out
    };
    let tmatvec = |x: &[f64]| -> Vec<f64> {
        let mut out = Vec::new();
        for j in 0..n {
            let mut acc = 0.0f64;
            for i in 0..s {
                acc = acc + h[i * n + j] * x[i];
            }
            out.push(acc);
        }
        out
    };
    let mut f = vec![0.0f64; n];
    let mut r = gp;
    let z0 = tmatvec(&r);
    let mut zeta = dot(&z0, &z0);
    let mut p = z0;
    let mut iterations = 1usize;
    for i in 0..1000usize {
        let w = matvec(&p);
        let wtw = dot(&w, &w);
        if wtw.abs() < 1e-20 {
            iterations = i + 1;
            break;
        }
        let alpha = zeta / wtw;
        for k in 0..n {
            f[k] = f[k] + p[k] * alpha;
        }
        for k in 0..s {
            r[k] = r[k] - w[k] * alpha;
        }
        let z1 = tmatvec(&r);
        let zz1 = dot(&z1, &z1);
        if zz1 < 1e-4 {
            iterations = i + 1;
            break;
        }
        if zeta.abs() < 1e-20 {
            iterations = i + 1;
            break;
        }
        if i + 1 == 1000 {
            iterations = 1000;
            break;
        }
        let beta = zz1 / zeta;
        for k in 0..n {
            p[k] = z1[k] + p[k] * beta;
        }
        zeta = zz1;
    }
    (f, iterations)
}

const H4: [f64; 16] = [
    2.0, 0.5, 0.0, 0.0, 0.5, 3.0, 0.25, 0.0, 0.0, 0.25, 1.5, 0.125, 0.0, 0.0, 0.125, 2.5,
];
const G4: [f64; 4] = [1.0, -2.0, 0.5, 3.0];

#[test]
fn cgnr_matches_double_precision_reference() {
    let m = matrix(4, 4, &H4);
    let g = bits_of(&G4);
    let res = execute_cgnr(Algorithm::Cgnr, 7, &m, &g);
    let (f_ref, iters_ref) = reference_cgnr(4, 4, &H4, &G4);
    assert_eq!(res.iterations, iters_ref);
    assert_eq!(res.f, bits_of(&f_ref));
}

#[test]
fn solver_is_deterministic() {
    let m = matrix(4, 4, &H4);
    let g = bits_of(&G4);
    let a = execute_cgnr(Algorithm::Cgnr, 1, &m, &g);
    let b = execute_cgnr(Algorithm::Cgnr, 1, &m, &g);
    assert_eq!(a.f, b.f);
    assert_eq!(a.iterations, b.iterations);
    let c = execute_cgnr(Algorithm::Cgne, 1, &m, &g);
    let d = execute_cgnr(Algorithm::Cgne, 1, &m, &g);
    assert_eq!(c.f, d.f);
    assert_eq!(c.iterations, d.iterations);
}

#[test]
fn result_record_invariants() {
    let m = matrix(4, 4, &H4);
    let g = bits_of(&G4);
    let res = execute_cgnr(Algorithm::Cgnr, 42, &m, &g);
    assert_eq!(res.user_id, 42);
    assert_eq!(res.algorithm_id, "CGNR");
    assert_eq!(res.f.len(), 4);
    assert_eq!(res.image_pixels, (2, 2));
    assert_eq!(res.image_pixels.0 * res.image_pixels.1, 4);
    assert!(res.iterations >= 1 && res.iterations <= 1000);
    assert!(res.start_time <= res.end_time);
    assert!(res.reconstruction_time_ms >= 0);
    assert_eq!(
        res.reconstruction_time_ms,
        res.end_time - res.start_time
    );
}

#[test]
fn cgne_runs_and_terminates() {
    let m = matrix(4, 4, &H4);
    let g = bits_of(&G4);
    let res = execute_cgnr(Algorithm::Cgne, 9, &m, &g);
    assert_eq!(res.algorithm_id, "CGNE");
    assert_eq!(res.f.len(), 4);
    assert!(res.iterations >= 1 && res.iterations <= 1000);
}

#[test]
fn degenerate_zero_signal_stops_immediately() {
    let m = matrix(4, 4, &H4);
    let g = bits_of(&[0.0, 0.0, 0.0, 0.0]);
    let res = execute_cgnr(Algorithm::Cgnr, 3, &m, &g);
    assert_eq!(res.iterations, 1);
    for b in &res.f {
        assert_eq!(f64::from_bits(*b), 0.0);
    }
}

#[test]
fn consistent_system_converges_within_pixel_count() {
    // A signal produced by the model itself: with an invertible 4x4
    // matrix the preconditioned system stays consistent, and CGNR
    // reaches the residual threshold within the pixel count.
    let f_true = [1.0f64, 2.0, 3.0, 4.0];
    let mut g = [0.0f64; 4];
    for i in 0..4 {
        for j in 0..4 {
            g[i] += H4[i * 4 + j] * f_true[j];
        }
    }
    let m = matrix(4, 4, &H4);
    let res = execute_cgnr(Algorithm::Cgnr, 5, &m, &bits_of(&g));
    assert!(res.iterations <= 4);
}

#[test]
fn signal_gain_formula() {
    let g = bits_of(&[1.0, 1.0, -2.0, 0.5]);
    let expected: Vec<f64> = (0..4)
        .map(|l| {
            let lf = l as f64;
            [1.0, 1.0, -2.0, 0.5][l] * (100.0 + 0.05 * (lf * lf)).sqrt()
        })
        .collect();
    assert_eq!(precondition(&g), bits_of(&expected));
}

#[test]
fn isqrt_truncates() {
    assert_eq!(isqrt(0), 0);
    assert_eq!(isqrt(1), 1);
    assert_eq!(isqrt(3), 1);
    assert_eq!(isqrt(4), 2);
    assert_eq!(isqrt(899), 29);
    assert_eq!(isqrt(900), 30);
    assert_eq!(isqrt(3600), 60);
    assert_eq!(isqrt(usize::MAX), 4294967295);
}
