//! The iterative reconstruction solver: CGNR and CGNE.
//!
//! Every step of the two algorithms is mirrored by a specification model
//! over the named IEEE-754 operations, so the contract of the solver pins
//! each returned image and iteration count down as a function of the
//! algorithm, the matrix and the signal alone. Determinism of the solver
//! is a consequence and is stated as `lemma_solver_deterministic`.

use vstd::prelude::*;
use crate::fp64::{
    abs_bits, add_bits, bits_of_uint, div_bits, f_abs, f_add, f_div, f_lt, f_mul, f_of_uint,
    f_sqrt, f_sub, lt_bits, mul_bits, sqrt_bits, sub_bits, B_EPSILON, B_GAIN_SLOPE, B_HUNDRED, B_TINY,
    B_TINY_CGNE, B_ZERO,
};
use crate::matrix::{dot, dot_spec, matvec, matvec_spec, tmatvec, tmatvec_spec, ModelMatrix};
use crate::time::{duration_ms, elapsed_ms, now_millis};
use crate::types::ReconstructionResult;
use vstd::arithmetic::mul::lemma_mul_upper_bound;
use vstd::string::StringExecFns;

verus! {

/// Hard cap on solver iterations.
pub const MAX_ITERATIONS: usize = 1000;

/// The two supported reconstruction algorithms.
#[derive(Clone, Copy, PartialEq, Eq, Structural, Debug)]
pub enum Algorithm {
    /// Conjugate Gradient on the Normal Residual.
    Cgnr,
    /// Conjugate Gradient on the Normal Error.
    Cgne,
}

impl Algorithm {
    /// The wire name of the algorithm.
    pub open spec fn id_view(self) -> Seq<char> {
        match self {
            Algorithm::Cgnr => "CGNR"@,
            Algorithm::Cgne => "CGNE"@,
        }
    }

    /// The wire name as a fresh string.
    pub fn name(&self) -> (r: String)
        ensures
            r@ == self.id_view(),
    {
        match self {
            Algorithm::Cgnr => String::from_str("CGNR"),
            Algorithm::Cgne => String::from_str("CGNE"),
        }
    }
}

/// The signal gain multiplier of sample `l`: `sqrt(100 + 0.05 * l^2)`.
pub open spec fn gamma_spec(l: int) -> u64 {
    sqrt_bits(add_bits(
        B_HUNDRED,
        mul_bits(B_GAIN_SLOPE, mul_bits(bits_of_uint(l as u64), bits_of_uint(l as u64))),
    ))
}

/// The preconditioned signal: each sample multiplied by its gain.
pub open spec fn precond_spec(g: Seq<u64>) -> Seq<u64> {
    Seq::new(g.len(), |l: int| mul_bits(g[l], gamma_spec(l)))
}

/// A vector of zeros (0.0 bits).
pub open spec fn seq_zero(n: nat) -> Seq<u64> {
    Seq::new(n, |k: int| B_ZERO)
}

/// Elementwise `a[k] + b[k] * c`.
pub open spec fn seq_add_scaled(a: Seq<u64>, b: Seq<u64>, c: u64) -> Seq<u64> {
    Seq::new(a.len(), |k: int| add_bits(a[k], mul_bits(b[k], c)))
}

/// Elementwise `a[k] - b[k] * c`.
pub open spec fn seq_sub_scaled(a: Seq<u64>, b: Seq<u64>, c: u64) -> Seq<u64> {
    Seq::new(a.len(), |k: int| sub_bits(a[k], mul_bits(b[k], c)))
}

/// The live variables of a CGNR iteration.
pub ghost struct CgnrState {
    pub f: Seq<u64>,
    pub r: Seq<u64>,
    pub p: Seq<u64>,
    pub zeta: u64,
}

/// CGNR before the first iteration: `f = 0`, `r = g`, `p = z0 = H^T r`,
/// `zeta = z0 . z0`.
pub open spec fn cgnr_init(m: ModelMatrix, gp: Seq<u64>) -> CgnrState {
    let z0 = tmatvec_spec(m, gp);
    CgnrState { f: seq_zero(m.n as nat), r: gp, p: z0, zeta: dot_spec(z0, z0) }
}

/// The image and iteration count CGNR returns when entering iteration `i`
/// in state `st`: stops on a degenerate direction, on convergence, on a
/// vanishing `zeta`, or at the iteration cap.
pub open spec fn cgnr_from(m: ModelMatrix, st: CgnrState, i: nat) -> (Seq<u64>, nat)
    decreases MAX_ITERATIONS - i,
    when i < MAX_ITERATIONS
{
    let w = matvec_spec(m, st.p);
    let wtw = dot_spec(w, w);
    if lt_bits(abs_bits(wtw), B_TINY) {
        (st.f, (i + 1) as nat)
    } else {
        let alpha = div_bits(st.zeta, wtw);
        let f1 = seq_add_scaled(st.f, st.p, alpha);
        let r1 = seq_sub_scaled(st.r, w, alpha);
        let z1 = tmatvec_spec(m, r1);
        let zz1 = dot_spec(z1, z1);
        if lt_bits(zz1, B_EPSILON) {
            (f1, (i + 1) as nat)
        } else if lt_bits(abs_bits(st.zeta), B_TINY) {
            (f1, (i + 1) as nat)
        } else if i + 1 == MAX_ITERATIONS {
            (f1, MAX_ITERATIONS as nat)
        } else {
            let beta = div_bits(zz1, st.zeta);
            let p1 = seq_add_scaled(z1, st.p, beta);
            cgnr_from(m, CgnrState { f: f1, r: r1, p: p1, zeta: zz1 }, i + 1)
        }
    }
}

/// The full CGNR outcome for a raw signal.
pub open spec fn cgnr_output(m: ModelMatrix, g: Seq<u64>) -> (Seq<u64>, nat) {
    cgnr_from(m, cgnr_init(m, precond_spec(g)), 0)
}

/// The live variables of a CGNE iteration.
pub ghost struct CgneState {
    pub f: Seq<u64>,
    pub r: Seq<u64>,
    pub p: Seq<u64>,
    pub rho: u64,
}

/// CGNE before the first iteration: `f = 0`, `r = g`, `p = H^T r`,
/// `rho = r . r`.
pub open spec fn cgne_init(m: ModelMatrix, gp: Seq<u64>) -> CgneState {
    CgneState { f: seq_zero(m.n as nat), r: gp, p: tmatvec_spec(m, gp), rho: dot_spec(gp, gp) }
}

/// The image and iteration count CGNE returns when entering iteration `i`
/// in state `st`.
pub open spec fn cgne_from(m: ModelMatrix, st: CgneState, i: nat) -> (Seq<u64>, nat)
    decreases MAX_ITERATIONS - i,
    when i < MAX_ITERATIONS
{
    let pi = dot_spec(st.p, st.p);
    if lt_bits(abs_bits(pi), B_TINY_CGNE) {
        (st.f, (i + 1) as nat)
    } else {
        let alpha = div_bits(st.rho, pi);
        let w = matvec_spec(m, st.p);
        let f1 = seq_add_scaled(st.f, st.p, alpha);
        let r1 = seq_sub_scaled(st.r, w, alpha);
        let rho1 = dot_spec(r1, r1);
        if lt_bits(rho1, B_EPSILON) {
            (f1, (i + 1) as nat)
        } else if i + 1 == MAX_ITERATIONS {
            (f1, MAX_ITERATIONS as nat)
        } else {
            let beta = div_bits(rho1, st.rho);
            let p1 = seq_add_scaled(tmatvec_spec(m, r1), st.p, beta);
            cgne_from(m, CgneState { f: f1, r: r1, p: p1, rho: rho1 }, i + 1)
        }
    }
}

/// The full CGNE outcome for a raw signal.
pub open spec fn cgne_output(m: ModelMatrix, g: Seq<u64>) -> (Seq<u64>, nat) {
    cgne_from(m, cgne_init(m, precond_spec(g)), 0)
}

/// The image and iteration count of a solve, per algorithm.
pub open spec fn solve_output(alg: Algorithm, m: ModelMatrix, g: Seq<u64>) -> (Seq<u64>, nat) {
    match alg {
        Algorithm::Cgnr => cgnr_output(m, g),
        Algorithm::Cgne => cgne_output(m, g),
    }
}

/// What the solver promises of a result record it produced for a given
/// algorithm, matrix and signal: the image and the iteration count are
/// exactly those of the specification model, the image covers one
/// sample per matrix column, and the count lies within the cap.
pub open spec fn is_solve_result(
    res: crate::types::ReconstructionResult,
    alg: Algorithm,
    m: ModelMatrix,
    g: Seq<u64>,
) -> bool {
    &&& res.f@ == solve_output(alg, m, g).0
    &&& res.iterations as nat == solve_output(alg, m, g).1
    &&& 1 <= res.iterations <= MAX_ITERATIONS
    &&& res.f@.len() == m.n
}

/// Law: the solver is deterministic. Two results produced for the same
/// algorithm, matrix and signal carry bitwise-identical images and
/// identical iteration counts.
pub proof fn lemma_solver_deterministic(
    alg: Algorithm,
    m: ModelMatrix,
    g: Seq<u64>,
    r1: crate::types::ReconstructionResult,
    r2: crate::types::ReconstructionResult,
)
    requires
        is_solve_result(r1, alg, m, g),
        is_solve_result(r2, alg, m, g),
    ensures
        r1.f@ == r2.f@,
        r1.iterations == r2.iterations,
{
}

/// The preconditioned copy of the signal.
pub fn precondition(g: &Vec<u64>) -> (r: Vec<u64>)
    ensures
        r@ == precond_spec(g@),
        r@.len() == g@.len(),
{
    let mut out: Vec<u64> = Vec::new();
    let mut l: usize = 0;
    while l < g.len()
        invariant
            l <= g@.len(),
            out@.len() == l,
            forall|t: int| 0 <= t < l ==> out@[t] == mul_bits(g@[t], gamma_spec(t)),
        decreases g@.len() - l,
    {
        let lf = f_of_uint(l as u64);
        let l2 = f_mul(lf, lf);
        let gamma = f_sqrt(f_add(B_HUNDRED, f_mul(B_GAIN_SLOPE, l2)));
        out.push(f_mul(g[l], gamma));
        l = l + 1;
    }
    proof {
        assert(out@ =~= precond_spec(g@));
    }
    out
}

/// A vector of `n` zero samples.
pub fn zero_vec(n: usize) -> (r: Vec<u64>)
    ensures
        r@ == seq_zero(n as nat),
        r@.len() == n,
{
    let mut out: Vec<u64> = Vec::new();
    let mut k: usize = 0;
    while k < n
        invariant
            k <= n,
            out@.len() == k,
            forall|t: int| 0 <= t < k ==> out@[t] == B_ZERO,
        decreases n - k,
    {
        out.push(B_ZERO);
        k = k + 1;
    }
    proof {
        assert(out@ =~= seq_zero(n as nat));
    }
    out
}

/// Elementwise `a[k] + b[k] * c`.
fn vec_add_scaled(a: &Vec<u64>, b: &Vec<u64>, c: u64) -> (r: Vec<u64>)
    requires
        a@.len() == b@.len(),
    ensures
        r@ == seq_add_scaled(a@, b@, c),
        r@.len() == a@.len(),
{
    let mut out: Vec<u64> = Vec::new();
    let mut k: usize = 0;
    while k < a.len()
        invariant
            a@.len() == b@.len(),
            k <= a@.len(),
            out@.len() == k,
            forall|t: int| 0 <= t < k ==> out@[t] == add_bits(a@[t], mul_bits(b@[t], c)),
        decreases a@.len() - k,
    {
        let term = f_mul(b[k], c);
        out.push(f_add(a[k], term));
        k = k + 1;
    }
    proof {
        assert(out@ =~= seq_add_scaled(a@, b@, c));
    }
    out
}

/// Elementwise `a[k] - b[k] * c`.
fn vec_sub_scaled(a: &Vec<u64>, b: &Vec<u64>, c: u64) -> (r: Vec<u64>)
    requires
        a@.len() == b@.len(),
    ensures
        r@ == seq_sub_scaled(a@, b@, c),
        r@.len() == a@.len(),
{
    let mut out: Vec<u64> = Vec::new();
    let mut k: usize = 0;
    while k < a.len()
        invariant
            a@.len() == b@.len(),
            k <= a@.len(),
            out@.len() == k,
            forall|t: int| 0 <= t < k ==> out@[t] == sub_bits(a@[t], mul_bits(b@[t], c)),
        decreases a@.len() - k,
    {
        let term = f_mul(b[k], c);
        out.push(f_sub(a[k], term));
        k = k + 1;
    }
    proof {
        assert(out@ =~= seq_sub_scaled(a@, b@, c));
    }
    out
}

/// CGNR on a raw signal: returns the image and the iteration count.
fn cgnr_solve(m: &ModelMatrix, g: &Vec<u64>) -> (out: (Vec<u64>, usize))
    requires
        m.wf(),
        g@.len() == m.s,
    ensures
        (out.0@, out.1 as nat) == cgnr_output(*m, g@),
        out.0@.len() == m.n,
        1 <= out.1 <= MAX_ITERATIONS,
{
    let ghost target = cgnr_output(*m, g@);
    let gp = precondition(g);
    let mut f = zero_vec(m.n);
    let mut r = gp;
    let z0 = tmatvec(m, &r);
    let mut zeta = dot(&z0, &z0);
    let mut p = z0;
    let mut i: usize = 0;
    let mut iterations: usize = 1;
    let mut done = false;
    proof {
        assert(CgnrState { f: f@, r: r@, p: p@, zeta } == cgnr_init(*m, precond_spec(g@)));
    }
    while i < MAX_ITERATIONS && !done
        invariant
            m.wf(),
            f@.len() == m.n,
            r@.len() == m.s,
            p@.len() == m.n,
            i <= MAX_ITERATIONS,
            !done ==> i < MAX_ITERATIONS,
            !done ==> cgnr_from(*m, CgnrState { f: f@, r: r@, p: p@, zeta }, i as nat)
                == target,
            done ==> f@ == target.0 && iterations as nat == target.1,
            done ==> 1 <= iterations <= MAX_ITERATIONS,
        decreases MAX_ITERATIONS - i,
    {
        let ghost stq = CgnrState { f: f@, r: r@, p: p@, zeta };
        let w = matvec(m, &p);
        let wtw = dot(&w, &w);
        if f_lt(f_abs(wtw), B_TINY) {
            iterations = i + 1;
            done = true;
            proof {
                assert(cgnr_from(*m, stq, i as nat) == (stq.f, (i + 1) as nat));
            }
        } else {
            let alpha = f_div(zeta, wtw);
            f = vec_add_scaled(&f, &p, alpha);
            r = vec_sub_scaled(&r, &w, alpha);
            let z1 = tmatvec(m, &r);
            let zz1 = dot(&z1, &z1);
            if f_lt(zz1, B_EPSILON) {
                iterations = i + 1;
                done = true;
            } else if f_lt(f_abs(zeta), B_TINY) {
                iterations = i + 1;
                done = true;
            } else if i + 1 == MAX_ITERATIONS {
                iterations = MAX_ITERATIONS;
                done = true;
            } else {
                let beta = f_div(zz1, zeta);
                p = vec_add_scaled(&z1, &p, beta);
                zeta = zz1;
            }
            proof {
                assert(cgnr_from(*m, stq, i as nat) == if done {
                    (f@, iterations as nat)
                } else {
                    cgnr_from(*m, CgnrState { f: f@, r: r@, p: p@, zeta }, (i + 1) as nat)
                });
            }
        }
        i = i + 1;
    }
    (f, iterations)
}

/// CGNE on a raw signal: returns the image and the iteration count.
fn cgne_solve(m: &ModelMatrix, g: &Vec<u64>) -> (out: (Vec<u64>, usize))
    requires
        m.wf(),
        g@.len() == m.s,
    ensures
        (out.0@, out.1 as nat) == cgne_output(*m, g@),
        out.0@.len() == m.n,
        1 <= out.1 <= MAX_ITERATIONS,
{
    let ghost target = cgne_output(*m, g@);
    let gp = precondition(g);
    let mut f = zero_vec(m.n);
    let mut rho = dot(&gp, &gp);
    let mut p = tmatvec(m, &gp);
    let mut r = gp;
    let mut i: usize = 0;
    let mut iterations: usize = 1;
    let mut done = false;
    proof {
        assert(CgneState { f: f@, r: r@, p: p@, rho } == cgne_init(*m, precond_spec(g@)));
    }
    while i < MAX_ITERATIONS && !done
        invariant
            m.wf(),
            f@.len() == m.n,
            r@.len() == m.s,
            p@.len() == m.n,
            i <= MAX_ITERATIONS,
            !done ==> i < MAX_ITERATIONS,
            !done ==> cgne_from(*m, CgneState { f: f@, r: r@, p: p@, rho }, i as nat)
                == target,
            done ==> f@ == target.0 && iterations as nat == target.1,
            done ==> 1 <= iterations <= MAX_ITERATIONS,
        decreases MAX_ITERATIONS - i,
    {
        let ghost stq = CgneState { f: f@, r: r@, p: p@, rho };
        let pi = dot(&p, &p);
        if f_lt(f_abs(pi), B_TINY_CGNE) {
            iterations = i + 1;
            done = true;
            proof {
                assert(cgne_from(*m, stq, i as nat) == (stq.f, (i + 1) as nat));
            }
        } else {
            let alpha = f_div(rho, pi);
            let w = matvec(m, &p);
            f = vec_add_scaled(&f, &p, alpha);
            r = vec_sub_scaled(&r, &w, alpha);
            let rho1 = dot(&r, &r);
            if f_lt(rho1, B_EPSILON) {
                iterations = i + 1;
                done = true;
            } else if i + 1 == MAX_ITERATIONS {
                iterations = MAX_ITERATIONS;
                done = true;
            } else {
                let beta = f_div(rho1, rho);
                let tz = tmatvec(m, &r);
                p = vec_add_scaled(&tz, &p, beta);
                rho = rho1;
            }
            proof {
                assert(cgne_from(*m, stq, i as nat) == if done {
                    (f@, iterations as nat)
                } else {
                    cgne_from(*m, CgneState { f: f@, r: r@, p: p@, rho }, (i + 1) as nat)
                });
            }
        }
        i = i + 1;
    }
    (f, iterations)
}

/// Runs the selected algorithm on the signal. The returned image has one
/// sample per matrix column, and the iteration count lies in
/// `[1, MAX_ITERATIONS]`.
pub fn solve_core(alg: Algorithm, m: &ModelMatrix, g: &Vec<u64>) -> (out: (Vec<u64>, usize))
    requires
        m.wf(),
        g@.len() == m.s,
    ensures
        (out.0@, out.1 as nat) == solve_output(alg, *m, g@),
        out.0@.len() == m.n,
        1 <= out.1 <= MAX_ITERATIONS,
{
    match alg {
        Algorithm::Cgnr => cgnr_solve(m, g),
        Algorithm::Cgne => cgne_solve(m, g),
    }
}

/// Whether `r` is the integer square root of `n`: `sqrt(n)` truncated.
pub open spec fn is_isqrt(n: int, r: int) -> bool {
    0 <= r && r * r <= n && n < (r + 1) * (r + 1)
}

/// Integer square root: the image side length for a pixel count.
pub fn isqrt(n: usize) -> (r: usize)
    ensures
        is_isqrt(n as int, r as int),
{
    let wide: u64 = n as u64;
    let mut r: u64 = 0;
    let mut done = false;
    while !done
        invariant
            wide == n,
            r <= 0xFFFF_FFFF,
            r * r <= wide,
            done ==> wide < (r + 1) * (r + 1),
        decreases 0xFFFF_FFFFu64 - r, (if done { 0int } else { 1 }),
    {
        if r < 0xFFFF_FFFF {
            proof {
                lemma_mul_upper_bound(r as int + 1, 0xFFFF_FFFF, r as int + 1, 0xFFFF_FFFF);
            }
            let q = (r + 1) * (r + 1);
            if q <= wide {
                r = r + 1;
            } else {
                done = true;
            }
        } else {
            proof {
                assert(wide < (r as int + 1) * (r as int + 1)) by (nonlinear_arith)
                    requires
                        r == 0xFFFF_FFFFu64,
                        wide <= 0xFFFF_FFFF_FFFF_FFFFu64,
                ;
            }
            done = true;
        }
    }
    r as usize
}

/// Law: when a pixel count is a perfect square, the truncated square root
/// recovers its side exactly, so the image geometry multiplies back to the
/// pixel count.
pub proof fn lemma_square_geometry(n: int, side: int, k: int)
    requires
        is_isqrt(n, side),
        k >= 0,
        k * k == n,
    ensures
        side == k,
        side * side == n,
{
    assert(k <= side) by (nonlinear_arith)
        requires
            k >= 0,
            side >= 0,
            k * k == n,
            n < (side + 1) * (side + 1),
    ;
    assert(side <= k) by (nonlinear_arith)
        requires
            k >= 0,
            side >= 0,
            k * k == n,
            side * side <= n,
    ;
}

/// Law: valid-request geometry. The pixel count of every recognised
/// model is the perfect square of its side, so the result of a solve on
/// such a model carries `side x side` image pixels whose product is the
/// model's pixel count — and the solver's contract already gives one
/// sample per pixel in the returned vector.
pub proof fn lemma_valid_request_geometry(id: crate::model::ModelId, side: int)
    requires
        is_isqrt(id.spec_pixels() as int, side),
    ensures
        side == id.spec_side(),
        side * side == id.spec_pixels(),
{
    lemma_square_geometry(id.spec_pixels() as int, side, id.spec_side() as int);
}

/// Runs the solver between two clock readings and assembles the result
/// record: the solver's image and iteration count, the wall-clock window,
/// its signed millisecond duration, and the truncated-square image
/// geometry.
pub fn execute_cgnr(
    algorithm: Algorithm,
    user_id: u128,
    h: &ModelMatrix,
    g: &Vec<u64>,
) -> (res: ReconstructionResult)
    requires
        h.wf(),
        g@.len() == h.s,
    ensures
        is_solve_result(res, algorithm, *h, g@),
        res.user_id == user_id,
        res.algorithm_id@ == algorithm.id_view(),
        is_isqrt(h.n as int, res.image_pixels.0 as int),
        res.image_pixels.1 == res.image_pixels.0,
        res.reconstruction_time_ms == duration_ms(res.start_time, res.end_time),
        !res.is_sentinel(),
{
    let start_time = now_millis();
    let out = solve_core(algorithm, h, g);
    let end_time = now_millis();
    let reconstruction_time_ms = elapsed_ms(start_time, end_time);
    let side = isqrt(h.n);
    ReconstructionResult {
        user_id,
        algorithm_id: algorithm.name(),
        start_time,
        end_time,
        reconstruction_time_ms,
        image_pixels: (side, side),
        iterations: out.1,
        f: out.0,
    }
}

/// Runs the solver when the signal fits the matrix, as a worker must
/// check before solving: succeeds exactly when the signal has one
/// sample per matrix row.
pub fn try_execute(
    algorithm: Algorithm,
    user_id: u128,
    h: &ModelMatrix,
    g: &Vec<u64>,
) -> (r: Option<ReconstructionResult>)
    requires
        h.wf(),
    ensures
        match r {
            Some(res) => g@.len() == h.s && is_solve_result(res, algorithm, *h, g@)
                && res.user_id == user_id && res.algorithm_id@ == algorithm.id_view()
                && !res.is_sentinel(),
            None => g@.len() != h.s,
        },
{
    if g.len() == h.s {
        Some(execute_cgnr(algorithm, user_id, h, g))
    } else {
        None
    }
}

} // verus!
