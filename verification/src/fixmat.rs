//! Fixed-point scalars and small dense matrices for the smoother.
//!
//! A value of `1` stands for `10^-6` of the modeled unit; every stored
//! number is clipped into `[-CLIP, CLIP]`, which keeps all intermediate
//! arithmetic inside the machine's integer ranges. Matrices are flat
//! row-major vectors with their dimensions passed alongside.

use vstd::prelude::*;

verus! {

/// One whole unit in fixed-point micro steps.
pub const SCALE: i64 = 1_000_000;

/// The largest magnitude a stored number may take.
pub const CLIP: i64 = 1_000_000_000_000_000_000;

/// Clip an unbounded value into the stored range.
pub open spec fn clip_spec(x: int) -> i64 {
    if x > CLIP as int {
        CLIP
    } else if x < -(CLIP as int) {
        (-CLIP) as i64
    } else {
        x as i64
    }
}

/// Division truncating toward zero, for a positive divisor.
pub open spec fn tdiv(x: int, d: int) -> int
    recommends
        d > 0,
{
    if x >= 0 {
        x / d
    } else {
        -((-x) / d)
    }
}

/// Division truncating toward zero, for any nonzero divisor.
pub open spec fn tdivs(x: int, d: int) -> int
    recommends
        d != 0,
{
    if d > 0 {
        tdiv(x, d)
    } else {
        -tdiv(x, -d)
    }
}

/// Every entry lies in the stored range.
pub open spec fn bounded(s: Seq<i64>) -> bool {
    forall|i: int| 0 <= i < s.len() ==> -CLIP <= #[trigger] s[i] <= CLIP
}

/// What a row-times-column accumulation can reach: eight products of
/// clipped factors.
pub open spec fn acc_bound() -> int {
    8 * (CLIP as int) * (CLIP as int)
}

/// The product of two values bounded by `c` is bounded by `c * c`.
pub proof fn lemma_mul_bound_sym(a: int, b: int, c: int)
    requires
        -c <= a <= c,
        -c <= b <= c,
        0 <= c,
    ensures
        -(c * c) <= a * b <= c * c,
{
    assert(-(c * c) <= a * b <= c * c) by (nonlinear_arith)
        requires
            -c <= a <= c,
            -c <= b <= c,
            0 <= c,
    ;
}

/// A quotient of naturals never exceeds its dividend.
proof fn lemma_div_le_self(x: int, d: int)
    requires
        0 <= x,
        1 <= d,
    ensures
        0 <= x / d <= x,
{
    assert(0 <= x / d <= x) by (nonlinear_arith)
        requires
            0 <= x,
            1 <= d,
    ;
}

/// Clip a plain value.
pub(crate) fn clip64(x: i64) -> (r: i64)
    ensures
        r == clip_spec(x as int),
{
    if x > CLIP {
        CLIP
    } else if x < -CLIP {
        -CLIP
    } else {
        x
    }
}

/// Scale an accumulated product sum back by one unit and clip it.
pub(crate) fn scale_clip(acc: i128) -> (r: i64)
    requires
        -acc_bound() <= acc as int <= acc_bound(),
    ensures
        r == clip_spec(tdiv(acc as int, SCALE as int)),
{
    let q: i128 = if acc >= 0 {
        proof {
            lemma_div_le_self(acc as int, SCALE as int);
        }
        ((acc as u128) / (SCALE as u128)) as i128
    } else {
        proof {
            lemma_div_le_self(-(acc as int), SCALE as int);
        }
        -((((-acc) as u128) / (SCALE as u128)) as i128)
    };
    if q > CLIP as i128 {
        CLIP
    } else if q < -(CLIP as i128) {
        -CLIP
    } else {
        q as i64
    }
}

/// Divide a scaled value by an arbitrary nonzero value, truncating, and
/// clip the quotient.
pub(crate) fn div_clip(x: i128, d: i128) -> (r: i64)
    requires
        d != 0,
        -acc_bound() <= x as int <= acc_bound(),
        -acc_bound() <= d as int <= acc_bound(),
    ensures
        r == clip_spec(tdivs(x as int, d as int)),
{
    let xa: u128 = if x >= 0 {
        x as u128
    } else {
        (-x) as u128
    };
    let da: u128 = if d >= 0 {
        d as u128
    } else {
        (-d) as u128
    };
    proof {
        lemma_div_le_self(xa as int, da as int);
    }
    let q: i128 = (xa / da) as i128;
    let neg: bool = (x < 0) != (d < 0);
    let qs: i128 = if neg {
        -q
    } else {
        q
    };
    proof {
        assert(qs == tdivs(x as int, d as int));
    }
    if qs > CLIP as i128 {
        CLIP
    } else if qs < -(CLIP as i128) {
        -CLIP
    } else {
        qs as i64
    }
}

/// Scale an accumulated product back by one unit without clipping.
pub(crate) fn tdiv_scale_128(x: i128) -> (q: i128)
    requires
        -acc_bound() <= x as int <= acc_bound(),
    ensures
        q as int == tdiv(x as int, SCALE as int),
        -acc_bound() <= q as int <= acc_bound(),
{
    if x >= 0 {
        proof {
            lemma_div_le_self(x as int, SCALE as int);
        }
        ((x as u128) / (SCALE as u128)) as i128
    } else {
        proof {
            lemma_div_le_self(-(x as int), SCALE as int);
        }
        -((((-x) as u128) / (SCALE as u128)) as i128)
    }
}

/// The innovation determinant of a two-by-two fixed-point matrix.
pub open spec fn det2(s: Seq<i64>) -> int {
    tdiv(s[0] * s[3], SCALE as int) - tdiv(s[1] * s[2], SCALE as int)
}

/// The guarded fixed-point inverse of a two-by-two matrix: a vanishing
/// determinant yields the zero matrix, as a tolerant pseudo-inverse zeroes
/// a vanishing singular value.
pub open spec fn inv2_spec(s: Seq<i64>) -> Seq<i64> {
    let d = det2(s);
    if d == 0 {
        seq![0i64, 0, 0, 0]
    } else {
        seq![
            clip_spec(tdivs(s[3] * (SCALE as int), d)),
            clip_spec(tdivs(-(s[1] * (SCALE as int)), d)),
            clip_spec(tdivs(-(s[2] * (SCALE as int)), d)),
            clip_spec(tdivs(s[0] * (SCALE as int), d)),
        ]
    }
}

/// Invert a two-by-two fixed-point matrix, with the vanishing-determinant
/// guard.
pub(crate) fn inv2(s: &Vec<i64>) -> (r: Vec<i64>)
    requires
        s@.len() == 4,
        bounded(s@),
    ensures
        r@ == inv2_spec(s@),
        r@.len() == 4,
        bounded(r@),
{
    proof {
        lemma_mul_bound_sym(s@[0] as int, s@[3] as int, CLIP as int);
        lemma_mul_bound_sym(s@[1] as int, s@[2] as int, CLIP as int);
        lemma_mul_bound_sym(s@[0] as int, SCALE as int, CLIP as int);
        lemma_mul_bound_sym(s@[1] as int, SCALE as int, CLIP as int);
        lemma_mul_bound_sym(s@[2] as int, SCALE as int, CLIP as int);
        lemma_mul_bound_sym(s@[3] as int, SCALE as int, CLIP as int);
    }
    let ad = tdiv_scale_128((s[0] as i128) * (s[3] as i128));
    let bd = tdiv_scale_128((s[1] as i128) * (s[2] as i128));
    let det: i128 = ad - bd;
    let mut r: Vec<i64> = Vec::new();
    if det == 0 {
        r.push(0);
        r.push(0);
        r.push(0);
        r.push(0);
        proof {
            assert(det2(s@) == 0);
            assert(r@ =~= inv2_spec(s@));
        }
    } else {
        r.push(div_clip((s[3] as i128) * (SCALE as i128), det));
        r.push(div_clip(-((s[1] as i128) * (SCALE as i128)), det));
        r.push(div_clip(-((s[2] as i128) * (SCALE as i128)), det));
        r.push(div_clip((s[0] as i128) * (SCALE as i128), det));
        proof {
            assert(r@ =~= inv2_spec(s@));
        }
    }
    r
}

/// The fixed-point product of two stored values.
pub open spec fn fixmul_spec(a: i64, b: i64) -> i64 {
    clip_spec(tdiv(a * b, SCALE as int))
}

pub(crate) fn fixmul(a: i64, b: i64) -> (r: i64)
    requires
        -CLIP <= a <= CLIP,
        -CLIP <= b <= CLIP,
    ensures
        r == fixmul_spec(a, b),
{
    proof {
        lemma_mul_bound_sym(a as int, b as int, CLIP as int);
    }
    let p: i128 = (a as i128) * (b as i128);
    scale_clip(p)
}

/// The first `k` products of row `i` of `a` against column `j` of `b`,
/// summed raw (scaled back only once, by the caller).
pub open spec fn dot_k(a: Seq<i64>, b: Seq<i64>, m: int, p: int, i: int, j: int, k: int) -> int
    decreases k,
{
    if k <= 0 {
        0
    } else {
        dot_k(a, b, m, p, i, j, k - 1) + a[i * m + (k - 1)] * b[(k - 1) * p + j]
    }
}

/// The fixed-point matrix product of an `n` by `m` and an `m` by `p` matrix.
pub open spec fn smat_mul(a: Seq<i64>, b: Seq<i64>, n: int, m: int, p: int) -> Seq<i64> {
    Seq::new((n * p) as nat, |idx: int| clip_spec(tdiv(dot_k(a, b, m, p, idx / p, idx % p, m), SCALE as int)))
}

/// Entrywise clipped sum.
pub open spec fn smat_add(a: Seq<i64>, b: Seq<i64>) -> Seq<i64> {
    Seq::new(a.len(), |i: int| clip_spec(a[i] + b[i]))
}

/// Entrywise clipped difference.
pub open spec fn smat_sub(a: Seq<i64>, b: Seq<i64>) -> Seq<i64> {
    Seq::new(a.len(), |i: int| clip_spec(a[i] - b[i]))
}

/// The transpose of an `n` by `m` matrix.
pub open spec fn smat_t(a: Seq<i64>, n: int, m: int) -> Seq<i64> {
    Seq::new((m * n) as nat, |idx: int| a[(idx % n) * m + idx / n])
}

/// A row-major index stays inside the flat matrix.
proof fn lemma_flat_index(i: int, t: int, n: int, m: int)
    requires
        0 <= i < n <= 8,
        0 <= t < m <= 8,
    ensures
        0 <= i * m + t,
        i * m + t < n * m,
        n * m <= 64,
{
    assert(0 <= i * m + t && i * m + t < n * m && n * m <= 64) by (nonlinear_arith)
        requires
            0 <= i < n <= 8,
            0 <= t < m <= 8,
    ;
}

/// A raw dot accumulation stays within eight clipped products.
proof fn lemma_dot_k_bound(
    a: Seq<i64>,
    b: Seq<i64>,
    n: int,
    m: int,
    p: int,
    i: int,
    j: int,
    k: int,
)
    requires
        bounded(a),
        bounded(b),
        a.len() == n * m,
        b.len() == m * p,
        0 <= i < n <= 8,
        0 <= j < p <= 8,
        1 <= m <= 8,
        0 <= k <= m,
    ensures
        -(k * (CLIP as int) * (CLIP as int)) <= dot_k(a, b, m, p, i, j, k) <= k * (CLIP as int) * (
        CLIP as int),
    decreases k,
{
    if k > 0 {
        lemma_dot_k_bound(a, b, n, m, p, i, j, k - 1);
        lemma_flat_index(i, k - 1, n, m);
        lemma_flat_index(k - 1, j, m, p);
        lemma_mul_bound_sym(a[i * m + (k - 1)] as int, b[(k - 1) * p + j] as int, CLIP as int);
    }
}

/// Multiply two fixed-point matrices.
#[verifier::loop_isolation(false)]
pub(crate) fn mat_mul(a: &Vec<i64>, b: &Vec<i64>, n: usize, m: usize, p: usize) -> (r: Vec<i64>)
    requires
        1 <= n <= 8,
        1 <= m <= 8,
        1 <= p <= 8,
        a@.len() == n * m,
        b@.len() == m * p,
        bounded(a@),
        bounded(b@),
    ensures
        r@ == smat_mul(a@, b@, n as int, m as int, p as int),
        r@.len() == n * p,
        bounded(r@),
{
    let mut r: Vec<i64> = Vec::new();
    let mut i: usize = 0;
    while i < n
        invariant
            0 <= i <= n,
            r@.len() == i * p,
            bounded(r@),
            forall|idx: int|
                0 <= idx < i * p ==> r@[idx] == smat_mul(a@, b@, n as int, m as int, p as int)[idx],
        decreases n - i,
    {
        let mut j: usize = 0;
        while j < p
            invariant
                0 <= j <= p,
                i < n,
                r@.len() == i * p + j,
                bounded(r@),
                forall|idx: int|
                    0 <= idx < i * p + j ==> r@[idx] == smat_mul(
                        a@,
                        b@,
                        n as int,
                        m as int,
                        p as int,
                    )[idx],
            decreases p - j,
        {
            let mut acc: i128 = 0;
            let mut k: usize = 0;
            while k < m
                invariant
                    0 <= k <= m,
                    i < n,
                    j < p,
                    acc == dot_k(a@, b@, m as int, p as int, i as int, j as int, k as int),
                    -((k as int) * (CLIP as int) * (CLIP as int)) <= acc as int <= (k as int) * (
                    CLIP as int) * (CLIP as int),
                decreases m - k,
            {
                proof {
                    lemma_flat_index(i as int, k as int, n as int, m as int);
                    lemma_flat_index(k as int, j as int, m as int, p as int);
                    lemma_mul_bound_sym(a@[i * m + k] as int, b@[k * p + j] as int, CLIP as int);
                    lemma_dot_k_bound(
                        a@,
                        b@,
                        n as int,
                        m as int,
                        p as int,
                        i as int,
                        j as int,
                        k as int + 1,
                    );
                }
                acc = acc + (a[i * m + k] as i128) * (b[k * p + j] as i128);
                k = k + 1;
            }
            proof {
                lemma_dot_k_bound(
                    a@,
                    b@,
                    n as int,
                    m as int,
                    p as int,
                    i as int,
                    j as int,
                    m as int,
                );
            }
            let entry = scale_clip(acc);
            proof {
                let idx: int = i as int * p + j;
                lemma_flat_index(i as int, j as int, n as int, p as int);
                vstd::arithmetic::div_mod::lemma_fundamental_div_mod_converse(
                    idx,
                    p as int,
                    i as int,
                    j as int,
                );
                assert(smat_mul(a@, b@, n as int, m as int, p as int)[idx] == entry);
            }
            r.push(entry);
            j = j + 1;
        }
        proof {
            assert((i as int + 1) * p == i as int * p + p) by (nonlinear_arith);
        }
        i = i + 1;
    }
    proof {
        assert(r@ =~= smat_mul(a@, b@, n as int, m as int, p as int));
    }
    r
}

/// Add two fixed-point matrices of one shape.
#[verifier::loop_isolation(false)]
pub(crate) fn mat_add(a: &Vec<i64>, b: &Vec<i64>) -> (r: Vec<i64>)
    requires
        a@.len() == b@.len(),
        bounded(a@),
        bounded(b@),
    ensures
        r@ == smat_add(a@, b@),
        r@.len() == a@.len(),
        bounded(r@),
{
    let mut r: Vec<i64> = Vec::new();
    let mut i: usize = 0;
    while i < a.len()
        invariant
            0 <= i <= a@.len(),
            r@.len() == i,
            bounded(r@),
            forall|idx: int| 0 <= idx < i ==> r@[idx] == smat_add(a@, b@)[idx],
        decreases a@.len() - i,
    {
        r.push(clip64(a[i] + b[i]));
        i = i + 1;
    }
    proof {
        assert(r@ =~= smat_add(a@, b@));
    }
    r
}

/// Subtract two fixed-point matrices of one shape.
#[verifier::loop_isolation(false)]
pub(crate) fn mat_sub(a: &Vec<i64>, b: &Vec<i64>) -> (r: Vec<i64>)
    requires
        a@.len() == b@.len(),
        bounded(a@),
        bounded(b@),
    ensures
        r@ == smat_sub(a@, b@),
        r@.len() == a@.len(),
        bounded(r@),
{
    let mut r: Vec<i64> = Vec::new();
    let mut i: usize = 0;
    while i < a.len()
        invariant
            0 <= i <= a@.len(),
            r@.len() == i,
            bounded(r@),
            forall|idx: int| 0 <= idx < i ==> r@[idx] == smat_sub(a@, b@)[idx],
        decreases a@.len() - i,
    {
        r.push(clip64(a[i] - b[i]));
        i = i + 1;
    }
    proof {
        assert(r@ =~= smat_sub(a@, b@));
    }
    r
}

/// Transpose an `n` by `m` fixed-point matrix.
#[verifier::loop_isolation(false)]
pub(crate) fn mat_t(a: &Vec<i64>, n: usize, m: usize) -> (r: Vec<i64>)
    requires
        1 <= n <= 8,
        1 <= m <= 8,
        a@.len() == n * m,
        bounded(a@),
    ensures
        r@ == smat_t(a@, n as int, m as int),
        r@.len() == m * n,
        bounded(r@),
{
    let mut r: Vec<i64> = Vec::new();
    let mut i: usize = 0;
    while i < m
        invariant
            0 <= i <= m,
            r@.len() == i * n,
            bounded(r@),
            forall|idx: int| 0 <= idx < i * n ==> r@[idx] == smat_t(a@, n as int, m as int)[idx],
        decreases m - i,
    {
        let mut j: usize = 0;
        while j < n
            invariant
                0 <= j <= n,
                i < m,
                r@.len() == i * n + j,
                bounded(r@),
                forall|idx: int|
                    0 <= idx < i * n + j ==> r@[idx] == smat_t(a@, n as int, m as int)[idx],
            decreases n - j,
        {
            proof {
                lemma_flat_index(j as int, i as int, n as int, m as int);
            }
            let entry = a[j * m + i];
            proof {
                let idx: int = i as int * n + j;
                lemma_flat_index(i as int, j as int, m as int, n as int);
                vstd::arithmetic::div_mod::lemma_fundamental_div_mod_converse(
                    idx,
                    n as int,
                    i as int,
                    j as int,
                );
                assert(smat_t(a@, n as int, m as int)[idx] == entry);
            }
            r.push(entry);
            j = j + 1;
        }
        proof {
            assert((i as int + 1) * n == i as int * n + n) by (nonlinear_arith);
        }
        i = i + 1;
    }
    proof {
        assert(r@ =~= smat_t(a@, n as int, m as int));
    }
    r
}

} // verus!
