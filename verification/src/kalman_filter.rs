//! The smoother: a discrete linear Kalman filter on a six-dimensional
//! constant-acceleration state, measuring the two horizontal positions.
//!
//! The arithmetic is fixed point: positions enter in millimeters and are
//! carried in micro-meter steps; the two tuning scalars enter in micro
//! units (`1_000_000` is `1.0`). Each input point gets one predict-update
//! pass; the output point carries the filtered east and north positions,
//! with the up axis and the elapsed time zeroed, as the model does not
//! carry them. The near-singular gain guard mirrors the tolerance of a
//! pseudo-inverse: a vanishing innovation determinant yields zero gain, so
//! the prediction passes through.

use vstd::prelude::*;

use crate::fixmat::{
    bounded, fixmul, fixmul_spec, inv2_spec, mat_add, mat_mul, mat_sub, mat_t, smat_add, smat_mul,
    smat_sub, smat_t, tdivs, CLIP,
};
use crate::gpx_to_4d::Point4D;

verus! {

/// The state transition: per axis, position gains velocity and half the
/// acceleration, velocity gains acceleration, acceleration stays.
pub open spec fn f_mat() -> Seq<i64> {
    seq![
        1000000i64, 1000000, 500000, 0, 0, 0,
        0, 1000000, 1000000, 0, 0, 0,
        0, 0, 1000000, 0, 0, 0,
        0, 0, 0, 1000000, 1000000, 500000,
        0, 0, 0, 0, 1000000, 1000000,
        0, 0, 0, 0, 0, 1000000,
    ]
}

/// The measurement matrix: the two position components of the state.
pub open spec fn h_mat() -> Seq<i64> {
    seq![
        1000000i64, 0, 0, 0, 0, 0,
        0, 0, 0, 1000000, 0, 0,
    ]
}

/// The identity on the six-dimensional state.
pub open spec fn i6_mat() -> Seq<i64> {
    seq![
        1000000i64, 0, 0, 0, 0, 0,
        0, 1000000, 0, 0, 0, 0,
        0, 0, 1000000, 0, 0, 0,
        0, 0, 0, 1000000, 0, 0,
        0, 0, 0, 0, 1000000, 0,
        0, 0, 0, 0, 0, 1000000,
    ]
}

/// White acceleration noise: the squared model uncertainty on the two
/// acceleration entries of the diagonal.
pub open spec fn qa_mat(sa: i64) -> Seq<i64> {
    seq![
        0i64, 0, 0, 0, 0, 0,
        0, 0, 0, 0, 0, 0,
        0, 0, fixmul_spec(sa, sa), 0, 0, 0,
        0, 0, 0, 0, 0, 0,
        0, 0, 0, 0, 0, 0,
        0, 0, 0, 0, 0, fixmul_spec(sa, sa),
    ]
}

/// Process noise: the acceleration noise propagated through the transition.
pub open spec fn q_mat(sa: i64) -> Seq<i64> {
    smat_mul(f_mat(), smat_mul(qa_mat(sa), smat_t(f_mat(), 6, 6), 6, 6, 6), 6, 6, 6)
}

/// Measurement noise: the squared sensor uncertainty on both axes,
/// uncorrelated.
pub open spec fn r_mat(sx: i64) -> Seq<i64> {
    seq![fixmul_spec(sx, sx), 0, 0, fixmul_spec(sx, sx)]
}

/// The weakly informative starting covariance: a thousand on the diagonal.
pub open spec fn p0_mat() -> Seq<i64> {
    seq![
        1000000000i64, 0, 0, 0, 0, 0,
        0, 1000000000, 0, 0, 0, 0,
        0, 0, 1000000000, 0, 0, 0,
        0, 0, 0, 1000000000, 0, 0,
        0, 0, 0, 0, 1000000000, 0,
        0, 0, 0, 0, 0, 1000000000,
    ]
}

/// The zero starting state.
pub open spec fn x0_vec() -> Seq<i64> {
    seq![0i64, 0, 0, 0, 0, 0]
}

/// The filter's whole memory: state estimate and covariance.
pub struct KState {
    pub x: Seq<i64>,
    pub p: Seq<i64>,
}

pub open spec fn k_init() -> KState {
    KState { x: x0_vec(), p: p0_mat() }
}

/// One predict-update pass on one measurement.
pub open spec fn kstep(st: KState, zx: i64, zy: i64, q: Seq<i64>, r: Seq<i64>) -> KState {
    let f = f_mat();
    let ft = smat_t(f, 6, 6);
    let h = h_mat();
    let ht = smat_t(h, 2, 6);
    let x_pred = smat_mul(f, st.x, 6, 6, 1);
    let p_pred = smat_add(smat_mul(smat_mul(f, st.p, 6, 6, 6), ft, 6, 6, 6), q);
    let s2 = smat_add(smat_mul(smat_mul(h, p_pred, 2, 6, 6), ht, 2, 6, 2), r);
    let sinv = inv2_spec(s2);
    let gain = smat_mul(smat_mul(p_pred, ht, 6, 6, 2), sinv, 6, 2, 2);
    let innov = smat_sub(seq![zx, zy], smat_mul(h, x_pred, 2, 6, 1));
    let x_new = smat_add(x_pred, smat_mul(gain, innov, 6, 2, 1));
    let t = smat_sub(i6_mat(), smat_mul(gain, h, 6, 2, 6));
    let p_new = smat_add(
        smat_mul(smat_mul(t, p_pred, 6, 6, 6), smat_t(t, 6, 6), 6, 6, 6),
        smat_mul(smat_mul(gain, r, 6, 2, 2), smat_t(gain, 6, 2), 6, 2, 6),
    );
    KState { x: x_new, p: p_new }
}

/// The measurement a local point feeds the filter: its horizontal
/// millimeters carried into micro-meter steps.
pub open spec fn z_of(p: Point4D) -> (i64, i64) {
    ((p.x_mm * 1000) as i64, (p.y_mm * 1000) as i64)
}

/// The filter's memory after the first `n` points.
pub open spec fn filter_state(ps: Seq<Point4D>, sa: i64, sx: i64, n: int) -> KState
    decreases n,
{
    if n <= 0 {
        k_init()
    } else {
        kstep(
            filter_state(ps, sa, sx, n - 1),
            z_of(ps[n - 1]).0,
            z_of(ps[n - 1]).1,
            q_mat(sa),
            r_mat(sx),
        )
    }
}

/// Micro-meter steps back to whole millimeters, truncating toward zero.
pub open spec fn to_mm(v: i64) -> i64 {
    tdivs(v as int, 1000) as i64
}

/// The `i`-th smoothed point: the filtered horizontal position after the
/// `i`-th measurement, up axis and elapsed time zeroed.
pub open spec fn filter_out(ps: Seq<Point4D>, sa: i64, sx: i64, i: int) -> Point4D {
    let st = filter_state(ps, sa, sx, i + 1);
    Point4D { x_mm: to_mm(st.x[0]), y_mm: to_mm(st.x[3]), z_mm: 0, secs: 0 }
}

/// A measurement the fixed-point pipeline can carry: a thousand million
/// kilometers of headroom on either horizontal axis.
pub open spec fn measurement_in_range(p: Point4D) -> bool {
    &&& -1_000_000_000_000_000 <= p.x_mm <= 1_000_000_000_000_000
    &&& -1_000_000_000_000_000 <= p.y_mm <= 1_000_000_000_000_000
}

/// Append thirty-six literal entries; a helper for the constant builders.
#[verifier::loop_isolation(false)]
fn push_row(v: &mut Vec<i64>, a: i64, b: i64, c: i64, d: i64, e: i64, f: i64)
    ensures
        final(v)@ == old(v)@ + seq![a, b, c, d, e, f],
{
    v.push(a);
    v.push(b);
    v.push(c);
    v.push(d);
    v.push(e);
    v.push(f);
    proof {
        assert(v@ =~= old(v)@ + seq![a, b, c, d, e, f]);
    }
}

fn build_f() -> (v: Vec<i64>)
    ensures
        v@ == f_mat(),
        v@.len() == 36,
        bounded(v@),
{
    let mut v: Vec<i64> = Vec::new();
    push_row(&mut v, 1000000, 1000000, 500000, 0, 0, 0);
    push_row(&mut v, 0, 1000000, 1000000, 0, 0, 0);
    push_row(&mut v, 0, 0, 1000000, 0, 0, 0);
    push_row(&mut v, 0, 0, 0, 1000000, 1000000, 500000);
    push_row(&mut v, 0, 0, 0, 0, 1000000, 1000000);
    push_row(&mut v, 0, 0, 0, 0, 0, 1000000);
    proof {
        assert(v@ =~= f_mat());
    }
    v
}

fn build_h() -> (v: Vec<i64>)
    ensures
        v@ == h_mat(),
        v@.len() == 12,
        bounded(v@),
{
    let mut v: Vec<i64> = Vec::new();
    push_row(&mut v, 1000000, 0, 0, 0, 0, 0);
    push_row(&mut v, 0, 0, 0, 1000000, 0, 0);
    proof {
        assert(v@ =~= h_mat());
    }
    v
}

fn build_i6() -> (v: Vec<i64>)
    ensures
        v@ == i6_mat(),
        v@.len() == 36,
        bounded(v@),
{
    let mut v: Vec<i64> = Vec::new();
    push_row(&mut v, 1000000, 0, 0, 0, 0, 0);
    push_row(&mut v, 0, 1000000, 0, 0, 0, 0);
    push_row(&mut v, 0, 0, 1000000, 0, 0, 0);
    push_row(&mut v, 0, 0, 0, 1000000, 0, 0);
    push_row(&mut v, 0, 0, 0, 0, 1000000, 0);
    push_row(&mut v, 0, 0, 0, 0, 0, 1000000);
    proof {
        assert(v@ =~= i6_mat());
    }
    v
}

fn build_p0() -> (v: Vec<i64>)
    ensures
        v@ == p0_mat(),
        v@.len() == 36,
        bounded(v@),
{
    let mut v: Vec<i64> = Vec::new();
    push_row(&mut v, 1000000000, 0, 0, 0, 0, 0);
    push_row(&mut v, 0, 1000000000, 0, 0, 0, 0);
    push_row(&mut v, 0, 0, 1000000000, 0, 0, 0);
    push_row(&mut v, 0, 0, 0, 1000000000, 0, 0);
    push_row(&mut v, 0, 0, 0, 0, 1000000000, 0);
    push_row(&mut v, 0, 0, 0, 0, 0, 1000000000);
    proof {
        assert(v@ =~= p0_mat());
    }
    v
}

fn build_qa(sa2: i64, sa: i64) -> (v: Vec<i64>)
    requires
        -CLIP <= sa2 <= CLIP,
        sa2 == fixmul_spec(sa, sa),
    ensures
        v@ == qa_mat(sa),
        v@.len() == 36,
        bounded(v@),
{
    let mut v: Vec<i64> = Vec::new();
    push_row(&mut v, 0, 0, 0, 0, 0, 0);
    push_row(&mut v, 0, 0, 0, 0, 0, 0);
    push_row(&mut v, 0, 0, sa2, 0, 0, 0);
    push_row(&mut v, 0, 0, 0, 0, 0, 0);
    push_row(&mut v, 0, 0, 0, 0, 0, 0);
    push_row(&mut v, 0, 0, 0, 0, 0, sa2);
    proof {
        assert(v@ =~= qa_mat(sa));
    }
    v
}

/// One predict-update pass of the running filter.
#[verifier::rlimit(30)]
fn kstep_exec(x: Vec<i64>, p: Vec<i64>, zx: i64, zy: i64, q: &Vec<i64>, r: &Vec<i64>) -> (res: (
    Vec<i64>,
    Vec<i64>,
))
    requires
        x@.len() == 6,
        p@.len() == 36,
        q@.len() == 36,
        r@.len() == 4,
        bounded(x@),
        bounded(p@),
        bounded(q@),
        bounded(r@),
        -CLIP <= zx <= CLIP,
        -CLIP <= zy <= CLIP,
    ensures
        res.0@ == kstep((KState { x: x@, p: p@ }), zx, zy, q@, r@).x,
        res.1@ == kstep((KState { x: x@, p: p@ }), zx, zy, q@, r@).p,
        res.0@.len() == 6,
        res.1@.len() == 36,
        bounded(res.0@),
        bounded(res.1@),
{
    let f = build_f();
    let ft = mat_t(&f, 6, 6);
    let h = build_h();
    let ht = mat_t(&h, 2, 6);
    let x_pred = mat_mul(&f, &x, 6, 6, 1);
    let fp = mat_mul(&f, &p, 6, 6, 6);
    let fpf = mat_mul(&fp, &ft, 6, 6, 6);
    let p_pred = mat_add(&fpf, q);
    let hp = mat_mul(&h, &p_pred, 2, 6, 6);
    let hph = mat_mul(&hp, &ht, 2, 6, 2);
    let s2 = mat_add(&hph, r);
    let sinv = crate::fixmat::inv2(&s2);
    let pht = mat_mul(&p_pred, &ht, 6, 6, 2);
    let gain = mat_mul(&pht, &sinv, 6, 2, 2);
    let mut z: Vec<i64> = Vec::new();
    z.push(zx);
    z.push(zy);
    proof {
        assert(z@ =~= seq![zx, zy]);
    }
    let hx = mat_mul(&h, &x_pred, 2, 6, 1);
    let innov = mat_sub(&z, &hx);
    let ki = mat_mul(&gain, &innov, 6, 2, 1);
    let x_new = mat_add(&x_pred, &ki);
    let i6 = build_i6();
    let kh = mat_mul(&gain, &h, 6, 2, 6);
    let t = mat_sub(&i6, &kh);
    let tp = mat_mul(&t, &p_pred, 6, 6, 6);
    let tt = mat_t(&t, 6, 6);
    let p1 = mat_mul(&tp, &tt, 6, 6, 6);
    let kr = mat_mul(&gain, r, 6, 2, 2);
    let kt = mat_t(&gain, 6, 2);
    let p2 = mat_mul(&kr, &kt, 6, 2, 6);
    let p_new = mat_add(&p1, &p2);
    (x_new, p_new)
}

/// Micro-meter steps back to whole millimeters.
fn to_mm_exec(v: i64) -> (r: i64)
    ensures
        r == to_mm(v),
{
    match v.checked_div(1000) {
        Some(q) => q,
        None => 0,
    }
}

/// Smooth a local-frame trajectory with a fixed constant-acceleration
/// model: one predict-update pass per point, in order. The output has one
/// point per input point, carrying the filtered horizontal position with
/// the up axis and elapsed time zeroed.
#[verifier::loop_isolation(false)]
pub fn kalman_filter(
    points: &Vec<Point4D>,
    model_uncertainty_micro: i64,
    sensor_uncertainty_micro: i64,
) -> (out: Vec<Point4D>)
    requires
        0 < model_uncertainty_micro <= CLIP,
        0 < sensor_uncertainty_micro <= CLIP,
        forall|i: int| 0 <= i < points@.len() ==> measurement_in_range(#[trigger] points@[i]),
    ensures
        out@.len() == points@.len(),
        forall|i: int|
            0 <= i < out@.len() ==> #[trigger] out@[i] == filter_out(
                points@,
                model_uncertainty_micro,
                sensor_uncertainty_micro,
                i,
            ),
        forall|i: int| 0 <= i < out@.len() ==> (#[trigger] out@[i]).z_mm == 0 && out@[i].secs == 0,
{
    let sa = model_uncertainty_micro;
    let sx = sensor_uncertainty_micro;
    let sa2 = fixmul(sa, sa);
    let qa = build_qa(sa2, sa);
    let f = build_f();
    let ft = mat_t(&f, 6, 6);
    let qaft = mat_mul(&qa, &ft, 6, 6, 6);
    let q = mat_mul(&f, &qaft, 6, 6, 6);
    let sx2 = fixmul(sx, sx);
    let mut r: Vec<i64> = Vec::new();
    r.push(sx2);
    r.push(0);
    r.push(0);
    r.push(sx2);
    proof {
        assert(r@ =~= r_mat(sx));
    }
    let mut x = Vec::new();
    push_row(&mut x, 0, 0, 0, 0, 0, 0);
    proof {
        assert(x@ =~= x0_vec());
    }
    let mut p = build_p0();
    let mut out: Vec<Point4D> = Vec::new();
    let mut i: usize = 0;
    while i < points.len()
        invariant
            0 <= i <= points@.len(),
            out@.len() == i,
            q@ == q_mat(sa),
            r@ == r_mat(sx),
            q@.len() == 36,
            r@.len() == 4,
            bounded(q@),
            bounded(r@),
            x@ == filter_state(points@, sa, sx, i as int).x,
            p@ == filter_state(points@, sa, sx, i as int).p,
            x@.len() == 6,
            p@.len() == 36,
            bounded(x@),
            bounded(p@),
            forall|j: int| 0 <= j < i ==> #[trigger] out@[j] == filter_out(points@, sa, sx, j),
        decreases points@.len() - i,
    {
        let zx = points[i].x_mm * 1000;
        let zy = points[i].y_mm * 1000;
        let res = kstep_exec(x, p, zx, zy, &q, &r);
        x = res.0;
        p = res.1;
        let out_point = Point4D { x_mm: to_mm_exec(x[0]), y_mm: to_mm_exec(x[3]), z_mm: 0, secs: 0 };
        proof {
            assert(filter_state(points@, sa, sx, i as int + 1) == kstep(
                filter_state(points@, sa, sx, i as int),
                z_of(points@[i as int]).0,
                z_of(points@[i as int]).1,
                q_mat(sa),
                r_mat(sx),
            ));
            assert(out_point == filter_out(points@, sa, sx, i as int));
        }
        out.push(out_point);
        i = i + 1;
    }
    out
}

} // verus!
