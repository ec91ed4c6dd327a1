use vstd::prelude::*;

use crate::rat::{
    canon, q_fits, qadd, qeq, qeq_add_congr, qeq_mul_congr, qeq_sub_congr, qeq_trans, qmul, qone,
    qsub, qwf, qwf_add, qwf_mul, qwf_sub, qzero, rat_wf, Qv, Rat, RAT_BOUND,
};

verus! {

// ---------------------------------------------------------------------------
// Mathematical values: 3-vectors and 3x3 matrices of fractions.
// ---------------------------------------------------------------------------

pub struct V3v {
    pub x: Qv,
    pub y: Qv,
    pub z: Qv,
}

pub struct M3v {
    pub e00: Qv,
    pub e01: Qv,
    pub e02: Qv,
    pub e10: Qv,
    pub e11: Qv,
    pub e12: Qv,
    pub e20: Qv,
    pub e21: Qv,
    pub e22: Qv,
}

/// The cosine and sine of one joint angle: the only way an angle enters the
/// chain.
pub struct JrV {
    pub c: Qv,
    pub s: Qv,
}

pub open spec fn v3_wfv(v: V3v) -> bool {
    qwf(v.x) && qwf(v.y) && qwf(v.z)
}

pub open spec fn v3_eqv(a: V3v, b: V3v) -> bool {
    qeq(a.x, b.x) && qeq(a.y, b.y) && qeq(a.z, b.z)
}

pub open spec fn v3_zerov() -> V3v {
    V3v { x: qzero(), y: qzero(), z: qzero() }
}

pub open spec fn v3_addv(a: V3v, b: V3v) -> V3v {
    V3v { x: qadd(a.x, b.x), y: qadd(a.y, b.y), z: qadd(a.z, b.z) }
}

pub open spec fn v3_subv(a: V3v, b: V3v) -> V3v {
    V3v { x: qsub(a.x, b.x), y: qsub(a.y, b.y), z: qsub(a.z, b.z) }
}

pub open spec fn v3_scalev(k: Qv, v: V3v) -> V3v {
    V3v { x: qmul(k, v.x), y: qmul(k, v.y), z: qmul(k, v.z) }
}

pub open spec fn v3_dotv(a: V3v, b: V3v) -> Qv {
    qadd(qadd(qmul(a.x, b.x), qmul(a.y, b.y)), qmul(a.z, b.z))
}

/// Squared Euclidean length of a vector.
pub open spec fn v3_norm_sqv(v: V3v) -> Qv {
    v3_dotv(v, v)
}

/// A unit direction: squared length exactly one.
pub open spec fn v3_unitv(v: V3v) -> bool {
    qeq(v3_norm_sqv(v), qone())
}

pub open spec fn m3_wfv(m: M3v) -> bool {
    qwf(m.e00) && qwf(m.e01) && qwf(m.e02) && qwf(m.e10) && qwf(m.e11) && qwf(m.e12) && qwf(m.e20)
        && qwf(m.e21) && qwf(m.e22)
}

pub open spec fn m3_eqv(a: M3v, b: M3v) -> bool {
    qeq(a.e00, b.e00) && qeq(a.e01, b.e01) && qeq(a.e02, b.e02) && qeq(a.e10, b.e10) && qeq(
        a.e11,
        b.e11,
    ) && qeq(a.e12, b.e12) && qeq(a.e20, b.e20) && qeq(a.e21, b.e21) && qeq(a.e22, b.e22)
}

pub open spec fn m3_idv() -> M3v {
    M3v {
        e00: qone(),
        e01: qzero(),
        e02: qzero(),
        e10: qzero(),
        e11: qone(),
        e12: qzero(),
        e20: qzero(),
        e21: qzero(),
        e22: qone(),
    }
}

pub open spec fn qdot3(x1: Qv, y1: Qv, x2: Qv, y2: Qv, x3: Qv, y3: Qv) -> Qv {
    qadd(qadd(qmul(x1, y1), qmul(x2, y2)), qmul(x3, y3))
}

pub open spec fn m3_mulv(a: M3v, b: M3v) -> M3v {
    M3v {
        e00: qdot3(a.e00, b.e00, a.e01, b.e10, a.e02, b.e20),
        e01: qdot3(a.e00, b.e01, a.e01, b.e11, a.e02, b.e21),
        e02: qdot3(a.e00, b.e02, a.e01, b.e12, a.e02, b.e22),
        e10: qdot3(a.e10, b.e00, a.e11, b.e10, a.e12, b.e20),
        e11: qdot3(a.e10, b.e01, a.e11, b.e11, a.e12, b.e21),
        e12: qdot3(a.e10, b.e02, a.e11, b.e12, a.e12, b.e22),
        e20: qdot3(a.e20, b.e00, a.e21, b.e10, a.e22, b.e20),
        e21: qdot3(a.e20, b.e01, a.e21, b.e11, a.e22, b.e21),
        e22: qdot3(a.e20, b.e02, a.e21, b.e12, a.e22, b.e22),
    }
}

pub open spec fn m3_applyv(m: M3v, v: V3v) -> V3v {
    V3v {
        x: qdot3(m.e00, v.x, m.e01, v.y, m.e02, v.z),
        y: qdot3(m.e10, v.x, m.e11, v.y, m.e12, v.z),
        z: qdot3(m.e20, v.x, m.e21, v.y, m.e22, v.z),
    }
}

pub open spec fn jr_wfv(r: JrV) -> bool {
    qwf(r.c) && qwf(r.s)
}

/// A consistent joint rotation: cosine and sine lying on the unit circle.
pub open spec fn jr_unitv(r: JrV) -> bool {
    qeq(qadd(qmul(r.c, r.c), qmul(r.s, r.s)), qone())
}

pub open spec fn jr_idv() -> JrV {
    JrV { c: qone(), s: qzero() }
}

/// The axis-angle rotation matrix about `h` (Rodrigues' formula), written
/// over the angle's cosine and sine.
pub open spec fn rotv(h: V3v, r: JrV) -> M3v {
    let u = qsub(qone(), r.c);
    let xx = qmul(qmul(u, h.x), h.x);
    let xy = qmul(qmul(u, h.x), h.y);
    let xz = qmul(qmul(u, h.x), h.z);
    let yy = qmul(qmul(u, h.y), h.y);
    let yz = qmul(qmul(u, h.y), h.z);
    let zz = qmul(qmul(u, h.z), h.z);
    let sx = qmul(r.s, h.x);
    let sy = qmul(r.s, h.y);
    let sz = qmul(r.s, h.z);
    M3v {
        e00: qadd(r.c, xx),
        e01: qsub(xy, sz),
        e02: qadd(xz, sy),
        e10: qadd(xy, sz),
        e11: qadd(r.c, yy),
        e12: qsub(yz, sx),
        e20: qsub(xz, sy),
        e21: qadd(yz, sx),
        e22: qadd(r.c, zz),
    }
}

// ---------------------------------------------------------------------------
// Well-formedness closure and congruence lemmas.
// ---------------------------------------------------------------------------

pub proof fn qdot3_wf(x1: Qv, y1: Qv, x2: Qv, y2: Qv, x3: Qv, y3: Qv)
    requires
        qwf(x1) && qwf(y1) && qwf(x2) && qwf(y2) && qwf(x3) && qwf(y3),
    ensures
        qwf(qdot3(x1, y1, x2, y2, x3, y3)),
{
    qwf_mul(x1, y1);
    qwf_mul(x2, y2);
    qwf_mul(x3, y3);
    qwf_add(qmul(x1, y1), qmul(x2, y2));
    qwf_add(qadd(qmul(x1, y1), qmul(x2, y2)), qmul(x3, y3));
}

pub proof fn qdot3_congr(x1: Qv, y1: Qv, x2: Qv, y2: Qv, x3: Qv, y3: Qv, u1: Qv, v1: Qv, u2: Qv, v2: Qv, u3: Qv, v3: Qv)
    requires
        qeq(x1, u1) && qeq(y1, v1) && qeq(x2, u2) && qeq(y2, v2) && qeq(x3, u3) && qeq(y3, v3),
    ensures
        qeq(qdot3(x1, y1, x2, y2, x3, y3), qdot3(u1, v1, u2, v2, u3, v3)),
{
    qeq_mul_congr(x1, y1, u1, v1);
    qeq_mul_congr(x2, y2, u2, v2);
    qeq_mul_congr(x3, y3, u3, v3);
    qeq_add_congr(qmul(x1, y1), qmul(x2, y2), qmul(u1, v1), qmul(u2, v2));
    qeq_add_congr(qadd(qmul(x1, y1), qmul(x2, y2)), qmul(x3, y3), qadd(qmul(u1, v1), qmul(u2, v2)), qmul(u3, v3));
}

pub proof fn v3_eqv_trans(a: V3v, b: V3v, c: V3v)
    requires
        v3_wfv(b),
        v3_eqv(a, b),
        v3_eqv(b, c),
    ensures
        v3_eqv(a, c),
{
    qeq_trans(a.x, b.x, c.x);
    qeq_trans(a.y, b.y, c.y);
    qeq_trans(a.z, b.z, c.z);
}

pub proof fn m3_eqv_trans(a: M3v, b: M3v, c: M3v)
    requires
        m3_wfv(b),
        m3_eqv(a, b),
        m3_eqv(b, c),
    ensures
        m3_eqv(a, c),
{
    qeq_trans(a.e00, b.e00, c.e00);
    qeq_trans(a.e01, b.e01, c.e01);
    qeq_trans(a.e02, b.e02, c.e02);
    qeq_trans(a.e10, b.e10, c.e10);
    qeq_trans(a.e11, b.e11, c.e11);
    qeq_trans(a.e12, b.e12, c.e12);
    qeq_trans(a.e20, b.e20, c.e20);
    qeq_trans(a.e21, b.e21, c.e21);
    qeq_trans(a.e22, b.e22, c.e22);
}

pub proof fn v3_add_congr(a: V3v, b: V3v, a2: V3v, b2: V3v)
    requires
        v3_eqv(a, a2),
        v3_eqv(b, b2),
    ensures
        v3_eqv(v3_addv(a, b), v3_addv(a2, b2)),
{
    qeq_add_congr(a.x, b.x, a2.x, b2.x);
    qeq_add_congr(a.y, b.y, a2.y, b2.y);
    qeq_add_congr(a.z, b.z, a2.z, b2.z);
}

pub proof fn v3_addv_wf(a: V3v, b: V3v)
    requires
        v3_wfv(a),
        v3_wfv(b),
    ensures
        v3_wfv(v3_addv(a, b)),
{
    qwf_add(a.x, b.x);
    qwf_add(a.y, b.y);
    qwf_add(a.z, b.z);
}

pub proof fn v3_sub_congr(a: V3v, b: V3v, a2: V3v, b2: V3v)
    requires
        v3_eqv(a, a2),
        v3_eqv(b, b2),
    ensures
        v3_eqv(v3_subv(a, b), v3_subv(a2, b2)),
{
    qeq_sub_congr(a.x, b.x, a2.x, b2.x);
    qeq_sub_congr(a.y, b.y, a2.y, b2.y);
    qeq_sub_congr(a.z, b.z, a2.z, b2.z);
}

pub proof fn v3_subv_wf(a: V3v, b: V3v)
    requires
        v3_wfv(a),
        v3_wfv(b),
    ensures
        v3_wfv(v3_subv(a, b)),
{
    qwf_sub(a.x, b.x);
    qwf_sub(a.y, b.y);
    qwf_sub(a.z, b.z);
}

pub proof fn v3_scale_congr(k: Qv, v: V3v, k2: Qv, v2: V3v)
    requires
        qeq(k, k2),
        v3_eqv(v, v2),
    ensures
        v3_eqv(v3_scalev(k, v), v3_scalev(k2, v2)),
{
    qeq_mul_congr(k, v.x, k2, v2.x);
    qeq_mul_congr(k, v.y, k2, v2.y);
    qeq_mul_congr(k, v.z, k2, v2.z);
}

pub proof fn v3_scalev_wf(k: Qv, v: V3v)
    requires
        qwf(k),
        v3_wfv(v),
    ensures
        v3_wfv(v3_scalev(k, v)),
{
    qwf_mul(k, v.x);
    qwf_mul(k, v.y);
    qwf_mul(k, v.z);
}

pub proof fn v3_dot_congr(a: V3v, b: V3v, a2: V3v, b2: V3v)
    requires
        v3_eqv(a, a2),
        v3_eqv(b, b2),
    ensures
        qeq(v3_dotv(a, b), v3_dotv(a2, b2)),
{
    qdot3_congr(a.x, b.x, a.y, b.y, a.z, b.z, a2.x, b2.x, a2.y, b2.y, a2.z, b2.z);
}

pub proof fn v3_dotv_wf(a: V3v, b: V3v)
    requires
        v3_wfv(a),
        v3_wfv(b),
    ensures
        qwf(v3_dotv(a, b)),
{
    qdot3_wf(a.x, b.x, a.y, b.y, a.z, b.z);
}

pub proof fn m3_mul_congr(a: M3v, b: M3v, a2: M3v, b2: M3v)
    requires
        m3_eqv(a, a2),
        m3_eqv(b, b2),
    ensures
        m3_eqv(m3_mulv(a, b), m3_mulv(a2, b2)),
{
    qdot3_congr(a.e00, b.e00, a.e01, b.e10, a.e02, b.e20, a2.e00, b2.e00, a2.e01, b2.e10, a2.e02, b2.e20);
    qdot3_congr(a.e00, b.e01, a.e01, b.e11, a.e02, b.e21, a2.e00, b2.e01, a2.e01, b2.e11, a2.e02, b2.e21);
    qdot3_congr(a.e00, b.e02, a.e01, b.e12, a.e02, b.e22, a2.e00, b2.e02, a2.e01, b2.e12, a2.e02, b2.e22);
    qdot3_congr(a.e10, b.e00, a.e11, b.e10, a.e12, b.e20, a2.e10, b2.e00, a2.e11, b2.e10, a2.e12, b2.e20);
    qdot3_congr(a.e10, b.e01, a.e11, b.e11, a.e12, b.e21, a2.e10, b2.e01, a2.e11, b2.e11, a2.e12, b2.e21);
    qdot3_congr(a.e10, b.e02, a.e11, b.e12, a.e12, b.e22, a2.e10, b2.e02, a2.e11, b2.e12, a2.e12, b2.e22);
    qdot3_congr(a.e20, b.e00, a.e21, b.e10, a.e22, b.e20, a2.e20, b2.e00, a2.e21, b2.e10, a2.e22, b2.e20);
    qdot3_congr(a.e20, b.e01, a.e21, b.e11, a.e22, b.e21, a2.e20, b2.e01, a2.e21, b2.e11, a2.e22, b2.e21);
    qdot3_congr(a.e20, b.e02, a.e21, b.e12, a.e22, b.e22, a2.e20, b2.e02, a2.e21, b2.e12, a2.e22, b2.e22);
}

pub proof fn m3_mulv_wf(a: M3v, b: M3v)
    requires
        m3_wfv(a),
        m3_wfv(b),
    ensures
        m3_wfv(m3_mulv(a, b)),
{
    qdot3_wf(a.e00, b.e00, a.e01, b.e10, a.e02, b.e20);
    qdot3_wf(a.e00, b.e01, a.e01, b.e11, a.e02, b.e21);
    qdot3_wf(a.e00, b.e02, a.e01, b.e12, a.e02, b.e22);
    qdot3_wf(a.e10, b.e00, a.e11, b.e10, a.e12, b.e20);
    qdot3_wf(a.e10, b.e01, a.e11, b.e11, a.e12, b.e21);
    qdot3_wf(a.e10, b.e02, a.e11, b.e12, a.e12, b.e22);
    qdot3_wf(a.e20, b.e00, a.e21, b.e10, a.e22, b.e20);
    qdot3_wf(a.e20, b.e01, a.e21, b.e11, a.e22, b.e21);
    qdot3_wf(a.e20, b.e02, a.e21, b.e12, a.e22, b.e22);
}

pub proof fn m3_apply_congr(m: M3v, v: V3v, m2: M3v, v2: V3v)
    requires
        m3_eqv(m, m2),
        v3_eqv(v, v2),
    ensures
        v3_eqv(m3_applyv(m, v), m3_applyv(m2, v2)),
{
    qdot3_congr(m.e00, v.x, m.e01, v.y, m.e02, v.z, m2.e00, v2.x, m2.e01, v2.y, m2.e02, v2.z);
    qdot3_congr(m.e10, v.x, m.e11, v.y, m.e12, v.z, m2.e10, v2.x, m2.e11, v2.y, m2.e12, v2.z);
    qdot3_congr(m.e20, v.x, m.e21, v.y, m.e22, v.z, m2.e20, v2.x, m2.e21, v2.y, m2.e22, v2.z);
}

pub proof fn m3_applyv_wf(m: M3v, v: V3v)
    requires
        m3_wfv(m),
        v3_wfv(v),
    ensures
        v3_wfv(m3_applyv(m, v)),
{
    qdot3_wf(m.e00, v.x, m.e01, v.y, m.e02, v.z);
    qdot3_wf(m.e10, v.x, m.e11, v.y, m.e12, v.z);
    qdot3_wf(m.e20, v.x, m.e21, v.y, m.e22, v.z);
}

pub proof fn rotv_wf(h: V3v, r: JrV)
    requires
        v3_wfv(h),
        jr_wfv(r),
    ensures
        m3_wfv(rotv(h, r)),
{
    let u = qsub(qone(), r.c);
    qwf_sub(qone(), r.c);
    qwf_mul(u, h.x);
    qwf_mul(u, h.y);
    qwf_mul(u, h.z);
    qwf_mul(qmul(u, h.x), h.x);
    qwf_mul(qmul(u, h.x), h.y);
    qwf_mul(qmul(u, h.x), h.z);
    qwf_mul(qmul(u, h.y), h.y);
    qwf_mul(qmul(u, h.y), h.z);
    qwf_mul(qmul(u, h.z), h.z);
    qwf_mul(r.s, h.x);
    qwf_mul(r.s, h.y);
    qwf_mul(r.s, h.z);
    qwf_add(r.c, qmul(qmul(u, h.x), h.x));
    qwf_sub(qmul(qmul(u, h.x), h.y), qmul(r.s, h.z));
    qwf_add(qmul(qmul(u, h.x), h.z), qmul(r.s, h.y));
    qwf_add(qmul(qmul(u, h.x), h.y), qmul(r.s, h.z));
    qwf_add(r.c, qmul(qmul(u, h.y), h.y));
    qwf_sub(qmul(qmul(u, h.y), h.z), qmul(r.s, h.x));
    qwf_sub(qmul(qmul(u, h.x), h.z), qmul(r.s, h.y));
    qwf_add(qmul(qmul(u, h.y), h.z), qmul(r.s, h.x));
    qwf_add(r.c, qmul(qmul(u, h.z), h.z));
}

// ---------------------------------------------------------------------------
// Identity laws.
// ---------------------------------------------------------------------------

proof fn lemma_dot_unit1(a: Qv, b: Qv, c: Qv) by (nonlinear_arith)
    requires
        qwf(a) && qwf(b) && qwf(c),
    ensures
        qeq(qdot3(a, qone(), b, qzero(), c, qzero()), a),
{
}

proof fn lemma_dot_unit2(a: Qv, b: Qv, c: Qv) by (nonlinear_arith)
    requires
        qwf(a) && qwf(b) && qwf(c),
    ensures
        qeq(qdot3(a, qzero(), b, qone(), c, qzero()), b),
{
}

proof fn lemma_dot_unit3(a: Qv, b: Qv, c: Qv) by (nonlinear_arith)
    requires
        qwf(a) && qwf(b) && qwf(c),
    ensures
        qeq(qdot3(a, qzero(), b, qzero(), c, qone()), c),
{
}

proof fn lemma_dot_unit1l(a: Qv, b: Qv, c: Qv) by (nonlinear_arith)
    requires
        qwf(a) && qwf(b) && qwf(c),
    ensures
        qeq(qdot3(qone(), a, qzero(), b, qzero(), c), a),
{
}

proof fn lemma_dot_unit2l(a: Qv, b: Qv, c: Qv) by (nonlinear_arith)
    requires
        qwf(a) && qwf(b) && qwf(c),
    ensures
        qeq(qdot3(qzero(), a, qone(), b, qzero(), c), b),
{
}

proof fn lemma_dot_unit3l(a: Qv, b: Qv, c: Qv) by (nonlinear_arith)
    requires
        qwf(a) && qwf(b) && qwf(c),
    ensures
        qeq(qdot3(qzero(), a, qzero(), b, qone(), c), c),
{
}

/// Multiplying by the identity on the right leaves a matrix unchanged.
pub proof fn m3_mul_id_right(a: M3v)
    requires
        m3_wfv(a),
    ensures
        m3_eqv(m3_mulv(a, m3_idv()), a),
{
    lemma_dot_unit1(a.e00, a.e01, a.e02);
    lemma_dot_unit2(a.e00, a.e01, a.e02);
    lemma_dot_unit3(a.e00, a.e01, a.e02);
    lemma_dot_unit1(a.e10, a.e11, a.e12);
    lemma_dot_unit2(a.e10, a.e11, a.e12);
    lemma_dot_unit3(a.e10, a.e11, a.e12);
    lemma_dot_unit1(a.e20, a.e21, a.e22);
    lemma_dot_unit2(a.e20, a.e21, a.e22);
    lemma_dot_unit3(a.e20, a.e21, a.e22);
}

/// Multiplying by the identity on the left leaves a matrix unchanged.
pub proof fn m3_mul_id_left(a: M3v)
    requires
        m3_wfv(a),
    ensures
        m3_eqv(m3_mulv(m3_idv(), a), a),
{
    lemma_dot_unit1l(a.e00, a.e10, a.e20);
    lemma_dot_unit1l(a.e01, a.e11, a.e21);
    lemma_dot_unit1l(a.e02, a.e12, a.e22);
    lemma_dot_unit2l(a.e00, a.e10, a.e20);
    lemma_dot_unit2l(a.e01, a.e11, a.e21);
    lemma_dot_unit2l(a.e02, a.e12, a.e22);
    lemma_dot_unit3l(a.e00, a.e10, a.e20);
    lemma_dot_unit3l(a.e01, a.e11, a.e21);
    lemma_dot_unit3l(a.e02, a.e12, a.e22);
}

/// Applying the identity matrix leaves a vector unchanged.
pub proof fn m3_apply_id(v: V3v)
    requires
        v3_wfv(v),
    ensures
        v3_eqv(m3_applyv(m3_idv(), v), v),
{
    lemma_dot_unit1l(v.x, v.y, v.z);
    lemma_dot_unit2l(v.x, v.y, v.z);
    lemma_dot_unit3l(v.x, v.y, v.z);
}

/// At angle zero (cosine one, sine zero) the axis-angle rotation is the
/// identity, whatever the axis.
pub proof fn rotv_at_identity(h: V3v, r: JrV)
    requires
        v3_wfv(h),
        jr_wfv(r),
        qeq(r.c, qone()),
        qeq(r.s, qzero()),
    ensures
        m3_eqv(rotv(h, r), m3_idv()),
{
    let m = rotv(h, r);
    let cn = r.c.n;
    let cd = r.c.d;
    let sn = r.s.n;
    let sd = r.s.d;
    let xn = h.x.n;
    let xd = h.x.d;
    let yn = h.y.n;
    let yd = h.y.d;
    let zn = h.z.n;
    let zd = h.z.d;
    assert(cn == cd);
    assert(sn == 0);
    assert(qeq(m.e00, qone()) && qeq(m.e11, qone()) && qeq(m.e22, qone())) by (nonlinear_arith)
        requires
            cn == cd,
            cd >= 1,
            m.e00 == (qadd(Qv { n: cn, d: cd }, qmul(qmul(qsub(qone(), Qv { n: cn, d: cd }), Qv { n: xn, d: xd }), Qv { n: xn, d: xd }))),
            m.e11 == (qadd(Qv { n: cn, d: cd }, qmul(qmul(qsub(qone(), Qv { n: cn, d: cd }), Qv { n: yn, d: yd }), Qv { n: yn, d: yd }))),
            m.e22 == (qadd(Qv { n: cn, d: cd }, qmul(qmul(qsub(qone(), Qv { n: cn, d: cd }), Qv { n: zn, d: zd }), Qv { n: zn, d: zd }))),
    ;
    assert(qeq(m.e01, qzero()) && qeq(m.e02, qzero()) && qeq(m.e10, qzero()) && qeq(m.e12, qzero())
        && qeq(m.e20, qzero()) && qeq(m.e21, qzero())) by (nonlinear_arith)
        requires
            cn == cd,
            sn == 0,
            m == rotv(
                V3v { x: Qv { n: xn, d: xd }, y: Qv { n: yn, d: yd }, z: Qv { n: zn, d: zd } },
                JrV { c: Qv { n: cn, d: cd }, s: Qv { n: sn, d: sd } },
            ),
    ;
}

// ---------------------------------------------------------------------------
// Executable vectors, matrices, joint rotations.
// ---------------------------------------------------------------------------

#[derive(Clone, Copy, Debug)]
pub struct Vec3 {
    pub x: Rat,
    pub y: Rat,
    pub z: Rat,
}

impl View for Vec3 {
    type V = V3v;

    open spec fn view(&self) -> V3v {
        V3v { x: self.x@, y: self.y@, z: self.z@ }
    }
}

pub open spec fn v3_wf(v: Vec3) -> bool {
    rat_wf(v.x) && rat_wf(v.y) && rat_wf(v.z)
}

#[derive(Clone, Copy, Debug)]
pub struct Mat3 {
    pub e00: Rat,
    pub e01: Rat,
    pub e02: Rat,
    pub e10: Rat,
    pub e11: Rat,
    pub e12: Rat,
    pub e20: Rat,
    pub e21: Rat,
    pub e22: Rat,
}

impl View for Mat3 {
    type V = M3v;

    open spec fn view(&self) -> M3v {
        M3v {
            e00: self.e00@,
            e01: self.e01@,
            e02: self.e02@,
            e10: self.e10@,
            e11: self.e11@,
            e12: self.e12@,
            e20: self.e20@,
            e21: self.e21@,
            e22: self.e22@,
        }
    }
}

pub open spec fn m3_wf(m: Mat3) -> bool {
    rat_wf(m.e00) && rat_wf(m.e01) && rat_wf(m.e02) && rat_wf(m.e10) && rat_wf(m.e11) && rat_wf(
        m.e12,
    ) && rat_wf(m.e20) && rat_wf(m.e21) && rat_wf(m.e22)
}

/// One joint angle, carried as its cosine and sine.
#[derive(Clone, Copy, Debug)]
pub struct JointRot {
    pub c: Rat,
    pub s: Rat,
}

impl View for JointRot {
    type V = JrV;

    open spec fn view(&self) -> JrV {
        JrV { c: self.c@, s: self.s@ }
    }
}

pub open spec fn jr_wf(r: JointRot) -> bool {
    rat_wf(r.c) && rat_wf(r.s)
}

impl JointRot {
    /// The rotation of angle zero.
    pub fn identity() -> (r: JointRot)
        ensures
            jr_wf(r),
            r@ == jr_idv(),
    {
        JointRot { c: Rat::one(), s: Rat::zero() }
    }

    pub fn new(c: Rat, s: Rat) -> (r: JointRot)
        requires
            rat_wf(c),
            rat_wf(s),
        ensures
            jr_wf(r),
            r@ == (JrV { c: c@, s: s@ }),
    {
        JointRot { c, s }
    }
}

/// The computed sum of three products is representable: every product fits,
/// and so does each reduced running sum.
pub open spec fn qdot3_fits(x1: Qv, y1: Qv, x2: Qv, y2: Qv, x3: Qv, y3: Qv) -> bool {
    let p1 = canon(qmul(x1, y1));
    let p2 = canon(qmul(x2, y2));
    let p3 = canon(qmul(x3, y3));
    q_fits(qmul(x1, y1)) && q_fits(qmul(x2, y2)) && q_fits(qmul(x3, y3)) && q_fits(qadd(p1, p2))
        && q_fits(qadd(canon(qadd(p1, p2)), p3))
}

/// Exact sum of three products; `None` exactly when an intermediate leaves
/// the representable range.
fn dot3(x1: &Rat, y1: &Rat, x2: &Rat, y2: &Rat, x3: &Rat, y3: &Rat) -> (r: Option<Rat>)
    requires
        rat_wf(*x1) && rat_wf(*y1) && rat_wf(*x2) && rat_wf(*y2) && rat_wf(*x3) && rat_wf(*y3),
    ensures
        r is Some <==> qdot3_fits(x1@, y1@, x2@, y2@, x3@, y3@),
        r is Some ==> rat_wf(r.unwrap()) && r.unwrap()@ == dot3_c(x1@, y1@, x2@, y2@, x3@, y3@)
            && qeq(r.unwrap()@, qdot3(x1@, y1@, x2@, y2@, x3@, y3@)),
{
    let p1 = x1.mul(y1)?;
    let p2 = x2.mul(y2)?;
    let p3 = x3.mul(y3)?;
    let s1 = p1.add(&p2)?;
    let s2 = s1.add(&p3)?;
    proof {
        qeq_add_congr(p1@, p2@, qmul(x1@, y1@), qmul(x2@, y2@));
        qwf_add(p1@, p2@);
        qeq_trans(s1@, qadd(p1@, p2@), qadd(qmul(x1@, y1@), qmul(x2@, y2@)));
        qeq_add_congr(s1@, p3@, qadd(qmul(x1@, y1@), qmul(x2@, y2@)), qmul(x3@, y3@));
        qwf_add(s1@, p3@);
        qeq_trans(s2@, qadd(s1@, p3@), qdot3(x1@, y1@, x2@, y2@, x3@, y3@));
    }
    Some(s2)
}

/// The exact stored result of a sum of three products.
pub open spec fn dot3_c(x1: Qv, y1: Qv, x2: Qv, y2: Qv, x3: Qv, y3: Qv) -> Qv {
    let p1 = canon(qmul(x1, y1));
    let p2 = canon(qmul(x2, y2));
    let p3 = canon(qmul(x3, y3));
    canon(qadd(canon(qadd(p1, p2)), p3))
}

/// The exact stored result of a vector sum.
pub open spec fn v3_add_c(a: V3v, b: V3v) -> V3v {
    V3v { x: canon(qadd(a.x, b.x)), y: canon(qadd(a.y, b.y)), z: canon(qadd(a.z, b.z)) }
}

/// The exact stored result of a matrix product.
pub open spec fn m3_mul_c(a: M3v, b: M3v) -> M3v {
    M3v {
        e00: dot3_c(a.e00, b.e00, a.e01, b.e10, a.e02, b.e20),
        e01: dot3_c(a.e00, b.e01, a.e01, b.e11, a.e02, b.e21),
        e02: dot3_c(a.e00, b.e02, a.e01, b.e12, a.e02, b.e22),
        e10: dot3_c(a.e10, b.e00, a.e11, b.e10, a.e12, b.e20),
        e11: dot3_c(a.e10, b.e01, a.e11, b.e11, a.e12, b.e21),
        e12: dot3_c(a.e10, b.e02, a.e11, b.e12, a.e12, b.e22),
        e20: dot3_c(a.e20, b.e00, a.e21, b.e10, a.e22, b.e20),
        e21: dot3_c(a.e20, b.e01, a.e21, b.e11, a.e22, b.e21),
        e22: dot3_c(a.e20, b.e02, a.e21, b.e12, a.e22, b.e22),
    }
}

/// The exact stored result of a matrix-vector product.
pub open spec fn m3_apply_c(m: M3v, v: V3v) -> V3v {
    V3v {
        x: dot3_c(m.e00, v.x, m.e01, v.y, m.e02, v.z),
        y: dot3_c(m.e10, v.x, m.e11, v.y, m.e12, v.z),
        z: dot3_c(m.e20, v.x, m.e21, v.y, m.e22, v.z),
    }
}

/// The exact stored result of the axis-angle rotation matrix.
pub open spec fn rot_c(h: V3v, r: JrV) -> M3v {
    let u = canon(qsub(qone(), r.c));
    let ux = canon(qmul(u, h.x));
    let uy = canon(qmul(u, h.y));
    let uz = canon(qmul(u, h.z));
    let xx = canon(qmul(ux, h.x));
    let xy = canon(qmul(ux, h.y));
    let xz = canon(qmul(ux, h.z));
    let yy = canon(qmul(uy, h.y));
    let yz = canon(qmul(uy, h.z));
    let zz = canon(qmul(uz, h.z));
    let sx = canon(qmul(r.s, h.x));
    let sy = canon(qmul(r.s, h.y));
    let sz = canon(qmul(r.s, h.z));
    M3v {
        e00: canon(qadd(r.c, xx)),
        e01: canon(qsub(xy, sz)),
        e02: canon(qadd(xz, sy)),
        e10: canon(qadd(xy, sz)),
        e11: canon(qadd(r.c, yy)),
        e12: canon(qsub(yz, sx)),
        e20: canon(qsub(xz, sy)),
        e21: canon(qadd(yz, sx)),
        e22: canon(qadd(r.c, zz)),
    }
}

/// Componentwise representability of a vector sum.
pub open spec fn v3_add_fits(a: V3v, b: V3v) -> bool {
    q_fits(qadd(a.x, b.x)) && q_fits(qadd(a.y, b.y)) && q_fits(qadd(a.z, b.z))
}

/// Componentwise representability of a vector difference.
pub open spec fn v3_sub_fits(a: V3v, b: V3v) -> bool {
    q_fits(qsub(a.x, b.x)) && q_fits(qsub(a.y, b.y)) && q_fits(qsub(a.z, b.z))
}

/// Componentwise representability of a scaled vector.
pub open spec fn v3_scale_fits(k: Qv, v: V3v) -> bool {
    q_fits(qmul(k, v.x)) && q_fits(qmul(k, v.y)) && q_fits(qmul(k, v.z))
}

/// Entrywise representability of a matrix product.
pub open spec fn m3_mul_fits(a: M3v, b: M3v) -> bool {
    &&& qdot3_fits(a.e00, b.e00, a.e01, b.e10, a.e02, b.e20)
    &&& qdot3_fits(a.e00, b.e01, a.e01, b.e11, a.e02, b.e21)
    &&& qdot3_fits(a.e00, b.e02, a.e01, b.e12, a.e02, b.e22)
    &&& qdot3_fits(a.e10, b.e00, a.e11, b.e10, a.e12, b.e20)
    &&& qdot3_fits(a.e10, b.e01, a.e11, b.e11, a.e12, b.e21)
    &&& qdot3_fits(a.e10, b.e02, a.e11, b.e12, a.e12, b.e22)
    &&& qdot3_fits(a.e20, b.e00, a.e21, b.e10, a.e22, b.e20)
    &&& qdot3_fits(a.e20, b.e01, a.e21, b.e11, a.e22, b.e21)
    &&& qdot3_fits(a.e20, b.e02, a.e21, b.e12, a.e22, b.e22)
}

/// Entrywise representability of a matrix-vector product.
pub open spec fn m3_apply_fits(m: M3v, v: V3v) -> bool {
    &&& qdot3_fits(m.e00, v.x, m.e01, v.y, m.e02, v.z)
    &&& qdot3_fits(m.e10, v.x, m.e11, v.y, m.e12, v.z)
    &&& qdot3_fits(m.e20, v.x, m.e21, v.y, m.e22, v.z)
}

impl Vec3 {
    pub fn new(x: Rat, y: Rat, z: Rat) -> (r: Vec3)
        requires
            rat_wf(x) && rat_wf(y) && rat_wf(z),
        ensures
            v3_wf(r),
            r@ == (V3v { x: x@, y: y@, z: z@ }),
    {
        Vec3 { x, y, z }
    }

    pub fn zero() -> (r: Vec3)
        ensures
            v3_wf(r),
            r@ == v3_zerov(),
    {
        Vec3 { x: Rat::zero(), y: Rat::zero(), z: Rat::zero() }
    }

    /// The vector `(xn/d, yn/d, zn/d)`.
    pub fn frac(xn: i64, yn: i64, zn: i64, d: i64) -> (r: Option<Vec3>)
        ensures
            r is Some <==> (1 <= d as int <= RAT_BOUND && -RAT_BOUND <= xn as int <= RAT_BOUND
                && -RAT_BOUND <= yn as int <= RAT_BOUND && -RAT_BOUND <= zn as int <= RAT_BOUND),
            r is Some ==> v3_wf(r.unwrap()) && r.unwrap()@ == (V3v {
                x: Qv { n: xn as int, d: d as int },
                y: Qv { n: yn as int, d: d as int },
                z: Qv { n: zn as int, d: d as int },
            }),
    {
        let x = Rat::new(xn as i128, d as i128)?;
        let y = Rat::new(yn as i128, d as i128)?;
        let z = Rat::new(zn as i128, d as i128)?;
        Some(Vec3 { x, y, z })
    }

    pub fn add(&self, other: &Vec3) -> (r: Option<Vec3>)
        requires
            v3_wf(*self),
            v3_wf(*other),
        ensures
            r is Some <==> v3_add_fits(self@, other@),
            r is Some ==> v3_wf(r.unwrap()) && r.unwrap()@ == v3_add_c(self@, other@) && v3_eqv(
                r.unwrap()@,
                v3_addv(self@, other@),
            ),
    {
        let x = self.x.add(&other.x)?;
        let y = self.y.add(&other.y)?;
        let z = self.z.add(&other.z)?;
        Some(Vec3 { x, y, z })
    }

    pub fn sub(&self, other: &Vec3) -> (r: Option<Vec3>)
        requires
            v3_wf(*self),
            v3_wf(*other),
        ensures
            r is Some <==> v3_sub_fits(self@, other@),
            r is Some ==> v3_wf(r.unwrap()) && v3_eqv(r.unwrap()@, v3_subv(self@, other@)),
    {
        let x = self.x.sub(&other.x)?;
        let y = self.y.sub(&other.y)?;
        let z = self.z.sub(&other.z)?;
        Some(Vec3 { x, y, z })
    }

    pub fn scale(&self, k: &Rat) -> (r: Option<Vec3>)
        requires
            v3_wf(*self),
            rat_wf(*k),
        ensures
            r is Some <==> v3_scale_fits(k@, self@),
            r is Some ==> v3_wf(r.unwrap()) && v3_eqv(r.unwrap()@, v3_scalev(k@, self@)),
    {
        let x = k.mul(&self.x)?;
        let y = k.mul(&self.y)?;
        let z = k.mul(&self.z)?;
        Some(Vec3 { x, y, z })
    }

    pub fn dot(&self, other: &Vec3) -> (r: Option<Rat>)
        requires
            v3_wf(*self),
            v3_wf(*other),
        ensures
            r is Some <==> qdot3_fits(self@.x, other@.x, self@.y, other@.y, self@.z, other@.z),
            r is Some ==> rat_wf(r.unwrap()) && qeq(r.unwrap()@, v3_dotv(self@, other@)),
    {
        dot3(&self.x, &other.x, &self.y, &other.y, &self.z, &other.z)
    }

    /// Exact componentwise equality of the represented vectors.
    pub fn eqv(&self, other: &Vec3) -> (r: bool)
        requires
            v3_wf(*self),
            v3_wf(*other),
        ensures
            r == v3_eqv(self@, other@),
    {
        self.x.eqv(&other.x) && self.y.eqv(&other.y) && self.z.eqv(&other.z)
    }
}

impl Mat3 {
    pub fn identity() -> (r: Mat3)
        ensures
            m3_wf(r),
            r@ == m3_idv(),
    {
        Mat3 {
            e00: Rat::one(),
            e01: Rat::zero(),
            e02: Rat::zero(),
            e10: Rat::zero(),
            e11: Rat::one(),
            e12: Rat::zero(),
            e20: Rat::zero(),
            e21: Rat::zero(),
            e22: Rat::one(),
        }
    }

    pub fn rows(r0: Vec3, r1: Vec3, r2: Vec3) -> (r: Mat3)
        requires
            v3_wf(r0) && v3_wf(r1) && v3_wf(r2),
        ensures
            m3_wf(r),
            r@ == (M3v {
                e00: r0@.x,
                e01: r0@.y,
                e02: r0@.z,
                e10: r1@.x,
                e11: r1@.y,
                e12: r1@.z,
                e20: r2@.x,
                e21: r2@.y,
                e22: r2@.z,
            }),
    {
        Mat3 {
            e00: r0.x,
            e01: r0.y,
            e02: r0.z,
            e10: r1.x,
            e11: r1.y,
            e12: r1.z,
            e20: r2.x,
            e21: r2.y,
            e22: r2.z,
        }
    }

    /// Exact matrix product; `None` only on range exhaustion.
    pub fn mul(&self, other: &Mat3) -> (r: Option<Mat3>)
        requires
            m3_wf(*self),
            m3_wf(*other),
        ensures
            r is Some <==> m3_mul_fits(self@, other@),
            r is Some ==> m3_wf(r.unwrap()) && r.unwrap()@ == m3_mul_c(self@, other@) && m3_eqv(
                r.unwrap()@,
                m3_mulv(self@, other@),
            ),
    {
        let e00 = dot3(&self.e00, &other.e00, &self.e01, &other.e10, &self.e02, &other.e20)?;
        let e01 = dot3(&self.e00, &other.e01, &self.e01, &other.e11, &self.e02, &other.e21)?;
        let e02 = dot3(&self.e00, &other.e02, &self.e01, &other.e12, &self.e02, &other.e22)?;
        let e10 = dot3(&self.e10, &other.e00, &self.e11, &other.e10, &self.e12, &other.e20)?;
        let e11 = dot3(&self.e10, &other.e01, &self.e11, &other.e11, &self.e12, &other.e21)?;
        let e12 = dot3(&self.e10, &other.e02, &self.e11, &other.e12, &self.e12, &other.e22)?;
        let e20 = dot3(&self.e20, &other.e00, &self.e21, &other.e10, &self.e22, &other.e20)?;
        let e21 = dot3(&self.e20, &other.e01, &self.e21, &other.e11, &self.e22, &other.e21)?;
        let e22 = dot3(&self.e20, &other.e02, &self.e21, &other.e12, &self.e22, &other.e22)?;
        Some(Mat3 { e00, e01, e02, e10, e11, e12, e20, e21, e22 })
    }

    /// Exact matrix-vector product; `None` only on range exhaustion.
    pub fn apply(&self, v: &Vec3) -> (r: Option<Vec3>)
        requires
            m3_wf(*self),
            v3_wf(*v),
        ensures
            r is Some <==> m3_apply_fits(self@, v@),
            r is Some ==> v3_wf(r.unwrap()) && r.unwrap()@ == m3_apply_c(self@, v@) && v3_eqv(
                r.unwrap()@,
                m3_applyv(self@, v@),
            ),
    {
        let x = dot3(&self.e00, &v.x, &self.e01, &v.y, &self.e02, &v.z)?;
        let y = dot3(&self.e10, &v.x, &self.e11, &v.y, &self.e12, &v.z)?;
        let z = dot3(&self.e20, &v.x, &self.e21, &v.y, &self.e22, &v.z)?;
        Some(Vec3 { x, y, z })
    }

    /// Exact componentwise equality of the represented matrices.
    pub fn eqv(&self, other: &Mat3) -> (r: bool)
        requires
            m3_wf(*self),
            m3_wf(*other),
        ensures
            r == m3_eqv(self@, other@),
    {
        self.e00.eqv(&other.e00) && self.e01.eqv(&other.e01) && self.e02.eqv(&other.e02)
            && self.e10.eqv(&other.e10) && self.e11.eqv(&other.e11) && self.e12.eqv(&other.e12)
            && self.e20.eqv(&other.e20) && self.e21.eqv(&other.e21) && self.e22.eqv(&other.e22)
    }
}

/// Every intermediate of the axis-angle rotation matrix is representable.
pub open spec fn rot_fits(h: V3v, r: JrV) -> bool {
    let u = canon(qsub(qone(), r.c));
    let ux = canon(qmul(u, h.x));
    let uy = canon(qmul(u, h.y));
    let uz = canon(qmul(u, h.z));
    let xx = canon(qmul(ux, h.x));
    let xy = canon(qmul(ux, h.y));
    let xz = canon(qmul(ux, h.z));
    let yy = canon(qmul(uy, h.y));
    let yz = canon(qmul(uy, h.z));
    let zz = canon(qmul(uz, h.z));
    let sx = canon(qmul(r.s, h.x));
    let sy = canon(qmul(r.s, h.y));
    let sz = canon(qmul(r.s, h.z));
    &&& q_fits(qsub(qone(), r.c))
    &&& q_fits(qmul(u, h.x))
    &&& q_fits(qmul(u, h.y))
    &&& q_fits(qmul(u, h.z))
    &&& q_fits(qmul(ux, h.x))
    &&& q_fits(qmul(ux, h.y))
    &&& q_fits(qmul(ux, h.z))
    &&& q_fits(qmul(uy, h.y))
    &&& q_fits(qmul(uy, h.z))
    &&& q_fits(qmul(uz, h.z))
    &&& q_fits(qmul(r.s, h.x))
    &&& q_fits(qmul(r.s, h.y))
    &&& q_fits(qmul(r.s, h.z))
    &&& q_fits(qadd(r.c, xx))
    &&& q_fits(qsub(xy, sz))
    &&& q_fits(qadd(xz, sy))
    &&& q_fits(qadd(xy, sz))
    &&& q_fits(qadd(r.c, yy))
    &&& q_fits(qsub(yz, sx))
    &&& q_fits(qsub(xz, sy))
    &&& q_fits(qadd(yz, sx))
    &&& q_fits(qadd(r.c, zz))
}

/// The axis-angle rotation matrix about `h` by the angle whose cosine and
/// sine `jr` carries; `None` exactly when an intermediate leaves the
/// representable range.
pub fn rot(h: &Vec3, jr: &JointRot) -> (r: Option<Mat3>)
    requires
        v3_wf(*h),
        jr_wf(*jr),
    ensures
        r is Some <==> rot_fits(h@, jr@),
        r is Some ==> m3_wf(r.unwrap()) && r.unwrap()@ == rot_c(h@, jr@) && m3_eqv(
            r.unwrap()@,
            rotv(h@, jr@),
        ),
{
    let one = Rat::one();
    let u = one.sub(&jr.c)?;
    let ux = u.mul(&h.x)?;
    let uy = u.mul(&h.y)?;
    let uz = u.mul(&h.z)?;
    let xx = ux.mul(&h.x)?;
    let xy = ux.mul(&h.y)?;
    let xz = ux.mul(&h.z)?;
    let yy = uy.mul(&h.y)?;
    let yz = uy.mul(&h.z)?;
    let zz = uz.mul(&h.z)?;
    let sx = jr.s.mul(&h.x)?;
    let sy = jr.s.mul(&h.y)?;
    let sz = jr.s.mul(&h.z)?;
    let e00 = jr.c.add(&xx)?;
    let e01 = xy.sub(&sz)?;
    let e02 = xz.add(&sy)?;
    let e10 = xy.add(&sz)?;
    let e11 = jr.c.add(&yy)?;
    let e12 = yz.sub(&sx)?;
    let e20 = xz.sub(&sy)?;
    let e21 = yz.add(&sx)?;
    let e22 = jr.c.add(&zz)?;
    proof {
        let uv = qsub(qone(), jr.c@);
        let sxx = qmul(qmul(uv, h.x@), h.x@);
        let sxy = qmul(qmul(uv, h.x@), h.y@);
        let sxz = qmul(qmul(uv, h.x@), h.z@);
        let syy = qmul(qmul(uv, h.y@), h.y@);
        let syz = qmul(qmul(uv, h.y@), h.z@);
        let szz = qmul(qmul(uv, h.z@), h.z@);
        let ssx = qmul(jr.s@, h.x@);
        let ssy = qmul(jr.s@, h.y@);
        let ssz = qmul(jr.s@, h.z@);
        qwf_sub(qone(), jr.c@);
        // each computed term is equivalent to its mathematical counterpart
        qeq_mul_congr(u@, h.x@, uv, h.x@);
        qeq_mul_congr(u@, h.y@, uv, h.y@);
        qeq_mul_congr(u@, h.z@, uv, h.z@);
        qwf_mul(u@, h.x@);
        qwf_mul(u@, h.y@);
        qwf_mul(u@, h.z@);
        qeq_trans(ux@, qmul(u@, h.x@), qmul(uv, h.x@));
        qeq_trans(uy@, qmul(u@, h.y@), qmul(uv, h.y@));
        qeq_trans(uz@, qmul(u@, h.z@), qmul(uv, h.z@));
        qeq_mul_congr(ux@, h.x@, qmul(uv, h.x@), h.x@);
        qeq_mul_congr(ux@, h.y@, qmul(uv, h.x@), h.y@);
        qeq_mul_congr(ux@, h.z@, qmul(uv, h.x@), h.z@);
        qeq_mul_congr(uy@, h.y@, qmul(uv, h.y@), h.y@);
        qeq_mul_congr(uy@, h.z@, qmul(uv, h.y@), h.z@);
        qeq_mul_congr(uz@, h.z@, qmul(uv, h.z@), h.z@);
        qwf_mul(ux@, h.x@);
        qwf_mul(ux@, h.y@);
        qwf_mul(ux@, h.z@);
        qwf_mul(uy@, h.y@);
        qwf_mul(uy@, h.z@);
        qwf_mul(uz@, h.z@);
        qeq_trans(xx@, qmul(ux@, h.x@), sxx);
        qeq_trans(xy@, qmul(ux@, h.y@), sxy);
        qeq_trans(xz@, qmul(ux@, h.z@), sxz);
        qeq_trans(yy@, qmul(uy@, h.y@), syy);
        qeq_trans(yz@, qmul(uy@, h.z@), syz);
        qeq_trans(zz@, qmul(uz@, h.z@), szz);
        // entries
        qeq_add_congr(jr.c@, xx@, jr.c@, sxx);
        qwf_add(jr.c@, xx@);
        qeq_trans(e00@, qadd(jr.c@, xx@), qadd(jr.c@, sxx));
        qeq_sub_congr(xy@, sz@, sxy, ssz);
        qwf_sub(xy@, sz@);
        qeq_trans(e01@, qsub(xy@, sz@), qsub(sxy, ssz));
        qeq_add_congr(xz@, sy@, sxz, ssy);
        qwf_add(xz@, sy@);
        qeq_trans(e02@, qadd(xz@, sy@), qadd(sxz, ssy));
        qeq_add_congr(xy@, sz@, sxy, ssz);
        qwf_add(xy@, sz@);
        qeq_trans(e10@, qadd(xy@, sz@), qadd(sxy, ssz));
        qeq_add_congr(jr.c@, yy@, jr.c@, syy);
        qwf_add(jr.c@, yy@);
        qeq_trans(e11@, qadd(jr.c@, yy@), qadd(jr.c@, syy));
        qeq_sub_congr(yz@, sx@, syz, ssx);
        qwf_sub(yz@, sx@);
        qeq_trans(e12@, qsub(yz@, sx@), qsub(syz, ssx));
        qeq_sub_congr(xz@, sy@, sxz, ssy);
        qwf_sub(xz@, sy@);
        qeq_trans(e20@, qsub(xz@, sy@), qsub(sxz, ssy));
        qeq_add_congr(yz@, sx@, syz, ssx);
        qwf_add(yz@, sx@);
        qeq_trans(e21@, qadd(yz@, sx@), qadd(syz, ssx));
        qeq_add_congr(jr.c@, zz@, jr.c@, szz);
        qwf_add(jr.c@, zz@);
        qeq_trans(e22@, qadd(jr.c@, zz@), qadd(jr.c@, szz));
    }
    Some(Mat3 { e00, e01, e02, e10, e11, e12, e20, e21, e22 })
}

} // verus!
