use vstd::prelude::*;

use crate::linalg::{
    m3_apply_c, m3_apply_congr, m3_apply_fits, m3_applyv, m3_applyv_wf, m3_eqv, m3_eqv_trans,
    m3_mul_c, m3_mul_congr, m3_mul_fits, m3_mulv, rot_c, rot_fits, v3_add_c, v3_add_fits,
    m3_mulv_wf, m3_wf, m3_wfv, rot, rotv, rotv_wf, v3_add_congr, v3_addv, v3_addv_wf, v3_dot_congr,
    v3_dotv, v3_dotv_wf, v3_eqv, v3_eqv_trans, v3_scale_congr, v3_scalev, v3_scalev_wf, v3_wf,
    v3_wfv, v3_zerov, JointRot, JrV, M3v, Mat3, V3v, Vec3,
};
use crate::linalg::{jr_wf, jr_wfv};
use crate::model::{fk_posev, km_wf, km_wfv, rot_prefix, KinematicModel, KmV};
use crate::rat::{
    qdiv, qeq, qeq_div_congr, qeq_mul_congr, qeq_sub_congr, qeq_trans, qmul, qsub, qwf, qwf_div,
    qwf_mul, qwf_sub, qzero, Qv,
};
use crate::{req, KinError};

verus! {

/// Componentwise equality of two chain values.
pub open spec fn kmv_eqv(a: KmV, b: KmV) -> bool {
    &&& a.axes.len() == b.axes.len()
    &&& a.links.len() == b.links.len()
    &&& forall|i: int| 0 <= i < a.axes.len() ==> v3_eqv(#[trigger] a.axes[i], b.axes[i])
    &&& forall|i: int| 0 <= i < a.links.len() ==> v3_eqv(#[trigger] a.links[i], b.links[i])
}

/// The chain with joint `k` eliminated at the fixed rotation `f`.
///
/// Writing `Rk` for the axis-angle rotation of joint `k` at `f`: axes before
/// `k` are kept, axes after `k` shift down and are pre-rotated by `Rk`; the
/// link before the joint absorbs the `Rk`-rotated link after it, and every
/// later link is pre-rotated by `Rk` as well. The intent is that composing
/// the reduced chain's forward rotation with `Rk` reproduces the full
/// chain's forward pose at every assignment of the remaining joints; the
/// integration tests check that equivalence exactly on unit-circle data.
pub open spec fn reduce_kmv(m: KmV, k: int, f: JrV) -> KmV {
    let rk = rotv(m.axes[k], f);
    KmV {
        axes: Seq::new(
            (m.axes.len() - 1) as nat,
            |j: int|
                if j < k {
                    m.axes[j]
                } else {
                    m3_applyv(rk, m.axes[j + 1])
                },
        ),
        links: Seq::new(
            (m.links.len() - 1) as nat,
            |i: int|
                if i < k {
                    m.links[i]
                } else if i == k {
                    v3_addv(m.links[k], m3_applyv(rk, m.links[k + 1]))
                } else {
                    m3_applyv(rk, m.links[i + 1])
                },
        ),
    }
}

/// The exact reduced chain as the executable elimination computes it.
pub open spec fn reduce_c(m: KmV, k: int, f: JrV) -> KmV {
    let rk = rot_c(m.axes[k], f);
    KmV {
        axes: Seq::new(
            (m.axes.len() - 1) as nat,
            |j: int|
                if j < k {
                    m.axes[j]
                } else {
                    m3_apply_c(rk, m.axes[j + 1])
                },
        ),
        links: Seq::new(
            (m.links.len() - 1) as nat,
            |i: int|
                if i < k {
                    m.links[i]
                } else if i == k {
                    v3_add_c(m.links[k], m3_apply_c(rk, m.links[k + 1]))
                } else {
                    m3_apply_c(rk, m.links[i + 1])
                },
        ),
    }
}

/// The elimination evaluates without range exhaustion: the fixed joint's
/// rotation, every pre-rotated axis and link, the merged link, and the
/// composed outer rotation are all representable.
pub open spec fn reduce_fits(m: KmV, k: int, f: JrV, rin: M3v) -> bool {
    let rk = rot_c(m.axes[k], f);
    &&& rot_fits(m.axes[k], f)
    &&& (forall|i: int| k < i < m.axes.len() ==> m3_apply_fits(rk, #[trigger] m.axes[i]))
    &&& m3_apply_fits(rk, m.links[k + 1])
    &&& v3_add_fits(m.links[k], m3_apply_c(rk, m.links[k + 1]))
    &&& (forall|i: int| k + 1 < i < m.links.len() ==> m3_apply_fits(rk, #[trigger] m.links[i]))
    &&& m3_mul_fits(rk, rin)
}

/// Gram determinant of the two repair axes: zero exactly when they are
/// parallel (rank-deficient pseudo-inverse).
pub open spec fn gram_detv(a: V3v, b: V3v) -> Qv {
    qsub(qmul(v3_dotv(a, a), v3_dotv(b, b)), qmul(v3_dotv(a, b), v3_dotv(a, b)))
}

/// First coefficient of the minimum-norm solve of `[a b] * alpha = p`.
pub open spec fn alpha0v(a: V3v, b: V3v, p: V3v) -> Qv {
    qdiv(qsub(qmul(v3_dotv(b, b), v3_dotv(a, p)), qmul(v3_dotv(a, b), v3_dotv(b, p))), gram_detv(a, b))
}

/// Second coefficient of the minimum-norm solve of `[a b] * alpha = p`.
pub open spec fn alpha1v(a: V3v, b: V3v, p: V3v) -> Qv {
    qdiv(qsub(qmul(v3_dotv(a, a), v3_dotv(b, p)), qmul(v3_dotv(a, b), v3_dotv(a, p))), gram_detv(a, b))
}

/// The link table after the repair at position `j`: the middle link becomes
/// exactly zero, and its coefficients along the two axes are absorbed into
/// the neighbouring links.
pub open spec fn repaired_linksv(links: Seq<V3v>, j: int, a: V3v, b: V3v, al0: Qv, al1: Qv) -> Seq<
    V3v,
> {
    Seq::new(
        links.len(),
        |i: int|
            if i == j {
                v3_addv(links[j], v3_scalev(al0, a))
            } else if i == j + 1 {
                v3_zerov()
            } else if i == j + 2 {
                v3_addv(links[j + 2], v3_scalev(al1, b))
            } else {
                links[i]
            },
    )
}

/// Every entry of a reduced chain is well formed.
pub proof fn reduce_kmv_wf(m: KmV, k: int, f: JrV)
    requires
        km_wfv(m),
        0 <= k < m.axes.len(),
        jr_wfv(f),
    ensures
        forall|i: int|
            0 <= i < reduce_kmv(m, k, f).axes.len() ==> v3_wfv(#[trigger] reduce_kmv(m, k, f).axes[i]),
        forall|i: int|
            0 <= i < reduce_kmv(m, k, f).links.len() ==> v3_wfv(
                #[trigger] reduce_kmv(m, k, f).links[i],
            ),
{
    let rk = rotv(m.axes[k], f);
    rotv_wf(m.axes[k], f);
    assert forall|i: int| 0 <= i < reduce_kmv(m, k, f).axes.len() implies v3_wfv(
        #[trigger] reduce_kmv(m, k, f).axes[i],
    ) by {
        if i >= k {
            m3_applyv_wf(rk, m.axes[i + 1]);
        }
    }
    assert forall|i: int| 0 <= i < reduce_kmv(m, k, f).links.len() implies v3_wfv(
        #[trigger] reduce_kmv(m, k, f).links[i],
    ) by {
        if i == k {
            m3_applyv_wf(rk, m.links[k + 1]);
            v3_addv_wf(m.links[k], m3_applyv(rk, m.links[k + 1]));
        } else if i > k {
            m3_applyv_wf(rk, m.links[i + 1]);
        }
    }
}

/// The product of the first `k` joint rotations reads only the first `k`
/// axes and joint values.
pub proof fn rot_prefix_prefix_eq(a1: Seq<V3v>, q1: Seq<JrV>, a2: Seq<V3v>, q2: Seq<JrV>, k: int)
    requires
        forall|i: int| 0 <= i < k ==> a1[i] == a2[i] && q1[i] == q2[i],
    ensures
        rot_prefix(a1, q1, k) == rot_prefix(a2, q2, k),
    decreases k,
{
    if k > 0 {
        rot_prefix_prefix_eq(a1, q1, a2, q2, k - 1);
    }
}

/// Eliminating the final joint splits the forward rotation exactly: the full
/// chain's rotation at `q` extended by the fixed value `f` is the reduced
/// chain's rotation at `q` composed with the eliminated joint's constant
/// rotation.
pub proof fn lemma_last_joint_rotation_split(m: KmV, f: JrV, q: Seq<JrV>)
    requires
        m.axes.len() >= 1,
        q.len() == m.axes.len() - 1,
    ensures
        fk_posev(m, q.push(f)).r == m3_mulv(
            fk_posev(reduce_kmv(m, m.axes.len() - 1, f), q).r,
            rotv(m.axes[m.axes.len() - 1], f),
        ),
{
    let n = m.axes.len() as int;
    let red = reduce_kmv(m, n - 1, f);
    rot_prefix_prefix_eq(m.axes, q.push(f), red.axes, q, n - 1);
}

/// The Gram determinant respects componentwise equality of the axes.
pub proof fn gram_detv_congr(a1: V3v, b1: V3v, a2: V3v, b2: V3v)
    requires
        v3_eqv(a1, a2),
        v3_eqv(b1, b2),
    ensures
        qeq(gram_detv(a1, b1), gram_detv(a2, b2)),
{
    v3_dot_congr(a1, a1, a2, a2);
    v3_dot_congr(b1, b1, b2, b2);
    v3_dot_congr(a1, b1, a2, b2);
    qeq_mul_congr(v3_dotv(a1, a1), v3_dotv(b1, b1), v3_dotv(a2, a2), v3_dotv(b2, b2));
    qeq_mul_congr(v3_dotv(a1, b1), v3_dotv(a1, b1), v3_dotv(a2, b2), v3_dotv(a2, b2));
    qeq_sub_congr(
        qmul(v3_dotv(a1, a1), v3_dotv(b1, b1)),
        qmul(v3_dotv(a1, b1), v3_dotv(a1, b1)),
        qmul(v3_dotv(a2, a2), v3_dotv(b2, b2)),
        qmul(v3_dotv(a2, b2), v3_dotv(a2, b2)),
    );
}

pub proof fn gram_detv_wf(a: V3v, b: V3v)
    requires
        v3_wfv(a),
        v3_wfv(b),
    ensures
        qwf(gram_detv(a, b)),
{
    v3_dotv_wf(a, a);
    v3_dotv_wf(b, b);
    v3_dotv_wf(a, b);
    qwf_mul(v3_dotv(a, a), v3_dotv(b, b));
    qwf_mul(v3_dotv(a, b), v3_dotv(a, b));
    qwf_sub(qmul(v3_dotv(a, a), v3_dotv(b, b)), qmul(v3_dotv(a, b), v3_dotv(a, b)));
}

proof fn alpha_nums_wf(a: V3v, b: V3v, p: V3v)
    requires
        v3_wfv(a),
        v3_wfv(b),
        v3_wfv(p),
    ensures
        qwf(qsub(qmul(v3_dotv(b, b), v3_dotv(a, p)), qmul(v3_dotv(a, b), v3_dotv(b, p)))),
        qwf(qsub(qmul(v3_dotv(a, a), v3_dotv(b, p)), qmul(v3_dotv(a, b), v3_dotv(a, p)))),
{
    v3_dotv_wf(a, a);
    v3_dotv_wf(b, b);
    v3_dotv_wf(a, b);
    v3_dotv_wf(a, p);
    v3_dotv_wf(b, p);
    qwf_mul(v3_dotv(b, b), v3_dotv(a, p));
    qwf_mul(v3_dotv(a, b), v3_dotv(b, p));
    qwf_sub(qmul(v3_dotv(b, b), v3_dotv(a, p)), qmul(v3_dotv(a, b), v3_dotv(b, p)));
    qwf_mul(v3_dotv(a, a), v3_dotv(b, p));
    qwf_mul(v3_dotv(a, b), v3_dotv(a, p));
    qwf_sub(qmul(v3_dotv(a, a), v3_dotv(b, p)), qmul(v3_dotv(a, b), v3_dotv(a, p)));
}

pub proof fn alphav_wf(a: V3v, b: V3v, p: V3v)
    requires
        v3_wfv(a),
        v3_wfv(b),
        v3_wfv(p),
        !qeq(gram_detv(a, b), qzero()),
    ensures
        qwf(alpha0v(a, b, p)),
        qwf(alpha1v(a, b, p)),
{
    gram_detv_wf(a, b);
    alpha_nums_wf(a, b, p);
    qwf_div(
        qsub(qmul(v3_dotv(b, b), v3_dotv(a, p)), qmul(v3_dotv(a, b), v3_dotv(b, p))),
        gram_detv(a, b),
    );
    qwf_div(
        qsub(qmul(v3_dotv(a, a), v3_dotv(b, p)), qmul(v3_dotv(a, b), v3_dotv(a, p))),
        gram_detv(a, b),
    );
}

/// The repair coefficients respect componentwise equality of their inputs,
/// and a nonsingular Gram determinant stays nonsingular.
pub proof fn alpha_congr(a1: V3v, b1: V3v, p1: V3v, a2: V3v, b2: V3v, p2: V3v)
    requires
        v3_wfv(a1),
        v3_wfv(b1),
        v3_wfv(p1),
        v3_wfv(a2),
        v3_wfv(b2),
        v3_wfv(p2),
        v3_eqv(a1, a2),
        v3_eqv(b1, b2),
        v3_eqv(p1, p2),
        !qeq(gram_detv(a1, b1), qzero()),
    ensures
        !qeq(gram_detv(a2, b2), qzero()),
        qeq(alpha0v(a1, b1, p1), alpha0v(a2, b2, p2)),
        qeq(alpha1v(a1, b1, p1), alpha1v(a2, b2, p2)),
{
    gram_detv_congr(a1, b1, a2, b2);
    gram_detv_wf(a1, b1);
    gram_detv_wf(a2, b2);
    if qeq(gram_detv(a2, b2), qzero()) {
        qeq_trans(gram_detv(a1, b1), gram_detv(a2, b2), qzero());
    }
    let g1 = gram_detv(a1, b1);
    let g2 = gram_detv(a2, b2);
    assert(g1.n != 0 && g2.n != 0);
    alpha_nums_wf(a1, b1, p1);
    alpha_nums_wf(a2, b2, p2);
    v3_dot_congr(b1, b1, b2, b2);
    v3_dot_congr(a1, p1, a2, p2);
    v3_dot_congr(a1, b1, a2, b2);
    v3_dot_congr(b1, p1, b2, p2);
    v3_dot_congr(a1, a1, a2, a2);
    qeq_mul_congr(v3_dotv(b1, b1), v3_dotv(a1, p1), v3_dotv(b2, b2), v3_dotv(a2, p2));
    qeq_mul_congr(v3_dotv(a1, b1), v3_dotv(b1, p1), v3_dotv(a2, b2), v3_dotv(b2, p2));
    qeq_sub_congr(
        qmul(v3_dotv(b1, b1), v3_dotv(a1, p1)),
        qmul(v3_dotv(a1, b1), v3_dotv(b1, p1)),
        qmul(v3_dotv(b2, b2), v3_dotv(a2, p2)),
        qmul(v3_dotv(a2, b2), v3_dotv(b2, p2)),
    );
    qeq_mul_congr(v3_dotv(a1, a1), v3_dotv(b1, p1), v3_dotv(a2, a2), v3_dotv(b2, p2));
    qeq_mul_congr(v3_dotv(a1, b1), v3_dotv(a1, p1), v3_dotv(a2, b2), v3_dotv(a2, p2));
    qeq_sub_congr(
        qmul(v3_dotv(a1, a1), v3_dotv(b1, p1)),
        qmul(v3_dotv(a1, b1), v3_dotv(a1, p1)),
        qmul(v3_dotv(a2, a2), v3_dotv(b2, p2)),
        qmul(v3_dotv(a2, b2), v3_dotv(a2, p2)),
    );
    qeq_div_congr(
        qsub(qmul(v3_dotv(b1, b1), v3_dotv(a1, p1)), qmul(v3_dotv(a1, b1), v3_dotv(b1, p1))),
        g1,
        qsub(qmul(v3_dotv(b2, b2), v3_dotv(a2, p2)), qmul(v3_dotv(a2, b2), v3_dotv(b2, p2))),
        g2,
    );
    qeq_div_congr(
        qsub(qmul(v3_dotv(a1, a1), v3_dotv(b1, p1)), qmul(v3_dotv(a1, b1), v3_dotv(a1, p1))),
        g1,
        qsub(qmul(v3_dotv(a2, a2), v3_dotv(b2, p2)), qmul(v3_dotv(a2, b2), v3_dotv(a2, p2))),
        g2,
    );
}

/// One entry of the repaired link table, under componentwise-equal inputs.
pub proof fn repaired_links_congr(
    l1: Seq<V3v>,
    l2: Seq<V3v>,
    a1: V3v,
    b1: V3v,
    p1: V3v,
    a2: V3v,
    b2: V3v,
    p2: V3v,
    j: int,
    i: int,
)
    requires
        l1.len() == l2.len(),
        0 <= j,
        j + 2 < l1.len(),
        0 <= i < l1.len(),
        v3_wfv(a1),
        v3_wfv(b1),
        v3_wfv(p1),
        v3_wfv(a2),
        v3_wfv(b2),
        v3_wfv(p2),
        v3_eqv(a1, a2),
        v3_eqv(b1, b2),
        v3_eqv(p1, p2),
        forall|t: int| 0 <= t < l1.len() ==> v3_eqv(#[trigger] l1[t], l2[t]),
        !qeq(gram_detv(a1, b1), qzero()),
    ensures
        v3_eqv(
            repaired_linksv(l1, j, a1, b1, alpha0v(a1, b1, p1), alpha1v(a1, b1, p1))[i],
            repaired_linksv(l2, j, a2, b2, alpha0v(a2, b2, p2), alpha1v(a2, b2, p2))[i],
        ),
{
    alpha_congr(a1, b1, p1, a2, b2, p2);
    if i == j {
        v3_scale_congr(alpha0v(a1, b1, p1), a1, alpha0v(a2, b2, p2), a2);
        v3_add_congr(l1[j], v3_scalev(alpha0v(a1, b1, p1), a1), l2[j], v3_scalev(alpha0v(a2, b2, p2), a2));
    } else if i == j + 2 {
        v3_scale_congr(alpha1v(a1, b1, p1), b1, alpha1v(a2, b2, p2), b2);
        v3_add_congr(
            l1[j + 2],
            v3_scalev(alpha1v(a1, b1, p1), b1),
            l2[j + 2],
            v3_scalev(alpha1v(a2, b2, p2), b2),
        );
    }
}

/// One entry of the repaired link table is well formed.
pub proof fn repaired_links_wf(l: Seq<V3v>, a: V3v, b: V3v, p: V3v, j: int, i: int)
    requires
        0 <= j,
        j + 2 < l.len(),
        0 <= i < l.len(),
        forall|t: int| 0 <= t < l.len() ==> v3_wfv(#[trigger] l[t]),
        v3_wfv(a),
        v3_wfv(b),
        v3_wfv(p),
        !qeq(gram_detv(a, b), qzero()),
    ensures
        v3_wfv(repaired_linksv(l, j, a, b, alpha0v(a, b, p), alpha1v(a, b, p))[i]),
{
    alphav_wf(a, b, p);
    if i == j {
        v3_scalev_wf(alpha0v(a, b, p), a);
        v3_addv_wf(l[j], v3_scalev(alpha0v(a, b, p), a));
    } else if i == j + 2 {
        v3_scalev_wf(alpha1v(a, b, p), b);
        v3_addv_wf(l[j + 2], v3_scalev(alpha1v(a, b, p), b));
    }
}

impl KinematicModel {
    /// Eliminates joint `k`, fixed at the rotation `fixed`, producing the
    /// chain of one fewer joint described by [`reduce_kmv`], together with
    /// the eliminated joint's constant rotation composed onto `r_in` for the
    /// caller to recombine. Exact; `None` only on range exhaustion.
    pub fn forward_kinematics_partial(&self, fixed: &JointRot, k: usize, r_in: &Mat3) -> (res:
        Option<(KinematicModel, Mat3)>)
        requires
            km_wf(*self),
            k < self.axes@.len(),
            jr_wf(*fixed),
            m3_wf(*r_in),
        ensures
            res is Some <==> reduce_fits(self@, k as int, fixed@, r_in@),
            res is Some ==> ({
                let red = res.unwrap().0;
                let rout = res.unwrap().1;
                &&& km_wf(red)
                &&& m3_wf(rout)
                &&& red@.axes.len() == self@.axes.len() - 1
                &&& red@.axes == reduce_c(self@, k as int, fixed@).axes
                &&& red@.links == reduce_c(self@, k as int, fixed@).links
                &&& rout@ == m3_mul_c(rot_c(self@.axes[k as int], fixed@), r_in@)
                &&& kmv_eqv(red@, reduce_kmv(self@, k as int, fixed@))
                &&& m3_eqv(rout@, m3_mulv(rotv(self@.axes[k as int], fixed@), r_in@))
            }),
    {
        let ghost mv = self@;
        let ghost kk = k as int;
        let ghost rkv = rotv(mv.axes[kk], fixed@);
        let ghost rkc = rot_c(mv.axes[kk], fixed@);
        let ghost target = reduce_kmv(mv, kk, fixed@);
        let ghost targetc = reduce_c(mv, kk, fixed@);
        proof {
            rotv_wf(mv.axes[kk], fixed@);
        }
        let rk = match rot(&self.axes[k], fixed) {
            Some(v) => v,
            None => {
                return None;
            },
        };
        let n = self.axes.len();
        let mut axes2: Vec<Vec3> = Vec::new();
        let mut i: usize = 0;
        while i < n
            invariant
                km_wf(*self),
                mv == self@,
                kk == k as int,
                k < n,
                n == self.axes@.len(),
                jr_wf(*fixed),
                m3_wf(rk),
                m3_eqv(rk@, rkv),
                rk@ == rkc,
                rot_fits(mv.axes[kk], fixed@),
                rkv == rotv(mv.axes[kk], fixed@),
                rkc == rot_c(mv.axes[kk], fixed@),
                m3_wfv(rkv),
                target == reduce_kmv(mv, kk, fixed@),
                targetc == reduce_c(mv, kk, fixed@),
                0 <= i <= n,
                axes2@.len() as int == (if i <= k {
                    i as int
                } else {
                    i as int - 1
                }),
                forall|j: int| 0 <= j < axes2@.len() ==> v3_wf(#[trigger] axes2@[j]),
                forall|j: int|
                    0 <= j < axes2@.len() ==> v3_eqv(#[trigger] axes2@[j]@, target.axes[j]),
                forall|j: int| 0 <= j < axes2@.len() ==> #[trigger] axes2@[j]@ == targetc.axes[j],
                forall|j: int| kk < j < i as int ==> m3_apply_fits(rkc, #[trigger] mv.axes[j]),
            decreases n - i,
        {
            if i < k {
                axes2.push(self.axes[i]);
            } else if i > k {
                let na = match rk.apply(&self.axes[i]) {
                    Some(v) => v,
                    None => {
                        proof {
                            assert(!m3_apply_fits(rkc, mv.axes[i as int]));
                        }
                        return None;
                    },
                };
                proof {
                    m3_apply_congr(rk@, mv.axes[i as int], rkv, mv.axes[i as int]);
                    m3_applyv_wf(rk@, mv.axes[i as int]);
                    v3_eqv_trans(
                        na@,
                        m3_applyv(rk@, mv.axes[i as int]),
                        m3_applyv(rkv, mv.axes[i as int]),
                    );
                }
                axes2.push(na);
            }
            i = i + 1;
        }
        let mut links2: Vec<Vec3> = Vec::new();
        let mut t: usize = 0;
        while t < n
            invariant
                km_wf(*self),
                mv == self@,
                kk == k as int,
                k < n,
                n == self.axes@.len(),
                jr_wf(*fixed),
                m3_wf(rk),
                m3_eqv(rk@, rkv),
                rk@ == rkc,
                rot_fits(mv.axes[kk], fixed@),
                rkv == rotv(mv.axes[kk], fixed@),
                rkc == rot_c(mv.axes[kk], fixed@),
                m3_wfv(rkv),
                target == reduce_kmv(mv, kk, fixed@),
                targetc == reduce_c(mv, kk, fixed@),
                0 <= t <= n,
                links2@.len() == t,
                forall|j: int| 0 <= j < links2@.len() ==> v3_wf(#[trigger] links2@[j]),
                forall|j: int|
                    0 <= j < links2@.len() ==> v3_eqv(#[trigger] links2@[j]@, target.links[j]),
                forall|j: int| 0 <= j < links2@.len() ==> #[trigger] links2@[j]@ == targetc.links[j],
                t as int > kk ==> m3_apply_fits(rkc, mv.links[kk + 1]) && v3_add_fits(
                    mv.links[kk],
                    m3_apply_c(rkc, mv.links[kk + 1]),
                ),
                forall|j: int| kk < j < t as int ==> m3_apply_fits(rkc, #[trigger] mv.links[j + 1]),
            decreases n - t,
        {
            if t < k {
                links2.push(self.links[t]);
            } else if t == k {
                let rl = match rk.apply(&self.links[k + 1]) {
                    Some(v) => v,
                    None => {
                        proof {
                            assert(!m3_apply_fits(rkc, mv.links[kk + 1]));
                        }
                        return None;
                    },
                };
                let ml = match self.links[k].add(&rl) {
                    Some(v) => v,
                    None => {
                        proof {
                            assert(rl@ == m3_apply_c(rkc, mv.links[kk + 1]));
                            assert(!v3_add_fits(mv.links[kk], m3_apply_c(rkc, mv.links[kk + 1])));
                        }
                        return None;
                    },
                };
                proof {
                    m3_apply_congr(rk@, mv.links[kk + 1], rkv, mv.links[kk + 1]);
                    m3_applyv_wf(rk@, mv.links[kk + 1]);
                    v3_eqv_trans(
                        rl@,
                        m3_applyv(rk@, mv.links[kk + 1]),
                        m3_applyv(rkv, mv.links[kk + 1]),
                    );
                    v3_add_congr(
                        mv.links[kk],
                        rl@,
                        mv.links[kk],
                        m3_applyv(rkv, mv.links[kk + 1]),
                    );
                    v3_addv_wf(mv.links[kk], rl@);
                    v3_eqv_trans(
                        ml@,
                        v3_addv(mv.links[kk], rl@),
                        v3_addv(mv.links[kk], m3_applyv(rkv, mv.links[kk + 1])),
                    );
                }
                links2.push(ml);
            } else {
                let nl = match rk.apply(&self.links[t + 1]) {
                    Some(v) => v,
                    None => {
                        proof {
                            assert(!m3_apply_fits(rkc, mv.links[t as int + 1]));
                        }
                        return None;
                    },
                };
                proof {
                    m3_apply_congr(rk@, mv.links[t as int + 1], rkv, mv.links[t as int + 1]);
                    m3_applyv_wf(rk@, mv.links[t as int + 1]);
                    v3_eqv_trans(
                        nl@,
                        m3_applyv(rk@, mv.links[t as int + 1]),
                        m3_applyv(rkv, mv.links[t as int + 1]),
                    );
                }
                links2.push(nl);
            }
            t = t + 1;
        }
        let rout = match rk.mul(r_in) {
            Some(v) => v,
            None => {
                proof {
                    assert(!m3_mul_fits(rkc, r_in@));
                }
                return None;
            },
        };
        proof {
            m3_mul_congr(rk@, r_in@, rkv, r_in@);
            m3_mulv_wf(rk@, r_in@);
            m3_eqv_trans(rout@, m3_mulv(rk@, r_in@), m3_mulv(rkv, r_in@));
        }
        let red = KinematicModel::new(axes2, links2);
        proof {
            assert(red@.axes =~= targetc.axes);
            assert(red@.links =~= targetc.links);
            assert forall|i2: int| kk + 1 < i2 < mv.links.len() implies m3_apply_fits(
                rkc,
                #[trigger] mv.links[i2],
            ) by {
                assert(m3_apply_fits(rkc, mv.links[(i2 - 1) + 1]));
            }
            assert(reduce_fits(mv, kk, fixed@, r_in@));
        }
        Some((red, rout))
    }

    /// Degeneracy repair around position `j`: solves the 2-vector of
    /// coefficients re-expressing the middle link along the two neighbouring
    /// axes through the exact normal equations of the pseudo-inverse, and
    /// redistributes it so the middle link becomes exactly zero. Fails with
    /// `NumericalDegeneracy` exactly when the two axes are parallel.
    pub fn repair_offset_links(&self, j: usize) -> (res: Result<KinematicModel, KinError>)
        requires
            km_wf(*self),
            j + 1 < self.axes@.len(),
        ensures
            res is Err ==> (res == Result::<KinematicModel, KinError>::Err(
                KinError::NumericalDegeneracy,
            ) || res == Result::<KinematicModel, KinError>::Err(KinError::RangeExhausted)),
            res == Result::<KinematicModel, KinError>::Err(KinError::NumericalDegeneracy) ==> qeq(
                gram_detv(self@.axes[j as int], self@.axes[j as int + 1]),
                qzero(),
            ),
            res is Ok ==> ({
                let red = res.unwrap();
                let a = self@.axes[j as int];
                let b = self@.axes[j as int + 1];
                let p = self@.links[j as int + 1];
                &&& km_wf(red)
                &&& !qeq(gram_detv(a, b), qzero())
                &&& red@.axes == self@.axes
                &&& red@.links.len() == self@.links.len()
                &&& forall|i: int|
                    0 <= i < red@.links.len() ==> v3_eqv(
                        #[trigger] red@.links[i],
                        repaired_linksv(
                            self@.links,
                            j as int,
                            a,
                            b,
                            alpha0v(a, b, p),
                            alpha1v(a, b, p),
                        )[i],
                    )
            }),
    {
        let ghost mv = self@;
        let ghost jj = j as int;
        let ghost av = mv.axes[jj];
        let ghost bv = mv.axes[jj + 1];
        let ghost pv = mv.links[jj + 1];
        let nax = self.axes.len();
        let a = self.axes[j];
        let b = self.axes[j + 1];
        let p = self.links[j + 1];
        let aa = req(a.dot(&a))?;
        let bb = req(b.dot(&b))?;
        let ab = req(a.dot(&b))?;
        let ap = req(a.dot(&p))?;
        let bp = req(b.dot(&p))?;
        let m1 = req(aa.mul(&bb))?;
        let m2 = req(ab.mul(&ab))?;
        let det = req(m1.sub(&m2))?;
        proof {
            v3_dotv_wf(av, av);
            v3_dotv_wf(bv, bv);
            v3_dotv_wf(av, bv);
            v3_dotv_wf(av, pv);
            v3_dotv_wf(bv, pv);
            qeq_mul_congr(aa@, bb@, v3_dotv(av, av), v3_dotv(bv, bv));
            qwf_mul(aa@, bb@);
            qeq_trans(m1@, qmul(aa@, bb@), qmul(v3_dotv(av, av), v3_dotv(bv, bv)));
            qeq_mul_congr(ab@, ab@, v3_dotv(av, bv), v3_dotv(av, bv));
            qwf_mul(ab@, ab@);
            qeq_trans(m2@, qmul(ab@, ab@), qmul(v3_dotv(av, bv), v3_dotv(av, bv)));
            qeq_sub_congr(
                m1@,
                m2@,
                qmul(v3_dotv(av, av), v3_dotv(bv, bv)),
                qmul(v3_dotv(av, bv), v3_dotv(av, bv)),
            );
            qwf_sub(m1@, m2@);
            qeq_trans(det@, qsub(m1@, m2@), gram_detv(av, bv));
        }
        if det.is_zero() {
            proof {
                qeq_trans(gram_detv(av, bv), det@, qzero());
            }
            return Err(KinError::NumericalDegeneracy);
        }
        proof {
            qwf_mul(v3_dotv(av, av), v3_dotv(bv, bv));
            qwf_mul(v3_dotv(av, bv), v3_dotv(av, bv));
            qwf_sub(
                qmul(v3_dotv(av, av), v3_dotv(bv, bv)),
                qmul(v3_dotv(av, bv), v3_dotv(av, bv)),
            );
            // the exact determinant is nonzero as well
            if gram_detv(av, bv).n == 0 {
                assert(qeq(det@, gram_detv(av, bv)));
                assert(det@.n * gram_detv(av, bv).d == gram_detv(av, bv).n * det@.d);
                assert(qeq(det@, qzero())) by (nonlinear_arith)
                    requires
                        det@.n * gram_detv(av, bv).d == gram_detv(av, bv).n * det@.d,
                        gram_detv(av, bv).n == 0,
                        gram_detv(av, bv).d >= 1,
                ;
            }
        }
        let n0a = req(bb.mul(&ap))?;
        let n0b = req(ab.mul(&bp))?;
        let n0 = req(n0a.sub(&n0b))?;
        let n1a = req(aa.mul(&bp))?;
        let n1b = req(ab.mul(&ap))?;
        let n1 = req(n1a.sub(&n1b))?;
        let al0 = req(n0.div(&det))?;
        let al1 = req(n1.div(&det))?;
        proof {
            let num0 = qsub(qmul(v3_dotv(bv, bv), v3_dotv(av, pv)), qmul(v3_dotv(av, bv), v3_dotv(bv, pv)));
            let num1 = qsub(qmul(v3_dotv(av, av), v3_dotv(bv, pv)), qmul(v3_dotv(av, bv), v3_dotv(av, pv)));
            qeq_mul_congr(bb@, ap@, v3_dotv(bv, bv), v3_dotv(av, pv));
            qwf_mul(bb@, ap@);
            qeq_trans(n0a@, qmul(bb@, ap@), qmul(v3_dotv(bv, bv), v3_dotv(av, pv)));
            qeq_mul_congr(ab@, bp@, v3_dotv(av, bv), v3_dotv(bv, pv));
            qwf_mul(ab@, bp@);
            qeq_trans(n0b@, qmul(ab@, bp@), qmul(v3_dotv(av, bv), v3_dotv(bv, pv)));
            qeq_sub_congr(
                n0a@,
                n0b@,
                qmul(v3_dotv(bv, bv), v3_dotv(av, pv)),
                qmul(v3_dotv(av, bv), v3_dotv(bv, pv)),
            );
            qwf_sub(n0a@, n0b@);
            qeq_trans(n0@, qsub(n0a@, n0b@), num0);
            qeq_mul_congr(aa@, bp@, v3_dotv(av, av), v3_dotv(bv, pv));
            qwf_mul(aa@, bp@);
            qeq_trans(n1a@, qmul(aa@, bp@), qmul(v3_dotv(av, av), v3_dotv(bv, pv)));
            qeq_mul_congr(ab@, ap@, v3_dotv(av, bv), v3_dotv(av, pv));
            qwf_mul(ab@, ap@);
            qeq_trans(n1b@, qmul(ab@, ap@), qmul(v3_dotv(av, bv), v3_dotv(av, pv)));
            qeq_sub_congr(
                n1a@,
                n1b@,
                qmul(v3_dotv(av, av), v3_dotv(bv, pv)),
                qmul(v3_dotv(av, bv), v3_dotv(av, pv)),
            );
            qwf_sub(n1a@, n1b@);
            qeq_trans(n1@, qsub(n1a@, n1b@), num1);
            // quotients
            qwf_mul(v3_dotv(bv, bv), v3_dotv(av, pv));
            qwf_mul(v3_dotv(av, bv), v3_dotv(bv, pv));
            qwf_sub(
                qmul(v3_dotv(bv, bv), v3_dotv(av, pv)),
                qmul(v3_dotv(av, bv), v3_dotv(bv, pv)),
            );
            qwf_mul(v3_dotv(av, av), v3_dotv(bv, pv));
            qwf_mul(v3_dotv(av, bv), v3_dotv(av, pv));
            qwf_sub(
                qmul(v3_dotv(av, av), v3_dotv(bv, pv)),
                qmul(v3_dotv(av, bv), v3_dotv(av, pv)),
            );
            qeq_div_congr(n0@, det@, num0, gram_detv(av, bv));
            assert(n0@.d * det@.n != 0 && -(n0@.d * det@.n) != 0) by (nonlinear_arith)
                requires
                    n0@.d >= 1,
                    det@.n != 0,
            ;
            qeq_trans(al0@, qdiv(n0@, det@), alpha0v(av, bv, pv));
            qeq_div_congr(n1@, det@, num1, gram_detv(av, bv));
            assert(n1@.d * det@.n != 0 && -(n1@.d * det@.n) != 0) by (nonlinear_arith)
                requires
                    n1@.d >= 1,
                    det@.n != 0,
            ;
            qeq_trans(al1@, qdiv(n1@, det@), alpha1v(av, bv, pv));
        }
        let d0 = req(a.scale(&al0))?;
        let d1 = req(b.scale(&al1))?;
        let pj = req(self.links[j].add(&d0))?;
        let pj2 = req(self.links[j + 2].add(&d1))?;
        proof {
            v3_scale_congr(al0@, av, alpha0v(av, bv, pv), av);
            v3_scalev_wf(al0@, av);
            v3_eqv_trans(d0@, v3_scalev(al0@, av), v3_scalev(alpha0v(av, bv, pv), av));
            v3_add_congr(mv.links[jj], d0@, mv.links[jj], v3_scalev(alpha0v(av, bv, pv), av));
            v3_addv_wf(mv.links[jj], d0@);
            v3_eqv_trans(
                pj@,
                v3_addv(mv.links[jj], d0@),
                v3_addv(mv.links[jj], v3_scalev(alpha0v(av, bv, pv), av)),
            );
            v3_scale_congr(al1@, bv, alpha1v(av, bv, pv), bv);
            v3_scalev_wf(al1@, bv);
            v3_eqv_trans(d1@, v3_scalev(al1@, bv), v3_scalev(alpha1v(av, bv, pv), bv));
            v3_add_congr(mv.links[jj + 2], d1@, mv.links[jj + 2], v3_scalev(alpha1v(av, bv, pv), bv));
            v3_addv_wf(mv.links[jj + 2], d1@);
            v3_eqv_trans(
                pj2@,
                v3_addv(mv.links[jj + 2], d1@),
                v3_addv(mv.links[jj + 2], v3_scalev(alpha1v(av, bv, pv), bv)),
            );
        }
        let ghost targetl = repaired_linksv(mv.links, jj, av, bv, alpha0v(av, bv, pv), alpha1v(av, bv, pv));
        let nl = self.links.len();
        let mut axes2: Vec<Vec3> = Vec::new();
        let mut i: usize = 0;
        while i < nax
            invariant
                km_wf(*self),
                mv == self@,
                nax == self.axes@.len(),
                0 <= i <= self.axes@.len(),
                axes2@.len() == i,
                forall|t: int| 0 <= t < i ==> axes2@[t] == self.axes@[t],
            decreases self.axes@.len() - i,
        {
            axes2.push(self.axes[i]);
            i = i + 1;
        }
        let mut links2: Vec<Vec3> = Vec::new();
        let mut t: usize = 0;
        while t < nl
            invariant
                km_wf(*self),
                mv == self@,
                jj == j as int,
                j + 1 < self.axes@.len(),
                nl == self.links@.len(),
                av == mv.axes[jj],
                bv == mv.axes[jj + 1],
                pv == mv.links[jj + 1],
                v3_wf(pj),
                v3_wf(pj2),
                v3_eqv(pj@, targetl[jj]),
                v3_eqv(pj2@, targetl[jj + 2]),
                targetl == repaired_linksv(
                    mv.links,
                    jj,
                    av,
                    bv,
                    alpha0v(av, bv, pv),
                    alpha1v(av, bv, pv),
                ),
                0 <= t <= nl,
                links2@.len() == t,
                forall|i2: int| 0 <= i2 < links2@.len() ==> v3_wf(#[trigger] links2@[i2]),
                forall|i2: int|
                    0 <= i2 < links2@.len() ==> v3_eqv(#[trigger] links2@[i2]@, targetl[i2]),
            decreases nl - t,
        {
            if t == j {
                links2.push(pj);
            } else if t == j + 1 {
                links2.push(Vec3::zero());
            } else if t == j + 2 {
                links2.push(pj2);
            } else {
                links2.push(self.links[t]);
            }
            t = t + 1;
        }
        let red = KinematicModel::new(axes2, links2);
        proof {
            assert(red@.axes =~= mv.axes);
        }
        Ok(red)
    }
}

} // verus!
