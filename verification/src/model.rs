use vstd::prelude::*;

use crate::linalg::{
    jr_wf, jr_wfv, m3_apply_c, m3_apply_congr, m3_apply_fits, m3_apply_id, m3_applyv,
    m3_applyv_wf, m3_eqv, m3_mul_c, m3_mul_fits, rot_c, rot_fits, v3_add_c, v3_add_fits,
    m3_eqv_trans, m3_idv, m3_mul_congr, m3_mul_id_right, m3_mulv, m3_mulv_wf, m3_wf, m3_wfv, rot,
    rotv, rotv_at_identity, rotv_wf, v3_add_congr, v3_addv, v3_addv_wf, v3_eqv, v3_eqv_trans,
    v3_wf, v3_wfv, JointRot, JrV, M3v, Mat3, V3v, Vec3,
};
use crate::rat::{qeq, qone, qwf, qzero};

verus! {

// ---------------------------------------------------------------------------
// Poses.
// ---------------------------------------------------------------------------

/// The value of a pose: a rotation matrix and a translation vector giving the
/// tool frame relative to the base frame.
pub struct PoseV {
    pub r: M3v,
    pub t: V3v,
}

/// A tool pose: rotation and translation of the tool frame in the base frame.
#[derive(Clone, Copy, Debug)]
pub struct Pose {
    pub r: Mat3,
    pub t: Vec3,
}

impl View for Pose {
    type V = PoseV;

    open spec fn view(&self) -> PoseV {
        PoseV { r: self.r@, t: self.t@ }
    }
}

pub open spec fn pose_wf(p: Pose) -> bool {
    m3_wf(p.r) && v3_wf(p.t)
}

pub open spec fn pose_wfv(p: PoseV) -> bool {
    m3_wfv(p.r) && v3_wfv(p.t)
}

pub open spec fn pose_eqv(a: PoseV, b: PoseV) -> bool {
    m3_eqv(a.r, b.r) && v3_eqv(a.t, b.t)
}

// ---------------------------------------------------------------------------
// The kinematic chain.
// ---------------------------------------------------------------------------

/// The value of a chain: the joint axes and the home-configuration link
/// vectors, one more link than axes.
pub struct KmV {
    pub axes: Seq<V3v>,
    pub links: Seq<V3v>,
}

/// A serial chain in its home configuration: one rotation axis per joint and
/// `n + 1` link vectors, all in the base frame. Built once per robot and then
/// only read.
#[derive(Debug)]
pub struct KinematicModel {
    pub axes: Vec<Vec3>,
    pub links: Vec<Vec3>,
}

impl View for KinematicModel {
    type V = KmV;

    open spec fn view(&self) -> KmV {
        KmV {
            axes: self.axes@.map_values(|v: Vec3| v@),
            links: self.links@.map_values(|v: Vec3| v@),
        }
    }
}

pub open spec fn km_wf(m: KinematicModel) -> bool {
    &&& m.links@.len() == m.axes@.len() + 1
    &&& forall|i: int| 0 <= i < m.axes@.len() ==> v3_wf(#[trigger] m.axes@[i])
    &&& forall|i: int| 0 <= i < m.links@.len() ==> v3_wf(#[trigger] m.links@[i])
}

pub open spec fn km_wfv(m: KmV) -> bool {
    &&& m.links.len() == m.axes.len() + 1
    &&& forall|i: int| 0 <= i < m.axes.len() ==> v3_wfv(#[trigger] m.axes[i])
    &&& forall|i: int| 0 <= i < m.links.len() ==> v3_wfv(#[trigger] m.links[i])
}

/// The values of a sequence of joint rotations.
pub open spec fn jrs_v(q: Seq<JointRot>) -> Seq<JrV> {
    q.map_values(|j: JointRot| j@)
}

pub open spec fn jq_wf(q: Seq<JointRot>) -> bool {
    forall|i: int| 0 <= i < q.len() ==> jr_wf(#[trigger] q[i])
}

pub open spec fn jq_wfv(q: Seq<JrV>) -> bool {
    forall|i: int| 0 <= i < q.len() ==> jr_wfv(#[trigger] q[i])
}

/// A configuration in which every joint stands at angle zero.
pub open spec fn jq_identityv(q: Seq<JrV>) -> bool {
    forall|i: int|
        0 <= i < q.len() ==> qeq(#[trigger] q[i].c, qone()) && qeq(#[trigger] q[i].s, qzero())
}

// ---------------------------------------------------------------------------
// Forward kinematics, specified.
// ---------------------------------------------------------------------------

/// Product of the first `k` joint rotations of the chain.
pub open spec fn rot_prefix(axes: Seq<V3v>, q: Seq<JrV>, k: int) -> M3v
    decreases k,
{
    if k <= 0 {
        m3_idv()
    } else {
        m3_mulv(rot_prefix(axes, q, k - 1), rotv(axes[k - 1], q[k - 1]))
    }
}

/// Tool translation contributed by the first `k` joints: the base link plus
/// each further link rotated by the joints before it.
pub open spec fn trans_prefix(axes: Seq<V3v>, links: Seq<V3v>, q: Seq<JrV>, k: int) -> V3v
    decreases k,
{
    if k <= 0 {
        links[0]
    } else {
        v3_addv(trans_prefix(axes, links, q, k - 1), m3_applyv(rot_prefix(axes, q, k), links[k]))
    }
}

/// The forward pose of the whole chain at configuration `q`.
pub open spec fn fk_posev(m: KmV, q: Seq<JrV>) -> PoseV {
    PoseV {
        r: rot_prefix(m.axes, q, m.axes.len() as int),
        t: trans_prefix(m.axes, m.links, q, m.axes.len() as int),
    }
}

/// Exact sum of the first `k + 1` link vectors.
pub open spec fn links_sumv(links: Seq<V3v>, k: int) -> V3v
    decreases k,
{
    if k <= 0 {
        links[0]
    } else {
        v3_addv(links_sumv(links, k - 1), links[k])
    }
}

/// The exact evaluation of the first `k` joints, step by step, as the
/// executable forward kinematics computes it: `None` at the first step whose
/// intermediate leaves the representable range, else the exact stored
/// rotation and translation.
pub open spec fn fk_c(axes: Seq<V3v>, links: Seq<V3v>, q: Seq<JrV>, k: int) -> Option<(M3v, V3v)>
    decreases k,
{
    if k <= 0 {
        Some((m3_idv(), links[0]))
    } else {
        match fk_c(axes, links, q, k - 1) {
            None => None,
            Some(st) => {
                if !rot_fits(axes[k - 1], q[k - 1]) {
                    None
                } else {
                    let rx = rot_c(axes[k - 1], q[k - 1]);
                    if !m3_mul_fits(st.0, rx) {
                        None
                    } else {
                        let r2 = m3_mul_c(st.0, rx);
                        if !m3_apply_fits(r2, links[k]) {
                            None
                        } else {
                            let pv = m3_apply_c(r2, links[k]);
                            if !v3_add_fits(st.1, pv) {
                                None
                            } else {
                                Some((r2, v3_add_c(st.1, pv)))
                            }
                        }
                    }
                }
            },
        }
    }
}

/// The whole chain evaluates without range exhaustion.
pub open spec fn fk_fits(m: KmV, q: Seq<JrV>) -> bool {
    fk_c(m.axes, m.links, q, m.axes.len() as int) is Some
}

proof fn fk_c_none_mono(axes: Seq<V3v>, links: Seq<V3v>, q: Seq<JrV>, k: int, k2: int)
    requires
        0 <= k <= k2,
        fk_c(axes, links, q, k) is None,
    ensures
        fk_c(axes, links, q, k2) is None,
    decreases k2 - k,
{
    if k < k2 {
        fk_c_none_mono(axes, links, q, k, k2 - 1);
    }
}

pub proof fn rot_prefix_wf(axes: Seq<V3v>, q: Seq<JrV>, k: int)
    requires
        0 <= k <= axes.len(),
        q.len() == axes.len(),
        forall|i: int| 0 <= i < axes.len() ==> v3_wfv(#[trigger] axes[i]),
        jq_wfv(q),
    ensures
        m3_wfv(rot_prefix(axes, q, k)),
    decreases k,
{
    if k > 0 {
        rot_prefix_wf(axes, q, k - 1);
        rotv_wf(axes[k - 1], q[k - 1]);
        m3_mulv_wf(rot_prefix(axes, q, k - 1), rotv(axes[k - 1], q[k - 1]));
    }
}

pub proof fn trans_prefix_wf(axes: Seq<V3v>, links: Seq<V3v>, q: Seq<JrV>, k: int)
    requires
        0 <= k <= axes.len(),
        q.len() == axes.len(),
        links.len() == axes.len() + 1,
        forall|i: int| 0 <= i < axes.len() ==> v3_wfv(#[trigger] axes[i]),
        forall|i: int| 0 <= i < links.len() ==> v3_wfv(#[trigger] links[i]),
        jq_wfv(q),
    ensures
        v3_wfv(trans_prefix(axes, links, q, k)),
    decreases k,
{
    if k > 0 {
        trans_prefix_wf(axes, links, q, k - 1);
        rot_prefix_wf(axes, q, k);
        m3_applyv_wf(rot_prefix(axes, q, k), links[k]);
        v3_addv_wf(trans_prefix(axes, links, q, k - 1), m3_applyv(rot_prefix(axes, q, k), links[k]));
    }
}

impl KinematicModel {
    /// A chain from its axis and link tables; there must be exactly one more
    /// link than axes.
    pub fn new(axes: Vec<Vec3>, links: Vec<Vec3>) -> (r: KinematicModel)
        requires
            links@.len() == axes@.len() + 1,
            forall|i: int| 0 <= i < axes@.len() ==> v3_wf(#[trigger] axes@[i]),
            forall|i: int| 0 <= i < links@.len() ==> v3_wf(#[trigger] links@[i]),
        ensures
            km_wf(r),
            r@.axes == axes@.map_values(|v: Vec3| v@),
            r@.links == links@.map_values(|v: Vec3| v@),
    {
        KinematicModel { axes, links }
    }

    /// Number of joints.
    pub fn dof(&self) -> (r: usize)
        ensures
            r == self@.axes.len(),
    {
        self.axes.len()
    }

    /// The forward pose at configuration `q`: the product of the per-joint
    /// axis-angle rotations, and the base link plus each further link rotated
    /// by the joints before it. Exact; `None` only on range exhaustion of the
    /// scalar representation.
    pub fn forward_kinematics(&self, q: &Vec<JointRot>) -> (r: Option<Pose>)
        requires
            km_wf(*self),
            q@.len() == self.axes@.len(),
            jq_wf(q@),
        ensures
            r is Some <==> fk_fits(self@, jrs_v(q@)),
            r is Some ==> pose_wf(r.unwrap()) && pose_eqv(r.unwrap()@, fk_posev(self@, jrs_v(q@)))
                && r.unwrap()@.r == fk_c(
                self@.axes,
                self@.links,
                jrs_v(q@),
                self@.axes.len() as int,
            ).unwrap().0 && r.unwrap()@.t == fk_c(
                self@.axes,
                self@.links,
                jrs_v(q@),
                self@.axes.len() as int,
            ).unwrap().1,
    {
        let ghost axesv = self@.axes;
        let ghost linksv = self@.links;
        let ghost qv = jrs_v(q@);
        let n = self.axes.len();
        let mut rm = Mat3::identity();
        let mut t = self.links[0];
        let mut i: usize = 0;
        while i < n
            invariant
                km_wf(*self),
                n == self.axes@.len(),
                q@.len() == n,
                jq_wf(q@),
                axesv == self@.axes,
                linksv == self@.links,
                qv == jrs_v(q@),
                0 <= i <= n,
                m3_wf(rm),
                v3_wf(t),
                m3_eqv(rm@, rot_prefix(axesv, qv, i as int)),
                v3_eqv(t@, trans_prefix(axesv, linksv, qv, i as int)),
                fk_c(axesv, linksv, qv, i as int) == Some((rm@, t@)),
            decreases n - i,
        {
            let rx = match rot(&self.axes[i], &q[i]) {
                Some(v) => v,
                None => {
                    proof {
                        assert(fk_c(axesv, linksv, qv, i as int + 1) is None);
                        fk_c_none_mono(axesv, linksv, qv, i as int + 1, n as int);
                    }
                    return None;
                },
            };
            let rm2 = match rm.mul(&rx) {
                Some(v) => v,
                None => {
                    proof {
                        assert(fk_c(axesv, linksv, qv, i as int + 1) is None);
                        fk_c_none_mono(axesv, linksv, qv, i as int + 1, n as int);
                    }
                    return None;
                },
            };
            let pv = match rm2.apply(&self.links[i + 1]) {
                Some(v) => v,
                None => {
                    proof {
                        assert(fk_c(axesv, linksv, qv, i as int + 1) is None);
                        fk_c_none_mono(axesv, linksv, qv, i as int + 1, n as int);
                    }
                    return None;
                },
            };
            let t2 = match t.add(&pv) {
                Some(v) => v,
                None => {
                    proof {
                        assert(fk_c(axesv, linksv, qv, i as int + 1) is None);
                        fk_c_none_mono(axesv, linksv, qv, i as int + 1, n as int);
                    }
                    return None;
                },
            };
            proof {
                assert(fk_c(axesv, linksv, qv, i as int + 1) == Some((rm2@, t2@)));
            }
            proof {
                let ii = i as int;
                let rstep = rotv(axesv[ii], qv[ii]);
                assert(m3_eqv(rx@, rstep));
                m3_mul_congr(rm@, rx@, rot_prefix(axesv, qv, ii), rstep);
                m3_mulv_wf(rm@, rx@);
                m3_eqv_trans(rm2@, m3_mulv(rm@, rx@), rot_prefix(axesv, qv, ii + 1));
                assert(m3_eqv(rm2@, rot_prefix(axesv, qv, ii + 1)));
                let lk = linksv[ii + 1];
                m3_apply_congr(rm2@, lk, rot_prefix(axesv, qv, ii + 1), lk);
                m3_applyv_wf(rm2@, lk);
                v3_eqv_trans(pv@, m3_applyv(rm2@, lk), m3_applyv(rot_prefix(axesv, qv, ii + 1), lk));
                v3_add_congr(
                    t@,
                    pv@,
                    trans_prefix(axesv, linksv, qv, ii),
                    m3_applyv(rot_prefix(axesv, qv, ii + 1), lk),
                );
                v3_addv_wf(t@, pv@);
                v3_eqv_trans(t2@, v3_addv(t@, pv@), trans_prefix(axesv, linksv, qv, ii + 1));
            }
            rm = rm2;
            t = t2;
            i = i + 1;
        }
        Some(Pose { r: rm, t })
    }
}

// ---------------------------------------------------------------------------
// Laws of the forward map.
// ---------------------------------------------------------------------------

/// Determinism: the forward pose is a function of the model and the joint
/// rotations alone. Any two poses that satisfy the forward-kinematics
/// contract for the same model and configuration describe the same rotation
/// and translation.
pub proof fn lemma_fk_deterministic(m: KmV, q: Seq<JrV>, p1: PoseV, p2: PoseV)
    requires
        km_wfv(m),
        q.len() == m.axes.len(),
        jq_wfv(q),
        pose_eqv(p1, fk_posev(m, q)),
        pose_eqv(p2, fk_posev(m, q)),
    ensures
        pose_eqv(p1, p2),
{
    let n = m.axes.len() as int;
    rot_prefix_wf(m.axes, q, n);
    trans_prefix_wf(m.axes, m.links, q, n);
    m3_eqv_trans(p1.r, fk_posev(m, q).r, p2.r);
    v3_eqv_trans(p1.t, fk_posev(m, q).t, p2.t);
}

proof fn lemma_prefix_identity(axes: Seq<V3v>, links: Seq<V3v>, q: Seq<JrV>, k: int)
    requires
        0 <= k <= axes.len(),
        q.len() == axes.len(),
        links.len() == axes.len() + 1,
        forall|i: int| 0 <= i < axes.len() ==> v3_wfv(#[trigger] axes[i]),
        forall|i: int| 0 <= i < links.len() ==> v3_wfv(#[trigger] links[i]),
        jq_wfv(q),
        jq_identityv(q),
    ensures
        m3_eqv(rot_prefix(axes, q, k), m3_idv()),
        v3_eqv(trans_prefix(axes, links, q, k), links_sumv(links, k)),
    decreases k,
{
    if k > 0 {
        lemma_prefix_identity(axes, links, q, k - 1);
        rotv_at_identity(axes[k - 1], q[k - 1]);
        m3_mul_congr(rot_prefix(axes, q, k - 1), rotv(axes[k - 1], q[k - 1]), m3_idv(), m3_idv());
        m3_mul_id_right(m3_idv());
        m3_mulv_wf(m3_idv(), m3_idv());
        m3_eqv_trans(rot_prefix(axes, q, k), m3_mulv(m3_idv(), m3_idv()), m3_idv());
        let lk = links[k];
        m3_apply_congr(rot_prefix(axes, q, k), lk, m3_idv(), lk);
        m3_apply_id(lk);
        m3_applyv_wf(m3_idv(), lk);
        v3_eqv_trans(m3_applyv(rot_prefix(axes, q, k), lk), m3_applyv(m3_idv(), lk), lk);
        v3_add_congr(
            trans_prefix(axes, links, q, k - 1),
            m3_applyv(rot_prefix(axes, q, k), lk),
            links_sumv(links, k - 1),
            lk,
        );
    }
}

/// At the all-zero configuration every joint rotation is the identity, so the
/// forward rotation is the identity and the forward translation is exactly
/// the sum of all link vectors.
pub proof fn lemma_fk_identity_config(m: KmV, q: Seq<JrV>)
    requires
        km_wfv(m),
        q.len() == m.axes.len(),
        jq_wfv(q),
        jq_identityv(q),
    ensures
        m3_eqv(fk_posev(m, q).r, m3_idv()),
        v3_eqv(fk_posev(m, q).t, links_sumv(m.links, m.axes.len() as int)),
{
    lemma_prefix_identity(m.axes, m.links, q, m.axes.len() as int);
}

} // verus!
