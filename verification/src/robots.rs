use vstd::prelude::*;

use crate::linalg::{
    jr_wf, m3_eqv, m3_idv, m3_mulv, m3_wf, rotv, v3_eqv, v3_eqv_trans, v3_unitv, v3_wf, JointRot,
    Mat3, V3v, Vec3,
};
use crate::model::{km_wf, KinematicModel, KmV};
use crate::rat::{qeq, qeq_trans, qzero, Qv, RAT_BOUND};
use crate::linalg::m3_idv as m3_idv_spec;
use crate::reduce::{
    alpha0v, alpha1v, gram_detv, gram_detv_congr, gram_detv_wf, kmv_eqv, reduce_fits, reduce_kmv,
    reduce_kmv_wf, repaired_links_congr, repaired_links_wf, repaired_linksv,
};
use crate::{req, KinError};

verus! {

/// The fraction `n / d` as a mathematical scalar.
pub open spec fn qvf(n: int, d: int) -> Qv {
    Qv { n, d }
}

/// The vector `(xn/d, yn/d, zn/d)` as a mathematical value.
pub open spec fn v3f(xn: int, yn: int, zn: int, d: int) -> V3v {
    V3v { x: qvf(xn, d), y: qvf(yn, d), z: qvf(zn, d) }
}

/// Every axis of the table is exactly a unit vector, as the joint-axis
/// invariant requires.
pub open spec fn axes_unitv(axes: Seq<V3v>) -> bool {
    forall|i: int| 0 <= i < axes.len() ==> v3_unitv(#[trigger] axes[i])
}

/// The vector `(xn/d, yn/d, zn/d)`, exactly.
fn vfrac(xn: i64, yn: i64, zn: i64, d: i64) -> (r: Vec3)
    requires
        1 <= d as int <= RAT_BOUND,
        -RAT_BOUND <= xn as int <= RAT_BOUND,
        -RAT_BOUND <= yn as int <= RAT_BOUND,
        -RAT_BOUND <= zn as int <= RAT_BOUND,
    ensures
        v3_wf(r),
        r@ == v3f(xn as int, yn as int, zn as int, d as int),
{
    Vec3::frac(xn, yn, zn, d).unwrap()
}

/// The six-joint IRB 6640 table.
pub struct Irb6640;

pub open spec fn irb6640_axesv() -> Seq<V3v> {
    seq![
        v3f(0, 0, 1, 1),
        v3f(0, 1, 0, 1),
        v3f(0, 1, 0, 1),
        v3f(1, 0, 0, 1),
        v3f(0, 1, 0, 1),
        v3f(1, 0, 0, 1),
    ]
}

pub open spec fn irb6640_linksv() -> Seq<V3v> {
    seq![
        v3f(0, 0, 0, 1),
        v3f(3200, 0, 7800, 10000),
        v3f(0, 0, 10750, 10000),
        v3f(11425, 0, 2000, 10000),
        v3f(0, 0, 0, 1),
        v3f(0, 0, 0, 1),
        v3f(2000, 0, 0, 10000),
    ]
}

impl Irb6640 {
    /// The home-configuration axis and link tables of this robot, exactly.
    pub fn get_kin() -> (m: KinematicModel)
        ensures
            km_wf(m),
            m@.axes == irb6640_axesv(),
            m@.links == irb6640_linksv(),
            axes_unitv(m@.axes),
    {
        let mut axes: Vec<Vec3> = Vec::new();
        axes.push(vfrac(0, 0, 1, 1));
        axes.push(vfrac(0, 1, 0, 1));
        axes.push(vfrac(0, 1, 0, 1));
        axes.push(vfrac(1, 0, 0, 1));
        axes.push(vfrac(0, 1, 0, 1));
        axes.push(vfrac(1, 0, 0, 1));
        let mut links: Vec<Vec3> = Vec::new();
        links.push(vfrac(0, 0, 0, 1));
        links.push(vfrac(3200, 0, 7800, 10000));
        links.push(vfrac(0, 0, 10750, 10000));
        links.push(vfrac(11425, 0, 2000, 10000));
        links.push(vfrac(0, 0, 0, 1));
        links.push(vfrac(0, 0, 0, 1));
        links.push(vfrac(2000, 0, 0, 10000));
        let m = KinematicModel::new(axes, links);
        proof {
            assert(m@.axes =~= irb6640_axesv());
            assert(m@.links =~= irb6640_linksv());
            assert(v3_unitv(v3f(0, 0, 1, 1)) && v3_unitv(v3f(0, 1, 0, 1)) && v3_unitv(v3f(1, 0, 0, 1))) by (nonlinear_arith);
            assert(axes_unitv(m@.axes));
        }
        m
    }

    pub fn name() -> (r: &'static str)
        ensures
            r@ == "IRB 6640"@,
    {
        "IRB 6640"
    }
}

/// The seven-joint KUKA R800 table with its third joint meant to be held
/// fixed.
pub struct KukaR800FixedQ3;

pub open spec fn kuka_axesv() -> Seq<V3v> {
    seq![
        v3f(0, 0, 1, 1),
        v3f(0, 1, 0, 1),
        v3f(0, 0, 1, 1),
        v3f(0, -1, 0, 1),
        v3f(0, 0, 1, 1),
        v3f(0, 1, 0, 1),
        v3f(0, 0, 1, 1),
    ]
}

pub open spec fn kuka_linksv() -> Seq<V3v> {
    seq![
        v3f(0, 0, 3400, 10000),
        v3f(0, 0, 0, 1),
        v3f(0, 0, 2100, 10000),
        v3f(0, 0, 1900, 10000),
        v3f(0, 0, 4000, 10000),
        v3f(0, 0, 0, 1),
        v3f(0, 0, 0, 1),
        v3f(0, 0, 1260, 10000),
    ]
}

pub open spec fn kuka_kmv() -> KmV {
    KmV { axes: kuka_axesv(), links: kuka_linksv() }
}

impl KukaR800FixedQ3 {
    /// The home-configuration axis and link tables of this robot, exactly.
    pub fn get_kin() -> (m: KinematicModel)
        ensures
            km_wf(m),
            m@.axes == kuka_axesv(),
            m@.links == kuka_linksv(),
            axes_unitv(m@.axes),
            m@ == kuka_kmv(),
    {
        let mut axes: Vec<Vec3> = Vec::new();
        axes.push(vfrac(0, 0, 1, 1));
        axes.push(vfrac(0, 1, 0, 1));
        axes.push(vfrac(0, 0, 1, 1));
        axes.push(vfrac(0, -1, 0, 1));
        axes.push(vfrac(0, 0, 1, 1));
        axes.push(vfrac(0, 1, 0, 1));
        axes.push(vfrac(0, 0, 1, 1));
        let mut links: Vec<Vec3> = Vec::new();
        links.push(vfrac(0, 0, 3400, 10000));
        links.push(vfrac(0, 0, 0, 1));
        links.push(vfrac(0, 0, 2100, 10000));
        links.push(vfrac(0, 0, 1900, 10000));
        links.push(vfrac(0, 0, 4000, 10000));
        links.push(vfrac(0, 0, 0, 1));
        links.push(vfrac(0, 0, 0, 1));
        links.push(vfrac(0, 0, 1260, 10000));
        let m = KinematicModel::new(axes, links);
        proof {
            assert(m@.axes =~= kuka_axesv());
            assert(m@.links =~= kuka_linksv());
            assert(v3_unitv(v3f(0, 0, 1, 1)) && v3_unitv(v3f(0, 1, 0, 1)) && v3_unitv(v3f(0, -1, 0, 1))) by (nonlinear_arith);
            assert(axes_unitv(m@.axes));
        }
        m
    }

    /// The chain with the third joint eliminated at the given fixed
    /// rotation, and that joint's constant rotation for recombination.
    pub fn get_kin_partial(fixed: &JointRot) -> (res: Option<(KinematicModel, Mat3)>)
        requires
            jr_wf(*fixed),
        ensures
            res is Some <==> reduce_fits(kuka_kmv(), 2, fixed@, m3_idv()),
            res is Some ==> ({
                let red = res.unwrap().0;
                let rout = res.unwrap().1;
                &&& km_wf(red)
                &&& m3_wf(rout)
                &&& red@.axes.len() == 6
                &&& kmv_eqv(red@, reduce_kmv(kuka_kmv(), 2, fixed@))
                &&& m3_eqv(rout@, m3_mulv(rotv(kuka_kmv().axes[2], fixed@), m3_idv()))
            }),
    {
        let kin = Self::get_kin();
        let rin = Mat3::identity();
        kin.forward_kinematics_partial(fixed, 2, &rin)
    }

    pub fn name() -> (r: &'static str)
        ensures
            r@ == "KUKA R800 Fixed Q3"@,
    {
        "KUKA R800 Fixed Q3"
    }
}

/// The seven-joint RRC table with its sixth joint meant to be held fixed.
pub struct RrcFixedQ6;

pub open spec fn rrc_axesv() -> Seq<V3v> {
    seq![
        v3f(1, 0, 0, 1),
        v3f(0, 0, 1, 1),
        v3f(1, 0, 0, 1),
        v3f(0, 0, 1, 1),
        v3f(1, 0, 0, 1),
        v3f(0, 0, 1, 1),
        v3f(1, 0, 0, 1),
    ]
}

pub open spec fn rrc_linksv() -> Seq<V3v> {
    seq![
        v3f(0, 0, 0, 1),
        v3f(508000, -101600, 0, 1000000),
        v3f(0, 101600, 0, 1000000),
        v3f(546100, 85725, 0, 1000000),
        v3f(0, -85725, 0, 1000000),
        v3f(546100, 84455, 0, 1000000),
        v3f(0, -84455, 0, 1000000),
        v3f(177800, 0, 0, 1000000),
    ]
}

pub open spec fn rrc_kmv() -> KmV {
    KmV { axes: rrc_axesv(), links: rrc_linksv() }
}

impl RrcFixedQ6 {
    /// The home-configuration axis and link tables of this robot, exactly
    /// (the tabulated inch lengths scaled by 0.0254).
    pub fn get_kin() -> (m: KinematicModel)
        ensures
            km_wf(m),
            m@.axes == rrc_axesv(),
            m@.links == rrc_linksv(),
            axes_unitv(m@.axes),
            m@ == rrc_kmv(),
    {
        let mut axes: Vec<Vec3> = Vec::new();
        axes.push(vfrac(1, 0, 0, 1));
        axes.push(vfrac(0, 0, 1, 1));
        axes.push(vfrac(1, 0, 0, 1));
        axes.push(vfrac(0, 0, 1, 1));
        axes.push(vfrac(1, 0, 0, 1));
        axes.push(vfrac(0, 0, 1, 1));
        axes.push(vfrac(1, 0, 0, 1));
        let mut links: Vec<Vec3> = Vec::new();
        links.push(vfrac(0, 0, 0, 1));
        links.push(vfrac(508000, -101600, 0, 1000000));
        links.push(vfrac(0, 101600, 0, 1000000));
        links.push(vfrac(546100, 85725, 0, 1000000));
        links.push(vfrac(0, -85725, 0, 1000000));
        links.push(vfrac(546100, 84455, 0, 1000000));
        links.push(vfrac(0, -84455, 0, 1000000));
        links.push(vfrac(177800, 0, 0, 1000000));
        let m = KinematicModel::new(axes, links);
        proof {
            assert(m@.axes =~= rrc_axesv());
            assert(m@.links =~= rrc_linksv());
            assert(v3_unitv(v3f(1, 0, 0, 1)) && v3_unitv(v3f(0, 0, 1, 1))) by (nonlinear_arith);
            assert(axes_unitv(m@.axes));
        }
        m
    }

    /// The chain with the sixth joint eliminated at the given fixed
    /// rotation, followed by the degeneracy repair around the elimination
    /// point, and the eliminated joint's constant rotation.
    pub fn get_kin_partial(fixed: &JointRot) -> (res: Result<(KinematicModel, Mat3), KinError>)
        requires
            jr_wf(*fixed),
        ensures
            res is Err ==> (res == Result::<(KinematicModel, Mat3), KinError>::Err(
                KinError::NumericalDegeneracy,
            ) || res == Result::<(KinematicModel, Mat3), KinError>::Err(KinError::RangeExhausted)),
            res == Result::<(KinematicModel, Mat3), KinError>::Err(KinError::NumericalDegeneracy)
                ==> qeq(
                gram_detv(reduce_kmv(rrc_kmv(), 5, fixed@).axes[4], reduce_kmv(rrc_kmv(), 5, fixed@).axes[5]),
                qzero(),
            ),
            res is Ok ==> ({
                let red = res.unwrap().0;
                let rout = res.unwrap().1;
                let base = reduce_kmv(rrc_kmv(), 5, fixed@);
                let a = base.axes[4];
                let b = base.axes[5];
                let p = base.links[5];
                &&& km_wf(red)
                &&& m3_wf(rout)
                &&& red@.axes.len() == 6
                &&& red@.links.len() == 7
                &&& !qeq(gram_detv(a, b), qzero())
                &&& (forall|i: int| 0 <= i < 6 ==> v3_eqv(#[trigger] red@.axes[i], base.axes[i]))
                &&& (forall|i: int|
                    0 <= i < 7 ==> v3_eqv(
                        #[trigger] red@.links[i],
                        repaired_linksv(base.links, 4, a, b, alpha0v(a, b, p), alpha1v(a, b, p))[i],
                    ))
                &&& m3_eqv(rout@, m3_mulv(rotv(rrc_kmv().axes[5], fixed@), m3_idv()))
            }),
    {
        let kin = Self::get_kin();
        let rin = Mat3::identity();
        let pr = req(kin.forward_kinematics_partial(fixed, 5, &rin))?;
        let (kp, r6t) = pr;
        let ghost base = reduce_kmv(rrc_kmv(), 5, fixed@);
        proof {
            reduce_kmv_wf(rrc_kmv(), 5, fixed@);
        }
        let red = match kp.repair_offset_links(4) {
            Ok(v) => v,
            Err(e) => {
                proof {
                    if e == KinError::NumericalDegeneracy {
                        gram_detv_congr(kp@.axes[4], kp@.axes[5], base.axes[4], base.axes[5]);
                        gram_detv_wf(kp@.axes[4], kp@.axes[5]);
                        qeq_trans(
                            gram_detv(base.axes[4], base.axes[5]),
                            gram_detv(kp@.axes[4], kp@.axes[5]),
                            qzero(),
                        );
                    }
                }
                return Err(e);
            },
        };
        proof {
            let a1 = kp@.axes[4];
            let b1 = kp@.axes[5];
            let p1 = kp@.links[5];
            let a = base.axes[4];
            let b = base.axes[5];
            let p = base.links[5];
            // the nonsingularity and the repaired links carry over from the
            // computed reduced chain to its mathematical description
            gram_detv_congr(a1, b1, a, b);
            gram_detv_wf(a1, b1);
            gram_detv_wf(a, b);
            if qeq(gram_detv(a, b), qzero()) {
                qeq_trans(gram_detv(a1, b1), gram_detv(a, b), qzero());
            }
            assert forall|i: int| 0 <= i < 6 implies v3_eqv(#[trigger] red@.axes[i], base.axes[i]) by {
                assert(red@.axes[i] == kp@.axes[i]);
            }
            assert forall|i: int| 0 <= i < 7 implies v3_eqv(
                #[trigger] red@.links[i],
                repaired_linksv(base.links, 4, a, b, alpha0v(a, b, p), alpha1v(a, b, p))[i],
            ) by {
                repaired_links_congr(kp@.links, base.links, a1, b1, p1, a, b, p, 4, i);
                repaired_links_wf(kp@.links, a1, b1, p1, 4, i);
                v3_eqv_trans(
                    red@.links[i],
                    repaired_linksv(kp@.links, 4, a1, b1, alpha0v(a1, b1, p1), alpha1v(a1, b1, p1))[i],
                    repaired_linksv(base.links, 4, a, b, alpha0v(a, b, p), alpha1v(a, b, p))[i],
                );
            }
        }
        Ok((red, r6t))
    }

    pub fn name() -> (r: &'static str)
        ensures
            r@ == "RRC Fixed Q6"@,
    {
        "RRC Fixed Q6"
    }
}

/// The six-joint UR5 table.
pub struct Ur5;

pub open spec fn ur5_axesv() -> Seq<V3v> {
    seq![
        v3f(0, 0, 1, 1),
        v3f(0, 1, 0, 1),
        v3f(0, 1, 0, 1),
        v3f(0, 1, 0, 1),
        v3f(0, 0, -1, 1),
        v3f(0, 1, 0, 1),
    ]
}

pub open spec fn ur5_linksv() -> Seq<V3v> {
    seq![
        v3f(0, 0, 89159, 1000000),
        v3f(0, 135800, 0, 1000000),
        v3f(425000, -119700, 0, 1000000),
        v3f(392200, 0, 0, 1000000),
        v3f(0, 93000, 0, 1000000),
        v3f(0, 0, -94600, 1000000),
        v3f(0, 82300, 0, 1000000),
    ]
}

impl Ur5 {
    /// The home-configuration axis and link tables of this robot, exactly.
    pub fn get_kin() -> (m: KinematicModel)
        ensures
            km_wf(m),
            m@.axes == ur5_axesv(),
            m@.links == ur5_linksv(),
            axes_unitv(m@.axes),
    {
        let mut axes: Vec<Vec3> = Vec::new();
        axes.push(vfrac(0, 0, 1, 1));
        axes.push(vfrac(0, 1, 0, 1));
        axes.push(vfrac(0, 1, 0, 1));
        axes.push(vfrac(0, 1, 0, 1));
        axes.push(vfrac(0, 0, -1, 1));
        axes.push(vfrac(0, 1, 0, 1));
        let mut links: Vec<Vec3> = Vec::new();
        links.push(vfrac(0, 0, 89159, 1000000));
        links.push(vfrac(0, 135800, 0, 1000000));
        links.push(vfrac(425000, -119700, 0, 1000000));
        links.push(vfrac(392200, 0, 0, 1000000));
        links.push(vfrac(0, 93000, 0, 1000000));
        links.push(vfrac(0, 0, -94600, 1000000));
        links.push(vfrac(0, 82300, 0, 1000000));
        let m = KinematicModel::new(axes, links);
        proof {
            assert(m@.axes =~= ur5_axesv());
            assert(m@.links =~= ur5_linksv());
            assert(v3_unitv(v3f(0, 0, 1, 1)) && v3_unitv(v3f(0, 1, 0, 1)) && v3_unitv(v3f(0, 0, -1, 1))) by (nonlinear_arith);
            assert(axes_unitv(m@.axes));
        }
        m
    }

    pub fn name() -> (r: &'static str)
        ensures
            r@ == "UR5"@,
    {
        "UR5"
    }
}

/// The seven-joint Yumi table with its third joint meant to be held fixed.
/// Each axis is stored as an exactly unit rational direction (a point on the
/// unit sphere) nearest the tabulated one at the chosen granularity, within
/// about 4e-3 per component; the joint-axis invariant holds exactly.
pub struct YumiFixedQ3;

pub open spec fn yumi_axesv() -> Seq<V3v> {
    seq![
        v3f(792, 336, 463, 977),
        v3f(2016, 13488, -13265, 19025),
        v3f(792, 336, 463, 977),
        v3f(2016, 13488, -13265, 19025),
        v3f(17880, -19320, -16861, 31261),
        v3f(2016, 13488, -13265, 19025),
        v3f(17880, -19320, -16861, 31261),
    ]
}

pub open spec fn yumi_linksv() -> Seq<V3v> {
    seq![
        v3f(536, 725, 4149, 10000),
        v3f(642, 527, 632, 10000),
        v3f(1578, 406, 650, 10000),
        v3f(880, 11, 143, 10000),
        v3f(1270, -877, -700, 10000),
        v3f(354, -712, -670, 10000),
        v3f(385, -87, -30, 10000),
        v3f(40, -43, -38, 10000),
    ]
}

pub open spec fn yumi_kmv() -> KmV {
    KmV { axes: yumi_axesv(), links: yumi_linksv() }
}

impl YumiFixedQ3 {
    /// The home-configuration axis and link tables of this robot, exactly.
    pub fn get_kin() -> (m: KinematicModel)
        ensures
            km_wf(m),
            m@.axes == yumi_axesv(),
            m@.links == yumi_linksv(),
            axes_unitv(m@.axes),
    {
        let mut axes: Vec<Vec3> = Vec::new();
        axes.push(vfrac(792, 336, 463, 977));
        axes.push(vfrac(2016, 13488, -13265, 19025));
        axes.push(vfrac(792, 336, 463, 977));
        axes.push(vfrac(2016, 13488, -13265, 19025));
        axes.push(vfrac(17880, -19320, -16861, 31261));
        axes.push(vfrac(2016, 13488, -13265, 19025));
        axes.push(vfrac(17880, -19320, -16861, 31261));
        let mut links: Vec<Vec3> = Vec::new();
        links.push(vfrac(536, 725, 4149, 10000));
        links.push(vfrac(642, 527, 632, 10000));
        links.push(vfrac(1578, 406, 650, 10000));
        links.push(vfrac(880, 11, 143, 10000));
        links.push(vfrac(1270, -877, -700, 10000));
        links.push(vfrac(354, -712, -670, 10000));
        links.push(vfrac(385, -87, -30, 10000));
        links.push(vfrac(40, -43, -38, 10000));
        let m = KinematicModel::new(axes, links);
        proof {
            assert(m@.axes =~= yumi_axesv());
            assert(m@.links =~= yumi_linksv());
            assert(v3_unitv(v3f(792, 336, 463, 977)) && v3_unitv(v3f(2016, 13488, -13265, 19025))
                && v3_unitv(v3f(17880, -19320, -16861, 31261))) by (nonlinear_arith);
            assert(axes_unitv(m@.axes));
        }
        m
    }

    /// The chain with the third joint eliminated at the given fixed
    /// rotation, and that joint's constant rotation for recombination.
    pub fn get_kin_partial(fixed: &JointRot) -> (res: Option<(KinematicModel, Mat3)>)
        requires
            jr_wf(*fixed),
        ensures
            res is Some <==> reduce_fits(yumi_kmv(), 2, fixed@, m3_idv()),
            res is Some ==> ({
                let red = res.unwrap().0;
                let rout = res.unwrap().1;
                &&& km_wf(red)
                &&& m3_wf(rout)
                &&& red@.axes.len() == 6
                &&& kmv_eqv(red@, reduce_kmv(yumi_kmv(), 2, fixed@))
                &&& m3_eqv(rout@, m3_mulv(rotv(yumi_kmv().axes[2], fixed@), m3_idv()))
            }),
    {
        let kin = Self::get_kin();
        let rin = Mat3::identity();
        kin.forward_kinematics_partial(fixed, 2, &rin)
    }

    pub fn name() -> (r: &'static str)
        ensures
            r@ == "Yumi Fixed Q3"@,
    {
        "Yumi Fixed Q3"
    }
}

/// The six-joint three-parallel-axis test robot.
pub struct ThreeParallelBot;

pub open spec fn three_parallel_axesv() -> Seq<V3v> {
    seq![
        v3f(0, 0, 1, 1),
        v3f(1, 0, 0, 1),
        v3f(1, 0, 0, 1),
        v3f(1, 0, 0, 1),
        v3f(0, 0, 1, 1),
        v3f(1, 0, 0, 1),
    ]
}

pub open spec fn three_parallel_linksv() -> Seq<V3v> {
    seq![
        v3f(0, 0, 1, 1),
        v3f(0, 1, 0, 1),
        v3f(0, 1, 0, 1),
        v3f(0, 1, 0, 1),
        v3f(0, 1, 0, 1),
        v3f(1, 1, 0, 1),
        v3f(1, 0, 0, 1),
    ]
}

impl ThreeParallelBot {
    /// The home-configuration axis and link tables of this robot, exactly.
    pub fn get_kin() -> (m: KinematicModel)
        ensures
            km_wf(m),
            m@.axes == three_parallel_axesv(),
            m@.links == three_parallel_linksv(),
            axes_unitv(m@.axes),
    {
        let mut axes: Vec<Vec3> = Vec::new();
        axes.push(vfrac(0, 0, 1, 1));
        axes.push(vfrac(1, 0, 0, 1));
        axes.push(vfrac(1, 0, 0, 1));
        axes.push(vfrac(1, 0, 0, 1));
        axes.push(vfrac(0, 0, 1, 1));
        axes.push(vfrac(1, 0, 0, 1));
        let mut links: Vec<Vec3> = Vec::new();
        links.push(vfrac(0, 0, 1, 1));
        links.push(vfrac(0, 1, 0, 1));
        links.push(vfrac(0, 1, 0, 1));
        links.push(vfrac(0, 1, 0, 1));
        links.push(vfrac(0, 1, 0, 1));
        links.push(vfrac(1, 1, 0, 1));
        links.push(vfrac(1, 0, 0, 1));
        let m = KinematicModel::new(axes, links);
        proof {
            assert(m@.axes =~= three_parallel_axesv());
            assert(m@.links =~= three_parallel_linksv());
            assert(v3_unitv(v3f(0, 0, 1, 1)) && v3_unitv(v3f(1, 0, 0, 1))) by (nonlinear_arith);
            assert(axes_unitv(m@.axes));
        }
        m
    }

    pub fn name() -> (r: &'static str)
        ensures
            r@ == "Three Parallel Bot"@,
    {
        "Three Parallel Bot"
    }
}

/// The six-joint two-parallel-axis test robot. Its last axis is the exactly
/// unit rational direction nearest the normalized diagonal `(1, 0, 1)/sqrt 2`
/// at the chosen granularity (within about 3e-3 per component), so the
/// joint-axis invariant holds exactly.
pub struct TwoParallelBot;

pub open spec fn two_parallel_axesv() -> Seq<V3v> {
    seq![
        v3f(0, 0, 1, 1),
        v3f(1, 0, 0, 1),
        v3f(1, 0, 0, 1),
        v3f(0, 0, 1, 1),
        v3f(1, 0, 0, 1),
        v3f(120, 0, 119, 169),
    ]
}

pub open spec fn two_parallel_linksv() -> Seq<V3v> {
    seq![
        v3f(0, 0, 1, 1),
        v3f(0, 1, 0, 1),
        v3f(0, 1, 0, 1),
        v3f(0, 1, 0, 1),
        v3f(0, 1, 0, 1),
        v3f(0, 1, 0, 1),
        v3f(0, 0, 1, 1),
    ]
}

impl TwoParallelBot {
    /// The home-configuration axis and link tables of this robot, exactly.
    pub fn get_kin() -> (m: KinematicModel)
        ensures
            km_wf(m),
            m@.axes == two_parallel_axesv(),
            m@.links == two_parallel_linksv(),
            axes_unitv(m@.axes),
    {
        let mut axes: Vec<Vec3> = Vec::new();
        axes.push(vfrac(0, 0, 1, 1));
        axes.push(vfrac(1, 0, 0, 1));
        axes.push(vfrac(1, 0, 0, 1));
        axes.push(vfrac(0, 0, 1, 1));
        axes.push(vfrac(1, 0, 0, 1));
        axes.push(vfrac(120, 0, 119, 169));
        let mut links: Vec<Vec3> = Vec::new();
        links.push(vfrac(0, 0, 1, 1));
        links.push(vfrac(0, 1, 0, 1));
        links.push(vfrac(0, 1, 0, 1));
        links.push(vfrac(0, 1, 0, 1));
        links.push(vfrac(0, 1, 0, 1));
        links.push(vfrac(0, 1, 0, 1));
        links.push(vfrac(0, 0, 1, 1));
        let m = KinematicModel::new(axes, links);
        proof {
            assert(m@.axes =~= two_parallel_axesv());
            assert(m@.links =~= two_parallel_linksv());
            assert(v3_unitv(v3f(0, 0, 1, 1)) && v3_unitv(v3f(1, 0, 0, 1)) && v3_unitv(v3f(120, 0, 119, 169))) by (nonlinear_arith);
            assert(axes_unitv(m@.axes));
        }
        m
    }

    pub fn name() -> (r: &'static str)
        ensures
            r@ == "Two Parallel Bot"@,
    {
        "Two Parallel Bot"
    }
}

/// The six-joint spherical-wrist test robot.
pub struct SphericalBot;

pub open spec fn spherical_axesv() -> Seq<V3v> {
    seq![
        v3f(0, 1, 0, 1),
        v3f(0, 0, 1, 1),
        v3f(0, 1, 0, 1),
        v3f(1, 0, 0, 1),
        v3f(0, 1, 0, 1),
        v3f(1, 0, 0, 1),
    ]
}

pub open spec fn spherical_linksv() -> Seq<V3v> {
    seq![
        v3f(0, 0, 0, 1),
        v3f(1, 0, 1, 1),
        v3f(1, 0, 1, 1),
        v3f(1, 0, 1, 1),
        v3f(0, 0, 0, 1),
        v3f(0, 0, 0, 1),
        v3f(1, 0, 0, 1),
    ]
}

impl SphericalBot {
    /// The home-configuration axis and link tables of this robot, exactly.
    pub fn get_kin() -> (m: KinematicModel)
        ensures
            km_wf(m),
            m@.axes == spherical_axesv(),
            m@.links == spherical_linksv(),
            axes_unitv(m@.axes),
    {
        let mut axes: Vec<Vec3> = Vec::new();
        axes.push(vfrac(0, 1, 0, 1));
        axes.push(vfrac(0, 0, 1, 1));
        axes.push(vfrac(0, 1, 0, 1));
        axes.push(vfrac(1, 0, 0, 1));
        axes.push(vfrac(0, 1, 0, 1));
        axes.push(vfrac(1, 0, 0, 1));
        let mut links: Vec<Vec3> = Vec::new();
        links.push(vfrac(0, 0, 0, 1));
        links.push(vfrac(1, 0, 1, 1));
        links.push(vfrac(1, 0, 1, 1));
        links.push(vfrac(1, 0, 1, 1));
        links.push(vfrac(0, 0, 0, 1));
        links.push(vfrac(0, 0, 0, 1));
        links.push(vfrac(1, 0, 0, 1));
        let m = KinematicModel::new(axes, links);
        proof {
            assert(m@.axes =~= spherical_axesv());
            assert(m@.links =~= spherical_linksv());
            assert(v3_unitv(v3f(0, 1, 0, 1)) && v3_unitv(v3f(0, 0, 1, 1)) && v3_unitv(v3f(1, 0, 0, 1))) by (nonlinear_arith);
            assert(axes_unitv(m@.axes));
        }
        m
    }

    pub fn name() -> (r: &'static str)
        ensures
            r@ == "Spherical Bot"@,
    {
        "Spherical Bot"
    }
}

// ---------------------------------------------------------------------------
// The registry.
// ---------------------------------------------------------------------------

/// The registered robot variants.
#[derive(Clone, Copy, Debug, PartialEq, Eq, Structural)]
pub enum RobotKind {
    Irb6640,
    KukaR800FixedQ3,
    RrcFixedQ6,
    YumiFixedQ3,
    Ur5,
    ThreeParallelBot,
    TwoParallelBot,
    SphericalBot,
}

pub open spec fn kmv_of(kind: RobotKind) -> KmV {
    match kind {
        RobotKind::Irb6640 => KmV { axes: irb6640_axesv(), links: irb6640_linksv() },
        RobotKind::KukaR800FixedQ3 => kuka_kmv(),
        RobotKind::RrcFixedQ6 => rrc_kmv(),
        RobotKind::YumiFixedQ3 => yumi_kmv(),
        RobotKind::Ur5 => KmV { axes: ur5_axesv(), links: ur5_linksv() },
        RobotKind::ThreeParallelBot => KmV {
            axes: three_parallel_axesv(),
            links: three_parallel_linksv(),
        },
        RobotKind::TwoParallelBot => KmV {
            axes: two_parallel_axesv(),
            links: two_parallel_linksv(),
        },
        RobotKind::SphericalBot => KmV { axes: spherical_axesv(), links: spherical_linksv() },
    }
}

/// Index of the joint a variant holds mechanically fixed, if any.
pub open spec fn fixed_joint_spec(kind: RobotKind) -> Option<usize> {
    match kind {
        RobotKind::KukaR800FixedQ3 => Some(2usize),
        RobotKind::RrcFixedQ6 => Some(5usize),
        RobotKind::YumiFixedQ3 => Some(2usize),
        _ => None,
    }
}

/// A fresh model for a registered variant.
pub fn model_of(kind: RobotKind) -> (m: KinematicModel)
    ensures
        km_wf(m),
        m@ == kmv_of(kind),
{
    let m = match kind {
        RobotKind::Irb6640 => Irb6640::get_kin(),
        RobotKind::KukaR800FixedQ3 => KukaR800FixedQ3::get_kin(),
        RobotKind::RrcFixedQ6 => RrcFixedQ6::get_kin(),
        RobotKind::YumiFixedQ3 => YumiFixedQ3::get_kin(),
        RobotKind::Ur5 => Ur5::get_kin(),
        RobotKind::ThreeParallelBot => ThreeParallelBot::get_kin(),
        RobotKind::TwoParallelBot => TwoParallelBot::get_kin(),
        RobotKind::SphericalBot => SphericalBot::get_kin(),
    };
    m
}

/// Index of the joint a variant holds mechanically fixed, if any.
pub fn fixed_joint_of(kind: RobotKind) -> (r: Option<usize>)
    ensures
        r == fixed_joint_spec(kind),
{
    match kind {
        RobotKind::KukaR800FixedQ3 => Some(2),
        RobotKind::RrcFixedQ6 => Some(5),
        RobotKind::YumiFixedQ3 => Some(2),
        _ => None,
    }
}

/// The stable display name of a registered variant.
pub fn name_of(kind: RobotKind) -> (r: &'static str)
    ensures
        kind == RobotKind::Irb6640 ==> r@ == "IRB 6640"@,
        kind == RobotKind::KukaR800FixedQ3 ==> r@ == "KUKA R800 Fixed Q3"@,
        kind == RobotKind::RrcFixedQ6 ==> r@ == "RRC Fixed Q6"@,
        kind == RobotKind::YumiFixedQ3 ==> r@ == "Yumi Fixed Q3"@,
        kind == RobotKind::Ur5 ==> r@ == "UR5"@,
        kind == RobotKind::ThreeParallelBot ==> r@ == "Three Parallel Bot"@,
        kind == RobotKind::TwoParallelBot ==> r@ == "Two Parallel Bot"@,
        kind == RobotKind::SphericalBot ==> r@ == "Spherical Bot"@,
{
    match kind {
        RobotKind::Irb6640 => Irb6640::name(),
        RobotKind::KukaR800FixedQ3 => KukaR800FixedQ3::name(),
        RobotKind::RrcFixedQ6 => RrcFixedQ6::name(),
        RobotKind::YumiFixedQ3 => YumiFixedQ3::name(),
        RobotKind::Ur5 => Ur5::name(),
        RobotKind::ThreeParallelBot => ThreeParallelBot::name(),
        RobotKind::TwoParallelBot => TwoParallelBot::name(),
        RobotKind::SphericalBot => SphericalBot::name(),
    }
}

} // verus!
