use ik_chain::linalg::{rot, JointRot, Mat3, Vec3};
use ik_chain::rat::Rat;
use ik_chain::robots::{
    Irb6640, KukaR800FixedQ3, RrcFixedQ6, SphericalBot, ThreeParallelBot, TwoParallelBot, Ur5,
    YumiFixedQ3,
};
use ik_chain::KinError;

fn rt(n: i128, d: i128) -> Rat {
    Rat::new(n, d).unwrap()
}

fn jr(cn: i128, sn: i128, d: i128) -> JointRot {
    JointRot::new(rt(cn, d), rt(sn, d))
}

#[test]
fn ur5_zero_configuration() {
    let m = Ur5::get_kin();
    assert_eq!(m.dof(), 6);
    let q = vec![JointRot::identity(); 6];
    let p = m.forward_kinematics(&q).unwrap();
    assert!(p.r.eqv(&Mat3::identity()));
    let expected = Vec3::new(rt(8172, 10000), rt(1914, 10000), rt(-5441, 1000000));
    assert!(p.t.eqv(&expected));
}

#[test]
fn forward_kinematics_deterministic() {
    let m = Ur5::get_kin();
    let q = vec![
        jr(3, 4, 5),
        jr(5, 12, 13),
        JointRot::identity(),
        jr(8, 15, 17),
        jr(-3, 4, 5),
        jr(0, 1, 1),
    ];
    let p1 = m.forward_kinematics(&q).unwrap();
    let p2 = m.forward_kinematics(&q).unwrap();
    assert!(p1.r.eqv(&p2.r));
    assert!(p1.t.eqv(&p2.t));
}

#[test]
fn rodrigues_about_z() {
    // one joint about z, tool link along x: the tool lands at (cos, sin, 0)
    let axes = vec![Vec3::frac(0, 0, 1, 1).unwrap()];
    let links = vec![Vec3::zero(), Vec3::frac(1, 0, 0, 1).unwrap()];
    let m = ik_chain::model::KinematicModel::new(axes, links);
    let p = m.forward_kinematics(&vec![jr(3, 4, 5)]).unwrap();
    let expected = Vec3::new(rt(3, 5), rt(4, 5), rt(0, 1));
    assert!(p.t.eqv(&expected));
    // the rotation matrix columns are (c, s, 0), (-s, c, 0), (0, 0, 1)
    let rm = rot(&Vec3::frac(0, 0, 1, 1).unwrap(), &jr(3, 4, 5)).unwrap();
    assert!(p.r.eqv(&rm));
    assert!(rm.e00.eqv(&rt(3, 5)));
    assert!(rm.e01.eqv(&rt(-4, 5)));
    assert!(rm.e10.eqv(&rt(4, 5)));
    assert!(rm.e11.eqv(&rt(3, 5)));
    assert!(rm.e22.eqv(&rt(1, 1)));
}

#[test]
fn elimination_equivalence_exact() {
    // three unit joints; eliminate the middle one at a fixed unit rotation
    let axes = vec![
        Vec3::frac(0, 0, 1, 1).unwrap(),
        Vec3::frac(0, 1, 0, 1).unwrap(),
        Vec3::frac(1, 0, 0, 1).unwrap(),
    ];
    let links = vec![
        Vec3::frac(0, 0, 1, 1).unwrap(),
        Vec3::frac(1, 2, 0, 1).unwrap(),
        Vec3::frac(0, 3, -1, 1).unwrap(),
        Vec3::frac(2, 0, 5, 1).unwrap(),
    ];
    let m = ik_chain::model::KinematicModel::new(axes, links);
    let fixed = jr(3, 4, 5);
    let (red, rout) = m
        .forward_kinematics_partial(&fixed, 1, &Mat3::identity())
        .unwrap();
    assert_eq!(red.dof(), 2);
    let remaining = vec![jr(5, 12, 13), jr(8, 15, 17)];
    let full = vec![remaining[0], fixed, remaining[1]];
    let pf = m.forward_kinematics(&full).unwrap();
    let pr = red.forward_kinematics(&remaining).unwrap();
    let recombined = pr.r.mul(&rout).unwrap();
    assert!(pf.r.eqv(&recombined));
    assert!(pf.t.eqv(&pr.t));
}

#[test]
fn repair_preserves_forward_kinematics() {
    // the middle link lies in the span of the two neighbouring unit axes
    let axes = vec![
        Vec3::frac(1, 0, 0, 1).unwrap(),
        Vec3::frac(0, 1, 0, 1).unwrap(),
        Vec3::frac(0, 0, 1, 1).unwrap(),
    ];
    let links = vec![
        Vec3::frac(0, 0, 1, 1).unwrap(),
        Vec3::frac(2, 3, 0, 1).unwrap(),
        Vec3::frac(0, 1, 4, 1).unwrap(),
        Vec3::frac(1, 1, 1, 1).unwrap(),
    ];
    let m = ik_chain::model::KinematicModel::new(axes, links);
    let repaired = m.repair_offset_links(0).unwrap();
    // the middle link became exactly zero
    assert!(repaired.links[1].eqv(&Vec3::zero()));
    // the physical transform did not change
    let configs = vec![
        vec![jr(3, 4, 5), jr(5, 12, 13), jr(8, 15, 17)],
        vec![JointRot::identity(), jr(0, 1, 1), jr(-3, 4, 5)],
        vec![jr(0, -1, 1), jr(1, 0, 1), jr(12, 5, 13)],
    ];
    for q in configs {
        let before = m.forward_kinematics(&q).unwrap();
        let after = repaired.forward_kinematics(&q).unwrap();
        assert!(before.r.eqv(&after.r));
        assert!(before.t.eqv(&after.t));
    }
}

#[test]
fn repair_rejects_parallel_axes() {
    let axes = vec![
        Vec3::frac(1, 0, 0, 1).unwrap(),
        Vec3::frac(2, 0, 0, 1).unwrap(),
        Vec3::frac(0, 0, 1, 1).unwrap(),
    ];
    let links = vec![
        Vec3::zero(),
        Vec3::frac(2, 3, 0, 1).unwrap(),
        Vec3::frac(0, 1, 4, 1).unwrap(),
        Vec3::frac(1, 1, 1, 1).unwrap(),
    ];
    let m = ik_chain::model::KinematicModel::new(axes, links);
    assert_eq!(m.repair_offset_links(0).unwrap_err(), KinError::NumericalDegeneracy);
}

#[test]
fn rrc_partial_equivalence_exact() {
    // eliminating the sixth joint and repairing the degenerate offsets must
    // leave the forward kinematics of the full chain reproducible
    let fixed = jr(3, 4, 5);
    let (red, rout) = RrcFixedQ6::get_kin_partial(&fixed).unwrap();
    assert_eq!(red.dof(), 6);
    let remaining = vec![
        jr(5, 12, 13),
        jr(8, 15, 17),
        jr(0, 1, 1),
        jr(-3, 4, 5),
        jr(1, 0, 1),
        jr(12, -5, 13),
    ];
    let mut full = remaining.clone();
    full.insert(5, fixed);
    let m = RrcFixedQ6::get_kin();
    let pf = m.forward_kinematics(&full).unwrap();
    let pr = red.forward_kinematics(&remaining).unwrap();
    let recombined = pr.r.mul(&rout).unwrap();
    assert!(pf.r.eqv(&recombined));
    assert!(pf.t.eqv(&pr.t));
}

#[test]
fn kuka_and_yumi_partials() {
    let fixed = jr(3, 4, 5);
    let (redk, _routk) = KukaR800FixedQ3::get_kin_partial(&fixed).unwrap();
    assert_eq!(redk.dof(), 6);
    let (redy, _routy) = YumiFixedQ3::get_kin_partial(&fixed).unwrap();
    assert_eq!(redy.dof(), 6);
}

#[test]
fn robot_tables_have_expected_shape() {
    assert_eq!(Irb6640::get_kin().dof(), 6);
    assert_eq!(KukaR800FixedQ3::get_kin().dof(), 7);
    assert_eq!(RrcFixedQ6::get_kin().dof(), 7);
    assert_eq!(YumiFixedQ3::get_kin().dof(), 7);
    assert_eq!(Ur5::get_kin().dof(), 6);
    assert_eq!(ThreeParallelBot::get_kin().dof(), 6);
    assert_eq!(TwoParallelBot::get_kin().dof(), 6);
    assert_eq!(SphericalBot::get_kin().dof(), 6);
    let m = YumiFixedQ3::get_kin();
    assert_eq!(m.links.len(), 8);
    assert!(m.axes[0].x.eqv(&rt(792, 977)));
    assert!(m.links[0].z.eqv(&rt(4149, 10000)));
    // every axis of every table is exactly unit
    for kin in [
        Irb6640::get_kin(),
        KukaR800FixedQ3::get_kin(),
        RrcFixedQ6::get_kin(),
        YumiFixedQ3::get_kin(),
        Ur5::get_kin(),
        ThreeParallelBot::get_kin(),
        TwoParallelBot::get_kin(),
        SphericalBot::get_kin(),
    ] {
        for a in &kin.axes {
            assert!(a.dot(a).unwrap().eqv(&rt(1, 1)));
        }
    }
}
