use ik_chain::harness::{insert_fixed, pose_err_sq, score_trial, Candidate};
use ik_chain::linalg::{JointRot, Vec3};
use ik_chain::rat::Rat;
use ik_chain::robots::{fixed_joint_of, model_of, name_of, RobotKind, Ur5};

fn rt(n: i128, d: i128) -> Rat {
    Rat::new(n, d).unwrap()
}

fn jr(cn: i128, sn: i128, d: i128) -> JointRot {
    JointRot::new(rt(cn, d), rt(sn, d))
}

#[test]
fn empty_candidate_list_yields_sentinel() {
    let m = Ur5::get_kin();
    let q = vec![JointRot::identity(); 6];
    let target = m.forward_kinematics(&q).unwrap();
    let tr = score_trial(&m, &target, &Vec::new(), &None).unwrap();
    assert!(tr.min_err_sq.is_none());
    assert_eq!(tr.solution_count, 0);
    assert_eq!(tr.ls_count, 0);
}

#[test]
fn perfect_candidate_scores_zero() {
    let m = Ur5::get_kin();
    let q = vec![
        jr(3, 4, 5),
        jr(5, 12, 13),
        JointRot::identity(),
        jr(8, 15, 17),
        jr(-3, 4, 5),
        jr(0, 1, 1),
    ];
    let target = m.forward_kinematics(&q).unwrap();
    let cands = vec![
        Candidate { q: vec![JointRot::identity(); 6], is_ls: true },
        Candidate { q: q.clone(), is_ls: false },
    ];
    let tr = score_trial(&m, &target, &cands, &None).unwrap();
    assert_eq!(tr.solution_count, 2);
    assert_eq!(tr.ls_count, 1);
    assert!(tr.min_err_sq.unwrap().is_zero());
}

#[test]
fn imperfect_candidate_scores_positive() {
    let m = Ur5::get_kin();
    let q = vec![JointRot::identity(); 6];
    let target = m.forward_kinematics(&q).unwrap();
    let wrong = vec![
        jr(3, 4, 5),
        JointRot::identity(),
        JointRot::identity(),
        JointRot::identity(),
        JointRot::identity(),
        JointRot::identity(),
    ];
    let cands = vec![Candidate { q: wrong, is_ls: false }];
    let tr = score_trial(&m, &target, &cands, &None).unwrap();
    assert!(!tr.min_err_sq.unwrap().is_zero());
}

#[test]
fn fixed_joint_is_reinserted_for_scoring() {
    // a three-joint chain whose middle joint the variant keeps fixed
    let axes = vec![
        Vec3::frac(0, 0, 1, 1).unwrap(),
        Vec3::frac(0, 1, 0, 1).unwrap(),
        Vec3::frac(1, 0, 0, 1).unwrap(),
    ];
    let links = vec![
        Vec3::frac(0, 0, 1, 1).unwrap(),
        Vec3::frac(1, 2, 0, 1).unwrap(),
        Vec3::frac(0, 3, -1, 1).unwrap(),
        Vec3::frac(2, 0, 5, 1).unwrap(),
    ];
    let m = ik_chain::model::KinematicModel::new(axes, links);
    let fixed = jr(3, 4, 5);
    let full = vec![jr(5, 12, 13), fixed, jr(8, 15, 17)];
    let target = m.forward_kinematics(&full).unwrap();
    let cands = vec![Candidate { q: vec![jr(5, 12, 13), jr(8, 15, 17)], is_ls: false }];
    let tr = score_trial(&m, &target, &cands, &Some((1, fixed))).unwrap();
    assert!(tr.min_err_sq.unwrap().is_zero());
}

#[test]
fn insert_fixed_places_the_joint() {
    let q = vec![jr(1, 0, 1), jr(0, 1, 1)];
    let out = insert_fixed(&q, 1, jr(3, 4, 5));
    assert_eq!(out.len(), 3);
    assert!(out[0].c.eqv(&rt(1, 1)));
    assert!(out[1].c.eqv(&rt(3, 5)));
    assert!(out[1].s.eqv(&rt(4, 5)));
    assert!(out[2].s.eqv(&rt(1, 1)));
}

#[test]
fn pose_error_is_zero_only_at_equality() {
    let m = Ur5::get_kin();
    let q1 = vec![JointRot::identity(); 6];
    let q2 = vec![
        jr(3, 4, 5),
        JointRot::identity(),
        JointRot::identity(),
        JointRot::identity(),
        JointRot::identity(),
        JointRot::identity(),
    ];
    let p1 = m.forward_kinematics(&q1).unwrap();
    let p2 = m.forward_kinematics(&q2).unwrap();
    assert!(pose_err_sq(&p1, &p1).unwrap().is_zero());
    assert!(!pose_err_sq(&p1, &p2).unwrap().is_zero());
}

#[test]
fn registry_exposes_every_variant() {
    let kinds = [
        RobotKind::Irb6640,
        RobotKind::KukaR800FixedQ3,
        RobotKind::RrcFixedQ6,
        RobotKind::YumiFixedQ3,
        RobotKind::Ur5,
        RobotKind::ThreeParallelBot,
        RobotKind::TwoParallelBot,
        RobotKind::SphericalBot,
    ];
    for kind in kinds {
        let m = model_of(kind);
        assert_eq!(m.links.len(), m.axes.len() + 1);
        assert!(!name_of(kind).is_empty());
    }
    assert_eq!(fixed_joint_of(RobotKind::KukaR800FixedQ3), Some(2));
    assert_eq!(fixed_joint_of(RobotKind::RrcFixedQ6), Some(5));
    assert_eq!(fixed_joint_of(RobotKind::YumiFixedQ3), Some(2));
    assert_eq!(fixed_joint_of(RobotKind::Ur5), None);
    assert_eq!(name_of(RobotKind::Ur5), "UR5");
    assert_eq!(name_of(RobotKind::YumiFixedQ3), "Yumi Fixed Q3");
}
