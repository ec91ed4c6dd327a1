use vstd::prelude::*;

use crate::linalg::{jr_wf, JointRot};
use crate::model::{
    fk_posev, jq_wf, jrs_v, km_wf, km_wfv, pose_eqv, pose_wf, pose_wfv, rot_prefix_wf,
    trans_prefix_wf, KinematicModel, Pose, PoseV,
};
use crate::rat::{
    qadd, qeq, qeq_add_congr, qeq_mul_congr, qeq_trans, qle, qle_congr, qle_trans, qmul, qsub,
    qwf, qwf_add, qwf_mul, qwf_sub, rat_wf, Qv, Rat,
};
use crate::{req, KinError};

verus! {

/// One candidate solution handed back by an analytic solver: a joint
/// configuration, and whether the solver substituted a least-squares-nearest
/// root for some subproblem.
pub struct Candidate {
    pub q: Vec<JointRot>,
    pub is_ls: bool,
}

/// What one randomized trial records: the best squared reconstruction error
/// over the candidates (`None` is the explicit no-solution sentinel), and the
/// candidate counts kept as solver-quality statistics.
pub struct TrialResult {
    pub min_err_sq: Option<Rat>,
    pub solution_count: usize,
    pub ls_count: usize,
}

/// Number of least-squares candidates among the first `k`.
pub open spec fn count_ls(s: Seq<Candidate>, k: int) -> int
    decreases k,
{
    if k <= 0 {
        0
    } else {
        count_ls(s, k - 1) + if s[k - 1].is_ls {
            1int
        } else {
            0int
        }
    }
}

/// Squared distance between two scalars.
pub open spec fn sq_diffv(a: Qv, b: Qv) -> Qv {
    qmul(qsub(a, b), qsub(a, b))
}

/// Squared Frobenius distance of the rotations plus squared Euclidean
/// distance of the translations. This exact squared metric is zero precisely
/// when the two poses coincide, and it orders candidates of a trial.
pub open spec fn pose_err_sqv(a: PoseV, b: PoseV) -> Qv {
    let r = qadd(
        qadd(
            qadd(
                qadd(
                    qadd(
                        qadd(
                            qadd(
                                qadd(sq_diffv(a.r.e00, b.r.e00), sq_diffv(a.r.e01, b.r.e01)),
                                sq_diffv(a.r.e02, b.r.e02),
                            ),
                            sq_diffv(a.r.e10, b.r.e10),
                        ),
                        sq_diffv(a.r.e11, b.r.e11),
                    ),
                    sq_diffv(a.r.e12, b.r.e12),
                ),
                sq_diffv(a.r.e20, b.r.e20),
            ),
            sq_diffv(a.r.e21, b.r.e21),
        ),
        sq_diffv(a.r.e22, b.r.e22),
    );
    qadd(qadd(qadd(r, sq_diffv(a.t.x, b.t.x)), sq_diffv(a.t.y, b.t.y)), sq_diffv(a.t.z, b.t.z))
}

pub proof fn sq_diffv_wf(a: Qv, b: Qv)
    requires
        qwf(a),
        qwf(b),
    ensures
        qwf(sq_diffv(a, b)),
{
    qwf_sub(a, b);
    qwf_mul(qsub(a, b), qsub(a, b));
}

pub proof fn pose_err_sqv_wf(a: PoseV, b: PoseV)
    requires
        pose_wfv(a),
        pose_wfv(b),
    ensures
        qwf(pose_err_sqv(a, b)),
{
    sq_diffv_wf(a.r.e00, b.r.e00);
    sq_diffv_wf(a.r.e01, b.r.e01);
    sq_diffv_wf(a.r.e02, b.r.e02);
    sq_diffv_wf(a.r.e10, b.r.e10);
    sq_diffv_wf(a.r.e11, b.r.e11);
    sq_diffv_wf(a.r.e12, b.r.e12);
    sq_diffv_wf(a.r.e20, b.r.e20);
    sq_diffv_wf(a.r.e21, b.r.e21);
    sq_diffv_wf(a.r.e22, b.r.e22);
    sq_diffv_wf(a.t.x, b.t.x);
    sq_diffv_wf(a.t.y, b.t.y);
    sq_diffv_wf(a.t.z, b.t.z);
    let s01 = qadd(sq_diffv(a.r.e00, b.r.e00), sq_diffv(a.r.e01, b.r.e01));
    qwf_add(sq_diffv(a.r.e00, b.r.e00), sq_diffv(a.r.e01, b.r.e01));
    let s02 = qadd(s01, sq_diffv(a.r.e02, b.r.e02));
    qwf_add(s01, sq_diffv(a.r.e02, b.r.e02));
    let s10 = qadd(s02, sq_diffv(a.r.e10, b.r.e10));
    qwf_add(s02, sq_diffv(a.r.e10, b.r.e10));
    let s11 = qadd(s10, sq_diffv(a.r.e11, b.r.e11));
    qwf_add(s10, sq_diffv(a.r.e11, b.r.e11));
    let s12 = qadd(s11, sq_diffv(a.r.e12, b.r.e12));
    qwf_add(s11, sq_diffv(a.r.e12, b.r.e12));
    let s20 = qadd(s12, sq_diffv(a.r.e20, b.r.e20));
    qwf_add(s12, sq_diffv(a.r.e20, b.r.e20));
    let s21 = qadd(s20, sq_diffv(a.r.e21, b.r.e21));
    qwf_add(s20, sq_diffv(a.r.e21, b.r.e21));
    let s22 = qadd(s21, sq_diffv(a.r.e22, b.r.e22));
    qwf_add(s21, sq_diffv(a.r.e22, b.r.e22));
    let tx = qadd(s22, sq_diffv(a.t.x, b.t.x));
    qwf_add(s22, sq_diffv(a.t.x, b.t.x));
    let ty = qadd(tx, sq_diffv(a.t.y, b.t.y));
    qwf_add(tx, sq_diffv(a.t.y, b.t.y));
    qwf_add(ty, sq_diffv(a.t.z, b.t.z));
}

/// Squared distance of two scalars, exactly.
fn sq_diff(a: &Rat, b: &Rat) -> (r: Option<Rat>)
    requires
        rat_wf(*a),
        rat_wf(*b),
    ensures
        r is Some ==> rat_wf(r.unwrap()) && qeq(r.unwrap()@, sq_diffv(a@, b@)),
{
    let d = a.sub(b)?;
    let m = d.mul(&d)?;
    proof {
        qeq_mul_congr(d@, d@, qsub(a@, b@), qsub(a@, b@));
        qwf_mul(d@, d@);
        qeq_trans(m@, qmul(d@, d@), sq_diffv(a@, b@));
    }
    Some(m)
}

/// Running sum step: adds a squared-difference term to the accumulator.
fn acc_sq(acc: Rat, a: &Rat, b: &Rat, Ghost(sofar): Ghost<Qv>) -> (r: Option<Rat>)
    requires
        rat_wf(acc),
        rat_wf(*a),
        rat_wf(*b),
        qeq(acc@, sofar),
    ensures
        r is Some ==> rat_wf(r.unwrap()) && qeq(r.unwrap()@, qadd(sofar, sq_diffv(a@, b@))),
{
    let t = sq_diff(a, b)?;
    let s = acc.add(&t)?;
    proof {
        qeq_add_congr(acc@, t@, sofar, sq_diffv(a@, b@));
        qwf_add(acc@, t@);
        qeq_trans(s@, qadd(acc@, t@), qadd(sofar, sq_diffv(a@, b@)));
    }
    Some(s)
}

/// The exact squared error between two poses: squared Frobenius distance of
/// the rotations plus squared Euclidean distance of the translations.
pub fn pose_err_sq(a: &Pose, b: &Pose) -> (r: Option<Rat>)
    requires
        pose_wf(*a),
        pose_wf(*b),
    ensures
        r is Some ==> rat_wf(r.unwrap()) && qeq(r.unwrap()@, pose_err_sqv(a@, b@)),
{
    let s0 = sq_diff(&a.r.e00, &b.r.e00)?;
    let s1 = acc_sq(s0, &a.r.e01, &b.r.e01, Ghost(sq_diffv(a@.r.e00, b@.r.e00)))?;
    let ghost g1 = qadd(sq_diffv(a@.r.e00, b@.r.e00), sq_diffv(a@.r.e01, b@.r.e01));
    let s2 = acc_sq(s1, &a.r.e02, &b.r.e02, Ghost(g1))?;
    let ghost g2 = qadd(g1, sq_diffv(a@.r.e02, b@.r.e02));
    let s3 = acc_sq(s2, &a.r.e10, &b.r.e10, Ghost(g2))?;
    let ghost g3 = qadd(g2, sq_diffv(a@.r.e10, b@.r.e10));
    let s4 = acc_sq(s3, &a.r.e11, &b.r.e11, Ghost(g3))?;
    let ghost g4 = qadd(g3, sq_diffv(a@.r.e11, b@.r.e11));
    let s5 = acc_sq(s4, &a.r.e12, &b.r.e12, Ghost(g4))?;
    let ghost g5 = qadd(g4, sq_diffv(a@.r.e12, b@.r.e12));
    let s6 = acc_sq(s5, &a.r.e20, &b.r.e20, Ghost(g5))?;
    let ghost g6 = qadd(g5, sq_diffv(a@.r.e20, b@.r.e20));
    let s7 = acc_sq(s6, &a.r.e21, &b.r.e21, Ghost(g6))?;
    let ghost g7 = qadd(g6, sq_diffv(a@.r.e21, b@.r.e21));
    let s8 = acc_sq(s7, &a.r.e22, &b.r.e22, Ghost(g7))?;
    let ghost g8 = qadd(g7, sq_diffv(a@.r.e22, b@.r.e22));
    let s9 = acc_sq(s8, &a.t.x, &b.t.x, Ghost(g8))?;
    let ghost g9 = qadd(g8, sq_diffv(a@.t.x, b@.t.x));
    let s10 = acc_sq(s9, &a.t.y, &b.t.y, Ghost(g9))?;
    let ghost g10 = qadd(g9, sq_diffv(a@.t.y, b@.t.y));
    let s11 = acc_sq(s10, &a.t.z, &b.t.z, Ghost(g10))?;
    proof {
        assert(qeq(s11@, pose_err_sqv(a@, b@)));
    }
    Some(s11)
}

/// The configuration with `jr` reinserted at index `i` (a joint the robot
/// variant holds mechanically fixed).
pub fn insert_fixed(q: &Vec<JointRot>, i: usize, jr: JointRot) -> (r: Vec<JointRot>)
    requires
        i <= q@.len(),
    ensures
        r@ == q@.insert(i as int, jr),
{
    let mut out: Vec<JointRot> = Vec::new();
    let mut t: usize = 0;
    while t < i
        invariant
            i <= q@.len(),
            0 <= t <= i,
            out@ =~= q@.subrange(0, t as int),
        decreases i - t,
    {
        out.push(q[t]);
        proof {
            assert(out@ =~= q@.subrange(0, t as int + 1));
        }
        t = t + 1;
    }
    out.push(jr);
    let mut u: usize = i;
    while u < q.len()
        invariant
            i <= q@.len(),
            i <= u <= q@.len(),
            out@ =~= q@.subrange(0, i as int).push(jr).add(q@.subrange(i as int, u as int)),
        decreases q@.len() - u,
    {
        out.push(q[u]);
        proof {
            assert(out@ =~= q@.subrange(0, i as int).push(jr).add(
                q@.subrange(i as int, u as int + 1),
            ));
        }
        u = u + 1;
    }
    proof {
        assert(out@ =~= q@.insert(i as int, jr));
    }
    out
}

/// The full configuration a candidate stands for, with the fixed joint (if
/// any) reinserted at its index.
pub open spec fn full_qv(q: Seq<JointRot>, fixed: Option<(usize, JointRot)>) -> Seq<JointRot> {
    match fixed {
        Some((i, jr)) => q.insert(i as int, jr),
        None => q,
    }
}

/// The exact squared reconstruction error of one full configuration against
/// the target pose.
pub open spec fn cand_err_sqv(m: crate::model::KmV, target: PoseV, fullq: Seq<JointRot>) -> Qv {
    pose_err_sqv(fk_posev(m, jrs_v(fullq)), target)
}

/// Scores the candidates a solver returned for `target`: reinserts the fixed
/// joint into each candidate, re-evaluates the forward kinematics, and takes
/// the least squared error. An empty candidate list is not a fault: the
/// result then carries the explicit no-solution sentinel.
#[verifier::rlimit(100)]
pub fn score_trial(
    model: &KinematicModel,
    target: &Pose,
    candidates: &Vec<Candidate>,
    fixed: &Option<(usize, JointRot)>,
) -> (res: Result<TrialResult, KinError>)
    requires
        km_wf(*model),
        pose_wf(*target),
        fixed is Some ==> fixed.unwrap().0 + 1 <= model.axes@.len() && jr_wf(fixed.unwrap().1),
        forall|i: int|
            0 <= i < candidates@.len() ==> (#[trigger] candidates@[i].q)@.len() + (
            if fixed is Some {
                1int
            } else {
                0int
            }) == model.axes@.len(),
        forall|i: int| 0 <= i < candidates@.len() ==> jq_wf(#[trigger] candidates@[i].q@),
    ensures
        candidates@.len() == 0 ==> res is Ok,
        res is Ok ==> ({
            let tr = res.unwrap();
            &&& (tr.min_err_sq is None <==> candidates@.len() == 0)
            &&& tr.solution_count == candidates@.len()
            &&& tr.ls_count == count_ls(candidates@, candidates@.len() as int)
            &&& (tr.min_err_sq is Some ==> rat_wf(tr.min_err_sq.unwrap()) && (exists|i: int|
                0 <= i < candidates@.len() && qeq(
                    tr.min_err_sq.unwrap()@,
                    cand_err_sqv(model@, target@, full_qv(#[trigger] candidates@[i].q@, *fixed)),
                )) && (forall|i: int|
                0 <= i < candidates@.len() ==> qle(
                    tr.min_err_sq.unwrap()@,
                    cand_err_sqv(model@, target@, full_qv(#[trigger] candidates@[i].q@, *fixed)),
                )))
        }),
        res is Err ==> res == Result::<TrialResult, KinError>::Err(KinError::RangeExhausted),
{
    let n = candidates.len();
    let mut best: Option<Rat> = None;
    let mut ls: usize = 0;
    let mut i: usize = 0;
    while i < n
        invariant
            km_wf(*model),
            pose_wf(*target),
            fixed is Some ==> fixed.unwrap().0 + 1 <= model.axes@.len() && jr_wf(fixed.unwrap().1),
            forall|t: int|
                0 <= t < candidates@.len() ==> (#[trigger] candidates@[t].q)@.len() + (
                if fixed is Some {
                    1int
                } else {
                    0int
                }) == model.axes@.len(),
            forall|t: int| 0 <= t < candidates@.len() ==> jq_wf(#[trigger] candidates@[t].q@),
            n == candidates@.len(),
            0 <= i <= n,
            ls <= i,
            ls == count_ls(candidates@, i as int),
            best is None <==> i == 0,
            best is Some ==> rat_wf(best.unwrap()) && (exists|t: int|
                0 <= t < i && qeq(
                    best.unwrap()@,
                    cand_err_sqv(model@, target@, full_qv(#[trigger] candidates@[t].q@, *fixed)),
                )) && (forall|t: int|
                0 <= t < i ==> qle(
                    best.unwrap()@,
                    cand_err_sqv(model@, target@, full_qv(#[trigger] candidates@[t].q@, *fixed)),
                )),
        decreases n - i,
    {
        let cand = &candidates[i];
        let fullq: Vec<JointRot> = match fixed {
            Some((fi, fjr)) => insert_fixed(&cand.q, *fi, *fjr),
            None => {
                let mut c: Vec<JointRot> = Vec::new();
                let mut t: usize = 0;
                while t < cand.q.len()
                    invariant
                        0 <= t <= cand.q@.len(),
                        c@ =~= cand.q@.subrange(0, t as int),
                    decreases cand.q@.len() - t,
                {
                    c.push(cand.q[t]);
                    proof {
                        assert(c@ =~= cand.q@.subrange(0, t as int + 1));
                    }
                    t = t + 1;
                }
                proof {
                    assert(c@ =~= cand.q@);
                }
                c
            },
        };
        proof {
            assert(fullq@ == full_qv(candidates@[i as int].q@, *fixed));
            if fixed is Some {
                let fi = fixed.unwrap().0 as int;
                let q0 = candidates@[i as int].q@;
                assert forall|t: int| 0 <= t < fullq@.len() implies jr_wf(#[trigger] fullq@[t]) by {
                    if t < fi {
                        assert(fullq@[t] == q0[t]);
                    } else if t == fi {
                        assert(fullq@[t] == fixed.unwrap().1);
                    } else {
                        assert(fullq@[t] == q0[t - 1]);
                    }
                }
            }
        }
        let fkp = req(model.forward_kinematics(&fullq))?;
        let e = req(pose_err_sq(&fkp, target))?;
        let ghost espec = cand_err_sqv(model@, target@, full_qv(candidates@[i as int].q@, *fixed));
        proof {
            // the computed error equals the specified error of this candidate
            rot_prefix_wf(model@.axes, jrs_v(fullq@), model@.axes.len() as int);
            trans_prefix_wf(model@.axes, model@.links, jrs_v(fullq@), model@.axes.len() as int);
            lemma_pose_err_congr(fkp@, target@, fk_posev(model@, jrs_v(fullq@)), target@);
            pose_err_sqv_wf(fkp@, target@);
            qeq_trans(e@, pose_err_sqv(fkp@, target@), espec);
        }
        let newbest: Rat = match &best {
            None => e,
            Some(b) => {
                if e.le(b) {
                    proof {
                        let bv = b@;
                        assert forall|t: int| 0 <= t < i + 1 implies qle(
                            e@,
                            cand_err_sqv(
                                model@,
                                target@,
                                full_qv(#[trigger] candidates@[t].q@, *fixed),
                            ),
                        ) by {
                            if t < i {
                                full_q_wf(candidates@[t].q@, *fixed);
                                lemma_err_wf(model@, target@, full_qv(candidates@[t].q@, *fixed));
                                qle_trans(
                                    e@,
                                    bv,
                                    cand_err_sqv(
                                        model@,
                                        target@,
                                        full_qv(candidates@[t].q@, *fixed),
                                    ),
                                );
                            } else {
                                lemma_qle_of_qeq(e@, espec);
                            }
                        }
                    }
                    e
                } else {
                    proof {
                        let bv = b@;
                        assert(qle(bv, e@));
                        assert forall|t: int| 0 <= t < i + 1 implies qle(
                            bv,
                            cand_err_sqv(
                                model@,
                                target@,
                                full_qv(#[trigger] candidates@[t].q@, *fixed),
                            ),
                        ) by {
                            if t == i {
                                full_q_wf(candidates@[t].q@, *fixed);
                                lemma_err_wf(model@, target@, full_qv(candidates@[t].q@, *fixed));
                                qle_congr(bv, e@, bv, espec);
                            }
                        }
                    }
                    *b
                }
            },
        };
        best = Some(newbest);
        if cand.is_ls {
            ls = ls + 1;
        }
        proof {
            assert(count_ls(candidates@, i as int + 1) == count_ls(candidates@, i as int) + (
            if candidates@[i as int].is_ls {
                1int
            } else {
                0int
            }));
        }
        i = i + 1;
    }
    Ok(TrialResult { min_err_sq: best, solution_count: n, ls_count: ls })
}

/// A candidate's full configuration is well formed and has the chain's
/// number of joints.
proof fn full_q_wf(q: Seq<JointRot>, fixed: Option<(usize, JointRot)>)
    requires
        jq_wf(q),
        fixed is Some ==> fixed.unwrap().0 <= q.len() && jr_wf(fixed.unwrap().1),
    ensures
        jq_wf(full_qv(q, fixed)),
        full_qv(q, fixed).len() == q.len() + (if fixed is Some {
            1int
        } else {
            0int
        }),
{
    if fixed is Some {
        let fi = fixed.unwrap().0 as int;
        let fq = full_qv(q, fixed);
        assert forall|t: int| 0 <= t < fq.len() implies jr_wf(#[trigger] fq[t]) by {
            if t < fi {
                assert(fq[t] == q[t]);
            } else if t == fi {
                assert(fq[t] == fixed.unwrap().1);
            } else {
                assert(fq[t] == q[t - 1]);
            }
        }
    }
}

proof fn lemma_qle_of_qeq(a: Qv, b: Qv)
    requires
        qeq(a, b),
    ensures
        qle(a, b),
{
}

/// The specified candidate error is a well-formed scalar.
proof fn lemma_err_wf(m: crate::model::KmV, target: PoseV, fullq: Seq<JointRot>)
    requires
        km_wfv(m),
        pose_wfv(target),
        fullq.len() == m.axes.len(),
        jq_wf(fullq),
    ensures
        qwf(cand_err_sqv(m, target, fullq)),
{
    rot_prefix_wf(m.axes, jrs_v(fullq), m.axes.len() as int);
    trans_prefix_wf(m.axes, m.links, jrs_v(fullq), m.axes.len() as int);
    pose_err_sqv_wf(fk_posev(m, jrs_v(fullq)), target);
}

/// The squared pose error respects componentwise equality of the poses.
proof fn lemma_pose_err_congr(a: PoseV, t: PoseV, a2: PoseV, t2: PoseV)
    requires
        pose_eqv(a, a2),
        pose_eqv(t, t2),
    ensures
        qeq(pose_err_sqv(a, t), pose_err_sqv(a2, t2)),
{
    lemma_sq_congr(a.r.e00, t.r.e00, a2.r.e00, t2.r.e00);
    lemma_sq_congr(a.r.e01, t.r.e01, a2.r.e01, t2.r.e01);
    lemma_sq_congr(a.r.e02, t.r.e02, a2.r.e02, t2.r.e02);
    lemma_sq_congr(a.r.e10, t.r.e10, a2.r.e10, t2.r.e10);
    lemma_sq_congr(a.r.e11, t.r.e11, a2.r.e11, t2.r.e11);
    lemma_sq_congr(a.r.e12, t.r.e12, a2.r.e12, t2.r.e12);
    lemma_sq_congr(a.r.e20, t.r.e20, a2.r.e20, t2.r.e20);
    lemma_sq_congr(a.r.e21, t.r.e21, a2.r.e21, t2.r.e21);
    lemma_sq_congr(a.r.e22, t.r.e22, a2.r.e22, t2.r.e22);
    lemma_sq_congr(a.t.x, t.t.x, a2.t.x, t2.t.x);
    lemma_sq_congr(a.t.y, t.t.y, a2.t.y, t2.t.y);
    lemma_sq_congr(a.t.z, t.t.z, a2.t.z, t2.t.z);
    qeq_add_congr(
        sq_diffv(a.r.e00, t.r.e00),
        sq_diffv(a.r.e01, t.r.e01),
        sq_diffv(a2.r.e00, t2.r.e00),
        sq_diffv(a2.r.e01, t2.r.e01),
    );
    let p1 = qadd(sq_diffv(a.r.e00, t.r.e00), sq_diffv(a.r.e01, t.r.e01));
    let q1 = qadd(sq_diffv(a2.r.e00, t2.r.e00), sq_diffv(a2.r.e01, t2.r.e01));
    qeq_add_congr(p1, sq_diffv(a.r.e02, t.r.e02), q1, sq_diffv(a2.r.e02, t2.r.e02));
    let p2 = qadd(p1, sq_diffv(a.r.e02, t.r.e02));
    let q2 = qadd(q1, sq_diffv(a2.r.e02, t2.r.e02));
    qeq_add_congr(p2, sq_diffv(a.r.e10, t.r.e10), q2, sq_diffv(a2.r.e10, t2.r.e10));
    let p3 = qadd(p2, sq_diffv(a.r.e10, t.r.e10));
    let q3 = qadd(q2, sq_diffv(a2.r.e10, t2.r.e10));
    qeq_add_congr(p3, sq_diffv(a.r.e11, t.r.e11), q3, sq_diffv(a2.r.e11, t2.r.e11));
    let p4 = qadd(p3, sq_diffv(a.r.e11, t.r.e11));
    let q4 = qadd(q3, sq_diffv(a2.r.e11, t2.r.e11));
    qeq_add_congr(p4, sq_diffv(a.r.e12, t.r.e12), q4, sq_diffv(a2.r.e12, t2.r.e12));
    let p5 = qadd(p4, sq_diffv(a.r.e12, t.r.e12));
    let q5 = qadd(q4, sq_diffv(a2.r.e12, t2.r.e12));
    qeq_add_congr(p5, sq_diffv(a.r.e20, t.r.e20), q5, sq_diffv(a2.r.e20, t2.r.e20));
    let p6 = qadd(p5, sq_diffv(a.r.e20, t.r.e20));
    let q6 = qadd(q5, sq_diffv(a2.r.e20, t2.r.e20));
    qeq_add_congr(p6, sq_diffv(a.r.e21, t.r.e21), q6, sq_diffv(a2.r.e21, t2.r.e21));
    let p7 = qadd(p6, sq_diffv(a.r.e21, t.r.e21));
    let q7 = qadd(q6, sq_diffv(a2.r.e21, t2.r.e21));
    qeq_add_congr(p7, sq_diffv(a.r.e22, t.r.e22), q7, sq_diffv(a2.r.e22, t2.r.e22));
    let p8 = qadd(p7, sq_diffv(a.r.e22, t.r.e22));
    let q8 = qadd(q7, sq_diffv(a2.r.e22, t2.r.e22));
    qeq_add_congr(p8, sq_diffv(a.t.x, t.t.x), q8, sq_diffv(a2.t.x, t2.t.x));
    let p9 = qadd(p8, sq_diffv(a.t.x, t.t.x));
    let q9 = qadd(q8, sq_diffv(a2.t.x, t2.t.x));
    qeq_add_congr(p9, sq_diffv(a.t.y, t.t.y), q9, sq_diffv(a2.t.y, t2.t.y));
    let p10 = qadd(p9, sq_diffv(a.t.y, t.t.y));
    let q10 = qadd(q9, sq_diffv(a2.t.y, t2.t.y));
    qeq_add_congr(p10, sq_diffv(a.t.z, t.t.z), q10, sq_diffv(a2.t.z, t2.t.z));
}

proof fn lemma_sq_congr(a: Qv, b: Qv, a2: Qv, b2: Qv)
    requires
        qeq(a, a2),
        qeq(b, b2),
    ensures
        qeq(sq_diffv(a, b), sq_diffv(a2, b2)),
{
    crate::rat::qeq_sub_congr(a, b, a2, b2);
    qeq_mul_congr(qsub(a, b), qsub(a, b), qsub(a2, b2), qsub(a2, b2));
}

} // verus!
