use vstd::prelude::*;

verus! {

/// Largest magnitude that a stored numerator or denominator may take.
/// Keeping both parts of a well-formed scalar within this bound (2^62)
/// guarantees that a product of any two parts fits in an `i128`.
pub const RAT_BOUND: i128 = 0x4000_0000_0000_0000;

/// Bound (2^125) on the parts of an intermediate, not yet normalized scalar:
/// the widest value an exact sum of two products of well-formed parts can take.
pub const RAT_WIDE: i128 = 0x2000_0000_0000_0000_0000_0000_0000_0000;

/// The mathematical value of a scalar: a fraction of unbounded integers.
pub struct Qv {
    pub n: int,
    pub d: int,
}

/// A well-formed fraction has a positive denominator.
pub open spec fn qwf(a: Qv) -> bool {
    a.d >= 1
}

/// Equality of fractions, by cross multiplication.
pub open spec fn qeq(a: Qv, b: Qv) -> bool {
    a.n * b.d == b.n * a.d
}

/// Order on fractions with positive denominators, by cross multiplication.
pub open spec fn qle(a: Qv, b: Qv) -> bool {
    a.n * b.d <= b.n * a.d
}

pub open spec fn qzero() -> Qv {
    Qv { n: 0, d: 1 }
}

pub open spec fn qone() -> Qv {
    Qv { n: 1, d: 1 }
}

pub open spec fn qadd(a: Qv, b: Qv) -> Qv {
    Qv { n: a.n * b.d + b.n * a.d, d: a.d * b.d }
}

pub open spec fn qmul(a: Qv, b: Qv) -> Qv {
    Qv { n: a.n * b.n, d: a.d * b.d }
}

pub open spec fn qneg(a: Qv) -> Qv {
    Qv { n: -a.n, d: a.d }
}

pub open spec fn qsub(a: Qv, b: Qv) -> Qv {
    qadd(a, qneg(b))
}

/// Exact quotient of two fractions; meaningful only when `b` is nonzero.
pub open spec fn qdiv(a: Qv, b: Qv) -> Qv {
    if b.n >= 0 {
        Qv { n: a.n * b.d, d: a.d * b.n }
    } else {
        Qv { n: -(a.n * b.d), d: -(a.d * b.n) }
    }
}

pub proof fn qeq_refl(a: Qv)
    ensures
        qeq(a, a),
{
}

pub proof fn qeq_sym(a: Qv, b: Qv)
    requires
        qeq(a, b),
    ensures
        qeq(b, a),
{
}

pub proof fn qeq_trans(a: Qv, b: Qv, c: Qv) by (nonlinear_arith)
    requires
        b.d != 0,
        qeq(a, b),
        qeq(b, c),
    ensures
        qeq(a, c),
{
}

pub proof fn qeq_add_congr(a: Qv, b: Qv, a2: Qv, b2: Qv)
    requires
        qeq(a, a2),
        qeq(b, b2),
    ensures
        qeq(qadd(a, b), qadd(a2, b2)),
{
    let an = a.n;
    let ad = a.d;
    let bn = b.n;
    let bd = b.d;
    let cn = a2.n;
    let cd = a2.d;
    let en = b2.n;
    let ed = b2.d;
    assert((an * bd + bn * ad) * (cd * ed) == (an * bd) * (cd * ed) + (bn * ad) * (cd * ed))
        by (nonlinear_arith);
    assert((an * bd) * (cd * ed) == (an * cd) * (bd * ed)) by (nonlinear_arith);
    assert((an * cd) * (bd * ed) == (cn * ad) * (bd * ed)) by (nonlinear_arith)
        requires
            an * cd == cn * ad,
    ;
    assert((cn * ad) * (bd * ed) == (cn * ed) * (ad * bd)) by (nonlinear_arith);
    assert((bn * ad) * (cd * ed) == (bn * ed) * (ad * cd)) by (nonlinear_arith);
    assert((bn * ed) * (ad * cd) == (en * bd) * (ad * cd)) by (nonlinear_arith)
        requires
            bn * ed == en * bd,
    ;
    assert((en * bd) * (ad * cd) == (en * cd) * (ad * bd)) by (nonlinear_arith);
    assert((cn * ed + en * cd) * (ad * bd) == (cn * ed) * (ad * bd) + (en * cd) * (ad * bd))
        by (nonlinear_arith);
}

pub proof fn qeq_mul_congr(a: Qv, b: Qv, a2: Qv, b2: Qv)
    requires
        qeq(a, a2),
        qeq(b, b2),
    ensures
        qeq(qmul(a, b), qmul(a2, b2)),
{
    assert((a.n * a2.d) * (b.n * b2.d) == (a2.n * a.d) * (b2.n * b.d)) by (nonlinear_arith)
        requires
            a.n * a2.d == a2.n * a.d,
            b.n * b2.d == b2.n * b.d,
    ;
    assert((a.n * a2.d) * (b.n * b2.d) == (a.n * b.n) * (a2.d * b2.d)) by (nonlinear_arith);
    assert((a2.n * a.d) * (b2.n * b.d) == (a2.n * b2.n) * (a.d * b.d)) by (nonlinear_arith);
}

pub proof fn qeq_neg_congr(a: Qv, a2: Qv) by (nonlinear_arith)
    requires
        qeq(a, a2),
    ensures
        qeq(qneg(a), qneg(a2)),
{
}

pub proof fn qeq_sub_congr(a: Qv, b: Qv, a2: Qv, b2: Qv)
    requires
        qeq(a, a2),
        qeq(b, b2),
    ensures
        qeq(qsub(a, b), qsub(a2, b2)),
{
    qeq_neg_congr(b, b2);
    qeq_add_congr(a, qneg(b), a2, qneg(b2));
}

#[verifier::rlimit(50)]
pub proof fn qeq_div_congr(a: Qv, b: Qv, a2: Qv, b2: Qv)
    requires
        qwf(a),
        qwf(b),
        qwf(a2),
        qwf(b2),
        b.n != 0,
        b2.n != 0,
        qeq(a, a2),
        qeq(b, b2),
    ensures
        qeq(qdiv(a, b), qdiv(a2, b2)),
{
    assert(!(b.n > 0 && b2.n < 0) && !(b.n < 0 && b2.n > 0)) by (nonlinear_arith)
        requires
            b.n * b2.d == b2.n * b.d,
            b.d >= 1,
            b2.d >= 1,
            b.n != 0,
            b2.n != 0,
    ;
    assert((a.n * b.d) * (a2.d * b2.n) == (a2.n * b2.d) * (a.d * b.n)) by (nonlinear_arith)
        requires
            a.n * a2.d == a2.n * a.d,
            b.n * b2.d == b2.n * b.d,
    ;
    if b.n > 0 {
        assert(qeq(qdiv(a, b), qdiv(a2, b2)));
    } else {
        assert((-(a.n * b.d)) * (-(a2.d * b2.n)) == (-(a2.n * b2.d)) * (-(a.d * b.n)))
            by (nonlinear_arith)
            requires
                (a.n * b.d) * (a2.d * b2.n) == (a2.n * b2.d) * (a.d * b.n),
        ;
    }
}

pub proof fn qle_trans(a: Qv, b: Qv, c: Qv) by (nonlinear_arith)
    requires
        qwf(a),
        qwf(b),
        qwf(c),
        qle(a, b),
        qle(b, c),
    ensures
        qle(a, c),
{
}

pub proof fn qle_congr(a: Qv, b: Qv, a2: Qv, b2: Qv) by (nonlinear_arith)
    requires
        qwf(a),
        qwf(b),
        qwf(a2),
        qwf(b2),
        qeq(a, a2),
        qeq(b, b2),
        qle(a, b),
    ensures
        qle(a2, b2),
{
}

pub proof fn qwf_add(a: Qv, b: Qv) by (nonlinear_arith)
    requires
        qwf(a),
        qwf(b),
    ensures
        qwf(qadd(a, b)),
{
}

pub proof fn qwf_mul(a: Qv, b: Qv) by (nonlinear_arith)
    requires
        qwf(a),
        qwf(b),
    ensures
        qwf(qmul(a, b)),
{
}

pub proof fn qwf_neg(a: Qv)
    requires
        qwf(a),
    ensures
        qwf(qneg(a)),
{
}

pub proof fn qwf_div(a: Qv, b: Qv) by (nonlinear_arith)
    requires
        qwf(a),
        qwf(b),
        b.n != 0,
    ensures
        qwf(qdiv(a, b)),
{
}

pub proof fn qwf_sub(a: Qv, b: Qv)
    requires
        qwf(a),
        qwf(b),
    ensures
        qwf(qsub(a, b)),
{
    qwf_neg(b);
    qwf_add(a, qneg(b));
}

/// Greatest common divisor by Euclid's algorithm.
pub open spec fn gcd_spec(a: int, b: int) -> int
    recommends
        a >= 0,
        b >= 0,
    decreases b,
{
    if b <= 0 {
        a
    } else {
        gcd_spec(b, a % b)
    }
}

/// The Euclidean gcd of nonnegative arguments, not both zero, is positive
/// and divides both.
pub proof fn lemma_gcd_divides(a: int, b: int)
    requires
        a >= 0,
        b >= 0,
        a >= 1 || b >= 1,
    ensures
        gcd_spec(a, b) >= 1,
        a % gcd_spec(a, b) == 0,
        b % gcd_spec(a, b) == 0,
    decreases b,
{
    let g = gcd_spec(a, b);
    if b == 0 {
        vstd::arithmetic::div_mod::lemma_mod_self_0(a);
        vstd::arithmetic::div_mod::lemma_small_mod(0nat, a as nat);
    } else {
        lemma_gcd_divides(b, a % b);
        vstd::arithmetic::div_mod::lemma_fundamental_div_mod(a, b);
        vstd::arithmetic::div_mod::lemma_fundamental_div_mod(b, g);
        vstd::arithmetic::div_mod::lemma_fundamental_div_mod(a % b, g);
        let k1 = b / g;
        let k2 = (a % b) / g;
        assert(a == (k1 * (a / b) + k2) * g) by (nonlinear_arith)
            requires
                a == b * (a / b) + (a % b),
                b == g * k1 + (b % g),
                b % g == 0,
                (a % b) == g * k2 + ((a % b) % g),
                (a % b) % g == 0,
        ;
        vstd::arithmetic::div_mod::lemma_mod_multiples_basic(k1 * (a / b) + k2, g);
    }
}

/// Exact division: if `x` is the multiple `g * k`, then `x / g` is `k`.
proof fn lemma_div_exact(x: int, g: int, k: int)
    requires
        g >= 1,
        x == g * k,
    ensures
        x / g == k,
{
    vstd::arithmetic::div_mod::lemma_fundamental_div_mod(x, g);
    vstd::arithmetic::div_mod::lemma_mod_multiples_basic(k, g);
    assert(x % g == 0) by (nonlinear_arith)
        requires
            x == g * k,
            (k * g) % g == 0,
    ;
    assert(x / g == k) by (nonlinear_arith)
        requires
            g >= 1,
            x == g * k,
            x == g * (x / g) + (x % g),
            x % g == 0,
    ;
}

/// The reduced form of a fraction with positive denominator: both parts
/// divided by their gcd, zero written as `0 / 1`.
pub open spec fn canon(q: Qv) -> Qv {
    let m = if q.n >= 0 {
        q.n
    } else {
        -q.n
    };
    if m == 0 {
        Qv { n: 0, d: 1 }
    } else {
        let g = gcd_spec(m, q.d);
        Qv { n: q.n / g, d: q.d / g }
    }
}

/// A value is representable exactly when its reduced form lies within the
/// scalar bounds.
pub open spec fn q_fits(q: Qv) -> bool {
    -RAT_BOUND <= canon(q).n <= RAT_BOUND && canon(q).d <= RAT_BOUND
}

/// The reduced form keeps the denominator positive, does not grow either
/// part, and denotes the same value.
pub proof fn lemma_canon(q: Qv)
    requires
        qwf(q),
    ensures
        1 <= canon(q).d <= q.d,
        q.n >= 0 ==> 0 <= canon(q).n <= q.n,
        q.n < 0 ==> q.n <= canon(q).n <= 0,
        qeq(canon(q), q),
{
    let m = if q.n >= 0 {
        q.n
    } else {
        -q.n
    };
    if m != 0 {
        let g = gcd_spec(m, q.d);
        lemma_gcd_divides(m, q.d);
        vstd::arithmetic::div_mod::lemma_fundamental_div_mod(m, g);
        vstd::arithmetic::div_mod::lemma_fundamental_div_mod(q.d, g);
        let mm = m / g;
        let dd = q.d / g;
        assert(g * mm == m && g * dd == q.d);
        if q.n < 0 {
            assert(q.n == g * (-mm)) by (nonlinear_arith)
                requires
                    g * mm == m,
                    m == -q.n,
            ;
            lemma_div_exact(q.n, g, -mm);
        }
        assert(1 <= dd <= q.d && 0 <= mm <= m) by (nonlinear_arith)
            requires
                g >= 1,
                g * mm == m,
                g * dd == q.d,
                m >= 1,
                q.d >= 1,
        ;
        assert(canon(q).n * q.d == q.n * canon(q).d) by (nonlinear_arith)
            requires
                g >= 1,
                g * mm == m,
                g * dd == q.d,
                m == (if q.n >= 0 { q.n } else { -q.n }),
                canon(q).n == (if q.n >= 0 { mm } else { -mm }),
                canon(q).d == dd,
        ;
    }
}

proof fn lemma_mul_bound(x: int, y: int, b: int) by (nonlinear_arith)
    requires
        0 <= b,
        -b <= x <= b,
        -b <= y <= b,
    ensures
        -(b * b) <= x * y <= b * b,
{
}

proof fn lemma_mul_pos(x: int, y: int) by (nonlinear_arith)
    requires
        x >= 1,
        y >= 1,
    ensures
        x * y >= 1,
{
}

/// An exactly represented scalar: the fraction `n / d`. Constructed and
/// combined only through the operations below, which keep both parts within
/// `RAT_BOUND` and the denominator positive.
#[derive(Clone, Copy, Debug)]
pub struct Rat {
    pub n: i128,
    pub d: i128,
}

impl View for Rat {
    type V = Qv;

    open spec fn view(&self) -> Qv {
        Qv { n: self.n as int, d: self.d as int }
    }
}

/// A representable scalar: denominator positive, both parts within bound.
pub open spec fn rat_wf(r: Rat) -> bool {
    1 <= r.d <= RAT_BOUND && -RAT_BOUND <= r.n <= RAT_BOUND
}

fn gcd_u(a: u128, b: u128) -> (g: u128)
    requires
        a >= 1 || b >= 1,
    ensures
        g as int == gcd_spec(a as int, b as int),
        g >= 1,
{
    let mut x: u128 = a;
    let mut y: u128 = b;
    while y != 0
        invariant
            x >= 1 || y >= 1,
            gcd_spec(x as int, y as int) == gcd_spec(a as int, b as int),
        decreases y,
    {
        let t: u128 = x % y;
        x = y;
        y = t;
    }
    proof {
        lemma_gcd_divides(a as int, b as int);
    }
    x
}

/// Reduces an intermediate fraction to its canonical form: the value is
/// unchanged and neither part grows.
fn norm(r: Rat) -> (s: Rat)
    requires
        1 <= r.d <= RAT_WIDE,
        -RAT_WIDE <= r.n <= RAT_WIDE,
    ensures
        s@ == canon(r@),
        1 <= s.d <= r.d,
        r.n >= 0 ==> 0 <= s.n <= r.n,
        r.n < 0 ==> r.n <= s.n <= 0,
        qeq(s@, r@),
{
    proof {
        lemma_canon(r@);
    }
    if r.n == 0 {
        return Rat { n: 0, d: 1 };
    }
    let neg: bool = r.n < 0;
    let na: i128 = if neg {
        -r.n
    } else {
        r.n
    };
    let au: u128 = na as u128;
    let du: u128 = r.d as u128;
    let g: u128 = gcd_u(au, du);
    proof {
        lemma_gcd_divides(au as int, du as int);
        vstd::arithmetic::div_mod::lemma_fundamental_div_mod(au as int, g as int);
        vstd::arithmetic::div_mod::lemma_fundamental_div_mod(du as int, g as int);
        assert(g as int * ((au as int) / (g as int)) == au as int);
        assert(g as int * ((du as int) / (g as int)) == du as int);
        assert(0 <= (au as int) / (g as int) <= au as int && 1 <= (du as int) / (g as int)
            <= du as int) by (nonlinear_arith)
            requires
                g as int * ((au as int) / (g as int)) == au as int,
                g as int * ((du as int) / (g as int)) == du as int,
                g >= 1,
                au as int >= 1,
                du as int >= 1,
        ;
    }
    let qa: u128 = au / g;
    let qd: u128 = du / g;
    let n2: i128 = if neg {
        -(qa as i128)
    } else {
        qa as i128
    };
    let d2: i128 = qd as i128;
    proof {
        if neg {
            assert(r.n as int == g as int * (-(qa as int))) by (nonlinear_arith)
                requires
                    g as int * (qa as int) == au as int,
                    au as int == -(r.n as int),
            ;
            lemma_div_exact(r.n as int, g as int, -(qa as int));
        }
    }
    Rat { n: n2, d: d2 }
}

impl Rat {
    pub fn zero() -> (r: Rat)
        ensures
            rat_wf(r),
            r@ == qzero(),
    {
        Rat { n: 0, d: 1 }
    }

    pub fn one() -> (r: Rat)
        ensures
            rat_wf(r),
            r@ == qone(),
    {
        Rat { n: 1, d: 1 }
    }

    /// The scalar `n / d`, accepted exactly when both parts are within bound
    /// and the denominator is positive.
    pub fn new(n: i128, d: i128) -> (r: Option<Rat>)
        ensures
            r is Some <==> (1 <= d <= RAT_BOUND && -RAT_BOUND <= n <= RAT_BOUND),
            r is Some ==> rat_wf(r.unwrap()) && r.unwrap()@ == (Qv { n: n as int, d: d as int }),
    {
        if 1 <= d && d <= RAT_BOUND && -RAT_BOUND <= n && n <= RAT_BOUND {
            Some(Rat { n, d })
        } else {
            None
        }
    }

    /// The reduced form of the wide fraction `n / d`; `None` exactly when
    /// that reduced form leaves the representable range.
    pub fn from_wide(n: i128, d: i128) -> (r: Option<Rat>)
        requires
            1 <= d <= RAT_WIDE,
            -RAT_WIDE <= n <= RAT_WIDE,
        ensures
            r is Some <==> q_fits(Qv { n: n as int, d: d as int }),
            r is Some ==> rat_wf(r.unwrap()) && r.unwrap()@ == canon(
                Qv { n: n as int, d: d as int },
            ) && qeq(r.unwrap()@, Qv { n: n as int, d: d as int }),
    {
        let s = norm(Rat { n, d });
        if -RAT_BOUND <= s.n && s.n <= RAT_BOUND && s.d <= RAT_BOUND {
            Some(s)
        } else {
            None
        }
    }

    pub fn from_int(n: i32) -> (r: Rat)
        ensures
            rat_wf(r),
            r@ == (Qv { n: n as int, d: 1 }),
    {
        Rat { n: n as i128, d: 1 }
    }

    /// Exact sum; `None` exactly when the reduced result leaves the
    /// representable range.
    pub fn add(&self, other: &Rat) -> (r: Option<Rat>)
        requires
            rat_wf(*self),
            rat_wf(*other),
        ensures
            r is Some <==> q_fits(qadd(self@, other@)),
            r is Some ==> rat_wf(r.unwrap()) && r.unwrap()@ == canon(qadd(self@, other@)) && qeq(
                r.unwrap()@,
                qadd(self@, other@),
            ),
    {
        proof {
            lemma_mul_bound(self.n as int, other.d as int, RAT_BOUND as int);
            lemma_mul_bound(other.n as int, self.d as int, RAT_BOUND as int);
            lemma_mul_bound(self.d as int, other.d as int, RAT_BOUND as int);
            lemma_mul_pos(self.d as int, other.d as int);
        }
        let n: i128 = self.n * other.d + other.n * self.d;
        let d: i128 = self.d * other.d;
        let s = norm(Rat { n, d });
        if -RAT_BOUND <= s.n && s.n <= RAT_BOUND && s.d <= RAT_BOUND {
            Some(s)
        } else {
            None
        }
    }

    /// Exact product; `None` exactly when the reduced result leaves the
    /// representable range.
    pub fn mul(&self, other: &Rat) -> (r: Option<Rat>)
        requires
            rat_wf(*self),
            rat_wf(*other),
        ensures
            r is Some <==> q_fits(qmul(self@, other@)),
            r is Some ==> rat_wf(r.unwrap()) && r.unwrap()@ == canon(qmul(self@, other@)) && qeq(
                r.unwrap()@,
                qmul(self@, other@),
            ),
    {
        proof {
            lemma_mul_bound(self.n as int, other.n as int, RAT_BOUND as int);
            lemma_mul_bound(self.d as int, other.d as int, RAT_BOUND as int);
            lemma_mul_pos(self.d as int, other.d as int);
        }
        let n: i128 = self.n * other.n;
        let d: i128 = self.d * other.d;
        let s = norm(Rat { n, d });
        if -RAT_BOUND <= s.n && s.n <= RAT_BOUND && s.d <= RAT_BOUND {
            Some(s)
        } else {
            None
        }
    }

    /// Exact negation; always representable.
    pub fn neg(&self) -> (r: Rat)
        requires
            rat_wf(*self),
        ensures
            rat_wf(r),
            r@ == qneg(self@),
    {
        Rat { n: -self.n, d: self.d }
    }

    /// Exact difference; `None` exactly when the reduced result leaves the
    /// representable range.
    pub fn sub(&self, other: &Rat) -> (r: Option<Rat>)
        requires
            rat_wf(*self),
            rat_wf(*other),
        ensures
            r is Some <==> q_fits(qsub(self@, other@)),
            r is Some ==> rat_wf(r.unwrap()) && r.unwrap()@ == canon(qsub(self@, other@)) && qeq(
                r.unwrap()@,
                qsub(self@, other@),
            ),
    {
        let m = other.neg();
        self.add(&m)
    }

    /// Exact quotient; `None` exactly when the divisor is zero or the
    /// reduced result leaves the representable range.
    pub fn div(&self, other: &Rat) -> (r: Option<Rat>)
        requires
            rat_wf(*self),
            rat_wf(*other),
        ensures
            other@.n == 0 ==> r is None,
            other@.n != 0 ==> (r is Some <==> q_fits(qdiv(self@, other@))),
            r is Some ==> rat_wf(r.unwrap()) && r.unwrap()@ == canon(qdiv(self@, other@)) && qeq(
                r.unwrap()@,
                qdiv(self@, other@),
            ),
    {
        if other.n == 0 {
            return None;
        }
        proof {
            lemma_mul_bound(self.n as int, other.d as int, RAT_BOUND as int);
            lemma_mul_bound(self.d as int, other.n as int, RAT_BOUND as int);
            if other.n >= 1 {
                assert(self.d as int * (other.n as int) >= 1) by (nonlinear_arith)
                    requires
                        self.d as int >= 1,
                        other.n as int >= 1,
                ;
            } else {
                assert(self.d as int * (other.n as int) <= -1) by (nonlinear_arith)
                    requires
                        self.d as int >= 1,
                        other.n as int <= -1,
                ;
            }
        }
        let n0: i128 = self.n * other.d;
        let d0: i128 = self.d * other.n;
        let w: Rat = if d0 < 0 {
            Rat { n: -n0, d: -d0 }
        } else {
            Rat { n: n0, d: d0 }
        };
        proof {
            assert(w@ == qdiv(self@, other@));
        }
        let s = norm(w);
        if -RAT_BOUND <= s.n && s.n <= RAT_BOUND && s.d <= RAT_BOUND {
            Some(s)
        } else {
            None
        }
    }

    /// Exact comparison of the represented values.
    pub fn le(&self, other: &Rat) -> (r: bool)
        requires
            rat_wf(*self),
            rat_wf(*other),
        ensures
            r == qle(self@, other@),
    {
        proof {
            lemma_mul_bound(self.n as int, other.d as int, RAT_BOUND as int);
            lemma_mul_bound(other.n as int, self.d as int, RAT_BOUND as int);
        }
        self.n * other.d <= other.n * self.d
    }

    /// Exact equality of the represented values.
    pub fn eqv(&self, other: &Rat) -> (r: bool)
        requires
            rat_wf(*self),
            rat_wf(*other),
        ensures
            r == qeq(self@, other@),
    {
        proof {
            lemma_mul_bound(self.n as int, other.d as int, RAT_BOUND as int);
            lemma_mul_bound(other.n as int, self.d as int, RAT_BOUND as int);
        }
        self.n * other.d == other.n * self.d
    }

    pub fn is_zero(&self) -> (r: bool)
        requires
            rat_wf(*self),
        ensures
            r == qeq(self@, qzero()),
    {
        self.n == 0
    }
}

} // verus!
