use vstd::prelude::*;

use crate::linalg::{Mat3, Vec3};
use crate::model::{pose_wf, Pose};
use crate::rat::{qeq, rat_wf, Qv, Rat, RAT_BOUND, RAT_WIDE};
use crate::KinError;
use vstd::string::StringSliceAdditionalSpecFns;

verus! {

pub open spec fn is_digit(b: u8) -> bool {
    48 <= b <= 57
}

pub open spec fn all_digits(s: Seq<u8>) -> bool {
    forall|i: int| 0 <= i < s.len() ==> is_digit(#[trigger] s[i])
}

/// Value of a digit string read as a decimal integer.
pub open spec fn digits_val(s: Seq<u8>) -> int
    decreases s.len(),
{
    if s.len() == 0 {
        0
    } else {
        digits_val(s.drop_last()) * 10 + (s.last() - 48)
    }
}

pub open spec fn pow10(k: int) -> int
    decreases k,
{
    if k <= 0 {
        1
    } else {
        10 * pow10(k - 1)
    }
}

pub proof fn lemma_pow10_pos(k: int)
    ensures
        pow10(k) >= 1,
    decreases
            (if k > 0 {
                k
            } else {
                0
            }),
{
    if k > 0 {
        lemma_pow10_pos(k - 1);
    }
}

pub proof fn lemma_pow10_mono(i: int, j: int)
    requires
        i <= j,
    ensures
        pow10(i) <= pow10(j),
    decreases j - i,
{
    if i < j {
        lemma_pow10_mono(i, j - 1);
        lemma_pow10_pos(j - 1);
    }
}

pub proof fn lemma_pow10_add(i: int, j: int)
    requires
        i >= 0,
        j >= 0,
    ensures
        pow10(i + j) == pow10(i) * pow10(j),
    decreases i,
{
    if i > 0 {
        lemma_pow10_add(i - 1, j);
        assert((10 * pow10(i - 1)) * pow10(j) == 10 * (pow10(i - 1) * pow10(j)))
            by (nonlinear_arith);
    }
}

/// Eighteen decimal digits always fit the scalar bound.
proof fn lemma_pow10_18()
    ensures
        pow10(18) < RAT_BOUND,
{
    assert(pow10(0) == 1);
    assert(pow10(1) == 10);
    assert(pow10(2) == 100);
    assert(pow10(3) == 1000);
    assert(pow10(4) == 10000);
    assert(pow10(5) == 100000);
    assert(pow10(6) == 1000000);
    assert(pow10(7) == 10000000);
    assert(pow10(8) == 100000000);
    assert(pow10(9) == 1000000000);
    assert(pow10(10) == 10000000000);
    assert(pow10(11) == 100000000000);
    assert(pow10(12) == 1000000000000);
    assert(pow10(13) == 10000000000000);
    assert(pow10(14) == 100000000000000);
    assert(pow10(15) == 1000000000000000);
    assert(pow10(16) == 10000000000000000);
    assert(pow10(17) == 100000000000000000);
    assert(pow10(18) == 1000000000000000000);
}

/// A digit string's value is nonnegative and below ten to its length.
pub proof fn lemma_digits_lt_pow10(s: Seq<u8>)
    requires
        all_digits(s),
    ensures
        0 <= digits_val(s) < pow10(s.len() as int),
    decreases s.len(),
{
    if s.len() > 0 {
        assert(forall|i: int|
            0 <= i < s.drop_last().len() ==> is_digit(#[trigger] s.drop_last()[i]));
        lemma_digits_lt_pow10(s.drop_last());
        assert(is_digit(s.last()));
    }
}

/// Index of the first decimal point, or the length if there is none.
pub open spec fn dot_pos(s: Seq<u8>) -> int
    decreases s.len(),
{
    if s.len() == 0 {
        0
    } else if s[0] == 46 {
        0
    } else {
        1 + dot_pos(s.drop_first())
    }
}

pub proof fn lemma_dot_pos(s: Seq<u8>)
    ensures
        0 <= dot_pos(s) <= s.len(),
        dot_pos(s) < s.len() ==> s[dot_pos(s)] == 46,
        forall|i: int| 0 <= i < dot_pos(s) ==> s[i] != 46,
    decreases s.len(),
{
    if s.len() > 0 && s[0] != 46 {
        lemma_dot_pos(s.drop_first());
        assert forall|i: int| 0 <= i < dot_pos(s) implies s[i] != 46 by {
            if i > 0 {
                assert(s.drop_first()[i - 1] != 46);
            }
        }
    }
}

pub open spec fn has_sign(s: Seq<u8>) -> bool {
    s.len() > 0 && (s[0] == 43 || s[0] == 45)
}

pub open spec fn is_neg(s: Seq<u8>) -> bool {
    s.len() > 0 && s[0] == 45
}

pub open spec fn strip_sign(s: Seq<u8>) -> Seq<u8> {
    if has_sign(s) {
        s.drop_first()
    } else {
        s
    }
}

/// Integer-part digits of an unsigned number body.
pub open spec fn int_part(b: Seq<u8>) -> Seq<u8> {
    b.subrange(0, dot_pos(b))
}

/// Fraction digits of an unsigned number body.
pub open spec fn frac_part(b: Seq<u8>) -> Seq<u8> {
    if dot_pos(b) < b.len() {
        b.subrange(dot_pos(b) + 1, b.len() as int)
    } else {
        Seq::empty()
    }
}

/// Index of the first exponent marker (`e` or `E`), or the length if there
/// is none.
pub open spec fn exp_pos(s: Seq<u8>) -> int
    decreases s.len(),
{
    if s.len() == 0 {
        0
    } else if s[0] == 101 || s[0] == 69 {
        0
    } else {
        1 + exp_pos(s.drop_first())
    }
}

pub proof fn lemma_exp_pos(s: Seq<u8>)
    ensures
        0 <= exp_pos(s) <= s.len(),
        exp_pos(s) < s.len() ==> (s[exp_pos(s)] == 101 || s[exp_pos(s)] == 69),
        forall|i: int| 0 <= i < exp_pos(s) ==> s[i] != 101 && s[i] != 69,
    decreases s.len(),
{
    if s.len() > 0 && s[0] != 101 && s[0] != 69 {
        lemma_exp_pos(s.drop_first());
        assert forall|i: int| 0 <= i < exp_pos(s) implies s[i] != 101 && s[i] != 69 by {
            if i > 0 {
                assert(s.drop_first()[i - 1] != 101 && s.drop_first()[i - 1] != 69);
            }
        }
    }
}

/// The mantissa of an unsigned number body: everything before the exponent
/// marker.
pub open spec fn mant(b: Seq<u8>) -> Seq<u8> {
    b.subrange(0, exp_pos(b))
}

/// The exponent field of an unsigned number body, after the marker.
pub open spec fn exp_str(b: Seq<u8>) -> Seq<u8> {
    if exp_pos(b) < b.len() {
        b.subrange(exp_pos(b) + 1, b.len() as int)
    } else {
        Seq::empty()
    }
}

/// A well-formed real token: an optional sign; digits with at most one
/// decimal point and at least one digit; then an optional exponent marker
/// with an optionally signed nonempty digit string.
pub open spec fn num_wf(s: Seq<u8>) -> bool {
    let b = strip_sign(s);
    let m = mant(b);
    let e = strip_sign(exp_str(b));
    &&& all_digits(int_part(m))
    &&& all_digits(frac_part(m))
    &&& int_part(m).len() + frac_part(m).len() >= 1
    &&& (exp_pos(b) == b.len() || (all_digits(e) && e.len() >= 1))
}

/// The exact rational value of a well-formed real token.
pub open spec fn num_val(s: Seq<u8>) -> Qv {
    let b = strip_sign(s);
    let m = mant(b);
    let fl = frac_part(m).len() as int;
    let mag = digits_val(int_part(m)) * pow10(fl) + digits_val(frac_part(m));
    let has_e = exp_pos(b) < b.len();
    let ev = digits_val(strip_sign(exp_str(b)));
    let eneg = is_neg(exp_str(b));
    let n0 = if has_e && !eneg {
        mag * pow10(ev)
    } else {
        mag
    };
    let d0 = if has_e && eneg {
        pow10(fl) * pow10(ev)
    } else {
        pow10(fl)
    };
    if is_neg(s) {
        Qv { n: -n0, d: d0 }
    } else {
        Qv { n: n0, d: d0 }
    }
}

/// A plain-decimal token (no exponent) of at most eighteen digits in all:
/// such a token is always representable, so parsing it must succeed.
pub open spec fn plain_decimal18(s: Seq<u8>) -> bool {
    let b = strip_sign(s);
    let m = mant(b);
    num_wf(s) && exp_pos(b) == b.len() && int_part(m).len() + frac_part(m).len() <= 18
}

/// A plain-decimal token of at most eighteen digits yields a representable
/// fraction.
proof fn lemma_plain_fits(tok: Seq<u8>, body: Seq<u8>, ip: int, fv: int, den: int, num: int)
    requires
        plain_decimal18(tok),
        body == strip_sign(tok),
        ip == digits_val(int_part(mant(body))),
        fv == digits_val(frac_part(mant(body))),
        den == pow10(frac_part(mant(body)).len() as int),
        num == ip * den + fv || num == -(ip * den + fv),
    ensures
        crate::rat::q_fits(Qv { n: num, d: den }),
        -RAT_BOUND <= num <= RAT_BOUND,
        1 <= den <= RAT_BOUND,
{
    let m = mant(body);
    let il = int_part(m).len() as int;
    let fl = frac_part(m).len() as int;
    let mag = ip * den + fv;
    lemma_digits_lt_pow10(int_part(m));
    lemma_digits_lt_pow10(frac_part(m));
    lemma_pow10_add(il, fl);
    lemma_pow10_mono(il + fl, 18);
    lemma_pow10_18();
    lemma_pow10_pos(fl);
    assert(0 <= mag < pow10(il) * pow10(fl)) by (nonlinear_arith)
        requires
            mag == ip * den + fv,
            0 <= ip < pow10(il),
            den == pow10(fl),
            0 <= fv < pow10(fl),
            pow10(fl) >= 1,
    ;
    lemma_pow10_mono(fl, 18);
    assert(pow10(il) * pow10(fl) == pow10(il + fl));
    assert(0 <= mag < RAT_BOUND);
    assert(1 <= den <= RAT_BOUND);
    crate::rat::lemma_canon(Qv { n: num, d: den });
}

/// Parses the byte range `[start, end)` of `data` as one real token,
/// exactly. Fails with `ParseError` precisely when the range is not a
/// well-formed real token, and with `RangeExhausted` when its value does not
/// fit the scalar representation.
#[verifier::rlimit(100)]
pub fn parse_number(data: &[u8], start: usize, end: usize) -> (res: Result<Rat, KinError>)
    requires
        start <= end <= data@.len(),
    ensures
        res is Ok ==> rat_wf(res.unwrap()) && num_wf(data@.subrange(start as int, end as int))
            && qeq(res.unwrap()@, num_val(data@.subrange(start as int, end as int))),
        res == Result::<Rat, KinError>::Err(KinError::ParseError) ==> !num_wf(
            data@.subrange(start as int, end as int),
        ),
        !num_wf(data@.subrange(start as int, end as int)) ==> res is Err,
        res is Err ==> (res == Result::<Rat, KinError>::Err(KinError::ParseError) || res
            == Result::<Rat, KinError>::Err(KinError::RangeExhausted)),
        plain_decimal18(data@.subrange(start as int, end as int)) ==> res is Ok,
{
    let ghost tok = data@.subrange(start as int, end as int);
    let mut p = start;
    let mut neg = false;
    if p < end && (data[p] == 45u8 || data[p] == 43u8) {
        neg = data[p] == 45u8;
        p = p + 1;
    }
    let bstart = p;
    let ghost body = strip_sign(tok);
    proof {
        assert(body =~= data@.subrange(bstart as int, end as int));
        assert(neg == is_neg(tok));
        lemma_dot_pos(body);
    }
    let mut ip: i128 = 0;
    while p < end && 48 <= data[p] && data[p] <= 57
        invariant
            start <= bstart <= p <= end <= data@.len(),
            tok == data@.subrange(start as int, end as int),
            body == strip_sign(tok),
            body == data@.subrange(bstart as int, end as int),
            0 <= ip <= RAT_BOUND,
            ip == digits_val(data@.subrange(bstart as int, p as int)),
            ip < pow10(p as int - bstart as int),
            forall|i: int| bstart <= i < p ==> is_digit(#[trigger] data@[i]),
        decreases end - p,
    {
        let d: i128 = (data[p] - 48) as i128;
        let nv: i128 = ip * 10 + d;
        proof {
            assert(pow10(p as int - bstart as int + 1) == 10 * pow10(p as int - bstart as int));
        }
        if nv > RAT_BOUND {
            proof {
                lemma_exp_pos(body);
                lemma_dot_pos(mant(body));
                lemma_pow10_18();
                if plain_decimal18(tok) {
                    assert(mant(body) =~= body);
                    let scanned = p as int - bstart as int;
                    assert(dot_pos(mant(body)) > scanned) by {
                        if dot_pos(mant(body)) <= scanned {
                            assert(is_digit(body[dot_pos(mant(body))]));
                        }
                    }
                    assert(int_part(mant(body)).len() > scanned);
                    lemma_pow10_mono(scanned + 1, 18);
                    assert(nv < pow10(scanned + 1));
                }
            }
            return Err(KinError::RangeExhausted);
        }
        proof {
            assert(data@.subrange(bstart as int, p as int + 1).drop_last() =~= data@.subrange(
                bstart as int,
                p as int,
            ));
            assert(data@.subrange(bstart as int, p as int + 1).last() == data@[p as int]);
        }
        ip = nv;
        p = p + 1;
    }
    let ipend = p;
    let ghost k = ipend as int - bstart as int;
    let mut den: i128 = 1;
    let mut fv: i128 = 0;
    let mut fstart = ipend;
    proof {
        assert(forall|i: int| 0 <= i < k ==> is_digit(#[trigger] body[i]));
    }
    if p < end && data[p] == 46u8 {
        proof {
            lemma_exp_pos(body);
            // no exponent marker up to and including the decimal point
            assert(exp_pos(body) > k) by {
                if exp_pos(body) <= k {
                    assert(body[exp_pos(body)] == 101 || body[exp_pos(body)] == 69);
                }
            }
            let mb = mant(body);
            lemma_dot_pos(mb);
            assert(mb[k] == 46);
            if dot_pos(mb) < k {
                assert(is_digit(mb[dot_pos(mb)]));
            }
            if dot_pos(mb) > k {
                assert(mb[k] != 46);
            }
            assert(dot_pos(mb) == k);
        }
        p = p + 1;
        fstart = p;
        while p < end && 48 <= data[p] && data[p] <= 57
            invariant
                start <= bstart < fstart <= p <= end <= data@.len(),
                tok == data@.subrange(start as int, end as int),
                body == strip_sign(tok),
                body == data@.subrange(bstart as int, end as int),
                k == ipend as int - bstart as int,
                bstart + k + 1 == fstart,
                forall|i: int| 0 <= i < k ==> is_digit(#[trigger] body[i]),
                body[k] == 46,
                0 <= fv <= RAT_BOUND,
                1 <= den <= RAT_BOUND,
                fv < den,
                fv == digits_val(data@.subrange(fstart as int, p as int)),
                den == pow10(p as int - fstart as int),
                forall|i: int| fstart <= i < p ==> is_digit(#[trigger] data@[i]),
            decreases end - p,
        {
            let d: i128 = (data[p] - 48) as i128;
            let nfv: i128 = fv * 10 + d;
            let nden: i128 = den * 10;
            proof {
                assert(pow10(p as int - fstart as int + 1) == 10 * pow10(
                    p as int - fstart as int,
                ));
            }
            if nfv > RAT_BOUND || nden > RAT_BOUND {
                proof {
                    lemma_exp_pos(body);
                    lemma_dot_pos(mant(body));
                    lemma_pow10_18();
                    if plain_decimal18(tok) {
                        assert(mant(body) =~= body);
                        assert(dot_pos(mant(body)) == k) by {
                            if dot_pos(mant(body)) < k {
                                assert(is_digit(body[dot_pos(mant(body))]));
                            }
                            if dot_pos(mant(body)) > k {
                                assert(body[k] != 46);
                            }
                        }
                        let scanned = p as int - fstart as int;
                        assert(frac_part(mant(body)).len() >= scanned + 1);
                        lemma_pow10_mono(scanned + 1, 18);
                        assert(nden <= pow10(18));
                    }
                }
                return Err(KinError::RangeExhausted);
            }
            proof {
                assert(data@.subrange(fstart as int, p as int + 1).drop_last() =~= data@.subrange(
                    fstart as int,
                    p as int,
                ));
                assert(data@.subrange(fstart as int, p as int + 1).last() == data@[p as int]);
            }
            fv = nfv;
            den = nden;
            p = p + 1;
        }
    }
    let fend = p;
    let ghost fendk = fend as int - bstart as int;
    proof {
        lemma_exp_pos(body);
        // everything scanned so far is a digit or the one decimal point, so
        // the exponent marker, if any, is not before the current position
        assert(exp_pos(body) >= fendk) by {
            if exp_pos(body) < fendk {
                assert(body[exp_pos(body)] == 101 || body[exp_pos(body)] == 69);
                if exp_pos(body) < k {
                    assert(is_digit(body[exp_pos(body)]));
                } else if exp_pos(body) == k && fend > ipend {
                    assert(body[k] == 46);
                } else {
                    assert(is_digit(data@[bstart + exp_pos(body)]));
                }
            }
        }
    }
    let mut eneg = false;
    let mut ev: i128 = 0;
    if p < end && (data[p] == 101u8 || data[p] == 69u8) {
        proof {
            lemma_exp_pos(body);
            assert(exp_pos(body) >= fendk);
            assert(exp_pos(body) == fendk) by {
                if exp_pos(body) > fendk {
                    assert(body[fendk] != 101 && body[fendk] != 69);
                }
            }
        }
        p = p + 1;
        if p < end && (data[p] == 45u8 || data[p] == 43u8) {
            eneg = data[p] == 45u8;
            p = p + 1;
        }
        let edstart = p;
        proof {
            assert(exp_str(body) =~= data@.subrange(fend as int + 1, end as int));
            assert(strip_sign(exp_str(body)) =~= data@.subrange(edstart as int, end as int));
            assert(eneg == is_neg(exp_str(body)));
        }
        while p < end && 48 <= data[p] && data[p] <= 57
            invariant
                start <= bstart <= fend < edstart <= p <= end <= data@.len(),
                body == data@.subrange(bstart as int, end as int),
                0 <= ev <= 189,
                digits_val(data@.subrange(edstart as int, p as int)) <= 18 ==> ev == digits_val(
                    data@.subrange(edstart as int, p as int),
                ),
                digits_val(data@.subrange(edstart as int, p as int)) > 18 ==> ev > 18,
                digits_val(data@.subrange(edstart as int, p as int)) >= 0,
                forall|i: int| edstart <= i < p ==> is_digit(#[trigger] data@[i]),
            decreases end - p,
        {
            let d: i128 = (data[p] - 48) as i128;
            proof {
                assert(data@.subrange(edstart as int, p as int + 1).drop_last() =~= data@.subrange(
                    edstart as int,
                    p as int,
                ));
                assert(data@.subrange(edstart as int, p as int + 1).last() == data@[p as int]);
            }
            if ev <= 18 {
                ev = ev * 10 + d;
            }
            p = p + 1;
        }
        if p < end {
            proof {
                let e = strip_sign(exp_str(body));
                assert(e[p as int - edstart as int] == data@[p as int]);
                assert(!is_digit(e[p as int - edstart as int]));
            }
            return Err(KinError::ParseError);
        }
        if p == edstart {
            proof {
                assert(strip_sign(exp_str(body)).len() == 0);
            }
            return Err(KinError::ParseError);
        }
    } else if p < end {
        proof {
            lemma_exp_pos(body);
            // a character that is neither a digit, the first point, nor an
            // exponent marker
            assert(exp_pos(body) > fendk) by {
                if exp_pos(body) == fendk {
                    assert(body[fendk] == 101 || body[fendk] == 69);
                }
            }
            let mb = mant(body);
            lemma_dot_pos(mb);
            if fend > ipend {
                // inside the fraction digits
                assert(mb[k] == 46);
                if dot_pos(mb) < k {
                    assert(is_digit(mb[dot_pos(mb)]));
                }
                if dot_pos(mb) > k {
                    assert(mb[k] != 46);
                }
                assert(dot_pos(mb) == k);
                assert(frac_part(mb)[fendk - k - 1] == body[fendk]);
                assert(!is_digit(frac_part(mb)[fendk - k - 1]));
            } else {
                // right after the integer digits
                let dp = dot_pos(mb);
                if dp < k {
                    assert(is_digit(mb[dp]));
                } else if dp == k {
                    assert(mb[k] == 46);
                    assert(body[k] == 46);
                } else {
                    assert(int_part(mb)[k] == mb[k]);
                    assert(!is_digit(int_part(mb)[k]));
                }
            }
        }
        return Err(KinError::ParseError);
    }
    proof {
        lemma_exp_pos(body);
        // the mantissa region is fully characterized
        if exp_pos(body) == fendk && fendk < body.len() {
        } else {
            assert(exp_pos(body) == body.len()) by {
                if exp_pos(body) < body.len() {
                    assert(body[exp_pos(body)] == 101 || body[exp_pos(body)] == 69);
                    if exp_pos(body) < k {
                        assert(is_digit(body[exp_pos(body)]));
                    } else if exp_pos(body) == k && fend > ipend {
                    } else {
                        assert(is_digit(data@[bstart + exp_pos(body)]));
                    }
                }
            }
        }
        let mb = mant(body);
        lemma_dot_pos(mb);
        if fend > ipend {
            assert(mb[k] == 46);
            if dot_pos(mb) < k {
                assert(is_digit(mb[dot_pos(mb)]));
            }
            if dot_pos(mb) > k {
                assert(mb[k] != 46);
            }
            assert(dot_pos(mb) == k);
        } else {
            assert(dot_pos(mb) == mb.len()) by {
                if dot_pos(mb) < mb.len() {
                    assert(is_digit(mb[dot_pos(mb)]));
                }
            }
        }
        assert(int_part(mb) =~= data@.subrange(bstart as int, ipend as int));
        assert(frac_part(mb) =~= data@.subrange(fstart as int, fend as int));
    }
    if ipend == bstart && fend == fstart {
        proof {
            assert(int_part(mant(body)).len() == 0 && frac_part(mant(body)).len() == 0);
        }
        return Err(KinError::ParseError);
    }
    proof {
        assert(num_wf(tok));
        assert(0 <= ip * den <= RAT_BOUND * RAT_BOUND) by (nonlinear_arith)
            requires
                0 <= ip <= RAT_BOUND,
                1 <= den <= RAT_BOUND,
        ;
    }
    let mag: i128 = ip * den + fv;
    if fend < end {
        // an exponent is present
        if ev > 18 {
            proof {
                if plain_decimal18(tok) {
                    assert(exp_pos(body) == body.len());
                    assert(false);
                }
            }
            return Err(KinError::RangeExhausted);
        }
        let ghost evg = ev as int;
        if eneg {
            let mut dd: i128 = den;
            let mut i: i128 = 0;
            while i < ev
                invariant
                    0 <= i <= ev <= 18,
                    1 <= den <= RAT_BOUND,
                    1 <= dd <= RAT_WIDE,
                    dd == den * pow10(i as int),
                    tok == data@.subrange(start as int, end as int),
                    body == strip_sign(tok),
                    exp_pos(body) < body.len(),
                decreases ev - i,
            {
                if dd > RAT_WIDE / 10 {
                    proof {
                        if plain_decimal18(tok) {
                            assert(false);
                        }
                    }
                    return Err(KinError::RangeExhausted);
                }
                proof {
                    assert(den * pow10(i as int) * 10 == den * pow10(i as int + 1))
                        by (nonlinear_arith)
                        requires
                            pow10(i as int + 1) == 10 * pow10(i as int),
                    ;
                }
                dd = dd * 10;
                i = i + 1;
            }
            let num: i128 = if neg {
                -mag
            } else {
                mag
            };
            match Rat::from_wide(num, dd) {
                Some(r) => {
                    proof {
                        assert(qeq(r@, num_val(tok)));
                    }
                    Ok(r)
                },
                None => {
                    proof {
                        if plain_decimal18(tok) {
                            assert(false);
                        }
                    }
                    Err(KinError::RangeExhausted)
                },
            }
        } else {
            let mut mm: i128 = mag;
            let mut i: i128 = 0;
            proof {
                assert(mag >= 0) by (nonlinear_arith)
                    requires
                        mag == ip * den + fv,
                        0 <= ip,
                        1 <= den,
                        0 <= fv,
                ;
            }
            while i < ev
                invariant
                    0 <= i <= ev <= 18,
                    0 <= mm <= RAT_WIDE,
                    mm == mag * pow10(i as int),
                    mag >= 0,
                    tok == data@.subrange(start as int, end as int),
                    body == strip_sign(tok),
                    exp_pos(body) < body.len(),
                decreases ev - i,
            {
                if mm > RAT_WIDE / 10 {
                    proof {
                        if plain_decimal18(tok) {
                            assert(false);
                        }
                    }
                    return Err(KinError::RangeExhausted);
                }
                proof {
                    assert(mag * pow10(i as int) * 10 == mag * pow10(i as int + 1))
                        by (nonlinear_arith)
                        requires
                            pow10(i as int + 1) == 10 * pow10(i as int),
                    ;
                }
                mm = mm * 10;
                i = i + 1;
            }
            let num: i128 = if neg {
                -mm
            } else {
                mm
            };
            match Rat::from_wide(num, den) {
                Some(r) => {
                    proof {
                        assert(qeq(r@, num_val(tok)));
                    }
                    Ok(r)
                },
                None => {
                    proof {
                        if plain_decimal18(tok) {
                            assert(false);
                        }
                    }
                    Err(KinError::RangeExhausted)
                },
            }
        }
    } else {
        let num: i128 = if neg {
            -mag
        } else {
            mag
        };
        match Rat::from_wide(num, den) {
            Some(r) => {
                proof {
                    assert(qeq(r@, num_val(tok)));
                }
                Ok(r)
            },
            None => {
                proof {
                    if plain_decimal18(tok) {
                        lemma_plain_fits(
                            tok,
                            body,
                            ip as int,
                            fv as int,
                            den as int,
                            num as int,
                        );
                        assert(false);
                    }
                }
                Err(KinError::RangeExhausted)
            },
        }
    }
}

/// Index of the first comma at or after `from`, or the length if there is
/// none.
pub open spec fn next_comma(s: Seq<u8>, from: int) -> int
    decreases s.len() - from,
{
    if from >= s.len() {
        s.len() as int
    } else if s[from] == 44 {
        from
    } else {
        next_comma(s, from + 1)
    }
}

pub proof fn lemma_next_comma(s: Seq<u8>, from: int)
    requires
        0 <= from <= s.len(),
    ensures
        from <= next_comma(s, from) <= s.len(),
        next_comma(s, from) < s.len() ==> s[next_comma(s, from)] == 44,
        forall|i: int| from <= i < next_comma(s, from) ==> s[i] != 44,
    decreases s.len() - from,
{
    if from < s.len() && s[from] != 44 {
        lemma_next_comma(s, from + 1);
    }
}

/// Start index of the comma-separated field `j` (one past the end when fewer
/// fields exist).
pub open spec fn field_start(s: Seq<u8>, j: int) -> int
    decreases j,
{
    if j <= 0 {
        0
    } else {
        next_comma(s, field_start(s, j - 1)) + 1
    }
}

/// The comma-separated field `j` of the text.
pub open spec fn cfg_fieldv(s: Seq<u8>, j: int) -> Seq<u8> {
    s.subrange(field_start(s, j), next_comma(s, field_start(s, j)))
}

proof fn lemma_field_start_overflow(s: Seq<u8>, i: int, j: int)
    requires
        0 <= i <= j,
        field_start(s, i) > s.len(),
    ensures
        field_start(s, j) > s.len(),
    decreases j - i,
{
    if i < j {
        assert(next_comma(s, field_start(s, i)) == s.len());
        assert(field_start(s, i + 1) == s.len() + 1);
        lemma_field_start_overflow(s, i + 1, j);
    }
}

/// Reads one comma-separated field beginning at `pos` as a real token, and
/// hands back the start of the next field.
fn next_field(data: &[u8], pos: usize) -> (res: Result<(Rat, usize), KinError>)
    requires
        pos <= data@.len(),
        data@.len() < usize::MAX,
    ensures
        res is Ok ==> ({
            let v = res.unwrap().0;
            let np = res.unwrap().1;
            &&& rat_wf(v)
            &&& num_wf(data@.subrange(pos as int, next_comma(data@, pos as int)))
            &&& qeq(v@, num_val(data@.subrange(pos as int, next_comma(data@, pos as int))))
            &&& np == next_comma(data@, pos as int) + 1
        }),
        res == Result::<(Rat, usize), KinError>::Err(KinError::ParseError) ==> !num_wf(
            data@.subrange(pos as int, next_comma(data@, pos as int)),
        ),
        res is Err ==> (res == Result::<(Rat, usize), KinError>::Err(KinError::ParseError) || res
            == Result::<(Rat, usize), KinError>::Err(KinError::RangeExhausted)),
{
    proof {
        lemma_next_comma(data@, pos as int);
    }
    let n = data.len();
    let mut e = pos;
    while e < n && data[e] != 44u8
        invariant
            pos <= e <= n,
            n == data@.len(),
            forall|i: int| pos <= i < e ==> data@[i] != 44,
        decreases n - e,
    {
        e = e + 1;
    }
    proof {
        let nc = next_comma(data@, pos as int);
        if nc < e {
            assert(data@[nc] == 44);
        }
        if e < nc {
            assert(data@[e as int] != 44);
        }
        assert(nc == e as int);
    }
    let v = match parse_number(data, pos, e) {
        Ok(v) => v,
        Err(err) => {
            return Err(err);
        },
    };
    Ok((v, e + 1))
}

/// Reads a geometry configuration line: exactly twelve comma-separated real
/// numbers, the first nine filling the rotation row-major, the last three
/// the translation. Trailing extra fields are ignored. Fails with
/// `ParseError` when fewer than twelve fields are present or a field is not
/// a well-formed real token, and with `RangeExhausted` when a value does not
/// fit the scalar representation.
pub fn hardcoded_setup_from_string(raw: &str) -> (res: Result<Pose, KinError>)
    requires
        raw.spec_bytes().len() < usize::MAX,
    ensures
        res is Ok ==> ({
            let p = res.unwrap();
            let s = raw.spec_bytes();
            &&& pose_wf(p)
            &&& field_start(s, 11) <= s.len()
            &&& (forall|j: int| 0 <= j < 12 ==> num_wf(#[trigger] cfg_fieldv(s, j)))
            &&& qeq(p@.r.e00, num_val(cfg_fieldv(s, 0)))
            &&& qeq(p@.r.e01, num_val(cfg_fieldv(s, 1)))
            &&& qeq(p@.r.e02, num_val(cfg_fieldv(s, 2)))
            &&& qeq(p@.r.e10, num_val(cfg_fieldv(s, 3)))
            &&& qeq(p@.r.e11, num_val(cfg_fieldv(s, 4)))
            &&& qeq(p@.r.e12, num_val(cfg_fieldv(s, 5)))
            &&& qeq(p@.r.e20, num_val(cfg_fieldv(s, 6)))
            &&& qeq(p@.r.e21, num_val(cfg_fieldv(s, 7)))
            &&& qeq(p@.r.e22, num_val(cfg_fieldv(s, 8)))
            &&& qeq(p@.t.x, num_val(cfg_fieldv(s, 9)))
            &&& qeq(p@.t.y, num_val(cfg_fieldv(s, 10)))
            &&& qeq(p@.t.z, num_val(cfg_fieldv(s, 11)))
        }),
        res == Result::<Pose, KinError>::Err(KinError::ParseError) ==> (field_start(
            raw.spec_bytes(),
            11,
        ) > raw.spec_bytes().len() || (exists|j: int|
            0 <= j < 12 && !num_wf(#[trigger] cfg_fieldv(raw.spec_bytes(), j)))),
{
    let data: &[u8] = raw.as_bytes();
    let ghost s = raw.spec_bytes();
    let mut vals: Vec<Rat> = Vec::new();
    let mut j: usize = 0;
    let mut pos: usize = 0;
    while j < 12
        invariant
            data@ == s,
            s == raw.spec_bytes(),
            s.len() < usize::MAX,
            0 <= j <= 12,
            vals@.len() == j,
            j < 12 ==> pos as int == field_start(s, j as int) && pos <= data@.len(),
            j == 12 ==> field_start(s, 11) <= s.len(),
            forall|t: int|
                0 <= t < j ==> rat_wf(#[trigger] vals@[t]) && num_wf(cfg_fieldv(s, t)) && qeq(
                    vals@[t]@,
                    num_val(cfg_fieldv(s, t)),
                ),
        decreases 12 - j,
    {
        let fr = next_field(data, pos);
        let (v, np) = match fr {
            Ok(x) => x,
            Err(e) => {
                proof {
                    if e == KinError::ParseError {
                        assert(fr == Result::<(Rat, usize), KinError>::Err(KinError::ParseError));
                        assert(!num_wf(s.subrange(pos as int, next_comma(s, pos as int))));
                        assert(cfg_fieldv(s, j as int) == s.subrange(
                            pos as int,
                            next_comma(s, pos as int),
                        ));
                        assert(0 <= (j as int) && (j as int) < 12 && !num_wf(
                            cfg_fieldv(s, j as int),
                        ));
                    }
                }
                return Err(e);
            },
        };
        vals.push(v);
        j = j + 1;
        if j < 12 {
            if np > data.len() {
                proof {
                    assert(field_start(s, j as int) == np as int);
                    assert(field_start(s, j as int) > s.len());
                    lemma_field_start_overflow(s, j as int, 11);
                    assert(field_start(s, 11) > s.len());
                }
                return Err(KinError::ParseError);
            }
            pos = np;
        }
    }
    let r = Mat3 {
        e00: vals[0],
        e01: vals[1],
        e02: vals[2],
        e10: vals[3],
        e11: vals[4],
        e12: vals[5],
        e20: vals[6],
        e21: vals[7],
        e22: vals[8],
    };
    let t = Vec3 { x: vals[9], y: vals[10], z: vals[11] };
    Ok(Pose { r, t })
}

} // verus!
