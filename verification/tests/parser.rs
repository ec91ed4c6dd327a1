use ik_chain::parse::{hardcoded_setup_from_string, parse_number};
use ik_chain::rat::Rat;
use ik_chain::KinError;

fn rt(n: i128, d: i128) -> Rat {
    Rat::new(n, d).unwrap()
}

#[test]
fn parses_twelve_values() {
    let p = hardcoded_setup_from_string("1,0,0,0,1,0,0,0,1,0.5,-0.25,3.125").unwrap();
    assert!(p.r.e00.eqv(&rt(1, 1)));
    assert!(p.r.e01.eqv(&rt(0, 1)));
    assert!(p.r.e11.eqv(&rt(1, 1)));
    assert!(p.r.e22.eqv(&rt(1, 1)));
    assert!(p.t.x.eqv(&rt(1, 2)));
    assert!(p.t.y.eqv(&rt(-1, 4)));
    assert!(p.t.z.eqv(&rt(25, 8)));
}

#[test]
fn trailing_fields_are_ignored() {
    let p = hardcoded_setup_from_string("1,2,3,4,5,6,7,8,9,10,11,12,garbage,99").unwrap();
    assert!(p.r.e00.eqv(&rt(1, 1)));
    assert!(p.r.e21.eqv(&rt(8, 1)));
    assert!(p.t.z.eqv(&rt(12, 1)));
}

#[test]
fn too_few_fields_is_a_parse_error() {
    assert_eq!(
        hardcoded_setup_from_string("1,2,3").unwrap_err(),
        KinError::ParseError
    );
    assert_eq!(
        hardcoded_setup_from_string("").unwrap_err(),
        KinError::ParseError
    );
}

#[test]
fn malformed_token_is_a_parse_error() {
    assert_eq!(
        hardcoded_setup_from_string("1,0,0,0,x,0,0,0,1,0,0,0").unwrap_err(),
        KinError::ParseError
    );
    assert_eq!(
        hardcoded_setup_from_string("1,0,0,0,,0,0,0,1,0,0,0").unwrap_err(),
        KinError::ParseError
    );
    assert_eq!(
        hardcoded_setup_from_string("1,0,0,0,1.2.3,0,0,0,1,0,0,0").unwrap_err(),
        KinError::ParseError
    );
}

#[test]
fn parse_number_exact_values() {
    let b = b"3.25";
    let v = parse_number(b, 0, 4).unwrap();
    assert!(v.eqv(&rt(13, 4)));
    let b = b"-0.5";
    let v = parse_number(b, 0, 4).unwrap();
    assert!(v.eqv(&rt(-1, 2)));
    let b = b".5";
    let v = parse_number(b, 0, 2).unwrap();
    assert!(v.eqv(&rt(1, 2)));
    let b = b"7.";
    let v = parse_number(b, 0, 2).unwrap();
    assert!(v.eqv(&rt(7, 1)));
    let b = b"+42";
    let v = parse_number(b, 0, 3).unwrap();
    assert!(v.eqv(&rt(42, 1)));
}

#[test]
fn exponent_notation_is_accepted() {
    let b = b"1e3";
    assert!(parse_number(b, 0, 3).unwrap().eqv(&rt(1000, 1)));
    let b = b"2.5e2";
    assert!(parse_number(b, 0, 5).unwrap().eqv(&rt(250, 1)));
    let b = b"-1.5E-2";
    assert!(parse_number(b, 0, 7).unwrap().eqv(&rt(-3, 200)));
    let b = b"3e+4";
    assert!(parse_number(b, 0, 4).unwrap().eqv(&rt(30000, 1)));
    let p = hardcoded_setup_from_string("1e3,0,0,0,1,0,0,0,1,4,5,6").unwrap();
    assert!(p.r.e00.eqv(&rt(1000, 1)));
    assert!(p.t.x.eqv(&rt(4, 1)));
    // exponent field must hold at least one digit
    assert_eq!(parse_number(b"1e", 0, 2).unwrap_err(), KinError::ParseError);
    assert_eq!(parse_number(b"1e+", 0, 3).unwrap_err(), KinError::ParseError);
    assert_eq!(parse_number(b"1e2x", 0, 4).unwrap_err(), KinError::ParseError);
}

#[test]
fn oversized_value_exhausts_the_range() {
    // far beyond the representable numerator bound
    let b = b"99999999999999999999999999";
    assert_eq!(
        parse_number(b, 0, b.len()).unwrap_err(),
        KinError::RangeExhausted
    );
}

#[test]
fn parse_number_rejects_garbage() {
    assert_eq!(parse_number(b"", 0, 0).unwrap_err(), KinError::ParseError);
    assert_eq!(parse_number(b"-", 0, 1).unwrap_err(), KinError::ParseError);
    assert_eq!(parse_number(b".", 0, 1).unwrap_err(), KinError::ParseError);
    assert_eq!(parse_number(b"--3", 0, 3).unwrap_err(), KinError::ParseError);
    assert_eq!(parse_number(b"1x2", 0, 3).unwrap_err(), KinError::ParseError);
    assert_eq!(parse_number(b"1.2.3", 0, 5).unwrap_err(), KinError::ParseError);
}
