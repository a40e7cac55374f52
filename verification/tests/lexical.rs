use espr::parser::{digit as scan_digit, letter as scan_letter, simple_id as scan_simple_id};

#[test]
fn letter() {
    let (residual, l) = scan_letter("h").unwrap();
    assert_eq!(l, 'h');
    assert_eq!(residual, "");

    let (residual, l) = scan_letter("abc").unwrap();
    assert_eq!(l, 'a');
    assert_eq!(residual, "bc");

    // Capital is not allowed
    assert!(scan_letter("H").is_none());
    // Number is not allowed
    assert!(scan_letter("2").is_none());
}

#[test]
fn digit() {
    let (residual, l) = scan_digit("123").unwrap();
    assert_eq!(l, '1');
    assert_eq!(residual, "23");

    // Alphabets are not allowed
    assert!(scan_digit("h").is_none());
}

#[test]
fn simple_id_valid() {
    let (residual, id) = scan_simple_id("h").unwrap();
    assert_eq!(id, "h");
    assert_eq!(residual, "");

    let (residual, id) = scan_simple_id("homhom").unwrap();
    assert_eq!(id, "homhom");
    assert_eq!(residual, "");

    let (residual, id) = scan_simple_id("ho_mhom").unwrap();
    assert_eq!(id, "ho_mhom");
    assert_eq!(residual, "");

    let (residual, id) = scan_simple_id("h10o_1mh2om").unwrap();
    assert_eq!(id, "h10o_1mh2om");
    assert_eq!(residual, "");
}

#[test]
fn simple_id_invalid() {
    // Capital is not allowed
    assert!(scan_simple_id("HomHom").is_none());
    // `_` cannot be used first
    assert!(scan_simple_id("_homhom").is_none());
    // digit cannot be used first
    assert!(scan_simple_id("1homhom").is_none());
    // Empty is invalid
    assert!(scan_simple_id("").is_none());
}
