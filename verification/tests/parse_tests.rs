use sketches::seed::Seed;
use sketches::size::Size;

#[test]
fn size_square_form() {
    let s = Size::from_arg("640").unwrap();
    assert_eq!(s.width(), 640);
    assert_eq!(s.height(), 640);
}

#[test]
fn size_rectangular_form() {
    let s = Size::from_arg("1600x600").unwrap();
    assert_eq!(s.width(), 1600);
    assert_eq!(s.height(), 600);
}

#[test]
fn size_rejects_malformed() {
    assert!(Size::from_arg("").is_err());
    assert!(Size::from_arg("x").is_err());
    assert!(Size::from_arg("12x").is_err());
    assert!(Size::from_arg("x12").is_err());
    assert!(Size::from_arg("12y34").is_err());
    assert!(Size::from_arg("12x34x56").is_err());
    assert!(Size::from_arg(" 12").is_err());
    assert!(Size::from_arg("+").is_err());
    assert!(Size::from_arg("--3").is_err());
    assert!(Size::from_arg("+-3").is_err());
    assert!(Size::from_arg("3-4").is_err());
}

#[test]
fn size_accepts_signed_forms() {
    // Each side takes one optional sign, as signed integer parsing does.
    let s = Size::from_arg("+2x3").unwrap();
    assert_eq!(s.width(), 2);
    assert_eq!(s.height(), 3);
    let s = Size::from_arg("-3x4").unwrap();
    assert_eq!(s.width(), -3);
    assert_eq!(s.height(), 4);
    assert_eq!(Size::from_arg("+12").unwrap().width(), 12);
    assert_eq!(Size::from_arg("-0").unwrap().height(), 0);
}

#[test]
fn size_boundary_values() {
    assert_eq!(Size::from_arg("2147483647").unwrap().width(), i32::MAX);
    assert!(Size::from_arg("2147483648").is_err());
    assert_eq!(Size::from_arg("-2147483648").unwrap().width(), i32::MIN);
    assert!(Size::from_arg("-2147483649").is_err());
    assert!(Size::from_arg("+2147483648").is_err());
    assert_eq!(Size::from_arg("0x0").unwrap().width(), 0);
    assert_eq!(Size::from_arg("007x08").unwrap().width(), 7);
}

#[test]
fn seed_hex_parse() {
    assert_eq!(Seed::from_arg("0").unwrap().value(), 0);
    assert_eq!(Seed::from_arg("ff").unwrap().value(), 255);
    assert_eq!(Seed::from_arg("DEADbeef").unwrap().value(), 0xdead_beef);
    assert_eq!(Seed::from_arg("ffffffffffffffff").unwrap().value(), u64::MAX);
}

#[test]
fn seed_accepts_a_leading_plus() {
    // Base-16 integer parsing admits one leading plus sign.
    assert_eq!(Seed::from_arg("+1").unwrap().value(), 1);
    assert_eq!(Seed::from_arg("+ff").unwrap().value(), 255);
    assert!(Seed::from_arg("+").is_err());
    assert!(Seed::from_arg("++1").is_err());
    assert!(Seed::from_arg("-1").is_err());
}

#[test]
fn seed_rejects_malformed() {
    assert!(Seed::from_arg("").is_err());
    assert!(Seed::from_arg("xyz").is_err());
    assert!(Seed::from_arg("12 34").is_err());
    // One digit beyond 64 bits overflows.
    assert!(Seed::from_arg("10000000000000000").is_err());
    // Leading zeros keep a long string within range.
    assert_eq!(Seed::from_arg("00000000000000000001").unwrap().value(), 1);
}

#[test]
fn seed_hex_bytes_padded() {
    assert_eq!(Seed::new(0).hex_bytes(), b"00000000".to_vec());
    assert_eq!(Seed::new(0x1a2b).hex_bytes(), b"00001a2b".to_vec());
    assert_eq!(Seed::new(0xdead_beef).hex_bytes(), b"deadbeef".to_vec());
    assert_eq!(Seed::new(0x1_0000_0000).hex_bytes(), b"100000000".to_vec());
    assert_eq!(Seed::new(u64::MAX).hex_bytes(), b"ffffffffffffffff".to_vec());
}

#[test]
fn size_accessors() {
    let s = Size::new(12, 34);
    assert_eq!(s.width(), 12);
    assert_eq!(s.height(), 34);
    assert_eq!(Seed::new(77).value(), 77);
}
