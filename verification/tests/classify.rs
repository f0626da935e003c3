use numlit::grammar::classify;
use numlit::grammar::matches_float;
use numlit::grammar::matches_imaginary;
use numlit::grammar::matches_integer;
use numlit::grammar::Kind;

#[test]
fn example_table() {
    assert_eq!(classify("0"), Kind::Integer);
    assert_eq!(classify("0_1_2"), Kind::Integer);
    assert_eq!(classify("0xFF"), Kind::Integer);
    assert_eq!(classify("3."), Kind::Float);
    assert_eq!(classify(".25"), Kind::Float);
    assert_eq!(classify("1e10"), Kind::Float);
    assert_eq!(classify("2j"), Kind::Imaginary);
    assert_eq!(classify("1.5e3J"), Kind::Imaginary);
}

#[test]
fn decimal_integers() {
    assert_eq!(classify("7"), Kind::Integer);
    assert_eq!(classify("42"), Kind::Integer);
    assert_eq!(classify("1_000"), Kind::Integer);
    assert_eq!(classify("9_9_9"), Kind::Integer);
    assert_eq!(classify("00"), Kind::Integer);
    assert_eq!(classify("0_0"), Kind::Integer);
    assert!(matches_integer("1_000"));
    assert!(matches_integer("0_0"));
}

#[test]
fn radix_integers() {
    assert_eq!(classify("0x1F"), Kind::Integer);
    assert_eq!(classify("0x_1F"), Kind::Integer);
    assert_eq!(classify("0XaB"), Kind::Integer);
    assert_eq!(classify("0b101"), Kind::Integer);
    assert_eq!(classify("0B1_0"), Kind::Integer);
    assert_eq!(classify("0o17"), Kind::Integer);
    assert_eq!(classify("0O_7"), Kind::Integer);
    assert!(matches_integer("0x_1F"));
    assert!(!matches_integer("0x"));
    assert!(!matches_integer("0b2"));
    assert!(!matches_integer("0o8"));
}

#[test]
fn point_floats() {
    assert_eq!(classify("3.14"), Kind::Float);
    assert_eq!(classify(".5"), Kind::Float);
    assert_eq!(classify("5."), Kind::Float);
    assert_eq!(classify("0.5"), Kind::Float);
    assert_eq!(classify("1_0.2_5"), Kind::Float);
    assert_eq!(classify("3.14e10"), Kind::Float);
    assert_eq!(classify("3.14E-10"), Kind::Float);
    assert_eq!(classify("1_0.e1_0"), Kind::Float);
    assert!(matches_float(".5"));
    assert!(matches_float("5."));
    assert!(!matches_float("."));
    assert!(!matches_float("5"));
}

#[test]
fn exponent_floats() {
    assert_eq!(classify("5e10"), Kind::Float);
    assert_eq!(classify("5E+3"), Kind::Float);
    assert_eq!(classify("2e-1"), Kind::Float);
    assert_eq!(classify("1_0e1_0"), Kind::Float);
    assert!(matches_float("5e10"));
    assert!(!matches_float("5e"));
    assert!(!matches_float("5e+"));
    assert!(!matches_float("e5"));
}

#[test]
fn imaginaries() {
    assert_eq!(classify("5j"), Kind::Imaginary);
    assert_eq!(classify("2J"), Kind::Imaginary);
    assert_eq!(classify("3_0j"), Kind::Imaginary);
    assert_eq!(classify("3.14j"), Kind::Imaginary);
    assert_eq!(classify(".5j"), Kind::Imaginary);
    assert_eq!(classify("5.J"), Kind::Imaginary);
    assert_eq!(classify("5e10j"), Kind::Imaginary);
    assert_eq!(classify("3.14E-10J"), Kind::Imaginary);
    assert!(matches_imaginary("5j"));
    assert!(!matches_imaginary("j"));
    assert!(!matches_imaginary(".j"));
    assert!(!matches_imaginary("5"));
}

#[test]
fn fallback_matches_nothing() {
    // none of the three grammars matches; classification still answers,
    // with Integer
    for text in [
        "", "abc", ".", "_1", "1_", "1__2", "0x", "e5", "j", "+1", "1.2.3", "5e+", "0b2",
        "0o8", "0_1", "0xFFj", "1.5e3.5", "5ee5", "0x1.5",
    ] {
        assert!(!matches_integer(text));
        assert!(!matches_float(text));
        assert!(!matches_imaginary(text));
        assert_eq!(classify(text), Kind::Integer);
    }
}

#[test]
fn priority_ordering() {
    // the grammars are mutually exclusive by construction, so no text can
    // match two of them; the if-chain's order still shows: integer is
    // tried first and is also the fallback, so a non-matching text lands
    // on Integer, never on Float or Imaginary
    assert_eq!(classify("0"), Kind::Integer);
    assert_eq!(classify("1_"), Kind::Integer);
    assert_eq!(classify("3.j_"), Kind::Integer);
    // each grammar claims exactly its own forms
    assert!(matches_integer("10") && !matches_float("10") && !matches_imaginary("10"));
    assert!(!matches_integer("1.0") && matches_float("1.0") && !matches_imaginary("1.0"));
    assert!(!matches_integer("1j") && !matches_float("1j") && matches_imaginary("1j"));
}

#[test]
fn classify_twice_agrees() {
    for text in ["0", "3.14", "2j", "0_1_2", ""] {
        assert_eq!(classify(text), classify(text));
    }
}
