use numlit::parser::parse_number;
use numlit::parser::Expression;
use numlit::parser::Token;

fn token(text: &str, position: usize) -> Token {
    Token { text: String::from(text), position }
}

#[test]
fn integer_node_keeps_text_verbatim() {
    let e = parse_number(token("0x_1F", 7));
    match e {
        Expression::Integer(n) => {
            assert_eq!(n.value, "0x_1F");
            assert_eq!(n.tok.text, "0x_1F");
            assert_eq!(n.tok.position, 7);
            assert!(n.lpar.is_empty());
            assert!(n.rpar.is_empty());
        }
        _ => panic!("expected an Integer node"),
    }
}

#[test]
fn float_node_keeps_text_verbatim() {
    let e = parse_number(token("3.14E-10", 0));
    match e {
        Expression::Float(n) => {
            assert_eq!(n.value, "3.14E-10");
            assert_eq!(n.tok.text, "3.14E-10");
            assert_eq!(n.tok.position, 0);
            assert!(n.lpar.is_empty());
            assert!(n.rpar.is_empty());
        }
        _ => panic!("expected a Float node"),
    }
}

#[test]
fn imaginary_node_keeps_text_verbatim() {
    let e = parse_number(token("1.5e3J", 42));
    match e {
        Expression::Imaginary(n) => {
            assert_eq!(n.value, "1.5e3J");
            assert_eq!(n.tok.text, "1.5e3J");
            assert_eq!(n.tok.position, 42);
            assert!(n.lpar.is_empty());
            assert!(n.rpar.is_empty());
        }
        _ => panic!("expected an Imaginary node"),
    }
}

#[test]
fn fallback_node_keeps_invalid_text() {
    // an empty token matches no grammar: it still comes back, unchanged,
    // as an Integer node
    let e = parse_number(token("", 3));
    match e {
        Expression::Integer(n) => {
            assert_eq!(n.value, "");
            assert_eq!(n.tok.text, "");
            assert_eq!(n.tok.position, 3);
        }
        _ => panic!("expected the Integer fallback"),
    }
    let e = parse_number(token("0_1_2", 0));
    match e {
        Expression::Integer(n) => assert_eq!(n.value, "0_1_2"),
        _ => panic!("expected the Integer fallback"),
    }
}

#[test]
fn parse_table_variants() {
    let rows: [(&str, u8); 8] = [
        ("0", 0),
        ("0_1_2", 0),
        ("0xFF", 0),
        ("3.", 1),
        (".25", 1),
        ("1e10", 1),
        ("2j", 2),
        ("1.5e3J", 2),
    ];
    for (text, variant) in rows {
        let e = parse_number(token(text, 0));
        let (got, value) = match e {
            Expression::Integer(n) => (0, n.value),
            Expression::Float(n) => (1, n.value),
            Expression::Imaginary(n) => (2, n.value),
        };
        assert_eq!(got, variant, "variant for {:?}", text);
        assert_eq!(value, text);
    }
}

#[test]
fn parse_twice_agrees() {
    // classifying the same text twice gives the same variant and the same
    // stored text, whatever the token positions were
    for text in ["0", "0xFF", "3.14", "5e10", "2j", "0_1_2", ""] {
        let a = parse_number(token(text, 1));
        let b = parse_number(token(text, 9));
        let tag = |e: &Expression| match e {
            Expression::Integer(_) => 0,
            Expression::Float(_) => 1,
            Expression::Imaginary(_) => 2,
        };
        let value = |e: Expression| match e {
            Expression::Integer(n) => n.value,
            Expression::Float(n) => n.value,
            Expression::Imaginary(n) => n.value,
        };
        assert_eq!(tag(&a), tag(&b));
        assert_eq!(value(a), value(b));
    }
}
