use discord_commands::Number;

fn number(x: f64) -> Number {
    Number::new(serde_json::to_string(&x).unwrap()).unwrap()
}

fn literal(text: &str) -> Number {
    Number::new(text.to_string()).unwrap()
}

#[test]
fn json_number_grammar_accepts() {
    for text in [
        "0", "-0", "1", "10", "123456789", "-5", "0.5", "3.14", "-0.001", "1e5", "1E5", "1e+5",
        "1e-5", "1.5e10", "-1.5E-10", "0e0", "0.0", "5.0", "1e16", "1.7976931348623157e308",
        "5e-324", "1e+21", "0.000012345678901234567", "9990000000000000.0",
    ] {
        let n = Number::new(text.to_string());
        assert!(n.is_some(), "{}", text);
        assert_eq!(n.unwrap().text(), text);
    }
}

#[test]
fn json_number_grammar_rejects() {
    for text in [
        "", "-", "+1", "01", "-01", "00", "1.", ".5", "1.e5", "1e", "1e+", "1e-", "e5", "1.5.2",
        "1e5e5", "1 ", " 1", "1,5", "0x10", "NaN", "null", "Infinity", "-Infinity", "1e5.5", "--1",
        "1\u{660}", "\u{661}", "1.5f", "true", "\"1\"",
    ] {
        assert_eq!(Number::new(text.to_string()), None, "{:?}", text);
    }
}

#[test]
fn every_finite_double_the_encoder_writes_is_held() {
    let values = [
        0.0, -0.0, 1.0, -1.0, 5.0, 3.14, 0.1, 1e15, 9.99e15, 1e16, 1e17, 1e20, 1e21, 1e-5,
        1.2345678901234567e-5, 1e-6, 1e-7, 123456789.125, f64::MAX, f64::MIN, f64::MIN_POSITIVE,
        5e-324, -2.5e-300, f64::EPSILON, 0.30000000000000004,
    ];
    for x in values {
        let text = serde_json::to_string(&x).unwrap();
        let n = Number::new(text.clone());
        assert!(n.is_some(), "{}", text);
        let n = n.unwrap();
        assert_eq!(n.text(), text);
        assert_eq!(n.text().parse::<f64>(), Ok(x));
        assert_eq!(n.is_negative(), x.is_sign_negative());
        assert_eq!(n.is_zero(), x == 0.0);
    }
}

#[test]
fn what_json_cannot_spell_is_no_number() {
    for x in [f64::NAN, f64::INFINITY, f64::NEG_INFINITY] {
        assert_eq!(Number::new(serde_json::to_string(&x).unwrap()), None);
    }
}

#[test]
fn digits_beyond_sixty_four_bits_are_not_held() {
    assert!(Number::new("18446744073709551615".to_string()).is_some());
    assert_eq!(Number::new("18446744073709551616".to_string()), None);
    assert!(Number::new("1844674407370955161.5".to_string()).is_some());
    assert_eq!(Number::new("1844674407370955161.6".to_string()), None);
    assert_eq!(Number::new("184467440737095516150".to_string()), None);
    assert_eq!(Number::new("99999999999999999999999999999999999999999".to_string()), None);
    assert!(Number::new("0.00000000000000000000000000000000000000001".to_string()).is_some());
    assert!(Number::new("1e4294967295".to_string()).is_some());
    assert!(Number::new("1e-4294967295".to_string()).is_some());
    assert_eq!(Number::new("1e4294967296".to_string()), None);
    assert_eq!(Number::new("1e99999999999999999999999999".to_string()), None);
}

#[test]
fn sign_and_zero() {
    assert!(literal("-3").is_negative());
    assert!(!literal("3").is_negative());
    assert!(literal("-0.0").is_negative());
    assert!(literal("-0.0").is_zero());
    assert!(literal("0e99").is_zero());
    assert!(!literal("0.001").is_zero());
}

#[test]
fn clone_is_equal() {
    let n = number(2.5);
    let m = n.clone();
    assert_eq!(n, m);
    assert_eq!(m.text(), "2.5");
    assert!(n.le(&m) && m.le(&n));
}

#[test]
fn order_is_that_of_the_doubles() {
    let values = [
        f64::MIN, -1e300, -2.0, -1.5, -1.0, -1e-300, -5e-324, -0.0, 0.0, 5e-324, 1e-300, 1e-7,
        0.1, 0.3, 0.30000000000000004, 0.5, 1.0, 1.0000000000000002, 1.5, 2.0, 3.14, 5.0, 1e15,
        1e16, 1.5e16, 1e21, 1e300, f64::MAX,
    ];
    for a in values {
        for b in values {
            assert_eq!(number(a).le(&number(b)), a <= b, "{} <= {}", a, b);
        }
    }
}

#[test]
fn order_is_by_value_not_by_spelling() {
    let equal = ["1", "1.0", "1.000", "10e-1", "0.1e1", "0.001E+3", "1000e-3", "1e0"];
    for a in equal {
        for b in equal {
            assert!(literal(a).le(&literal(b)), "{} <= {}", a, b);
        }
    }
    let rising = [
        "-1e30", "-100", "-99.5", "-1e-30", "0", "1e-30", "0.999", "1", "1.0001", "9", "10",
        "99e0", "1e2", "100.5", "1e19", "18446744073709551615", "1e20", "2e20", "1e4000000000",
    ];
    for i in 0..rising.len() {
        for j in 0..rising.len() {
            assert_eq!(
                literal(rising[i]).le(&literal(rising[j])),
                i <= j,
                "{} <= {}",
                rising[i],
                rising[j]
            );
        }
    }
}

#[test]
fn both_zeros_are_equal_in_order() {
    assert!(number(0.0).le(&number(-0.0)));
    assert!(number(-0.0).le(&number(0.0)));
    assert!(literal("-0").le(&literal("0e5")));
    assert!(literal("0e5").le(&literal("-0")));
}

#[test]
fn five_is_not_at_most_one() {
    assert!(!number(5.0).le(&number(1.0)));
    assert!(number(1.0).le(&number(5.0)));
    assert!(number(5.0).le(&number(5.0)));
}
