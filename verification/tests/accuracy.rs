use my_contract::{is_acceptable_accuracy, Accuracy};

fn score(text: &str) -> Accuracy {
    Accuracy::parse(text).expect("a decimal text")
}

fn passes(current: &str, proposed: &str) -> bool {
    is_acceptable_accuracy(&score(current), &score(proposed))
}

#[test]
fn parse_accepts_plain_decimals() {
    for text in ["0", "7", "0.92", "12.", ".5", "007", "1.50", "0.0", "000", "9999999999999999999999999999999999999999.1"] {
        let parsed = Accuracy::parse(text);
        assert!(parsed.is_some(), "{text:?} is a decimal text");
        assert_eq!(parsed.unwrap().text(), text);
    }
}

#[test]
fn parse_rejects_what_is_no_plain_decimal() {
    for text in [
        "", ".", "-1", "+1", "-0", "1e5", "1E5", "1.2.3", "..", "1..", "abc", " 1", "1 ", "1 2", "0,5", "NaN",
        "nan", "inf", "infinity", "0x10", "1_000", "\u{663}", "1\u{0660}", "½", "1\n", "\t", "1.a", "a.1",
    ] {
        assert!(Accuracy::parse(text).is_none(), "{text:?} is no decimal text");
    }
}

#[test]
fn zero_is_written_as_one_digit() {
    let zero = Accuracy::zero();
    assert_eq!(zero.text(), "0");
    assert_eq!(zero.text(), (0.0f64).to_string());
    assert_eq!(zero, score("0"));
}

#[test]
fn clone_keeps_the_text() {
    let a = score("0.920");
    let b = a.clone();
    assert_eq!(a, b);
    assert_eq!(b.text(), "0.920");
}

#[test]
fn equal_scores_are_acceptable() {
    for text in ["0", "0.92", "5.", ".5", "123456789012345678901234567890.123456789012345678901234567890"] {
        assert!(passes(text, text));
    }
}

#[test]
fn same_number_written_differently_is_acceptable_both_ways() {
    for (a, b) in [
        ("0.5", "0.50"),
        ("0.5", ".5"),
        ("5", "5."),
        ("5", "5.000"),
        ("10", "0010"),
        ("0", "0.0"),
        ("0", "000.000"),
        ("0", ".0"),
        ("1.50", "01.5"),
    ] {
        assert!(passes(a, b), "{b} after {a}");
        assert!(passes(b, a), "{a} after {b}");
    }
}

#[test]
fn higher_score_is_acceptable_and_lower_is_not() {
    for (low, high) in [
        ("0", "0.92"),
        ("0.80", "0.92"),
        ("0.9", "0.92"),
        ("0.92", "0.920001"),
        ("9.99", "10"),
        ("9", "10"),
        ("0.999999999999999999999999999", "1"),
        ("99", "100"),
        ("1.9", "2.1"),
        ("0.09", "0.1"),
        (".09", ".1"),
        ("0.1", "0.11"),
        ("2", "10"),
        ("0.1", "0.10000000000000000000000000000000000000000000000003"),
        ("0.10000000000000000000000000000000000000000000000003", "0.2"),
        ("0", "0.00000000000000000000000000000000000000000000000001"),
    ] {
        assert!(passes(low, high), "{high} after {low}");
        assert!(!passes(high, low), "{low} after {high}");
    }
}

#[test]
fn scores_beyond_machine_numbers_are_compared_exactly() {
    let a = "100000000000000000000000000000000000000000";
    let b = "100000000000000000000000000000000000000001";
    assert!(passes(a, b));
    assert!(!passes(b, a));
    // the two digits that differ lie far beyond what a float keeps
    let c = "0.10000000000000000000000000000000000000000";
    let d = "0.10000000000000000000000000000000000000001";
    assert!(passes(c, d));
    assert!(!passes(d, c));
    assert_eq!(c.parse::<f64>().unwrap(), d.parse::<f64>().unwrap());
}

#[test]
fn order_agrees_with_floats_on_short_decimals() {
    let mut texts: Vec<String> = Vec::new();
    for whole in 0..12 {
        for hundredths in 0..100 {
            texts.push(format!("{whole}.{hundredths:02}"));
        }
    }
    for a in texts.iter().step_by(7) {
        for b in texts.iter().step_by(11) {
            let expected = b.parse::<f64>().unwrap() >= a.parse::<f64>().unwrap();
            assert_eq!(passes(a, b), expected, "{b} after {a}");
        }
    }
}

#[test]
fn order_is_total_and_transitive_on_samples() {
    let texts = ["0", "0.5", ".50", "0.51", "1", "01.0", "9.99", "10", "10.01", "100"];
    for a in texts {
        for b in texts {
            assert!(passes(a, b) || passes(b, a));
            for c in texts {
                if passes(a, b) && passes(b, c) {
                    assert!(passes(a, c), "{a} <= {b} <= {c}");
                }
            }
        }
    }
}
