use jbread::errors::Error;
use jbread::number;
use jbread::text::push_decimal;

#[test]
fn number_text_of_small_values() {
    assert_eq!(number::to_text(2.0f64.to_bits()), "2");
    assert_eq!(number::to_text(0.1f64.to_bits()), "0.1");
    assert_eq!(number::to_text(100.0f64.to_bits()), "100");
    assert_eq!(number::to_text((-0.5f64).to_bits()), "-0.5");
    assert_eq!(number::to_text(873.1834f64.to_bits()), "873.1834");
    assert_eq!(number::to_text(1e21f64.to_bits()), "1000000000000000000000");
    assert_eq!(number::to_text(1e-7f64.to_bits()), "0.0000001");
    assert_eq!(number::to_text(f64::INFINITY.to_bits()), "inf");
    assert_eq!(number::to_text(f64::NEG_INFINITY.to_bits()), "-inf");
    assert_eq!(number::to_text(f64::NAN.to_bits()), "NaN");
    assert_eq!(number::to_text(0.0f64.to_bits()), "0");
    assert_eq!(number::to_text((-0.0f64).to_bits()), "-0");
    assert_eq!(number::to_text(f64::MAX.to_bits()), format!("{}", f64::MAX));
    assert_eq!(number::to_text(f64::MIN.to_bits()), format!("{}", f64::MIN));
    assert_eq!(number::to_text(1e23f64.to_bits()), "100000000000000000000000");
    assert_eq!(number::to_text(1.5e300f64.to_bits()), format!("{}", 1.5e300f64));
    assert_eq!(number::to_text(123456789.125f64.to_bits()), "123456789.125");
    assert_eq!(number::to_text(f64::MIN_POSITIVE.to_bits()), format!("{}", f64::MIN_POSITIVE));
    assert_eq!(number::to_text(5e-324f64.to_bits()), format!("{}", 5e-324f64));
    assert_eq!(number::to_text(1.0f64.to_bits()), "1");
    assert_eq!(number::to_text(3.14f64.to_bits()), "3.14");
}

#[test]
fn number_order_matches_the_floats() {
    let values = [
        0.0f64, -0.0, 1.0, -1.0, 2.5, -2.5, 1e300, -1e300, 5e-324, -5e-324,
        f64::INFINITY, f64::NEG_INFINITY, f64::NAN, -f64::NAN,
    ];
    for a in values {
        for b in values {
            assert_eq!(number::equal(a.to_bits(), b.to_bits()), a == b);
            assert_eq!(number::less_than(a.to_bits(), b.to_bits()), a < b);
            assert_eq!(number::at_most(a.to_bits(), b.to_bits()), a <= b);
        }
        assert_eq!(number::negate(a.to_bits()), (-a).to_bits());
        assert_eq!(number::zero(a.to_bits()), a == 0.0);
        assert_eq!(number::nan(a.to_bits()), a.is_nan());
        assert_eq!(number::infinite(a.to_bits()), a.is_infinite());
        assert_eq!(number::negative(a.to_bits()), a.is_sign_negative());
    }
}

#[test]
fn error_report_text() {
    let e = Error::new(12, "+".to_string(), "Invalid operands".to_string());
    assert_eq!(e.to_string(), "\"Invalid operands\" at line: 12 in +");
    assert_eq!(e.line(), 12);
    assert_eq!(e.message(), "Invalid operands");
    assert_eq!(e.place(), "+");
    let z = Error::new(0, String::new(), String::new());
    assert_eq!(z.to_string(), "\"\" at line: 0 in ");
    let big = Error::new(4294967295, "x".to_string(), "m".to_string());
    assert_eq!(big.to_string(), "\"m\" at line: 4294967295 in x");
}

#[test]
fn number_text_reads_back_as_the_number() {
    let mut state: u64 = 0x2545f4914f6cdd1d;
    let mut different = 0;
    for _ in 0..2000 {
        state ^= state << 13;
        state ^= state >> 7;
        state ^= state << 17;
        if f64::from_bits(state).is_finite() {
            let text = number::to_text(state);
            assert_eq!(text.parse::<f64>().unwrap().to_bits(), state, "{}", text);
            assert!(text.chars().all(|c| c.is_ascii_digit() || c == '.' || c == '-'), "{}", text);
            if text != format!("{}", f64::from_bits(state)) {
                different += 1;
            }
        }
    }
    assert_eq!(different, 0);
    for i in 0..2000u32 {
        let x = (i as f64) / 8.0 - 100.0;
        assert_eq!(number::to_text(x.to_bits()), format!("{}", x));
        let y = (i as f64) * 0.01;
        assert_eq!(number::to_text(y.to_bits()), format!("{}", y));
    }
}

#[test]
fn decimal_numerals() {
    for (n, text) in [(0u32, "0"), (7, "7"), (10, "10"), (909, "909"), (4294967295, "4294967295")] {
        let mut s = String::from("n=");
        push_decimal(&mut s, n);
        assert_eq!(s, format!("n={}", text));
    }
}
