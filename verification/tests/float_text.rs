use topik::float_text::is_float_literal;

fn accepted(s: &str) -> bool {
    let chars: Vec<char> = s.chars().collect();
    is_float_literal(&chars)
}

#[test]
fn float_texts_agree_with_std() {
    let cases = [
        "0", "23.5", "-1.25", "+3", "1.", ".5", ".", "", "-", "+", "1e5", "1E5", "1e+5", "1e-5",
        "1e", "e5", "1.2.3", "1e5.0", "1ee5", "inf", "INF", "-Infinity", "+infinity", "nan",
        "NaN", "-nan", "infin", "nana", " 1", "1 ", "1_000", "0x10", "١", "65", "1e5e5",
        "3.4028236e38", "-0.0", "..5", "5..", "+-1", "1e+", "1e-", "00012.500e0010",
    ];
    for s in cases {
        assert_eq!(accepted(s), s.parse::<f64>().is_ok(), "{s:?}");
        assert_eq!(accepted(s), s.parse::<f32>().is_ok(), "{s:?}");
    }
}

#[test]
fn printed_floats_are_accepted() {
    for v in [0.0f32, -0.0, 23.5, 1e-40, f32::MAX, f32::MIN_POSITIVE, f32::INFINITY, f32::NAN] {
        assert!(accepted(&v.to_string()));
    }
    for v in [0.1f64, -1e300, f64::NEG_INFINITY, 5e-324] {
        assert!(accepted(&v.to_string()));
    }
}
