use rust_stocks::graham::{
    categorize_safety_level, categorize_value_level, generate_recommendation,
    GrahamScreeningResult,
};

/// A ratio or score in ten-thousandths, rounded down.
fn scaled(x: f64) -> i64 {
    (x * 10000.0).floor() as i64
}

#[test]
fn graham_screening_test_value_categorization() {
    let mut result = GrahamScreeningResult {
        pe_ratio: Some(scaled(8.0)),
        pb_ratio: Some(scaled(0.8)),
        ..Default::default()
    };

    assert_eq!(categorize_value_level(&result), "Deep Value");

    result.pe_ratio = Some(scaled(18.0));
    result.pb_ratio = Some(scaled(2.0));
    assert_eq!(categorize_value_level(&result), "Fair Value");
}

#[test]
fn graham_screener_test_value_categorization() {
    let mut result = GrahamScreeningResult {
        pe_ratio: Some(scaled(8.0)),
        pb_ratio: Some(scaled(0.8)),
        ..Default::default()
    };

    assert_eq!(categorize_value_level(&result), "Deep Value");

    result.pe_ratio = Some(scaled(18.0));
    result.pb_ratio = Some(scaled(2.0));
    assert_eq!(categorize_value_level(&result), "Fair Value");
}

#[test]
fn test_recommendation_generation() {
    let mut result = GrahamScreeningResult {
        graham_score: Some(scaled(90.0)),
        ..Default::default()
    };

    assert_eq!(generate_recommendation(&result), "Strong Buy");

    result.graham_score = Some(scaled(60.0));
    assert_eq!(generate_recommendation(&result), "Hold");

    result.graham_score = Some(scaled(45.0));
    assert_eq!(generate_recommendation(&result), "Avoid");
}

#[test]
fn value_levels_at_their_edges() {
    let mut r = GrahamScreeningResult::default();
    assert_eq!(categorize_value_level(&r), "Unknown");
    r.pe_ratio = Some(scaled(9.0));
    assert_eq!(categorize_value_level(&r), "Unknown");
    r.pb_ratio = Some(scaled(1.0));
    assert_eq!(categorize_value_level(&r), "Moderate Value");
    r.pe_ratio = Some(scaled(14.9999));
    r.pb_ratio = Some(scaled(1.4999));
    assert_eq!(categorize_value_level(&r), "Moderate Value");
    r.pe_ratio = Some(scaled(15.0));
    assert_eq!(categorize_value_level(&r), "Fair Value");
    r.pe_ratio = Some(scaled(9.9999));
    r.pb_ratio = Some(scaled(0.9999));
    assert_eq!(categorize_value_level(&r), "Deep Value");
}

#[test]
fn safety_levels_and_recommendations_at_their_edges() {
    let mut r = GrahamScreeningResult::default();
    assert_eq!(categorize_safety_level(&r), "Unknown");
    assert_eq!(generate_recommendation(&r), "No Rating");
    for (score, level) in [(80.0, "Very Safe"), (79.9999, "Safe"), (65.0, "Safe"), (50.0, "Moderate"), (49.9999, "Risky"), (-3.0, "Risky")] {
        r.safety_score = Some(scaled(score));
        assert_eq!(categorize_safety_level(&r), level);
    }
    for (score, rec) in [(85.0, "Strong Buy"), (84.9999, "Buy"), (70.0, "Buy"), (55.0, "Hold"), (54.9999, "Avoid")] {
        r.graham_score = Some(scaled(score));
        assert_eq!(generate_recommendation(&r), rec);
    }
}
