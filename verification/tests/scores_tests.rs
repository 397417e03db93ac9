use inferbench::errors::{get_error_code, ErrorType};
use inferbench::scores::{is_nan_score, score_greater, top_one};

fn bits(scores: &[f32]) -> Vec<u32> {
    scores.iter().map(|s| s.to_bits()).collect()
}

#[test]
fn top_one_breaks_ties_toward_the_first_maximum() {
    let scores = bits(&[0.5, 0.9, 0.9, 0.2]);
    let (score, class) = top_one(&scores, 1).unwrap();
    assert_eq!(class, 2);
    assert_eq!(f32::from_bits(score), 0.9);
}

#[test]
fn top_one_respects_the_index_offset() {
    let scores = bits(&[0.1, 0.3, 0.2]);
    assert_eq!(top_one(&scores, 2).unwrap().1, 3);
    assert_eq!(top_one(&scores, 0).unwrap().1, 1);
}

#[test]
fn top_one_of_empty_input_is_no_result() {
    let scores: Vec<u32> = Vec::new();
    assert_eq!(top_one(&scores, 1), None);
}

#[test]
fn top_one_of_a_single_score_is_that_score() {
    let scores = bits(&[-3.25]);
    let (score, class) = top_one(&scores, 1).unwrap();
    assert_eq!(class, 1);
    assert_eq!(f32::from_bits(score), -3.25);
}

#[test]
fn top_one_orders_negative_and_positive_scores() {
    let scores = bits(&[-0.5, -0.1, -2.0]);
    assert_eq!(top_one(&scores, 1).unwrap().1, 2);
    let scores = bits(&[-1.0, 0.0, 3.5, 2.0]);
    assert_eq!(top_one(&scores, 1).unwrap().1, 3);
}

#[test]
fn nan_is_treated_as_equal_never_as_greater() {
    // A leading NaN is never displaced: every comparison against it is a tie.
    let scores = bits(&[f32::NAN, 7.0]);
    let (score, class) = top_one(&scores, 1).unwrap();
    assert_eq!(class, 1);
    assert!(f32::from_bits(score).is_nan());
    // A NaN after the incumbent never wins either.
    let scores = bits(&[1.0, f32::NAN, 0.5]);
    assert_eq!(top_one(&scores, 1).unwrap().1, 1);
}

#[test]
fn zero_signs_compare_equal_so_the_first_zero_wins() {
    let scores = bits(&[-0.0, 0.0]);
    assert_eq!(top_one(&scores, 1).unwrap().1, 1);
    let scores = bits(&[0.0, -0.0]);
    assert_eq!(top_one(&scores, 1).unwrap().1, 1);
}

#[test]
fn score_greater_follows_float_order() {
    assert!(score_greater(0.9f32.to_bits(), 0.5f32.to_bits()));
    assert!(!score_greater(0.5f32.to_bits(), 0.9f32.to_bits()));
    assert!(!score_greater(0.9f32.to_bits(), 0.9f32.to_bits()));
    assert!(score_greater(0.0f32.to_bits(), (-1.0f32).to_bits()));
    assert!(!score_greater(f32::NAN.to_bits(), 0.0f32.to_bits()));
    assert!(!score_greater(0.0f32.to_bits(), f32::NAN.to_bits()));
}

#[test]
fn nan_detection_matches_the_float_predicate() {
    assert!(is_nan_score(f32::NAN.to_bits()));
    assert!(!is_nan_score(f32::INFINITY.to_bits()));
    assert!(!is_nan_score(f32::NEG_INFINITY.to_bits()));
    assert!(!is_nan_score(0.0f32.to_bits()));
    assert!(!is_nan_score(1.5f32.to_bits()));
}

#[test]
fn every_error_kind_has_its_documented_code() {
    assert_eq!(get_error_code(ErrorType::SessionCreation), -1);
    assert_eq!(get_error_code(ErrorType::Optimization), -2);
    assert_eq!(get_error_code(ErrorType::Threads), -3);
    assert_eq!(get_error_code(ErrorType::ModelLoad), -4);
    assert_eq!(get_error_code(ErrorType::ImageLoad), -5);
    assert_eq!(get_error_code(ErrorType::ImageConversion), -6);
    assert_eq!(get_error_code(ErrorType::ModelRun), -7);
    assert_eq!(get_error_code(ErrorType::TensorExtract), -8);
    assert_eq!(get_error_code(ErrorType::NoResult), -9);
    assert_eq!(get_error_code(ErrorType::MissingImageName), -10);
}
