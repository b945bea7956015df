use watl::classify::{classify, DetectionError};

const ENGLISH: &str = "The quick brown fox jumps over the lazy dog";
const FRENCH: &str = "Bonjour le monde, ceci est une phrase en francais pour le test";

#[test]
fn classify_english_is_well_formed() {
    let info = classify(ENGLISH).expect("English text should classify");
    assert!(info.confidence_ppm <= 1_000_000);
    assert!(!info.lang_code.is_empty());
    assert!(!info.lang_name.is_empty());
    assert!(!info.script_name.is_empty());
    assert_eq!(info.lang_code, "eng");
    assert_eq!(info.lang_name, "English");
    assert_eq!(info.script_name, "Latin");
}

#[test]
fn classify_agrees_with_the_detector() {
    let info = classify(ENGLISH).expect("English text should classify");
    let report = whatlang::detect(ENGLISH).expect("the detector should report");
    assert_eq!(info.lang_code, report.lang().code());
    assert_eq!(info.lang_name, report.lang().eng_name());
    assert_eq!(info.script_name, report.script().name());
    assert_eq!(info.is_reliable, report.is_reliable());
    let gap = (info.confidence_ppm as f64 / 1_000_000.0 - report.confidence()).abs();
    assert!(gap < 0.000_001 + 0.000_001);
}

#[test]
fn classify_empty_input_is_indeterminate() {
    assert!(matches!(classify(""), Err(DetectionError::Indeterminate)));
}

#[test]
fn classify_non_linguistic_input_is_indeterminate() {
    assert!(matches!(classify("12345 67890 ..."), Err(DetectionError::Indeterminate)));
}

#[test]
fn classify_is_idempotent() {
    let a = classify(ENGLISH).expect("English text should classify");
    let b = classify(ENGLISH).expect("English text should classify");
    assert_eq!(a.lang_code, b.lang_code);
    assert_eq!(a.lang_name, b.lang_name);
    assert_eq!(a.script_name, b.script_name);
    assert_eq!(a.confidence_ppm, b.confidence_ppm);
    assert_eq!(a.is_reliable, b.is_reliable);
}

#[test]
fn distinct_inputs_get_their_own_answers() {
    for _round in 0..3 {
        let english = classify(ENGLISH).expect("English text should classify");
        let french = classify(FRENCH).expect("French text should classify");
        assert_eq!(english.lang_name, "English");
        assert_eq!(french.lang_name, "French");
    }
}

#[test]
fn detection_error_message_is_explanatory() {
    let e = DetectionError::Indeterminate;
    assert_eq!(e.message(), "Unable to detect language for body");
}
