use watl::classify::ClassificationInfo;
use watl::cli::{cli_detect, CliOutcome};
use watl::rest::{detect_reply, health_reply, rest_success_body};
use watl::rpc::{graphiql_reply, howdy, mutation_detect, settle_recording};
use watl::sink::StorageError;

const ENGLISH: &str = "The quick brown fox jumps over the lazy dog";
const FRENCH: &str = "Bonjour le monde";

const LONG_ENGLISH: &str = "The quick brown fox jumps over the lazy dog, and the \
    patient reader follows every single word of this long and unmistakably \
    English sentence about nothing in particular, written only so that the \
    detector has plenty of linguistic signal to work with.";

#[test]
fn rest_detect_english_succeeds() {
    let reply = detect_reply(ENGLISH);
    assert_eq!(reply.status, 200);
    let parsed: serde_json::Value = serde_json::from_str(&reply.body).expect("valid JSON body");
    assert_eq!(parsed["language"], "English");
    assert_eq!(parsed["script"], "Latin");
    let confidence = parsed["confidence"].as_f64().expect("numeric confidence");
    assert!(confidence > 0.0);
    assert!(confidence <= 1.0);

    let reply = detect_reply(LONG_ENGLISH);
    assert_eq!(reply.status, 200);
    let parsed: serde_json::Value = serde_json::from_str(&reply.body).expect("valid JSON body");
    assert_eq!(parsed["language"], "English");
    assert!(parsed["confidence"].as_f64().expect("numeric confidence") > 0.5);
}

#[test]
fn rest_detect_empty_body_is_a_client_error() {
    let reply = detect_reply("");
    assert_eq!(reply.status, 400);
    assert!(!reply.body.is_empty());
    assert_eq!(reply.body, "Unable to detect language for body");
}

#[test]
fn rest_health_is_ok_regardless_of_everything() {
    let reply = health_reply();
    assert_eq!(reply.status, 200);
    assert_eq!(reply.body, "Ok");
}

#[test]
fn rest_body_escapes_json_strings() {
    let info = ClassificationInfo {
        lang_code: String::from("zzz"),
        lang_name: String::from("A\"B\\C\nD"),
        script_name: String::from("Latin"),
        confidence_ppm: 250_000,
        is_reliable: false,
    };
    let body = rest_success_body(&info);
    assert_eq!(body, "{\"language\":\"A\\\"B\\\\C\\nD\",\"script\":\"Latin\",\"confidence\":0.25}");
}

#[test]
fn rest_distinct_requests_get_their_own_bodies() {
    let english = detect_reply(ENGLISH);
    let french = detect_reply(FRENCH);
    let english_again = detect_reply(ENGLISH);
    assert!(english.body.contains("English"));
    assert!(french.body.contains("French"));
    assert_eq!(english.body, english_again.body);
}

#[test]
fn cli_detect_prints_one_json_line() {
    let outcome = cli_detect(ENGLISH);
    match outcome {
        CliOutcome::Success(line) => {
            let parsed: serde_json::Value = serde_json::from_str(&line).expect("valid JSON line");
            assert_eq!(parsed["lang"], "eng");
            assert_eq!(parsed["script"], "Latin");
            let confidence = parsed["confidence"].as_f64().expect("numeric confidence");
            assert!(confidence > 0.0);
            assert!(confidence <= 1.0);
            assert!(parsed["is_reliable"].is_boolean());
        },
        CliOutcome::Failure(d) => panic!("unexpected failure: {}", d),
    }
}

#[test]
fn cli_detect_empty_input_fails_with_diagnostic() {
    let outcome = cli_detect("");
    match &outcome {
        CliOutcome::Success(line) => panic!("unexpected success: {}", line),
        CliOutcome::Failure(d) => assert!(!d.is_empty()),
    }
    assert_eq!(outcome.exit_code(), 1);
}

#[test]
fn cli_success_exits_zero() {
    assert_eq!(cli_detect(ENGLISH).exit_code(), 0);
}

#[test]
fn rpc_howdy_is_fixed() {
    assert_eq!(howdy(), "partner");
}

#[test]
fn rpc_mutation_detects_french_and_plans_a_record() {
    let (answer, row) = mutation_detect(FRENCH).expect("French text should classify");
    assert_eq!(answer.lang, "French");
    assert_eq!(row.language_name, "French");
    assert_eq!(row.script_name, answer.script);
    assert_eq!(row.confidence_ppm, answer.confidence_ppm);
}

#[test]
fn rpc_mutation_empty_input_is_a_typed_error() {
    assert!(mutation_detect("").is_err());
}

#[test]
fn storage_outcome_never_changes_the_answer() {
    let (answer, _row) = mutation_detect(ENGLISH).expect("English text should classify");
    let lang = answer.lang.clone();
    let script = answer.script.clone();
    let confidence = answer.confidence_ppm;

    let (settled, log) = settle_recording(answer, &Err(StorageError::Unavailable));
    assert_eq!(settled.lang, lang);
    assert_eq!(settled.script, script);
    assert_eq!(settled.confidence_ppm, confidence);
    assert_eq!(log, Some("storage unavailable"));

    let (settled, log) = settle_recording(settled, &Ok(()));
    assert_eq!(settled.lang, lang);
    assert_eq!(settled.script, script);
    assert_eq!(settled.confidence_ppm, confidence);
    assert_eq!(log, None);

    let (settled, log) = settle_recording(settled, &Err(StorageError::Timeout));
    assert_eq!(settled.lang, lang);
    assert_eq!(log, Some("storage timed out"));

    let (settled, log) = settle_recording(settled, &Err(StorageError::WriteConflict));
    assert_eq!(settled.lang, lang);
    assert_eq!(log, Some("storage write conflict"));
}

#[test]
fn graphiql_page_embeds_the_endpoint() {
    let endpoint = "http://127.0.0.1:8080/gql";
    let reply = graphiql_reply(endpoint);
    assert_eq!(reply.status, 200);
    assert!(reply.body.len() > endpoint.len());
    assert!(reply.body.contains(endpoint));
}
