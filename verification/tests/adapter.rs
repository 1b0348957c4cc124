use wave_backend::bedrock::{
    build_embedding_request, build_sentiment_request, parse_sentiment_response,
};
use wave_backend::sagemaker::{
    build_language_detection_request, parse_language_detection_response,
};
use wave_backend::submission::validate_submission;
use wave_backend::voice::classify_intent;

#[test]
fn test_build_sentiment_request_valid() {
    let result = build_sentiment_request("I love Wave!", "english").unwrap();
    let parsed: serde_json::Value = serde_json::from_str(&result).unwrap();
    assert_eq!(parsed["anthropic_version"], "bedrock-2023-05-31");
    assert_eq!(parsed["max_tokens"], 256);
    assert_eq!(parsed["messages"][0]["content"], "I love Wave!");
    assert!(parsed["system"].as_str().unwrap().contains("english"));
}

#[test]
fn test_build_sentiment_request_empty_text() {
    let result = build_sentiment_request("", "english");
    assert!(result.is_err());
    assert!(result.unwrap_err().message().contains("text must not be empty"));
}

#[test]
fn test_build_sentiment_request_french() {
    let result = build_sentiment_request("Je veux envoyer de l'argent", "french").unwrap();
    let parsed: serde_json::Value = serde_json::from_str(&result).unwrap();
    assert!(parsed["system"].as_str().unwrap().contains("french"));
}

#[test]
fn test_parse_sentiment_response_valid() {
    let response = r#"{"content":[{"type":"text","text":"{\"sentiment\":\"positive\",\"category\":\"praise\",\"confidence\":0.95,\"summary\":\"Customer loves the service\"}"}],"stop_reason":"end_turn"}"#;
    let result = parse_sentiment_response(response).unwrap();
    let parsed: serde_json::Value = serde_json::from_str(&result).unwrap();
    assert_eq!(parsed["sentiment"], "positive");
    assert_eq!(parsed["category"], "praise");
}

#[test]
fn test_parse_sentiment_response_missing_field() {
    let response =
        r#"{"content":[{"type":"text","text":"{\"sentiment\":\"positive\"}"}]}"#;
    let result = parse_sentiment_response(response);
    assert!(result.is_err());
    assert!(result.unwrap_err().message().contains("missing field"));
}

#[test]
fn test_parse_sentiment_response_invalid_json() {
    let result = parse_sentiment_response("not json");
    assert!(result.is_err());
}

#[test]
fn test_build_embedding_request_valid() {
    let result = build_embedding_request("check my balance").unwrap();
    let parsed: serde_json::Value = serde_json::from_str(&result).unwrap();
    assert_eq!(parsed["inputText"], "check my balance");
    assert_eq!(parsed["dimensions"], 256);
    assert_eq!(parsed["normalize"], true);
}

#[test]
fn test_build_embedding_request_empty() {
    let result = build_embedding_request("");
    assert!(result.is_err());
}

#[test]
fn test_build_language_detection_request_valid() {
    let result = build_language_detection_request("Bonjour, je veux envoyer de l'argent").unwrap();
    let parsed: serde_json::Value = serde_json::from_str(&result).unwrap();
    assert_eq!(parsed["inputs"], "Bonjour, je veux envoyer de l'argent");
}

#[test]
fn test_build_language_detection_request_empty() {
    let result = build_language_detection_request("");
    assert!(result.is_err());
    assert!(result.unwrap_err().message().contains("text must not be empty"));
}

#[test]
fn test_parse_language_detection_response_nested() {
    let response = r#"[[{"label":"fr","score":0.95},{"label":"en","score":0.03},{"label":"sw","score":0.02}]]"#;
    let result = parse_language_detection_response(response).unwrap();
    let parsed: serde_json::Value = serde_json::from_str(&result).unwrap();
    assert_eq!(parsed["detected_language"], "fr");
    assert_eq!(parsed["confidence"], 0.95);
    assert!(parsed["all_predictions"].as_array().unwrap().len() == 3);
}

#[test]
fn test_parse_language_detection_response_flat() {
    let response = r#"[{"label":"sw","score":0.88},{"label":"en","score":0.12}]"#;
    let result = parse_language_detection_response(response).unwrap();
    let parsed: serde_json::Value = serde_json::from_str(&result).unwrap();
    assert_eq!(parsed["detected_language"], "sw");
}

#[test]
fn test_parse_language_detection_response_invalid() {
    let result = parse_language_detection_response("not json");
    assert!(result.is_err());
}

#[test]
fn test_parse_language_detection_response_empty_array() {
    let result = parse_language_detection_response("[[]]");
    assert!(result.is_err());
    assert!(result.unwrap_err().message().contains("empty predictions"));
}

#[test]
fn test_parse_language_detection_response_missing_label() {
    let result = parse_language_detection_response(r#"[[{"score":0.5}]]"#);
    assert!(result.is_err());
    assert!(result.unwrap_err().message().contains("missing label"));
}

#[test]
fn test_submit_resume_returns_tuple() {
    // A valid JSON payload with an empty token must fail before any
    // transport is involved.
    let result = validate_submission(r#"{"name": "Eric"}"#, "");
    assert!(result.is_err());
    let err_msg = result.unwrap_err().message();
    assert!(err_msg.contains("token must not be empty"));
}

#[test]
fn test_invalid_json_handling() {
    let result = validate_submission("not json at all", "some-token");
    assert!(result.is_err());
    let err_msg = result.unwrap_err().message();
    assert!(err_msg.contains("invalid JSON payload"));
}

#[test]
fn test_empty_token_handling() {
    let result = validate_submission(r#"{"valid": true}"#, "");
    assert!(result.is_err());
    let err_msg = result.unwrap_err().message();
    assert!(err_msg.contains("token must not be empty"));
}

#[test]
fn test_classify_swahili_intent() {
    let result = classify_intent("angalia salio yangu");
    assert_eq!(result.language, "swahili");
    assert_eq!(result.token_count, 3);
}

#[test]
fn test_classify_english_intent() {
    let result = classify_intent("check my account balance please");
    // "balance" is in the Swahili keyword list because it is used in
    // Swahili fintech contexts too; the heuristic is conservative and
    // flags any overlap. A purely English sentence without overlap:
    let pure_english = classify_intent("show me my recent transactions");
    assert_eq!(pure_english.language, "english");
    assert!(pure_english.token_count > 0);
    assert!(result.token_count > 0);
    assert_eq!(result.token_count, result.tokens.len());
    assert!(result.language == "swahili" || result.language == "english");
}

#[test]
fn test_empty_input() {
    let result = classify_intent("");
    assert_eq!(result.language, "english");
    assert_eq!(result.token_count, 0);
    assert!(result.tokens.is_empty());
}

#[test]
fn test_mixed_language() {
    let result = classify_intent("I want to tuma pesa to my friend");
    assert_eq!(result.language, "swahili");
    // "tuma" and "pesa" are Swahili keywords
    assert!(result.token_count >= 7);
}

#[test]
fn test_nested_and_flat_results_agree() {
    let nested = parse_language_detection_response(
        r#"[[{"label":"sw","score":0.88},{"label":"en","score":0.12}]]"#,
    )
    .unwrap();
    let flat = parse_language_detection_response(
        r#"[{"label":"sw","score":0.88},{"label":"en","score":0.12}]"#,
    )
    .unwrap();
    assert_eq!(nested, flat);
}

#[test]
fn test_special_characters_round_trip() {
    let text = "quote \" backslash \\ newline \n tab \t control \u{0001} accent é";
    let result = build_sentiment_request(text, "english").unwrap();
    let parsed: serde_json::Value = serde_json::from_str(&result).unwrap();
    assert_eq!(parsed["messages"][0]["content"], text);
}

#[test]
fn test_uppercase_keyword_detected() {
    let result = classify_intent("ANGALIA Salio");
    assert_eq!(result.language, "swahili");
    assert_eq!(result.tokens, vec!["ANGALIA", "Salio"]);
}

#[test]
fn test_punctuation_not_tokens() {
    let result = classify_intent("tuma, pesa!");
    assert_eq!(result.language, "swahili");
    assert_eq!(result.token_count, 2);
}

#[test]
fn test_sentiment_extra_fields_preserved() {
    let response = r#"{"content":[{"text":"{\"sentiment\":\"neutral\",\"category\":\"inquiry\",\"confidence\":0.5,\"note\":7}"}]}"#;
    let result = parse_sentiment_response(response).unwrap();
    let parsed: serde_json::Value = serde_json::from_str(&result).unwrap();
    assert_eq!(parsed["sentiment"], "neutral");
    assert_eq!(parsed["note"], 7);
}

#[test]
fn test_sentiment_missing_category_named() {
    let response = r#"{"content":[{"text":"{\"sentiment\":\"neutral\",\"confidence\":0.5}"}]}"#;
    let err = parse_sentiment_response(response).unwrap_err();
    assert!(err.message().contains("missing field: category"));
}

#[test]
fn test_sentiment_missing_content_path() {
    let err = parse_sentiment_response(r#"{"content":[]}"#).unwrap_err();
    assert!(err.message().contains("missing content[0].text"));
}

#[test]
fn test_sentiment_inner_not_json() {
    let err = parse_sentiment_response(r#"{"content":[{"text":"not json"}]}"#).unwrap_err();
    assert!(err.message().contains("failed to parse sentiment JSON"));
}

#[test]
fn test_language_detection_not_array() {
    let err = parse_language_detection_response(r#"{"label":"sw"}"#).unwrap_err();
    assert!(err.message().contains("expected array response"));
}

#[test]
fn test_language_detection_missing_score() {
    let err = parse_language_detection_response(r#"[{"label":"sw"}]"#).unwrap_err();
    assert!(err.message().contains("missing score field"));
}

#[test]
fn test_submission_accepts_valid_payload() {
    assert!(validate_submission(r#"{"name": "Eric"}"#, "some-token").is_ok());
}
