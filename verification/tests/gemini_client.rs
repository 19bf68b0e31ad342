use clippy_core::gemini::{
    gemini_models_url, generate_content_url, list_gemini_models, summary_prompt,
    summary_request_body, summary_response,
};

#[test]
fn summary_success_path() {
    let body = String::from(r#"{"candidates":[{"content":{"parts":[{"text":"A summary."}]}}]}"#);
    assert_eq!(summary_response(200, &body), Ok(String::from("A summary.")));
}

#[test]
fn summary_missing_path_is_malformed() {
    let body = String::from(r#"{"candidates":[{"content":{}}]}"#);
    let err = summary_response(200, &body).unwrap_err();
    assert_eq!(err, format!("Unexpected Gemini response: {}", body));
}

#[test]
fn summary_unparseable_body_is_malformed() {
    let body = String::from("surprise, not json");
    let err = summary_response(204, &body).unwrap_err();
    assert!(err.contains(&body), "raw body missing from: {}", err);
}

#[test]
fn error_status_carries_code_and_message() {
    let body = String::from(r#"{"error":{"message":"API key not valid"}}"#);
    let err = summary_response(400, &body).unwrap_err();
    assert_eq!(err, "Gemini API error 400: API key not valid");
    assert!(err.contains("400") && err.contains("API key not valid"));
}

#[test]
fn error_status_without_message_uses_fallback() {
    let err = summary_response(500, &String::from("oops")).unwrap_err();
    assert_eq!(err, "Gemini API error 500: Unknown Gemini API error");
}

#[test]
fn models_filtered_to_generation_capable() {
    let body = String::from(
        r#"{"models":[
            {"name":"models/gemini-pro","supportedGenerationMethods":["generateContent","countTokens"]},
            {"name":"models/embedding-001","supportedGenerationMethods":["embedContent"]},
            {"name":"models/no-methods"},
            {"supportedGenerationMethods":["generateContent"]},
            {"name":"models/gemini-flash","supportedGenerationMethods":["generateContent"]}
        ]}"#,
    );
    let names = list_gemini_models(&body).unwrap();
    assert_eq!(names, vec![String::from("models/gemini-pro"), String::from("models/gemini-flash")]);
}

#[test]
fn models_unexpected_response() {
    assert_eq!(
        list_gemini_models(&String::from("{}")),
        Err(String::from("Unexpected response from models endpoint"))
    );
    assert_eq!(
        list_gemini_models(&String::from("not json")),
        Err(String::from("Unexpected response from models endpoint"))
    );
}

#[test]
fn prompt_substitutes_extracted_text() {
    let template = String::from("Summarize this page: {content} — thanks");
    let html = String::from("<p>Hello <b>World</b></p>");
    assert_eq!(summary_prompt(&template, &html), "Summarize this page: Hello World — thanks");
}

#[test]
fn request_body_escapes_prompt() {
    let body = summary_request_body(&String::from("a\"b\\c\nd"));
    assert_eq!(body, "{\"contents\":[{\"parts\":[{\"text\":\"a\\\"b\\\\c\\nd\"}]}]}");
}

#[test]
fn request_body_escapes_control_characters() {
    let body = summary_request_body(&String::from("x\u{1}y"));
    assert_eq!(body, "{\"contents\":[{\"parts\":[{\"text\":\"x\\u0001y\"}]}]}");
}

#[test]
fn endpoint_urls() {
    assert_eq!(
        generate_content_url(&String::from("models/gemini-pro"), &String::from("KEY")),
        "https://generativelanguage.googleapis.com/v1beta/models/gemini-pro:generateContent?key=KEY"
    );
    assert_eq!(
        gemini_models_url(&String::from("KEY")),
        "https://generativelanguage.googleapis.com/v1beta/models?key=KEY"
    );
}
