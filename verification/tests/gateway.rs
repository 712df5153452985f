use ollama_gateway::error::network_error;
use ollama_gateway::generate_from_body;
use ollama_gateway::generate_request_body;
use ollama_gateway::greet;
use ollama_gateway::models_from_body;
use ollama_gateway::ApiError;

#[test]
fn greet_formats_name() {
    assert_eq!(greet("World"), "Hello, World! You've been greeted from Rust!");
}

#[test]
fn greet_empty_name() {
    assert_eq!(greet(""), "Hello, ! You've been greeted from Rust!");
}

#[test]
fn greet_non_ascii_name() {
    assert_eq!(greet("Åke"), "Hello, Åke! You've been greeted from Rust!");
}

#[test]
fn generate_skips_bad_lines_in_order() {
    let body = "{\"response\":\"Hel\"}\n{\"response\":\"lo\"}\nnot json\n{}";
    assert_eq!(generate_from_body(body), "Hello");
}

#[test]
fn generate_empty_body_is_empty_text() {
    assert_eq!(generate_from_body(""), "");
}

#[test]
fn generate_only_bad_lines_is_empty_text() {
    assert_eq!(generate_from_body("not json\n{\"other\":1}\n[1,2]"), "");
}

#[test]
fn generate_keeps_line_order_without_separator() {
    let body = "{\"response\":\"a\"}\n{\"response\":\"b\"}\n{\"response\":\"c\"}";
    assert_eq!(generate_from_body(body), "abc");
}

#[test]
fn generate_handles_crlf_and_trailing_newline() {
    let body = "{\"response\":\"one\"}\r\n{\"response\":\"two\"}\n";
    assert_eq!(generate_from_body(body), "onetwo");
}

#[test]
fn generate_ignores_non_string_response_field() {
    let body = "{\"response\":7}\n{\"response\":\"ok\"}";
    assert_eq!(generate_from_body(body), "ok");
}

#[test]
fn models_returns_names_in_order() {
    let body = "{\"models\":[{\"name\":\"llama3\"},{\"name\":\"mistral\"}]}";
    let list = models_from_body(body).unwrap();
    assert_eq!(list.models, vec!["llama3".to_string(), "mistral".to_string()]);
}

#[test]
fn models_empty_array_is_ok() {
    let list = models_from_body("{\"models\":[]}").unwrap();
    assert!(list.models.is_empty());
}

#[test]
fn models_not_an_array_is_parse_error() {
    let err = models_from_body("{\"models\":\"not-an-array\"}").unwrap_err();
    match err {
        ApiError::ParseError(m) => {
            assert_eq!(m, "ollama API responded with incorrect format");
        }
        _ => panic!("expected a parse failure"),
    }
}

#[test]
fn models_missing_field_is_parse_error() {
    let err = models_from_body("{\"tags\":[]}").unwrap_err();
    assert!(matches!(err, ApiError::ParseError(_)));
}

#[test]
fn models_unnamed_entry_is_parse_error() {
    let body = "{\"models\":[{\"name\":\"llama3\"},{\"size\":3}]}";
    let err = models_from_body(body).unwrap_err();
    match err {
        ApiError::ParseError(m) => {
            assert_eq!(m, "ollama API responded with incorrect format");
        }
        _ => panic!("expected a parse failure"),
    }
}

#[test]
fn models_top_level_not_json_is_parse_error() {
    let err = models_from_body("not json at all").unwrap_err();
    assert!(matches!(err, ApiError::ParseError(_)));
}

#[test]
fn models_top_level_error_keeps_parser_description() {
    let err = models_from_body("{").unwrap_err();
    match err {
        ApiError::ParseError(m) => assert!(!m.is_empty()),
        _ => panic!("expected a parse failure"),
    }
}

#[test]
fn request_body_is_exact_json() {
    assert_eq!(
        generate_request_body("llama3", "Why is the sky blue?"),
        "{\"model\":\"llama3\",\"prompt\":\"Why is the sky blue?\",\"stream\":false}"
    );
}

#[test]
fn request_body_escapes_prompt() {
    assert_eq!(
        generate_request_body("m", "a\"b\nc"),
        "{\"model\":\"m\",\"prompt\":\"a\\\"b\\nc\",\"stream\":false}"
    );
}

#[test]
fn network_error_keeps_transport_description() {
    let err = network_error("connection refused".to_string());
    assert!(matches!(&err, ApiError::Network(m) if m == "connection refused"));
    let msg = err.message();
    assert_eq!(msg, "Network request failed: connection refused");
    assert!(msg.contains("connection refused"));
}

#[test]
fn transport_failure_is_network_error() {
    let result = reqwest::blocking::get("http://127.0.0.1:1/api/tags");
    let err = result.err().expect("no server listens on this port");
    let classified = network_error(err.to_string());
    assert!(matches!(&classified, ApiError::Network(_)));
    assert!(classified
        .message()
        .starts_with("Network request failed: "));
    assert!(!classified.detail().is_empty());
}

#[test]
fn error_messages_name_their_class() {
    assert_eq!(
        ApiError::ParseError("bad".to_string()).message(),
        "Failed to parse response: bad"
    );
    assert_eq!(
        ApiError::CommandError("boom".to_string()).message(),
        "Command execution failed: boom"
    );
    assert_eq!(ApiError::Network("down".to_string()).detail(), "down");
}
