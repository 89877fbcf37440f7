//! The argument of the model attribute.

use hematite::attribute::{model_path_from_attr, path_from_literal};

#[test]
fn a_literal_names_the_model_file() {
    assert_eq!(
        model_path_from_attr("\"models/sine.tflite\"").unwrap(),
        "models/sine.tflite".to_string()
    );
    assert_eq!(model_path_from_attr("  \"\"  ").unwrap(), String::new());
}

#[test]
fn escapes_and_raw_literals_are_read_as_the_compiler_reads_them() {
    assert_eq!(model_path_from_attr("\"a\\\"b\\u{41}\"").unwrap(), "a\"bA".to_string());
    assert_eq!(model_path_from_attr("r#\"a\\b\"#").unwrap(), "a\\b".to_string());
}

#[test]
fn other_arguments_are_refused() {
    for attr in ["", "42", "models", "\"a\" \"b\"", "b\"bytes\"", "\"open"] {
        let message = model_path_from_attr(attr).unwrap_err();
        assert!(message.starts_with("expected string literal: "), "{attr}: {message}");
    }
}

#[test]
fn the_outcome_of_reading_decides() {
    assert_eq!(path_from_literal(Ok("m.tflite".to_string())), Ok("m.tflite".to_string()));
    assert_eq!(
        path_from_literal(Err("unexpected end of input".to_string())),
        Err("expected string literal: unexpected end of input".to_string())
    );
}
