use run_report::function_run_result::{BytesContainer, FunctionRunResult, InvalidOutput};
use run_report::limits::ScaleFactor;

fn json_container(raw: &[u8]) -> BytesContainer {
    match serde_json::from_slice::<serde_json::Value>(raw) {
        Ok(value) => BytesContainer {
            raw: serde_json::to_vec(&value).unwrap(),
            humanized: serde_json::to_string_pretty(&value).unwrap(),
            encoding_error: None,
        },
        Err(error) => BytesContainer {
            raw: raw.to_vec(),
            humanized: String::from_utf8_lossy(raw).into_owned(),
            encoding_error: Some(error.to_string()),
        },
    }
}

fn json_output(raw: &[u8]) -> BytesContainer {
    json_container(raw)
}

fn mock_json_input() -> BytesContainer {
    let bytes = "{\"input_test\": \"input_value\"}".as_bytes();
    json_container(bytes)
}

fn test_output_bytes() -> Vec<u8> {
    let mut object = serde_json::Map::new();
    object.insert(
        "test".to_string(),
        serde_json::Value::String("test".to_string()),
    );
    serde_json::to_vec(&serde_json::Value::Object(object)).unwrap()
}

fn record(instructions: u64, input: &BytesContainer) -> FunctionRunResult {
    FunctionRunResult {
        name: "test".to_string(),
        size: 100,
        memory_usage: 1000,
        instructions,
        logs: "test".to_string(),
        input: input.clone(),
        output: json_output(&test_output_bytes()),
        profile: None,
        scale_factor: ScaleFactor::from_bits(1.0_f64.to_bits()),
        success: true,
    }
}

#[test]
fn test_js_output() {
    let input = mock_json_input();
    let function_run_result = record(1001, &input);

    let holds = |report: &str| {
        report.contains("Instructions: 1.001K")
            && report.contains("Linear Memory Usage: 1000KB")
            && report.contains(&input.humanized)
            && report.contains("Input Size: 28B")
            && report.contains("Output Size: 15B")
    };
    assert!(holds(&function_run_result.render()));

    assert!(holds(&function_run_result.render()));
}

#[test]
fn test_js_output_1000() {
    let input = mock_json_input();
    let function_run_result = record(1000, &input);

    let report = function_run_result.render();
    assert!(
        report.contains("Instructions: 1")
            && report.contains("Linear Memory Usage: 1000KB")
            && report.contains(&input.humanized)
    );
}

#[test]
fn test_instructions_less_than_1000() {
    let input = mock_json_input();
    let function_run_result = record(999, &input);

    let report = function_run_result.render();
    assert!(
        report.contains("Instructions: 999")
            && report.contains("Linear Memory Usage: 1000KB")
            && report.contains(&input.humanized)
    );
}

#[test]
fn payload_sizes_are_byte_counts() {
    let input = mock_json_input();
    let function_run_result = record(5, &input);
    assert_eq!(function_run_result.input_size(), 28);
    assert_eq!(function_run_result.output_size(), 15);
}

#[test]
fn rendering_twice_gives_the_same_text() {
    let input = mock_json_input();
    let function_run_result = record(12_345_678, &input);
    assert_eq!(function_run_result.render(), function_run_result.render());
}

#[test]
fn invalid_output_keeps_both_texts() {
    let kept = InvalidOutput {
        error: "expected value".to_string(),
        stdout: "oops".to_string(),
    };
    let copy = kept.clone();
    assert_eq!(copy.error, "expected value");
    assert_eq!(copy.stdout, "oops");
}
