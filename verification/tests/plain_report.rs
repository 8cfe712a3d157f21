use run_report::function_run_result::{BytesContainer, FunctionRunResult};
use run_report::humanize::{humanize_instructions, humanize_size};
use run_report::limits::{ResourceLimits, ScaleFactor};

fn container(raw: &[u8], humanized: &str, error: Option<&str>) -> BytesContainer {
    BytesContainer {
        raw: raw.to_vec(),
        humanized: humanized.to_string(),
        encoding_error: error.map(|text| text.to_string()),
    }
}

fn record(logs: String, output: BytesContainer) -> FunctionRunResult {
    FunctionRunResult {
        name: "demo".to_string(),
        size: 7,
        memory_usage: 64,
        instructions: 12_000_000,
        logs,
        input: container(b"{}", "{}", None),
        output,
        profile: None,
        scale_factor: ScaleFactor::one(),
        success: true,
    }
}

#[test]
fn plain_report_letter_for_letter() {
    colored::control::set_override(false);
    let run = record("hello".to_string(), container(b"[1]", "[\n  1\n]", None));
    let expected = concat_all(&[
        "            Input            \n\n{}\n",
        "            Logs            \n\nhello\n\n",
        "           Output           \n\n[\n  1\n]\n",
        "\n        Resource Limits        \n\n\n",
        "Input Size: 125.00KB\nOutput Size: 19.53KB\nInstructions: 11M\n",
        "\n\n     Benchmark Results      \n\n",
        "Name: demo\nLinear Memory Usage: 64KB\n",
        "Instructions: 12M\nInput Size: 2B\nOutput Size: 3B\n",
        "Module Size: 7KB\n\n",
    ]);
    assert_eq!(run.render(), expected);
}

fn concat_all(parts: &[&str]) -> String {
    let mut all = String::new();
    for part in parts {
        all.push_str(part);
    }
    all
}

#[test]
fn plain_report_under_given_limits() {
    colored::control::set_override(false);
    let run = record("hello".to_string(), container(b"[1]", "[\n  1\n]", None));
    let limits = ResourceLimits {
        input_size: 1,
        output_size: 2048,
        instructions: 999,
    };
    let report = run.render_under(limits);
    assert!(report.contains("Input Size: 1B\nOutput Size: 2.00KB\nInstructions: 999\n"));
    assert!(report.contains("Instructions: 12M\nInput Size: 2B\nOutput Size: 3B\n"));
}

#[test]
fn long_logs_get_a_warning() {
    colored::control::set_override(false);
    let run = record("x".repeat(1001), container(b"[1]", "[1]", None));
    let report = run.render();
    assert!(report.contains(
        "\n\nLogs would be truncated in production, length 1001 > 1000 limit\n\n\n"
    ));
}

#[test]
fn logs_at_the_limit_get_no_warning() {
    colored::control::set_override(false);
    let run = record("x".repeat(1000), container(b"[1]", "[1]", None));
    let report = run.render();
    assert!(!report.contains("Logs would be truncated"));
    assert!(!report.contains("limit\n"));
}

#[test]
fn log_length_counts_characters() {
    colored::control::set_override(false);
    let run = record("\u{e9}".repeat(1000), container(b"[1]", "[1]", None));
    assert!(!run.render().contains("Logs would be truncated"));
    let run = record("\u{e9}".repeat(1002), container(b"[1]", "[1]", None));
    assert!(run.render().contains("length 1002 > 1000 limit"));
}

#[test]
fn undecoded_output_shows_the_complaint() {
    colored::control::set_override(false);
    let run = record(
        "hello".to_string(),
        container(b"nope", "nope", Some("expected ident at line 1 column 2")),
    );
    let report = run.render();
    assert!(report.contains(
        "        Invalid Output      \n\nnope\n         JSON Error         \n\nexpected ident at line 1 column 2\n"
    ));
    assert!(!report.contains("           Output           "));
}

#[test]
fn decoded_output_shows_no_complaint() {
    colored::control::set_override(false);
    let run = record("hello".to_string(), container(b"[1]", "[1]", None));
    let report = run.render();
    assert!(report.contains("           Output           \n\n[1]\n"));
    assert!(!report.contains("Invalid Output"));
    assert!(!report.contains("JSON Error"));
}

#[test]
fn plain_lines_whatever_the_limit() {
    colored::control::set_override(false);
    assert_eq!(humanize_size("Input Size", 2000, 1000), "Input Size: 1.95KB");
    assert_eq!(humanize_size("Input Size", 1000, 1000), "Input Size: 1000B");
    assert_eq!(humanize_instructions("Instructions", 1001, 1000), "Instructions: 1.001K");
    assert_eq!(humanize_instructions("Instructions", 1000, 1000), "Instructions: 1K");
}
