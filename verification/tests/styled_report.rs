use run_report::function_run_result::{BytesContainer, FunctionRunResult};
use run_report::humanize::{humanize_instructions, humanize_size};
use run_report::limits::ScaleFactor;

fn container(raw: &[u8], humanized: &str, error: Option<&str>) -> BytesContainer {
    BytesContainer {
        raw: raw.to_vec(),
        humanized: humanized.to_string(),
        encoding_error: error.map(|text| text.to_string()),
    }
}

fn record(logs: String, output: BytesContainer) -> FunctionRunResult {
    FunctionRunResult {
        name: "demo".to_string(),
        size: 7,
        memory_usage: 64,
        instructions: 12_000_000,
        logs,
        input: container(&[b'a'; 128_001], "aaa", None),
        output,
        profile: None,
        scale_factor: ScaleFactor::one(),
        success: true,
    }
}

#[test]
fn value_over_the_limit_is_red() {
    colored::control::set_override(true);
    assert_eq!(
        humanize_size("Input Size", 2000, 1000),
        "\x1B[31mInput Size: 1.95KB\x1B[0m"
    );
    assert_eq!(
        humanize_instructions("Instructions", 1001, 1000),
        "\x1B[31mInstructions: 1.001K\x1B[0m"
    );
}

#[test]
fn value_at_the_limit_is_not_red() {
    colored::control::set_override(true);
    assert_eq!(humanize_size("Input Size", 1000, 1000), "Input Size: 1000B");
    assert_eq!(humanize_size("Input Size", 0, 0), "Input Size: 0B");
    assert_eq!(humanize_instructions("Instructions", 1000, 1000), "Instructions: 1K");
    assert_eq!(humanize_instructions("Instructions", 999, 1000), "Instructions: 999");
}

#[test]
fn red_goes_on_after_a_reset_in_the_title() {
    colored::control::set_override(true);
    assert_eq!(
        humanize_size("a\x1B[0mb", 5, 1),
        "\x1B[31ma\x1B[0m\x1B[31mb: 5B\x1B[0m"
    );
    assert_eq!(
        humanize_size("\x1B[0m\x1B[0m", 5, 1),
        "\x1B[31m\x1B[0m\x1B[31m\x1B[0m\x1B[31m: 5B\x1B[0m"
    );
    assert_eq!(humanize_size("\x1B[0", 5, 1), "\x1B[31m\x1B[0: 5B\x1B[0m");
    assert_eq!(humanize_size("\x1B[0mb", 5, 5), "\x1B[0mb: 5B");
}

#[test]
fn banners_carry_their_colours() {
    colored::control::set_override(true);
    let run = record("hello".to_string(), container(b"[1]", "[1]", None));
    let report = run.render();
    assert!(report.starts_with("\x1B[103;30m            Input            \x1B[0m\n\naaa\n"));
    assert!(report.contains("\n\x1B[104;30m            Logs            \x1B[0m\n\nhello\n\n"));
    assert!(report.contains("\n\x1B[102;30m           Output           \x1B[0m\n\n[1]\n"));
    assert!(report.contains("\n\n\x1B[105;30m        Resource Limits        \x1B[0m\n\n\n"));
    let exact = "\n\n\x1B[48;2;150;191;72;30m     Benchmark Results      \x1B[0m\n\nName: demo\n";
    let nearest = "\n\n\x1B[100;30m     Benchmark Results      \x1B[0m\n\nName: demo\n";
    assert!(report.contains(exact) || report.contains(nearest));
}

#[test]
fn error_banners_carry_their_colours() {
    colored::control::set_override(true);
    let run = record("hello".to_string(), container(b"no", "no", Some("bad")));
    let report = run.render();
    assert!(report.contains(
        "\x1B[101;30m        Invalid Output      \x1B[0m\n\nno\n\x1B[101;30m         JSON Error         \x1B[0m\n\nbad\n"
    ));
}

#[test]
fn counts_over_their_limits_are_red_in_the_report() {
    colored::control::set_override(true);
    let run = record("hello".to_string(), container(b"[1]", "[1]", None));
    let report = run.render();
    assert!(report.contains(
        "\nInput Size: 125.00KB\nOutput Size: 19.53KB\nInstructions: 11M\n"
    ));
    assert!(report.contains(
        "\n\x1B[31mInstructions: 12M\x1B[0m\n\x1B[31mInput Size: 125.00KB\x1B[0m\nOutput Size: 3B\nModule Size: 7KB\n\n"
    ));
}

#[test]
fn warning_is_red() {
    colored::control::set_override(true);
    let run = record("y".repeat(2000), container(b"[1]", "[1]", None));
    let report = run.render();
    assert!(report.contains(
        "\n\n\x1B[31mLogs would be truncated in production, length 2000 > 1000 limit\x1B[0m\n\n\n"
    ));
}
