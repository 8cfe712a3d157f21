//! The record of one run, and its report.
//!
//! A report is a fixed sequence of sections, each under a banner: the input,
//! the logs, the output, the resource limits and the results. Banners and
//! highlights are styled by `colored`, which may leave any of them plain; the
//! `Palette` of a report says which of them it styled.
use crate::decimal::{decimal, push_decimal};
use crate::humanize::{
    humanize_instructions, humanize_size, instructions_numeral, size_numeral, titled,
};
use crate::limits::{ResourceLimits, ScaleFactor};
use crate::style::{
    black_on_bright_blue, black_on_bright_green, black_on_bright_magenta, black_on_bright_red,
    black_on_bright_yellow, black_on_truecolor, marked, nearest_basic_background, red,
    truecolor_background, BLACK_ON_BRIGHT_BLUE, BLACK_ON_BRIGHT_GREEN, BLACK_ON_BRIGHT_MAGENTA,
    BLACK_ON_BRIGHT_RED, BLACK_ON_BRIGHT_YELLOW, RED, WITH_BLACK_TEXT,
};
use crate::text::escape_free;
use vstd::prelude::*;
use vstd::string::{StrSliceExecFns, StringExecFns};

verus! {

/// The most characters of logs that are kept in production.
pub const FUNCTION_LOG_LIMIT: u64 = 1_000;

/// The banner of the input.
pub const INPUT_BANNER: &'static str = "            Input            ";

/// The banner of the logs.
pub const LOGS_BANNER: &'static str = "            Logs            ";

/// The banner of an output that could not be decoded.
pub const INVALID_OUTPUT_BANNER: &'static str = "        Invalid Output      ";

/// The banner of the decoder's complaint.
pub const JSON_ERROR_BANNER: &'static str = "         JSON Error         ";

/// The banner of the output.
pub const OUTPUT_BANNER: &'static str = "           Output           ";

/// The banner of the resource limits.
pub const LIMITS_BANNER: &'static str = "        Resource Limits        ";

/// The banner of the results.
pub const RESULTS_BANNER: &'static str = "     Benchmark Results      ";

/// No banner holds an escape character.
pub proof fn lemma_banners_escape_free()
    ensures
        escape_free(INPUT_BANNER@),
        escape_free(LOGS_BANNER@),
        escape_free(INVALID_OUTPUT_BANNER@),
        escape_free(JSON_ERROR_BANNER@),
        escape_free(OUTPUT_BANNER@),
        escape_free(LIMITS_BANNER@),
        escape_free(RESULTS_BANNER@),
{
    reveal_strlit("            Input            ");
    reveal_strlit("            Logs            ");
    reveal_strlit("        Invalid Output      ");
    reveal_strlit("         JSON Error         ");
    reveal_strlit("           Output           ");
    reveal_strlit("        Resource Limits        ");
    reveal_strlit("     Benchmark Results      ");
}

/// The red part of the background of the results banner.
pub const RESULTS_RED: u8 = 150;

/// The green part of that background.
pub const RESULTS_GREEN: u8 = 191;

/// The blue part of that background.
pub const RESULTS_BLUE: u8 = 72;

/// What is kept of a run whose output could not be decoded.
#[derive(Clone, Debug)]
pub struct InvalidOutput {
    pub error: String,
    pub stdout: String,
}

/// A payload: its bytes, their rendering for a reader, and, where the bytes
/// could not be decoded, the decoder's complaint.
#[derive(Clone, Debug)]
pub struct BytesContainer {
    pub raw: Vec<u8>,
    pub humanized: String,
    pub encoding_error: Option<String>,
}

/// Everything that is known of one run.
#[derive(Clone, Debug)]
pub struct FunctionRunResult {
    pub name: String,
    /// The module's size, in kilobytes.
    pub size: u64,
    /// The linear memory used, in kilobytes.
    pub memory_usage: u64,
    pub instructions: u64,
    pub logs: String,
    pub input: BytesContainer,
    pub output: BytesContainer,
    pub profile: Option<String>,
    pub scale_factor: ScaleFactor,
    pub success: bool,
}

/// How the banner of the results came out.
pub enum Shade {
    /// Not styled.
    Plain,
    /// In the 24-bit colour asked for.
    Exact,
    /// In the basic colour nearest to it.
    Nearest,
}

/// Which parts of a report were styled.
pub struct Palette {
    pub input: bool,
    pub logs: bool,
    pub warning: bool,
    pub invalid_output: bool,
    pub json_error: bool,
    pub output: bool,
    pub limits: bool,
    pub results: Shade,
    pub instructions: bool,
    pub input_size: bool,
    pub output_size: bool,
}

/// `text`, marked with `code` where `on` holds.
pub open spec fn tint(on: bool, code: Seq<char>, text: Seq<char>) -> Seq<char> {
    if on {
        marked(code, text)
    } else {
        text
    }
}

/// A banner, a blank line, and what stands under it.
pub open spec fn block(banner: Seq<char>, body: Seq<char>) -> Seq<char> {
    banner + "\n\n"@ + body + "\n"@
}

/// The warning for logs of `length` characters.
pub open spec fn log_warning(length: nat) -> Seq<char> {
    "Logs would be truncated in production, length "@ + decimal(length) + " > "@ + decimal(
        FUNCTION_LOG_LIMIT as nat,
    ) + " limit"@
}

/// The banner of the results, as it came out.
pub open spec fn results_banner(shade: Shade) -> Seq<char> {
    match shade {
        Shade::Plain => RESULTS_BANNER@,
        Shade::Exact => marked(
            truecolor_background(RESULTS_RED, RESULTS_GREEN, RESULTS_BLUE) + WITH_BLACK_TEXT@,
            RESULTS_BANNER@,
        ),
        Shade::Nearest => marked(
            nearest_basic_background(RESULTS_RED, RESULTS_GREEN, RESULTS_BLUE) + WITH_BLACK_TEXT@,
            RESULTS_BANNER@,
        ),
    }
}

impl FunctionRunResult {
    /// The number of bytes of the input.
    pub fn input_size(&self) -> (size: usize)
        ensures
            size == self.input.raw@.len(),
    {
        self.input.raw.len()
    }

    /// The number of bytes of the output.
    pub fn output_size(&self) -> (size: usize)
        ensures
            size == self.output.raw@.len(),
    {
        self.output.raw.len()
    }

    /// The input under its banner.
    pub open spec fn input_section(&self, on: bool) -> Seq<char> {
        block(tint(on, BLACK_ON_BRIGHT_YELLOW@, INPUT_BANNER@), self.input.humanized@)
    }

    /// The logs under their banner, followed by a blank line.
    pub open spec fn logs_section(&self, on: bool) -> Seq<char> {
        tint(on, BLACK_ON_BRIGHT_BLUE@, LOGS_BANNER@) + "\n\n"@ + self.logs@ + "\n\n"@
    }

    /// Whether the logs are longer than production keeps.
    pub open spec fn logs_over_limit(&self) -> bool {
        self.logs@.len() > FUNCTION_LOG_LIMIT
    }

    /// The warning that follows logs over the limit, and nothing otherwise.
    pub open spec fn warning_section(&self, on: bool) -> Seq<char> {
        if self.logs_over_limit() {
            tint(on, RED@, log_warning(self.logs@.len())) + "\n\n\n"@
        } else {
            Seq::empty()
        }
    }

    /// The output under its banner; an output that could not be decoded
    /// stands under another banner, and the decoder's complaint follows
    /// under a banner of its own.
    pub open spec fn output_section(&self, invalid_on: bool, error_on: bool, on: bool) -> Seq<
        char,
    > {
        match self.output.encoding_error {
            Some(error) => block(
                tint(invalid_on, BLACK_ON_BRIGHT_RED@, INVALID_OUTPUT_BANNER@),
                self.output.humanized@,
            ) + block(tint(error_on, BLACK_ON_BRIGHT_RED@, JSON_ERROR_BANNER@), error@),
            None => block(tint(on, BLACK_ON_BRIGHT_GREEN@, OUTPUT_BANNER@), self.output.humanized@),
        }
    }

    /// The three limits under their banner. No limit exceeds itself, so none
    /// is highlighted.
    pub open spec fn limits_section(limits: ResourceLimits, on: bool) -> Seq<char> {
        "\n"@ + tint(on, BLACK_ON_BRIGHT_MAGENTA@, LIMITS_BANNER@) + "\n\n\n"@ + titled(
            "Input Size"@,
            size_numeral(limits.input_size as nat),
        ) + "\n"@ + titled("Output Size"@, size_numeral(limits.output_size as nat)) + "\n"@
            + titled("Instructions"@, instructions_numeral(limits.instructions as nat)) + "\n"@
    }

    /// The line of the instruction count: in red where the count exceeds its
    /// limit and `on` holds.
    pub open spec fn instructions_line(&self, limits: ResourceLimits, on: bool) -> Seq<char> {
        tint(
            on && self.instructions > limits.instructions,
            RED@,
            titled("Instructions"@, instructions_numeral(self.instructions as nat)),
        )
    }

    /// The line of the input size.
    pub open spec fn input_size_line(&self, limits: ResourceLimits, on: bool) -> Seq<char> {
        tint(
            on && self.input.raw@.len() > limits.input_size,
            RED@,
            titled("Input Size"@, size_numeral(self.input.raw@.len())),
        )
    }

    /// The line of the output size.
    pub open spec fn output_size_line(&self, limits: ResourceLimits, on: bool) -> Seq<char> {
        tint(
            on && self.output.raw@.len() > limits.output_size,
            RED@,
            titled("Output Size"@, size_numeral(self.output.raw@.len())),
        )
    }

    /// The head of the results: their banner, the name and the memory used.
    pub open spec fn results_head(&self, shade: Shade) -> Seq<char> {
        "\n\n"@ + results_banner(shade) + "\n\n"@ + "Name: "@ + self.name@ + "\n"@
            + "Linear Memory Usage: "@ + decimal(self.memory_usage as nat) + "KB\n"@
    }

    /// The three counts that have a limit, a line each.
    pub open spec fn results_counts(
        &self,
        limits: ResourceLimits,
        instructions_on: bool,
        input_size_on: bool,
        output_size_on: bool,
    ) -> Seq<char> {
        self.instructions_line(limits, instructions_on) + "\n"@ + self.input_size_line(
            limits,
            input_size_on,
        ) + "\n"@ + self.output_size_line(limits, output_size_on) + "\n"@
    }

    /// The module's size, and the blank line that ends the report.
    pub open spec fn results_tail(&self) -> Seq<char> {
        "Module Size: "@ + decimal(self.size as nat) + "KB\n\n"@
    }

    /// The results under their banner: name, memory, instructions, input and
    /// output size, module size.
    pub open spec fn results_section(
        &self,
        limits: ResourceLimits,
        shade: Shade,
        instructions_on: bool,
        input_size_on: bool,
        output_size_on: bool,
    ) -> Seq<char> {
        self.results_head(shade) + self.results_counts(
            limits,
            instructions_on,
            input_size_on,
            output_size_on,
        ) + self.results_tail()
    }

    /// The whole report under the given limits, styled as `palette` says.
    pub open spec fn report(&self, limits: ResourceLimits, palette: Palette) -> Seq<char> {
        self.input_section(palette.input) + self.logs_section(palette.logs) + self.warning_section(
            palette.warning,
        ) + self.output_section(palette.invalid_output, palette.json_error, palette.output)
            + Self::limits_section(limits, palette.limits) + self.results_section(
            limits,
            palette.results,
            palette.instructions,
            palette.input_size,
            palette.output_size,
        )
    }

    /// Appends the input section.
    fn push_input_section(&self, out: &mut String) -> (on: Ghost<bool>)
        ensures
            final(out)@ == old(out)@ + self.input_section(on@),
    {
        let banner = black_on_bright_yellow(INPUT_BANNER);
        push_block(out, banner.as_str(), self.input.humanized.as_str());
        Ghost(banner@ != INPUT_BANNER@)
    }

    /// Appends the logs section.
    fn push_logs_section(&self, out: &mut String) -> (on: Ghost<bool>)
        ensures
            final(out)@ == old(out)@ + self.logs_section(on@),
    {
        let banner = black_on_bright_blue(LOGS_BANNER);
        out.append(banner.as_str());
        out.append("\n\n");
        out.append(self.logs.as_str());
        out.append("\n\n");
        let ghost on = banner@ != LOGS_BANNER@;
        assert(final(out)@ =~= old(out)@ + self.logs_section(on));
        Ghost(on)
    }

    /// Appends the warning section.
    fn push_warning_section(&self, out: &mut String) -> (on: Ghost<bool>)
        ensures
            final(out)@ == old(out)@ + self.warning_section(on@),
    {
        let length: usize = self.logs.as_str().unicode_len();
        if length as u64 > FUNCTION_LOG_LIMIT {
            let mut warning = String::new();
            warning.append("Logs would be truncated in production, length ");
            push_decimal(&mut warning, length as u64);
            warning.append(" > ");
            push_decimal(&mut warning, FUNCTION_LOG_LIMIT);
            warning.append(" limit");
            assert(warning@ =~= log_warning(self.logs@.len()));
            let line = red(warning.as_str());
            out.append(line.as_str());
            out.append("\n\n\n");
            let ghost on = line@ != warning@;
            assert(final(out)@ =~= old(out)@ + self.warning_section(on));
            Ghost(on)
        } else {
            assert(final(out)@ =~= old(out)@ + self.warning_section(false));
            Ghost(false)
        }
    }

    /// Appends the output section.
    fn push_output_section(&self, out: &mut String) -> (on: Ghost<(bool, bool, bool)>)
        ensures
            final(out)@ == old(out)@ + self.output_section(on@.0, on@.1, on@.2),
    {
        match &self.output.encoding_error {
            Some(error) => {
                let invalid = black_on_bright_red(INVALID_OUTPUT_BANNER);
                push_block(out, invalid.as_str(), self.output.humanized.as_str());
                let complaint = black_on_bright_red(JSON_ERROR_BANNER);
                push_block(out, complaint.as_str(), error.as_str());
                let ghost on = (
                    invalid@ != INVALID_OUTPUT_BANNER@,
                    complaint@ != JSON_ERROR_BANNER@,
                    false,
                );
                assert(final(out)@ =~= old(out)@ + self.output_section(on.0, on.1, on.2));
                Ghost(on)
            },
            None => {
                let banner = black_on_bright_green(OUTPUT_BANNER);
                push_block(out, banner.as_str(), self.output.humanized.as_str());
                Ghost((false, false, banner@ != OUTPUT_BANNER@))
            },
        }
    }

    /// Appends the limits section.
    fn push_limits_section(out: &mut String, limits: ResourceLimits) -> (on: Ghost<bool>)
        ensures
            final(out)@ == old(out)@ + Self::limits_section(limits, on@),
    {
        let banner = black_on_bright_magenta(LIMITS_BANNER);
        out.append("\n");
        out.append(banner.as_str());
        out.append("\n\n\n");
        let input = humanize_size("Input Size", limits.input_size, limits.input_size);
        out.append(input.as_str());
        out.append("\n");
        let output = humanize_size("Output Size", limits.output_size, limits.output_size);
        out.append(output.as_str());
        out.append("\n");
        let instructions = humanize_instructions(
            "Instructions",
            limits.instructions,
            limits.instructions,
        );
        out.append(instructions.as_str());
        out.append("\n");
        let ghost on = banner@ != LIMITS_BANNER@;
        assert(final(out)@ =~= old(out)@ + Self::limits_section(limits, on));
        Ghost(on)
    }

    /// Appends the head of the results.
    fn push_results_head(&self, out: &mut String) -> (shade: Ghost<Shade>)
        ensures
            final(out)@ == old(out)@ + self.results_head(shade@),
    {
        let banner = black_on_truecolor(RESULTS_BANNER, RESULTS_RED, RESULTS_GREEN, RESULTS_BLUE);
        out.append("\n\n");
        out.append(banner.as_str());
        out.append("\n\n");
        out.append("Name: ");
        out.append(self.name.as_str());
        out.append("\n");
        out.append("Linear Memory Usage: ");
        push_decimal(out, self.memory_usage);
        out.append("KB\n");
        let ghost shade = if banner@ == RESULTS_BANNER@ {
            Shade::Plain
        } else if banner@ == marked(
            truecolor_background(RESULTS_RED, RESULTS_GREEN, RESULTS_BLUE) + WITH_BLACK_TEXT@,
            RESULTS_BANNER@,
        ) {
            Shade::Exact
        } else {
            Shade::Nearest
        };
        assert(banner@ == results_banner(shade));
        assert(final(out)@ =~= old(out)@ + self.results_head(shade));
        Ghost(shade)
    }

    /// Appends the three counts that have a limit.
    fn push_results_counts(&self, out: &mut String, limits: ResourceLimits) -> (on: Ghost<
        (bool, bool, bool),
    >)
        ensures
            final(out)@ == old(out)@ + self.results_counts(limits, on@.0, on@.1, on@.2),
    {
        let instructions = humanize_instructions(
            "Instructions",
            self.instructions,
            limits.instructions,
        );
        out.append(instructions.as_str());
        out.append("\n");
        let input = humanize_size("Input Size", self.input_size() as u64, limits.input_size);
        out.append(input.as_str());
        out.append("\n");
        let output = humanize_size("Output Size", self.output_size() as u64, limits.output_size);
        out.append(output.as_str());
        out.append("\n");
        let ghost on = (
            instructions@ != titled(
                "Instructions"@,
                instructions_numeral(self.instructions as nat),
            ),
            input@ != titled("Input Size"@, size_numeral(self.input.raw@.len())),
            output@ != titled("Output Size"@, size_numeral(self.output.raw@.len())),
        );
        assert(instructions@ == self.instructions_line(limits, on.0));
        assert(input@ == self.input_size_line(limits, on.1));
        assert(output@ == self.output_size_line(limits, on.2));
        assert(final(out)@ =~= old(out)@ + self.results_counts(limits, on.0, on.1, on.2));
        Ghost(on)
    }

    /// Appends the end of the results.
    fn push_results_tail(&self, out: &mut String)
        ensures
            final(out)@ == old(out)@ + self.results_tail(),
    {
        out.append("Module Size: ");
        push_decimal(out, self.size);
        out.append("KB\n\n");
        assert(final(out)@ =~= old(out)@ + self.results_tail());
    }

    /// Appends the results section.
    fn push_results_section(&self, out: &mut String, limits: ResourceLimits) -> (on: Ghost<
        (Shade, bool, bool, bool),
    >)
        ensures
            final(out)@ == old(out)@ + self.results_section(limits, on@.0, on@.1, on@.2, on@.3),
    {
        let shade = self.push_results_head(out);
        let counts = self.push_results_counts(out, limits);
        self.push_results_tail(out);
        let ghost on = (shade@, counts@.0, counts@.1, counts@.2);
        assert(final(out)@ =~= old(out)@ + self.results_section(limits, on.0, on.1, on.2, on.3));
        Ghost(on)
    }

    /// The report of the run under the given limits. Whatever `colored`
    /// styled of it, the text is that of `report`, section by section.
    pub fn render_under(&self, limits: ResourceLimits) -> (out: String)
        ensures
            exists|palette: Palette| out@ == self.report(limits, palette),
    {
        let mut out = String::new();
        let input = self.push_input_section(&mut out);
        let logs = self.push_logs_section(&mut out);
        let warning = self.push_warning_section(&mut out);
        let output = self.push_output_section(&mut out);
        let banner = Self::push_limits_section(&mut out, limits);
        let results = self.push_results_section(&mut out, limits);
        let ghost palette = Palette {
            input: input@,
            logs: logs@,
            warning: warning@,
            invalid_output: output@.0,
            json_error: output@.1,
            output: output@.2,
            limits: banner@,
            results: results@.0,
            instructions: results@.1,
            input_size: results@.2,
            output_size: results@.3,
        };
        assert(out@ =~= self.report(limits, palette));
        out
    }

    /// The report of the run, under the limits that its scale factor gives.
    pub fn render(&self) -> (out: String)
        ensures
            exists|palette: Palette|
                out@ == self.report(ResourceLimits::under(self.scale_factor), palette),
    {
        self.render_under(ResourceLimits::scaled(self.scale_factor))
    }
}

/// Appends a banner, a blank line, a body and a line end.
fn push_block(out: &mut String, banner: &str, body: &str)
    ensures
        final(out)@ == old(out)@ + block(banner@, body@),
{
    out.append(banner);
    out.append("\n\n");
    out.append(body);
    out.append("\n");
    assert(final(out)@ =~= old(out)@ + block(banner@, body@));
}

} // verus!
