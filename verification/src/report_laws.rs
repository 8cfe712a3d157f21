//! What holds of every report.
use crate::decimal::decimal;
use crate::function_run_result::{
    block, lemma_banners_escape_free, log_warning, results_banner, tint, FunctionRunResult,
    Palette, Shade, FUNCTION_LOG_LIMIT, INPUT_BANNER, INVALID_OUTPUT_BANNER, JSON_ERROR_BANNER,
    LIMITS_BANNER, LOGS_BANNER, OUTPUT_BANNER, RESULTS_BANNER, RESULTS_BLUE, RESULTS_GREEN,
    RESULTS_RED,
};
use crate::humanize::{instructions_numeral, size_numeral, titled};
use crate::humanize_laws::{
    lemma_instructions_numeral_escape_free, lemma_size_numeral_escape_free,
    lemma_titled_escape_free,
};
use crate::limits::ResourceLimits;
use crate::style::{
    lemma_marked_escape_free, nearest_basic_background, truecolor_background,
    BLACK_ON_BRIGHT_BLUE, BLACK_ON_BRIGHT_GREEN, BLACK_ON_BRIGHT_MAGENTA, BLACK_ON_BRIGHT_RED,
    BLACK_ON_BRIGHT_YELLOW, RED, WITH_BLACK_TEXT,
};
use crate::text::{
    escape_free, lemma_decimal_escape_free, lemma_escape_free_joined, lemma_occurs_in_itself,
    lemma_occurs_in_left, lemma_occurs_in_right, lemma_occurs_within, occurs_in,
};
use vstd::prelude::*;

verus! {

/// An escape-free text occurs in what `tint` makes of it, styled or not.
pub proof fn lemma_occurs_in_tint(on: bool, code: Seq<char>, text: Seq<char>)
    requires
        escape_free(text),
    ensures
        occurs_in(text, tint(on, code, text)),
{
    if on {
        lemma_marked_escape_free(code, text);
    } else {
        lemma_occurs_in_itself(text);
    }
}

/// The banner and the body of a block occur in it.
pub proof fn lemma_occurs_in_block(needle: Seq<char>, banner: Seq<char>, body: Seq<char>)
    ensures
        occurs_in(needle, banner) ==> occurs_in(needle, block(banner, body)),
        occurs_in(needle, body) ==> occurs_in(needle, block(banner, body)),
{
    if occurs_in(needle, banner) {
        lemma_occurs_within(needle, Seq::empty(), banner, "\n\n"@ + body + "\n"@);
        assert(Seq::empty() + banner + ("\n\n"@ + body + "\n"@) =~= block(banner, body));
    }
    if occurs_in(needle, body) {
        lemma_occurs_within(needle, banner + "\n\n"@, body, "\n"@);
    }
}

/// The warning holds no escape character.
pub proof fn lemma_log_warning_escape_free(length: nat)
    ensures
        escape_free(log_warning(length)),
{
    reveal_strlit("Logs would be truncated in production, length ");
    reveal_strlit(" > ");
    reveal_strlit(" limit");
    lemma_decimal_escape_free(length);
    lemma_decimal_escape_free(FUNCTION_LOG_LIMIT as nat);
    let a = "Logs would be truncated in production, length "@;
    lemma_escape_free_joined(a, decimal(length));
    lemma_escape_free_joined(a + decimal(length), " > "@);
    lemma_escape_free_joined(a + decimal(length) + " > "@, decimal(FUNCTION_LOG_LIMIT as nat));
    lemma_escape_free_joined(
        a + decimal(length) + " > "@ + decimal(FUNCTION_LOG_LIMIT as nat),
        " limit"@,
    );
}

impl FunctionRunResult {
    /// Logs over the limit put the warning into the report, with their exact
    /// length and the limit in it, whatever was styled.
    pub proof fn lemma_long_logs_are_flagged(&self, limits: ResourceLimits, palette: Palette)
        requires
            self.logs@.len() > FUNCTION_LOG_LIMIT,
        ensures
            occurs_in(log_warning(self.logs@.len()), self.report(limits, palette)),
    {
        let warning = log_warning(self.logs@.len());
        lemma_log_warning_escape_free(self.logs@.len());
        lemma_occurs_in_tint(palette.warning, RED@, warning);
        let line = tint(palette.warning, RED@, warning);
        lemma_occurs_within(warning, Seq::empty(), line, "\n\n\n"@);
        let section = self.warning_section(palette.warning);
        assert(Seq::empty() + line + "\n\n\n"@ =~= section);
        let before = self.input_section(palette.input) + self.logs_section(palette.logs);
        let after = self.output_section(palette.invalid_output, palette.json_error, palette.output)
            + Self::limits_section(limits, palette.limits) + self.results_section(
            limits,
            palette.results,
            palette.instructions,
            palette.input_size,
            palette.output_size,
        );
        lemma_occurs_within(warning, before, section, after);
        assert(before + section + after =~= self.report(limits, palette));
    }

    /// Logs within the limit leave no warning section: the output follows
    /// the logs at once.
    pub proof fn lemma_short_logs_are_not_flagged(&self, limits: ResourceLimits, palette: Palette)
        requires
            self.logs@.len() <= FUNCTION_LOG_LIMIT,
        ensures
            self.warning_section(palette.warning).len() == 0,
            self.report(limits, palette) == self.input_section(palette.input) + self.logs_section(
                palette.logs,
            ) + self.output_section(palette.invalid_output, palette.json_error, palette.output)
                + Self::limits_section(limits, palette.limits) + self.results_section(
                limits,
                palette.results,
                palette.instructions,
                palette.input_size,
                palette.output_size,
            ),
    {
        assert(self.input_section(palette.input) + self.logs_section(palette.logs) + Seq::<
            char,
        >::empty() =~= self.input_section(palette.input) + self.logs_section(palette.logs));
    }

    /// An output that could not be decoded stands under the banner for
    /// invalid output, and the decoder's complaint, letter for letter, under
    /// the banner for the error; all three occur in the report.
    pub proof fn lemma_undecoded_output_is_shown(&self, limits: ResourceLimits, palette: Palette)
        requires
            self.output.encoding_error is Some,
        ensures
            self.output_section(palette.invalid_output, palette.json_error, palette.output)
                == block(
                tint(palette.invalid_output, BLACK_ON_BRIGHT_RED@, INVALID_OUTPUT_BANNER@),
                self.output.humanized@,
            ) + block(
                tint(palette.json_error, BLACK_ON_BRIGHT_RED@, JSON_ERROR_BANNER@),
                self.output.encoding_error->0@,
            ),
            occurs_in(INVALID_OUTPUT_BANNER@, self.report(limits, palette)),
            occurs_in(JSON_ERROR_BANNER@, self.report(limits, palette)),
            occurs_in(self.output.encoding_error->0@, self.report(limits, palette)),
    {
        lemma_banners_escape_free();
        let error = self.output.encoding_error->0@;
        let first_banner = tint(
            palette.invalid_output,
            BLACK_ON_BRIGHT_RED@,
            INVALID_OUTPUT_BANNER@,
        );
        let second_banner = tint(palette.json_error, BLACK_ON_BRIGHT_RED@, JSON_ERROR_BANNER@);
        let first = block(first_banner, self.output.humanized@);
        let second = block(second_banner, error);
        let section = self.output_section(
            palette.invalid_output,
            palette.json_error,
            palette.output,
        );
        assert(section == first + second);
        lemma_occurs_in_tint(palette.invalid_output, BLACK_ON_BRIGHT_RED@, INVALID_OUTPUT_BANNER@);
        lemma_occurs_in_tint(palette.json_error, BLACK_ON_BRIGHT_RED@, JSON_ERROR_BANNER@);
        lemma_occurs_in_itself(error);
        lemma_occurs_in_block(INVALID_OUTPUT_BANNER@, first_banner, self.output.humanized@);
        lemma_occurs_in_block(JSON_ERROR_BANNER@, second_banner, error);
        lemma_occurs_in_block(error, second_banner, error);
        lemma_occurs_within(INVALID_OUTPUT_BANNER@, Seq::empty(), first, second);
        lemma_occurs_within(JSON_ERROR_BANNER@, first, second, Seq::empty());
        lemma_occurs_within(error, first, second, Seq::empty());
        assert(Seq::empty() + first + second =~= section);
        assert(first + second + Seq::empty() =~= section);
        let before = self.input_section(palette.input) + self.logs_section(palette.logs)
            + self.warning_section(palette.warning);
        let after = Self::limits_section(limits, palette.limits) + self.results_section(
            limits,
            palette.results,
            palette.instructions,
            palette.input_size,
            palette.output_size,
        );
        lemma_occurs_within(INVALID_OUTPUT_BANNER@, before, section, after);
        lemma_occurs_within(JSON_ERROR_BANNER@, before, section, after);
        lemma_occurs_within(error, before, section, after);
        assert(before + section + after =~= self.report(limits, palette));
    }

    /// A decoded output stands under the plain output banner alone: the
    /// section holds neither of the two banners of an undecoded one.
    pub proof fn lemma_decoded_output_is_shown(&self, invalid_on: bool, error_on: bool, on: bool)
        requires
            self.output.encoding_error is None,
        ensures
            self.output_section(invalid_on, error_on, on) == block(
                tint(on, BLACK_ON_BRIGHT_GREEN@, OUTPUT_BANNER@),
                self.output.humanized@,
            ),
    {
    }

    /// A report is settled by what it shows of the run, by the limits and by
    /// the palette: two renderings of one run under one palette are the same
    /// text, and neither the profile nor the outcome flag enters.
    pub proof fn lemma_report_is_determined(
        &self,
        other: &FunctionRunResult,
        limits: ResourceLimits,
        palette: Palette,
    )
        requires
            self.name@ == other.name@,
            self.size == other.size,
            self.memory_usage == other.memory_usage,
            self.instructions == other.instructions,
            self.logs@ == other.logs@,
            self.input.humanized@ == other.input.humanized@,
            self.input.raw@.len() == other.input.raw@.len(),
            self.output.humanized@ == other.output.humanized@,
            self.output.raw@.len() == other.output.raw@.len(),
            self.output.encoding_error is Some == other.output.encoding_error is Some,
            self.output.encoding_error is Some ==> self.output.encoding_error->0@
                == other.output.encoding_error->0@,
        ensures
            self.report(limits, palette) == other.report(limits, palette),
    {
    }
}

/// A unit and the line end behind it are written as one text.
proof fn lemma_line_ends()
    ensures
        "KB\n"@ == "KB"@ + "\n"@,
        "KB\n\n"@ == "KB"@ + "\n\n"@,
{
    reveal_strlit("KB\n");
    reveal_strlit("KB\n\n");
    reveal_strlit("KB");
    reveal_strlit("\n");
    reveal_strlit("\n\n");
    assert("KB\n"@ =~= "KB"@ + "\n"@);
    assert("KB\n\n"@ =~= "KB"@ + "\n\n"@);
}

/// A line with a limit occurs in what `tint` makes of it, styled or not.
pub proof fn lemma_size_line_occurs(on: bool, title: Seq<char>, bytes: nat)
    requires
        escape_free(title),
    ensures
        occurs_in(
            titled(title, size_numeral(bytes)),
            tint(on, RED@, titled(title, size_numeral(bytes))),
        ),
{
    lemma_size_numeral_escape_free(bytes);
    lemma_titled_escape_free(title, size_numeral(bytes));
    lemma_occurs_in_tint(on, RED@, titled(title, size_numeral(bytes)));
}

/// The same for a line of instructions.
pub proof fn lemma_instructions_line_occurs(on: bool, title: Seq<char>, count: nat)
    requires
        escape_free(title),
    ensures
        occurs_in(
            titled(title, instructions_numeral(count)),
            tint(on, RED@, titled(title, instructions_numeral(count))),
        ),
{
    lemma_instructions_numeral_escape_free(count);
    lemma_titled_escape_free(title, instructions_numeral(count));
    lemma_occurs_in_tint(on, RED@, titled(title, instructions_numeral(count)));
}

impl FunctionRunResult {
    /// What occurs in a section occurs in the report.
    pub proof fn lemma_sections_occur(
        &self,
        needle: Seq<char>,
        limits: ResourceLimits,
        palette: Palette,
    )
        ensures
            occurs_in(needle, self.input_section(palette.input)) ==> occurs_in(
                needle,
                self.report(limits, palette),
            ),
            occurs_in(needle, self.logs_section(palette.logs)) ==> occurs_in(
                needle,
                self.report(limits, palette),
            ),
            occurs_in(needle, self.warning_section(palette.warning)) ==> occurs_in(
                needle,
                self.report(limits, palette),
            ),
            occurs_in(
                needle,
                self.output_section(palette.invalid_output, palette.json_error, palette.output),
            ) ==> occurs_in(needle, self.report(limits, palette)),
            occurs_in(needle, Self::limits_section(limits, palette.limits)) ==> occurs_in(
                needle,
                self.report(limits, palette),
            ),
            occurs_in(
                needle,
                self.results_section(
                    limits,
                    palette.results,
                    palette.instructions,
                    palette.input_size,
                    palette.output_size,
                ),
            ) ==> occurs_in(needle, self.report(limits, palette)),
    {
        let s1 = self.input_section(palette.input);
        let s2 = self.logs_section(palette.logs);
        let s3 = self.warning_section(palette.warning);
        let s4 = self.output_section(palette.invalid_output, palette.json_error, palette.output);
        let s5 = Self::limits_section(limits, palette.limits);
        let s6 = self.results_section(
            limits,
            palette.results,
            palette.instructions,
            palette.input_size,
            palette.output_size,
        );
        assert(self.report(limits, palette) == s1 + s2 + s3 + s4 + s5 + s6);
        if occurs_in(needle, s1) {
            lemma_occurs_in_left(needle, s1, s2);
        }
        if occurs_in(needle, s2) {
            lemma_occurs_in_right(needle, s1, s2);
        }
        if occurs_in(needle, s1 + s2) {
            lemma_occurs_in_left(needle, s1 + s2, s3);
        }
        if occurs_in(needle, s3) {
            lemma_occurs_in_right(needle, s1 + s2, s3);
        }
        if occurs_in(needle, s1 + s2 + s3) {
            lemma_occurs_in_left(needle, s1 + s2 + s3, s4);
        }
        if occurs_in(needle, s4) {
            lemma_occurs_in_right(needle, s1 + s2 + s3, s4);
        }
        if occurs_in(needle, s1 + s2 + s3 + s4) {
            lemma_occurs_in_left(needle, s1 + s2 + s3 + s4, s5);
        }
        if occurs_in(needle, s5) {
            lemma_occurs_in_right(needle, s1 + s2 + s3 + s4, s5);
        }
        if occurs_in(needle, s1 + s2 + s3 + s4 + s5) {
            lemma_occurs_in_left(needle, s1 + s2 + s3 + s4 + s5, s6);
        }
        if occurs_in(needle, s6) {
            lemma_occurs_in_right(needle, s1 + s2 + s3 + s4 + s5, s6);
        }
    }

    /// The input, the logs and the output stand in the report as they are.
    pub proof fn lemma_payloads_are_shown(&self, limits: ResourceLimits, palette: Palette)
        ensures
            occurs_in(self.input.humanized@, self.report(limits, palette)),
            occurs_in(self.logs@, self.report(limits, palette)),
            occurs_in(self.output.humanized@, self.report(limits, palette)),
    {
        let input = self.input.humanized@;
        lemma_occurs_in_itself(input);
        lemma_occurs_in_block(
            input,
            tint(palette.input, BLACK_ON_BRIGHT_YELLOW@, INPUT_BANNER@),
            input,
        );
        self.lemma_sections_occur(input, limits, palette);
        let logs = self.logs@;
        lemma_occurs_in_itself(logs);
        lemma_occurs_within(
            logs,
            tint(palette.logs, BLACK_ON_BRIGHT_BLUE@, LOGS_BANNER@) + "\n\n"@,
            logs,
            "\n\n"@,
        );
        self.lemma_sections_occur(logs, limits, palette);
        let output = self.output.humanized@;
        lemma_occurs_in_itself(output);
        match self.output.encoding_error {
            Some(error) => {
                let first = block(
                    tint(palette.invalid_output, BLACK_ON_BRIGHT_RED@, INVALID_OUTPUT_BANNER@),
                    output,
                );
                lemma_occurs_in_block(
                    output,
                    tint(palette.invalid_output, BLACK_ON_BRIGHT_RED@, INVALID_OUTPUT_BANNER@),
                    output,
                );
                lemma_occurs_in_left(
                    output,
                    first,
                    block(
                        tint(palette.json_error, BLACK_ON_BRIGHT_RED@, JSON_ERROR_BANNER@),
                        error@,
                    ),
                );
            },
            None => {
                lemma_occurs_in_block(
                    output,
                    tint(palette.output, BLACK_ON_BRIGHT_GREEN@, OUTPUT_BANNER@),
                    output,
                );
            },
        }
        self.lemma_sections_occur(output, limits, palette);
    }

    /// The three limits stand in the report as plain lines.
    pub proof fn lemma_limits_are_shown(&self, limits: ResourceLimits, palette: Palette)
        ensures
            occurs_in(
                titled("Input Size"@, size_numeral(limits.input_size as nat)),
                self.report(limits, palette),
            ),
            occurs_in(
                titled("Output Size"@, size_numeral(limits.output_size as nat)),
                self.report(limits, palette),
            ),
            occurs_in(
                titled("Instructions"@, instructions_numeral(limits.instructions as nat)),
                self.report(limits, palette),
            ),
    {
        let banner = tint(palette.limits, BLACK_ON_BRIGHT_MAGENTA@, LIMITS_BANNER@);
        let first = titled("Input Size"@, size_numeral(limits.input_size as nat));
        let second = titled("Output Size"@, size_numeral(limits.output_size as nat));
        let third = titled("Instructions"@, instructions_numeral(limits.instructions as nat));
        let a = "\n"@ + banner + "\n\n\n"@;
        let b = a + first + "\n"@;
        let c = b + second + "\n"@;
        let section = Self::limits_section(limits, palette.limits);
        assert(section == c + third + "\n"@);
        lemma_occurs_in_itself(first);
        lemma_occurs_in_itself(second);
        lemma_occurs_in_itself(third);
        lemma_occurs_within(first, a, first, "\n"@);
        lemma_occurs_in_left(first, b, second);
        lemma_occurs_in_left(first, b + second, "\n"@);
        lemma_occurs_within(second, b, second, "\n"@);
        lemma_occurs_in_left(first, c, third);
        lemma_occurs_in_left(second, c, third);
        lemma_occurs_in_left(first, c + third, "\n"@);
        lemma_occurs_in_left(second, c + third, "\n"@);
        lemma_occurs_within(third, c, third, "\n"@);
        self.lemma_sections_occur(first, limits, palette);
        self.lemma_sections_occur(second, limits, palette);
        self.lemma_sections_occur(third, limits, palette);
    }
}

impl FunctionRunResult {
    /// What occurs in a part of the results occurs in the report.
    pub proof fn lemma_results_occur(
        &self,
        needle: Seq<char>,
        limits: ResourceLimits,
        palette: Palette,
    )
        ensures
            occurs_in(needle, self.results_head(palette.results)) ==> occurs_in(
                needle,
                self.report(limits, palette),
            ),
            occurs_in(
                needle,
                self.results_counts(
                    limits,
                    palette.instructions,
                    palette.input_size,
                    palette.output_size,
                ),
            ) ==> occurs_in(needle, self.report(limits, palette)),
            occurs_in(needle, self.results_tail()) ==> occurs_in(
                needle,
                self.report(limits, palette),
            ),
    {
        let head = self.results_head(palette.results);
        let counts = self.results_counts(
            limits,
            palette.instructions,
            palette.input_size,
            palette.output_size,
        );
        let tail = self.results_tail();
        if occurs_in(needle, head) {
            lemma_occurs_in_left(needle, head, counts);
        }
        if occurs_in(needle, counts) {
            lemma_occurs_in_right(needle, head, counts);
        }
        if occurs_in(needle, head + counts) {
            lemma_occurs_in_left(needle, head + counts, tail);
        }
        if occurs_in(needle, tail) {
            lemma_occurs_in_right(needle, head + counts, tail);
        }
        self.lemma_sections_occur(needle, limits, palette);
    }

    /// The name stands in the report as a plain line.
    pub proof fn lemma_name_is_shown(&self, limits: ResourceLimits, palette: Palette)
        ensures
            occurs_in("Name: "@ + self.name@, self.report(limits, palette)),
    {
        let top = "\n\n"@ + results_banner(palette.results) + "\n\n"@;
        let name = "Name: "@ + self.name@;
        let after = "\n"@ + "Linear Memory Usage: "@ + decimal(self.memory_usage as nat)
            + "KB\n"@;
        lemma_occurs_in_itself(name);
        lemma_occurs_within(name, top, name, after);
        assert(top + name + after =~= self.results_head(palette.results));
        self.lemma_results_occur(name, limits, palette);
    }

    /// The memory used stands in the report as a plain line.
    pub proof fn lemma_memory_is_shown(&self, limits: ResourceLimits, palette: Palette)
        ensures
            occurs_in(
                "Linear Memory Usage: "@ + decimal(self.memory_usage as nat) + "KB"@,
                self.report(limits, palette),
            ),
    {
        lemma_line_ends();
        let before = "\n\n"@ + results_banner(palette.results) + "\n\n"@ + "Name: "@
            + self.name@ + "\n"@;
        let memory = "Linear Memory Usage: "@ + decimal(self.memory_usage as nat) + "KB"@;
        lemma_occurs_in_itself(memory);
        lemma_occurs_within(memory, before, memory, "\n"@);
        assert(before + memory + "\n"@ =~= before + "Linear Memory Usage: "@ + decimal(
            self.memory_usage as nat,
        ) + ("KB"@ + "\n"@));
        self.lemma_results_occur(memory, limits, palette);
    }

    /// The module's size stands in the report as a plain line.
    pub proof fn lemma_module_size_is_shown(&self, limits: ResourceLimits, palette: Palette)
        ensures
            occurs_in(
                "Module Size: "@ + decimal(self.size as nat) + "KB"@,
                self.report(limits, palette),
            ),
    {
        lemma_line_ends();
        let size = "Module Size: "@ + decimal(self.size as nat) + "KB"@;
        lemma_occurs_in_itself(size);
        lemma_occurs_in_left(size, size, "\n\n"@);
        assert(size + "\n\n"@ =~= "Module Size: "@ + decimal(self.size as nat) + ("KB"@
            + "\n\n"@));
        self.lemma_results_occur(size, limits, palette);
    }

    /// The three counts that have a limit stand in the report as plain
    /// lines, whether they were highlighted or not: the highlight goes
    /// round a line and never into it.
    pub proof fn lemma_counts_are_shown(&self, limits: ResourceLimits, palette: Palette)
        ensures
            occurs_in(
                titled("Instructions"@, instructions_numeral(self.instructions as nat)),
                self.report(limits, palette),
            ),
            occurs_in(
                titled("Input Size"@, size_numeral(self.input.raw@.len())),
                self.report(limits, palette),
            ),
            occurs_in(
                titled("Output Size"@, size_numeral(self.output.raw@.len())),
                self.report(limits, palette),
            ),
    {
        reveal_strlit("Instructions");
        reveal_strlit("Input Size");
        reveal_strlit("Output Size");
        let first = titled("Instructions"@, instructions_numeral(self.instructions as nat));
        let second = titled("Input Size"@, size_numeral(self.input.raw@.len()));
        let third = titled("Output Size"@, size_numeral(self.output.raw@.len()));
        let first_line = self.instructions_line(limits, palette.instructions);
        let second_line = self.input_size_line(limits, palette.input_size);
        let third_line = self.output_size_line(limits, palette.output_size);
        lemma_instructions_line_occurs(
            palette.instructions && self.instructions > limits.instructions,
            "Instructions"@,
            self.instructions as nat,
        );
        lemma_size_line_occurs(
            palette.input_size && self.input.raw@.len() > limits.input_size,
            "Input Size"@,
            self.input.raw@.len(),
        );
        lemma_size_line_occurs(
            palette.output_size && self.output.raw@.len() > limits.output_size,
            "Output Size"@,
            self.output.raw@.len(),
        );
        let a = first_line + "\n"@;
        let b = a + second_line + "\n"@;
        let counts = self.results_counts(
            limits,
            palette.instructions,
            palette.input_size,
            palette.output_size,
        );
        assert(counts == b + third_line + "\n"@);
        lemma_occurs_in_left(first, first_line, "\n"@);
        lemma_occurs_in_left(first, a, second_line);
        lemma_occurs_in_left(first, a + second_line, "\n"@);
        lemma_occurs_in_left(first, b, third_line);
        lemma_occurs_in_left(first, b + third_line, "\n"@);
        lemma_occurs_in_right(second, a, second_line);
        lemma_occurs_in_left(second, a + second_line, "\n"@);
        lemma_occurs_in_left(second, b, third_line);
        lemma_occurs_in_left(second, b + third_line, "\n"@);
        lemma_occurs_in_right(third, b, third_line);
        lemma_occurs_in_left(third, b + third_line, "\n"@);
        self.lemma_results_occur(first, limits, palette);
        self.lemma_results_occur(second, limits, palette);
        self.lemma_results_occur(third, limits, palette);
    }
}

impl FunctionRunResult {
    /// Every section's banner can be read in the report, whatever was
    /// styled: for the output, the plain banner where it was decoded.
    pub proof fn lemma_banners_are_shown(&self, limits: ResourceLimits, palette: Palette)
        ensures
            occurs_in(INPUT_BANNER@, self.report(limits, palette)),
            occurs_in(LOGS_BANNER@, self.report(limits, palette)),
            self.output.encoding_error is None ==> occurs_in(
                OUTPUT_BANNER@,
                self.report(limits, palette),
            ),
            occurs_in(LIMITS_BANNER@, self.report(limits, palette)),
            occurs_in(RESULTS_BANNER@, self.report(limits, palette)),
    {
        lemma_banners_escape_free();
        let input = tint(palette.input, BLACK_ON_BRIGHT_YELLOW@, INPUT_BANNER@);
        lemma_occurs_in_tint(palette.input, BLACK_ON_BRIGHT_YELLOW@, INPUT_BANNER@);
        lemma_occurs_in_block(INPUT_BANNER@, input, self.input.humanized@);
        self.lemma_sections_occur(INPUT_BANNER@, limits, palette);
        let logs = tint(palette.logs, BLACK_ON_BRIGHT_BLUE@, LOGS_BANNER@);
        lemma_occurs_in_tint(palette.logs, BLACK_ON_BRIGHT_BLUE@, LOGS_BANNER@);
        lemma_occurs_in_left(LOGS_BANNER@, logs, "\n\n"@);
        lemma_occurs_in_left(LOGS_BANNER@, logs + "\n\n"@, self.logs@);
        lemma_occurs_in_left(LOGS_BANNER@, logs + "\n\n"@ + self.logs@, "\n\n"@);
        self.lemma_sections_occur(LOGS_BANNER@, limits, palette);
        if self.output.encoding_error is None {
            let output = tint(palette.output, BLACK_ON_BRIGHT_GREEN@, OUTPUT_BANNER@);
            lemma_occurs_in_tint(palette.output, BLACK_ON_BRIGHT_GREEN@, OUTPUT_BANNER@);
            lemma_occurs_in_block(OUTPUT_BANNER@, output, self.output.humanized@);
            self.lemma_sections_occur(OUTPUT_BANNER@, limits, palette);
        }
        self.lemma_limits_banner_is_shown(limits, palette);
        self.lemma_results_banner_is_shown(limits, palette);
    }

    /// The banner of the limits can be read in the report.
    pub proof fn lemma_limits_banner_is_shown(&self, limits: ResourceLimits, palette: Palette)
        ensures
            occurs_in(LIMITS_BANNER@, self.report(limits, palette)),
    {
        lemma_banners_escape_free();
        let banner = tint(palette.limits, BLACK_ON_BRIGHT_MAGENTA@, LIMITS_BANNER@);
        lemma_occurs_in_tint(palette.limits, BLACK_ON_BRIGHT_MAGENTA@, LIMITS_BANNER@);
        let after = "\n\n\n"@ + titled("Input Size"@, size_numeral(limits.input_size as nat))
            + "\n"@ + titled("Output Size"@, size_numeral(limits.output_size as nat)) + "\n"@
            + titled("Instructions"@, instructions_numeral(limits.instructions as nat)) + "\n"@;
        lemma_occurs_within(LIMITS_BANNER@, "\n"@, banner, after);
        assert("\n"@ + banner + after =~= Self::limits_section(limits, palette.limits));
        self.lemma_sections_occur(LIMITS_BANNER@, limits, palette);
    }

    /// The banner of the results can be read in the report.
    pub proof fn lemma_results_banner_is_shown(&self, limits: ResourceLimits, palette: Palette)
        ensures
            occurs_in(RESULTS_BANNER@, self.report(limits, palette)),
    {
        lemma_banners_escape_free();
        let banner = results_banner(palette.results);
        match palette.results {
            Shade::Plain => {
                lemma_occurs_in_itself(RESULTS_BANNER@);
            },
            Shade::Exact => {
                lemma_marked_escape_free(
                    truecolor_background(RESULTS_RED, RESULTS_GREEN, RESULTS_BLUE)
                        + WITH_BLACK_TEXT@,
                    RESULTS_BANNER@,
                );
            },
            Shade::Nearest => {
                lemma_marked_escape_free(
                    nearest_basic_background(RESULTS_RED, RESULTS_GREEN, RESULTS_BLUE)
                        + WITH_BLACK_TEXT@,
                    RESULTS_BANNER@,
                );
            },
        }
        let after = "\n\n"@ + "Name: "@ + self.name@ + "\n"@ + "Linear Memory Usage: "@
            + decimal(self.memory_usage as nat) + "KB\n"@;
        lemma_occurs_within(RESULTS_BANNER@, "\n\n"@, banner, after);
        assert("\n\n"@ + banner + after =~= self.results_head(palette.results));
        self.lemma_results_occur(RESULTS_BANNER@, limits, palette);
    }
}

} // verus!
