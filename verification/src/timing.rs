//! Elapsed times, and the table of them that a single rendering ends with.

use vstd::prelude::*;
use vstd::string::StringExecFns;

use crate::numbers::decimal;
use crate::text::{append_left_aligned, append_right_aligned, append_run};

verus! {

/// A point in time on the monotonic clock of the standard library.
#[verifier::external_type_specification]
#[verifier::external_body]
pub struct ExInstant(std::time::Instant);

/// How long one phase of a rendering took.
pub struct Timing {
    pub label: &'static str,
    pub ms: u128,
}

/// A row of the timing table: what was timed, and its milliseconds.
pub struct Row {
    pub label: Seq<char>,
    pub ms: u128,
}

impl View for Timing {
    type V = Row;

    open spec fn view(&self) -> Row {
        Row { label: self.label@, ms: self.ms }
    }
}

/// The rows that a list of timings stands for.
pub open spec fn rows_of(timings: Seq<Timing>) -> Seq<Row> {
    timings.map_values(|timing: Timing| timing@)
}

/// The whole milliseconds of a span of `seconds` seconds and `nanos` nanoseconds.
pub open spec fn whole_millis(seconds: u64, nanos: u32) -> nat {
    (seconds * 1000 + nanos / 1_000_000) as nat
}

/// Calls `std::time::Instant::elapsed`, and gives the span in whole seconds and the
/// nanoseconds beyond them, of which there are fewer than a billion. How long the
/// span is depends on the clock.
#[verifier::external_body]
fn elapsed_since(start: std::time::Instant) -> (span: (u64, u32))
    ensures
        span.1 < 1_000_000_000,
{
    let span = start.elapsed();
    (span.as_secs(), span.subsec_nanos())
}

/// The whole milliseconds of a span of time.
pub fn millis(seconds: u64, nanos: u32) -> (ms: u128)
    ensures
        ms == whole_millis(seconds, nanos),
{
    seconds as u128 * 1000 + (nanos / 1_000_000) as u128
}

/// The whole milliseconds since `t`.
pub fn ms(t: std::time::Instant) -> (elapsed: u128)
    ensures
        exists|seconds: u64, nanos: u32|
            nanos < 1_000_000_000 && elapsed == #[trigger] whole_millis(seconds, nanos),
{
    let (seconds, nanos) = elapsed_since(t);
    millis(seconds, nanos)
}

/// Milliseconds count whole seconds in thousands and never run ahead of the span:
/// they are what is left of it when the rest of a millisecond is dropped.
pub proof fn law_millis_round_down(seconds: u64, nanos: u32)
    requires
        nanos < 1_000_000_000,
    ensures
        whole_millis(seconds, nanos) * 1_000_000 <= seconds * 1_000_000_000 + nanos,
        seconds * 1_000_000_000 + nanos < (whole_millis(seconds, nanos) + 1) * 1_000_000,
        whole_millis(seconds, nanos) / 1000 == seconds,
{
}

/// One line of the table, with its line break.
pub open spec fn table_line(label: Seq<char>, figure: Seq<char>) -> Seq<char> {
    "  "@ + crate::text::left_aligned(label, 28) + "  "@ + crate::text::right_aligned(figure, 6)
        + "\n"@
}

/// The line of dashes above and below the rows, with its line break.
pub open spec fn rule_line() -> Seq<char> {
    "  "@ + crate::text::repeated('-', 38) + "\n"@
}

/// The lines of all rows, one below the other.
pub open spec fn row_lines(rows: Seq<Row>) -> Seq<char>
    decreases rows.len(),
{
    if rows.len() == 0 {
        Seq::empty()
    } else {
        row_lines(rows.drop_last()) + table_line(
            rows.last().label,
            crate::numbers::decimal_digits(rows.last().ms as nat),
        )
    }
}

/// A size in pixels, written `width×height`.
pub open spec fn size_text(width: u32, height: u32) -> Seq<char> {
    crate::numbers::decimal_digits(width as nat) + "×"@ + crate::numbers::decimal_digits(
        height as nat,
    )
}

/// How a truth value is written.
pub open spec fn bool_text(value: bool) -> Seq<char> {
    if value {
        "true"@
    } else {
        "false"@
    }
}

/// The table of timings: a blank line, the headings, the rows between two rules and
/// the total, each on a line of its own.
pub open spec fn table_text(rows: Seq<Row>, total_ms: u128) -> Seq<char> {
    "\n"@ + table_line("phase"@, "ms"@) + rule_line() + row_lines(rows) + rule_line() + table_line(
        "total"@,
        crate::numbers::decimal_digits(total_ms as nat),
    )
}

/// The report: the table of timings, a blank line, and the lines on input and output.
pub open spec fn report_text(
    rows: Seq<Row>,
    total_ms: u128,
    input_size: (u32, u32),
    is_raw: bool,
    output_size: (u32, u32),
    output: Seq<char>,
) -> Seq<char> {
    table_text(rows, total_ms) + "\n"@ + "  input:   "@ + size_text(input_size.0, input_size.1)
        + "  raw="@ + bool_text(is_raw) + "\n"@ + "  output:  "@ + size_text(
        output_size.0,
        output_size.1,
    ) + "  "@ + output + "\n"@
}

/// Puts one line of the table at the end of `out`.
fn append_line(out: &mut String, label: &str, figure: &str)
    ensures
        final(out)@ == old(out)@ + table_line(label@, figure@),
{
    out.append("  ");
    append_left_aligned(out, label, 28);
    out.append("  ");
    append_right_aligned(out, figure, 6);
    out.append("\n");
    assert(out@ =~= old(out)@ + table_line(label@, figure@));
}

/// Puts a line of dashes at the end of `out`.
fn append_rule(out: &mut String)
    ensures
        final(out)@ == old(out)@ + rule_line(),
{
    proof {
        reveal_strlit("-");
    }
    out.append("  ");
    append_run(out, "-", 38);
    out.append("\n");
    assert(out@ =~= old(out)@ + rule_line());
}

/// Puts a size at the end of `out`.
fn append_size(out: &mut String, width: u32, height: u32)
    ensures
        final(out)@ == old(out)@ + size_text(width, height),
{
    out.append(decimal(width as u128).as_str());
    out.append("×");
    out.append(decimal(height as u128).as_str());
    assert(out@ =~= old(out)@ + size_text(width, height));
}

/// The table of timings.
pub fn timing_table(timings: &Vec<Timing>, total_ms: u128) -> (table: String)
    ensures
        table@ == table_text(rows_of(timings@), total_ms),
{
    let ghost rows = rows_of(timings@);
    let mut table = "\n".to_string();
    append_line(&mut table, "phase", "ms");
    append_rule(&mut table);
    let ghost head = "\n"@ + table_line("phase"@, "ms"@) + rule_line();
    assert(rows.take(0) =~= Seq::<Row>::empty());
    let mut at: usize = 0;
    while at < timings.len()
        invariant
            at <= timings.len(),
            rows == rows_of(timings@),
            table@ == head + row_lines(rows.take(at as int)),
        decreases timings.len() - at,
    {
        append_line(&mut table, timings[at].label, decimal(timings[at].ms).as_str());
        proof {
            assert(rows.take(at + 1).drop_last() =~= rows.take(at as int));
            assert(rows.take(at + 1).last() == timings[at as int]@);
        }
        at = at + 1;
        assert(table@ =~= head + row_lines(rows.take(at as int)));
    }
    assert(rows.take(at as int) =~= rows);
    append_rule(&mut table);
    append_line(&mut table, "total", decimal(total_ms).as_str());
    table
}

/// The report that a single rendering ends with: its times, the size of the picture
/// that went in and whether it came from a raw file, and the size and place of the
/// picture that was saved.
pub fn report(
    timings: &Vec<Timing>,
    total_ms: u128,
    input_size: (u32, u32),
    is_raw: bool,
    output_size: (u32, u32),
    output: &str,
) -> (text: String)
    ensures
        text@ == report_text(rows_of(timings@), total_ms, input_size, is_raw, output_size, output@),
{
    let mut text = timing_table(timings, total_ms);
    text.append("\n");
    text.append("  input:   ");
    append_size(&mut text, input_size.0, input_size.1);
    text.append("  raw=");
    if is_raw {
        text.append("true");
    } else {
        text.append("false");
    }
    text.append("\n");
    text.append("  output:  ");
    append_size(&mut text, output_size.0, output_size.1);
    text.append("  ");
    text.append(output);
    text.append("\n");
    text
}

/// Every row whose name and figure fit their columns is as wide as every other, so
/// the figures stand one below the other.
pub proof fn law_rows_line_up(label: Seq<char>, figure: Seq<char>)
    requires
        label.len() <= 28,
        figure.len() <= 6,
    ensures
        table_line(label, figure).len() == table_line("phase"@, "ms"@).len(),
{
    reveal_strlit("phase");
    reveal_strlit("ms");
}

/// A line of the table: two blanks, the name filled up to twenty-eight characters, two
/// blanks, and the figure filled up to six, with a line break behind.
pub proof fn law_line_of_the_table(label: Seq<char>, figure: Seq<char>)
    ensures
        ({
            let behind = if label.len() < 28 {
                Seq::new((28 - label.len()) as nat, |i: int| ' ')
            } else {
                Seq::empty()
            };
            let before = if figure.len() < 6 {
                Seq::new((6 - figure.len()) as nat, |i: int| ' ')
            } else {
                Seq::empty()
            };
            table_line(label, figure) == seq![' ', ' '] + label + behind + seq![' ', ' '] + before
                + figure + seq!['\n']
        }),
{
    reveal_strlit("  ");
    reveal_strlit("\n");
    let behind = if label.len() < 28 {
        Seq::new((28 - label.len()) as nat, |i: int| ' ')
    } else {
        Seq::empty()
    };
    let before = if figure.len() < 6 {
        Seq::new((6 - figure.len()) as nat, |i: int| ' ')
    } else {
        Seq::empty()
    };
    assert(table_line(label, figure) =~= seq![' ', ' '] + label + behind + seq![' ', ' '] + before
        + figure + seq!['\n']);
}

/// A rule: two blanks, thirty-eight dashes and a line break.
pub proof fn law_rule_of_the_table(i: int)
    requires
        0 <= i < 38,
    ensures
        rule_line().len() == 41,
        rule_line()[0] == ' ' && rule_line()[1] == ' ',
        rule_line()[i + 2] == '-',
        rule_line()[40] == '\n',
{
    reveal_strlit("  ");
    reveal_strlit("\n");
}

/// Every row has a line with its name and its milliseconds, below those of the rows
/// before it.
pub proof fn law_one_more_row(rows: Seq<Row>, row: Row)
    ensures
        row_lines(Seq::<Row>::empty()).len() == 0,
        row_lines(rows.push(row)) == row_lines(rows) + table_line(
            row.label,
            crate::numbers::decimal_digits(row.ms as nat),
        ),
{
    assert(rows.push(row).drop_last() =~= rows);
}

/// The table: a blank line, the headings, a rule, the rows, a rule and the total.
pub proof fn law_parts_of_the_table(rows: Seq<Row>, total_ms: u128)
    ensures
        table_text(rows, total_ms) == seq!['\n'] + table_line("phase"@, "ms"@) + rule_line()
            + row_lines(rows) + rule_line() + table_line(
            "total"@,
            crate::numbers::decimal_digits(total_ms as nat),
        ),
{
    reveal_strlit("\n");
    assert("\n"@ =~= seq!['\n']);
}

/// The report: the table, a blank line, the size of the input and whether it is raw, and
/// the size and the place of the output.
pub proof fn law_parts_of_the_report(
    rows: Seq<Row>,
    total_ms: u128,
    input_size: (u32, u32),
    is_raw: bool,
    output_size: (u32, u32),
    output: Seq<char>,
)
    ensures
        ({
            let raw = if is_raw {
                "  raw=true\n"@
            } else {
                "  raw=false\n"@
            };
            report_text(rows, total_ms, input_size, is_raw, output_size, output) == table_text(
                rows,
                total_ms,
            ) + "\n  input:   "@ + crate::numbers::decimal_digits(input_size.0 as nat) + "×"@
                + crate::numbers::decimal_digits(input_size.1 as nat) + raw + "  output:  "@
                + crate::numbers::decimal_digits(output_size.0 as nat) + "×"@
                + crate::numbers::decimal_digits(output_size.1 as nat) + "  "@ + output + "\n"@
        }),
{
    reveal_strlit("\n");
    reveal_strlit("  input:   ");
    reveal_strlit("\n  input:   ");
    reveal_strlit("  raw=");
    reveal_strlit("true");
    reveal_strlit("false");
    reveal_strlit("  raw=true\n");
    reveal_strlit("  raw=false\n");
    let raw = if is_raw {
        "  raw=true\n"@
    } else {
        "  raw=false\n"@
    };
    assert(raw =~= "  raw="@ + bool_text(is_raw) + "\n"@);
    assert("\n  input:   "@ =~= "\n"@ + "  input:   "@);
    let size_in = size_text(input_size.0, input_size.1);
    let size_out = size_text(output_size.0, output_size.1);
    assert(size_in == crate::numbers::decimal_digits(input_size.0 as nat) + "×"@
        + crate::numbers::decimal_digits(input_size.1 as nat));
    assert(size_out == crate::numbers::decimal_digits(output_size.0 as nat) + "×"@
        + crate::numbers::decimal_digits(output_size.1 as nat));
    assert(report_text(rows, total_ms, input_size, is_raw, output_size, output) =~= table_text(
        rows,
        total_ms,
    ) + "\n  input:   "@ + crate::numbers::decimal_digits(input_size.0 as nat) + "×"@
        + crate::numbers::decimal_digits(input_size.1 as nat) + raw + "  output:  "@
        + crate::numbers::decimal_digits(output_size.0 as nat) + "×"@
        + crate::numbers::decimal_digits(output_size.1 as nat) + "  "@ + output + "\n"@);
}

/// Timings are reported as they were taken, one row each and in their order.
pub proof fn law_timings_are_taken_as_they_are(timings: Seq<Timing>, i: int)
    requires
        0 <= i < timings.len(),
    ensures
        rows_of(timings).len() == timings.len(),
        rows_of(timings)[i].label == timings[i].label@,
        rows_of(timings)[i].ms == timings[i].ms,
{
}

} // verus!
