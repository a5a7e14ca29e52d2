//! The job server: one job per line comes in, one answer per line goes out.
//!
//! A [`Turn`] says what the server does next; [`advance`] takes in what came of it.

use serde_json::Value;
use vstd::prelude::*;
use vstd::string::StringExecFns;

use crate::json::{quote, write_value};
use crate::numbers::decimal;
use crate::pipeline::Request;

verus! {

/// A job: a rendering that was asked for, and what its answer is to be known by.
pub struct Job {
    pub id: Option<Value>,
    pub input: String,
    pub preset: String,
    pub output: String,
    pub quality: u8,
    pub resize: Option<u32>,
}

/// What came of a job.
pub enum JobResult {
    /// It was done, in so many milliseconds.
    Done { ok: bool, id: Option<Value>, ms: u128 },
    /// It was not done, for this reason.
    Failed { ok: bool, id: Option<Value>, error: String },
}

/// Whether `c` is white space, by the Unicode property of that name.
pub open spec fn is_white_space(c: char) -> bool {
    ||| '\u{9}' <= c <= '\u{d}'
    ||| c == ' '
    ||| c == '\u{85}'
    ||| c == '\u{a0}'
    ||| c == '\u{1680}'
    ||| '\u{2000}' <= c <= '\u{200a}'
    ||| c == '\u{2028}'
    ||| c == '\u{2029}'
    ||| c == '\u{202f}'
    ||| c == '\u{205f}'
    ||| c == '\u{3000}'
}

/// A text without the white space that it begins with.
pub open spec fn trimmed_start(text: Seq<char>) -> Seq<char>
    decreases text.len(),
{
    if text.len() > 0 && is_white_space(text[0]) {
        trimmed_start(text.skip(1))
    } else {
        text
    }
}

/// A text without the white space that it ends with.
pub open spec fn trimmed_end(text: Seq<char>) -> Seq<char>
    decreases text.len(),
{
    if text.len() > 0 && is_white_space(text.last()) {
        trimmed_end(text.drop_last())
    } else {
        text
    }
}

/// A text without the white space around it.
pub open spec fn trimmed(text: Seq<char>) -> Seq<char> {
    trimmed_end(trimmed_start(text))
}

/// Calls `str::trim`, which takes the white space off both ends of a text.
#[verifier::external_body]
fn trim(text: &str) -> (inner: &str)
    ensures
        inner@ == trimmed(text@),
{
    text.trim()
}

/// The part of an answer that tells which job it belongs to: none for a job without
/// an id.
pub open spec fn id_part(id: Option<Value>) -> Seq<char> {
    match id {
        Some(value) => ",\"id\":"@ + crate::json::value_text(value),
        None => Seq::empty(),
    }
}

/// An answer as a JSON object, without a line break.
pub open spec fn answer_object(result: JobResult) -> Seq<char> {
    match result {
        JobResult::Done { ok, id, ms } => "{\"ok\":"@ + crate::timing::bool_text(ok) + id_part(id)
            + ",\"ms\":"@ + crate::numbers::decimal_digits(ms as nat) + "}"@,
        JobResult::Failed { ok, id, error } => "{\"ok\":"@ + crate::timing::bool_text(ok)
            + id_part(id) + ",\"error\":"@ + crate::json::quoted(error@) + "}"@,
    }
}

/// An answer as the line that goes out.
pub open spec fn answer_line(result: JobResult) -> Seq<char> {
    answer_object(result).push('\n')
}

/// Whether a text is one line with its line break.
pub open spec fn is_line(text: Seq<char>) -> bool {
    &&& text.len() > 0
    &&& text.last() == '\n'
    &&& crate::json::is_one_line(text.drop_last())
}

/// Two texts that keep to one line make one that does.
proof fn lemma_one_line_joined(a: Seq<char>, b: Seq<char>)
    requires
        crate::json::is_one_line(a),
        crate::json::is_one_line(b),
    ensures
        crate::json::is_one_line(a + b),
{
    assert forall|i: int| 0 <= i < (a + b).len() implies #[trigger] (a + b)[i] >= ' ' by {
        if i < a.len() {
            assert(a[i] >= ' ');
        } else {
            assert(b[i - a.len()] >= ' ');
        }
    }
}

/// An answer keeps to one line if its id does.
proof fn lemma_answer_is_one_line(result: JobResult)
    requires
        match result {
            JobResult::Done { id, .. } => crate::json::is_one_line(id_part(id)),
            JobResult::Failed { id, .. } => crate::json::is_one_line(id_part(id)),
        },
    ensures
        crate::json::is_one_line(answer_object(result)),
{
    reveal_strlit("{\"ok\":");
    reveal_strlit("true");
    reveal_strlit("false");
    reveal_strlit(",\"ms\":");
    reveal_strlit(",\"error\":");
    reveal_strlit("}");
    match result {
        JobResult::Done { ok, id, ms } => {
            let digits = crate::numbers::decimal_digits(ms as nat);
            crate::numbers::law_decimal_reads_back(ms as nat);
            assert(crate::json::is_one_line(digits)) by {
                assert forall|i: int| 0 <= i < digits.len() implies #[trigger] digits[i]
                    >= ' ' by {
                    assert(crate::numbers::is_digit(digits[i]));
                }
            }
            let s1 = "{\"ok\":"@ + crate::timing::bool_text(ok);
            let s2 = s1 + id_part(id);
            let s3 = s2 + ",\"ms\":"@;
            lemma_one_line_joined("{\"ok\":"@, crate::timing::bool_text(ok));
            lemma_one_line_joined(s1, id_part(id));
            lemma_one_line_joined(s2, ",\"ms\":"@);
            lemma_one_line_joined(s3, digits);
            lemma_one_line_joined(s3 + digits, "}"@);
        },
        JobResult::Failed { ok, id, error } => {
            let text = crate::json::quoted(error@);
            crate::json::law_quoted_text_is_one_line(error@);
            let s1 = "{\"ok\":"@ + crate::timing::bool_text(ok);
            let s2 = s1 + id_part(id);
            let s3 = s2 + ",\"error\":"@;
            lemma_one_line_joined("{\"ok\":"@, crate::timing::bool_text(ok));
            lemma_one_line_joined(s1, id_part(id));
            lemma_one_line_joined(s2, ",\"error\":"@);
            lemma_one_line_joined(s3, text);
            lemma_one_line_joined(s3 + text, "}"@);
        },
    }
}

/// Puts the part that tells which job an answer belongs to at the end of `out`.
fn append_id(out: &mut String, id: &Option<Value>)
    ensures
        final(out)@ == old(out)@ + id_part(*id),
        crate::json::is_one_line(id_part(*id)),
{
    proof {
        reveal_strlit(",\"id\":");
    }
    match id {
        Some(value) => {
            let text = write_value(value);
            out.append(",\"id\":");
            out.append(text.as_str());
            proof {
                lemma_one_line_joined(",\"id\":"@, text@);
            }
            assert(out@ =~= old(out)@ + id_part(*id));
        },
        None => {
            assert(out@ =~= old(out)@ + id_part(*id));
        },
    }
}

/// Puts a truth value at the end of `out`.
fn append_bool(out: &mut String, value: bool)
    ensures
        final(out)@ == old(out)@ + crate::timing::bool_text(value),
{
    if value {
        out.append("true");
    } else {
        out.append("false");
    }
}

/// An answer as the line that goes out: whatever it holds, the only line break in it
/// is the one at its end.
pub fn response_line(result: &JobResult) -> (line: String)
    ensures
        line@ == answer_line(*result),
        is_line(line@),
{
    let mut line = "{\"ok\":".to_string();
    match result {
        JobResult::Done { ok, id, ms } => {
            append_bool(&mut line, *ok);
            append_id(&mut line, id);
            line.append(",\"ms\":");
            line.append(decimal(*ms).as_str());
        },
        JobResult::Failed { ok, id, error } => {
            append_bool(&mut line, *ok);
            append_id(&mut line, id);
            line.append(",\"error\":");
            line.append(quote(error.as_str()).as_str());
        },
    }
    line.append("}");
    proof {
        lemma_answer_is_one_line(*result);
        reveal_strlit("\n");
    }
    assert(line@ == answer_object(*result));
    line.append("\n");
    assert(line@ =~= answer_line(*result));
    assert(line@.drop_last() =~= answer_object(*result));
    line
}

/// What is said of a line that is no job.
pub open spec fn rejection_text(reason: Seq<char>) -> Seq<char> {
    "invalid job JSON: "@ + reason
}

/// The answer to a line that is no job, for the given reason. It has no id.
pub fn reject(reason: &str) -> (result: JobResult)
    ensures
        result matches JobResult::Failed { ok, id, error } && !ok && id is None && error@
            == rejection_text(reason@),
{
    let mut error = "invalid job JSON: ".to_string();
    error.append(reason);
    JobResult::Failed { ok: false, id: None, error }
}

/// The answer to a job that was done, or was not for the given reason. It has the id
/// of the job.
pub fn answer(id: Option<Value>, outcome: Result<u128, String>) -> (result: JobResult)
    ensures
        result == (match outcome {
            Ok(ms) => JobResult::Done { ok: true, id, ms },
            Err(error) => JobResult::Failed { ok: false, id, error },
        }),
{
    match outcome {
        Ok(ms) => JobResult::Done { ok: true, id, ms },
        Err(error) => JobResult::Failed { ok: false, id, error },
    }
}

/// What the server says once it takes jobs.
pub const READY: &'static str = "ready";

/// What the server does next. It begins with [`Turn::Start`].
pub enum Turn {
    /// Bring the graphics processor up.
    Start,
    /// Say this to whoever started the server.
    Announce(String),
    /// Read a line.
    Read,
    /// Parse this text as a job.
    Parse(String),
    /// Do this rendering, for the job of this id.
    Render { id: Option<Value>, request: Request },
    /// Write this line, with its line break, and see it off.
    Write(String),
    /// Stop, with success or for the given reason.
    Stop(Result<(), String>),
}

/// What came of it.
pub enum Incoming {
    /// The graphics processor is up.
    Started,
    /// It was said.
    Announced,
    /// A line was read.
    Line(String),
    /// There are no more lines.
    EndOfInput,
    /// The text was this job.
    Job(Job),
    /// The rendering was done, in so many milliseconds.
    Rendered(u128),
    /// The line was written.
    Written,
    /// It could not be done, for this reason.
    Failed(String),
}

/// What the server does next, with texts as sequences of characters.
pub enum TurnView {
    Start,
    Announce(Seq<char>),
    Read,
    Parse(Seq<char>),
    Render { id: Option<Value>, request: Request },
    Write(Seq<char>),
    Stop(Result<(), Seq<char>>),
}

/// What came of it, with texts as sequences of characters.
pub enum IncomingView {
    Started,
    Announced,
    Line(Seq<char>),
    EndOfInput,
    Job(Job),
    Rendered(u128),
    Written,
    Failed(Seq<char>),
}

impl View for Turn {
    type V = TurnView;

    open spec fn view(&self) -> TurnView {
        match self {
            Turn::Start => TurnView::Start,
            Turn::Announce(text) => TurnView::Announce(text@),
            Turn::Read => TurnView::Read,
            Turn::Parse(text) => TurnView::Parse(text@),
            Turn::Render { id, request } => TurnView::Render { id: *id, request: *request },
            Turn::Write(line) => TurnView::Write(line@),
            Turn::Stop(Ok(())) => TurnView::Stop(Ok(())),
            Turn::Stop(Err(reason)) => TurnView::Stop(Err(reason@)),
        }
    }
}

impl View for Incoming {
    type V = IncomingView;

    open spec fn view(&self) -> IncomingView {
        match self {
            Incoming::Started => IncomingView::Started,
            Incoming::Announced => IncomingView::Announced,
            Incoming::Line(text) => IncomingView::Line(text@),
            Incoming::EndOfInput => IncomingView::EndOfInput,
            Incoming::Job(job) => IncomingView::Job(*job),
            Incoming::Rendered(ms) => IncomingView::Rendered(*ms),
            Incoming::Written => IncomingView::Written,
            Incoming::Failed(reason) => IncomingView::Failed(reason@),
        }
    }
}

/// The rendering that a job asks for.
pub open spec fn requested(job: Job) -> Request {
    Request {
        input: job.input,
        preset: job.preset,
        output: job.output,
        quality: job.quality,
        resize: job.resize,
    }
}

/// The line that answers a rendering that was done.
pub open spec fn done_line(id: Option<Value>, ms: u128) -> Seq<char> {
    "{\"ok\":true"@ + id_part(id) + ",\"ms\":"@ + crate::numbers::decimal_digits(ms as nat)
        + "}\n"@
}

/// The line that answers what was not done.
pub open spec fn failed_line(id: Option<Value>, reason: Seq<char>) -> Seq<char> {
    "{\"ok\":false"@ + id_part(id) + ",\"error\":"@ + crate::json::quoted(reason) + "}\n"@
}

/// What the server does once `incoming` came of its turn. What is no answer to the
/// turn changes nothing.
pub open spec fn turn_after(turn: TurnView, incoming: IncomingView) -> TurnView {
    match (turn, incoming) {
        (TurnView::Start, IncomingView::Started) => TurnView::Announce(READY@),
        (TurnView::Start, IncomingView::Failed(reason)) => TurnView::Stop(Err(reason)),
        (TurnView::Announce(_), IncomingView::Announced) => TurnView::Read,
        (TurnView::Read, IncomingView::Line(line)) => if trimmed(line).len() == 0 {
            TurnView::Read
        } else {
            TurnView::Parse(trimmed(line))
        },
        (TurnView::Read, IncomingView::EndOfInput) => TurnView::Stop(Ok(())),
        (TurnView::Read, IncomingView::Failed(reason)) => TurnView::Stop(Err(reason)),
        (TurnView::Parse(_), IncomingView::Job(job)) => TurnView::Render {
            id: job.id,
            request: requested(job),
        },
        (TurnView::Parse(_), IncomingView::Failed(reason)) => TurnView::Write(
            failed_line(None, rejection_text(reason)),
        ),
        (TurnView::Render { id, request }, IncomingView::Rendered(ms)) => TurnView::Write(
            done_line(id, ms),
        ),
        (TurnView::Render { id, request }, IncomingView::Failed(reason)) => TurnView::Write(
            failed_line(id, reason),
        ),
        (TurnView::Write(_), IncomingView::Written) => TurnView::Read,
        (TurnView::Write(_), IncomingView::Failed(reason)) => TurnView::Stop(Err(reason)),
        _ => turn,
    }
}

/// The answers of the server in one piece.
proof fn lemma_answer_lines(result: JobResult)
    ensures
        match result {
            JobResult::Done { ok, id, ms } => ok ==> answer_line(result) == done_line(id, ms),
            JobResult::Failed { ok, id, error } => !ok ==> answer_line(result) == failed_line(
                id,
                error@,
            ),
        },
{
    reveal_strlit("{\"ok\":");
    reveal_strlit("{\"ok\":true");
    reveal_strlit("{\"ok\":false");
    reveal_strlit("true");
    reveal_strlit("false");
    reveal_strlit("}");
    reveal_strlit("}\n");
    match result {
        JobResult::Done { ok, id, ms } => {
            if ok {
                assert(answer_line(result) =~= done_line(id, ms));
            }
        },
        JobResult::Failed { ok, id, error } => {
            if !ok {
                assert(answer_line(result) =~= failed_line(id, error@));
            }
        },
    }
}

/// Writes an answer as the turn to write its line.
fn write_turn(result: JobResult) -> (turn: Turn)
    ensures
        turn@ == TurnView::Write(answer_line(result)),
        match result {
            JobResult::Done { ok, id, ms } => ok ==> answer_line(result) == done_line(id, ms),
            JobResult::Failed { ok, id, error } => !ok ==> answer_line(result) == failed_line(
                id,
                error@,
            ),
        },
        turn matches Turn::Write(line) && is_line(line@),
{
    proof {
        lemma_answer_lines(result);
    }
    Turn::Write(response_line(&result))
}

/// Takes in what came of a turn and says what the server does next.
pub fn advance(turn: Turn, incoming: Incoming) -> (next: Turn)
    ensures
        next@ == turn_after(turn@, incoming@),
        next matches Turn::Write(line) ==> turn is Write || is_line(line@),
{
    match (turn, incoming) {
        (Turn::Start, Incoming::Started) => Turn::Announce(READY.to_string()),
        (Turn::Start, Incoming::Failed(reason)) => Turn::Stop(Err(reason)),
        (Turn::Announce(_), Incoming::Announced) => Turn::Read,
        (Turn::Read, Incoming::Line(line)) => {
            let text = trim(line.as_str());
            if text.is_empty() {
                Turn::Read
            } else {
                Turn::Parse(text.to_string())
            }
        },
        (Turn::Read, Incoming::EndOfInput) => Turn::Stop(Ok(())),
        (Turn::Read, Incoming::Failed(reason)) => Turn::Stop(Err(reason)),
        (Turn::Parse(_), Incoming::Job(job)) => Turn::Render {
            id: job.id,
            request: Request {
                input: job.input,
                preset: job.preset,
                output: job.output,
                quality: job.quality,
                resize: job.resize,
            },
        },
        (Turn::Parse(_), Incoming::Failed(reason)) => write_turn(reject(reason.as_str())),
        (Turn::Render { id, request }, Incoming::Rendered(ms)) => write_turn(answer(id, Ok(ms))),
        (Turn::Render { id, request }, Incoming::Failed(reason)) => write_turn(
            answer(id, Err(reason)),
        ),
        (Turn::Write(_), Incoming::Written) => Turn::Read,
        (Turn::Write(_), Incoming::Failed(reason)) => Turn::Stop(Err(reason)),
        (turn, _) => turn,
    }
}

} // verus!
