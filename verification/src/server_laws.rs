//! What holds of the job server, whatever comes in.

use vstd::prelude::*;

use crate::server::{Incoming, IncomingView, Job, JobResult, Turn, TurnView};
use crate::pipeline::Request;

use serde_json::Value;

verus! {

/// Whether a text holds nothing but white space.
pub open spec fn is_blank(text: Seq<char>) -> bool {
    forall|i: int| 0 <= i < text.len() ==> crate::server::is_white_space(#[trigger] text[i])
}

/// Whether `inner` is what stands in `text` from `from` up to `to`, with nothing but
/// white space before and behind it.
pub open spec fn is_core(inner: Seq<char>, text: Seq<char>, from: int, to: int) -> bool {
    &&& 0 <= from <= to <= text.len()
    &&& inner == text.subrange(from, to)
    &&& is_blank(text.take(from))
    &&& is_blank(text.skip(to))
}

/// What is left at the front after trimming the front.
proof fn lemma_trimmed_start(text: Seq<char>) -> (from: int)
    ensures
        0 <= from <= text.len(),
        crate::server::trimmed_start(text) == text.skip(from),
        is_blank(text.take(from)),
        from < text.len() ==> !crate::server::is_white_space(text[from]),
    decreases text.len(),
{
    if text.len() > 0 && crate::server::is_white_space(text[0]) {
        let below = lemma_trimmed_start(text.skip(1));
        assert(text.skip(1).skip(below) =~= text.skip(below + 1));
        assert forall|i: int| 0 <= i < below + 1 implies crate::server::is_white_space(
            #[trigger] text.take(below + 1)[i],
        ) by {
            if i > 0 {
                assert(crate::server::is_white_space(text.skip(1).take(below)[i - 1]));
            }
        }
        below + 1
    } else {
        assert(text.skip(0) =~= text);
        0
    }
}

/// What is left at the back after trimming the back.
proof fn lemma_trimmed_end(text: Seq<char>) -> (to: int)
    ensures
        0 <= to <= text.len(),
        crate::server::trimmed_end(text) == text.take(to),
        is_blank(text.skip(to)),
        to > 0 ==> !crate::server::is_white_space(text[to - 1]),
    decreases text.len(),
{
    if text.len() > 0 && crate::server::is_white_space(text.last()) {
        let below = lemma_trimmed_end(text.drop_last());
        assert(text.drop_last().take(below) =~= text.take(below));
        assert forall|i: int| 0 <= i < text.skip(below).len() implies crate::server::is_white_space(
            #[trigger] text.skip(below)[i],
        ) by {
            if i < text.skip(below).len() - 1 {
                assert(crate::server::is_white_space(text.drop_last().skip(below)[i]));
            }
        }
        below
    } else {
        assert(text.take(text.len() as int) =~= text);
        text.len() as int
    }
}

/// Trimming takes away white space at both ends, all of it and nothing else.
pub proof fn law_trimming_takes_the_ends(text: Seq<char>)
    ensures
        ({
            let inner = crate::server::trimmed(text);
            &&& exists|from: int, to: int| is_core(inner, text, from, to)
            &&& inner.len() > 0 ==> !crate::server::is_white_space(inner[0])
                && !crate::server::is_white_space(inner.last())
        }),
{
    let from = lemma_trimmed_start(text);
    let middle = text.skip(from);
    let length = lemma_trimmed_end(middle);
    let to = from + length;
    let inner = crate::server::trimmed(text);
    assert(inner =~= text.subrange(from, to));
    assert(middle.skip(length) =~= text.skip(to));
    assert(is_core(inner, text, from, to));
    if inner.len() > 0 {
        assert(inner[0] == text[from]);
        assert(inner.last() == middle[length - 1]);
    }
}

/// A line is passed over exactly if it holds nothing but white space; any other is
/// parsed as a job, without the white space around it.
pub proof fn law_blank_lines_are_passed_over(line: Seq<char>)
    ensures
        crate::server::turn_after(TurnView::Read, IncomingView::Line(line)) == (if is_blank(line) {
            TurnView::Read
        } else {
            TurnView::Parse(crate::server::trimmed(line))
        }),
{
    law_trimming_takes_the_ends(line);
    let inner = crate::server::trimmed(line);
    let (from, to) = choose|from: int, to: int| is_core(inner, line, from, to);
    if inner.len() == 0 {
        assert forall|i: int| 0 <= i < line.len() implies crate::server::is_white_space(
            #[trigger] line[i],
        ) by {
            if i < from {
                assert(line[i] == line.take(from)[i]);
            } else {
                assert(line[i] == line.skip(to)[i - to]);
            }
        }
    } else {
        assert(inner[0] == line[from]);
    }
}

/// A job is rendered as it asks, and its answer has its id: with the time it took if
/// it was done, with the reason if it was not.
pub proof fn law_job_is_answered_under_its_id(
    text: Seq<char>,
    job: Job,
    ms: u128,
    reason: Seq<char>,
)
    ensures
        ({
            let asked = crate::server::turn_after(TurnView::Parse(text), IncomingView::Job(job));
            &&& asked == (TurnView::Render { id: job.id, request: crate::server::requested(job) })
            &&& crate::server::turn_after(asked, IncomingView::Rendered(ms)) == TurnView::Write(
                crate::server::done_line(job.id, ms),
            )
            &&& crate::server::turn_after(asked, IncomingView::Failed(reason)) == TurnView::Write(
                crate::server::failed_line(job.id, reason),
            )
        }),
{
}

/// A line that is no job is answered too, without an id and with what is wrong with
/// it.
pub proof fn law_invalid_job_is_answered(text: Seq<char>, reason: Seq<char>)
    ensures
        crate::server::turn_after(TurnView::Parse(text), IncomingView::Failed(reason))
            == TurnView::Write(
            "{\"ok\":false,\"error\":"@ + crate::json::quoted("invalid job JSON: "@ + reason)
                + "}\n"@,
        ),
{
    reveal_strlit("{\"ok\":false");
    reveal_strlit(",\"error\":");
    reveal_strlit("{\"ok\":false,\"error\":");
    let told = crate::json::quoted("invalid job JSON: "@ + reason);
    assert("{\"ok\":false"@ + Seq::<char>::empty() + ",\"error\":"@ + told + "}\n"@
        =~= "{\"ok\":false,\"error\":"@ + told + "}\n"@);
}

/// The answer to a job without an id has no member for one.
pub proof fn law_no_id_no_member(ms: u128)
    ensures
        crate::server::done_line(None, ms) == "{\"ok\":true,\"ms\":"@
            + crate::numbers::decimal_digits(ms as nat) + "}\n"@,
{
    reveal_strlit("{\"ok\":true");
    reveal_strlit(",\"ms\":");
    reveal_strlit("{\"ok\":true,\"ms\":");
    let digits = crate::numbers::decimal_digits(ms as nat);
    assert("{\"ok\":true"@ + Seq::<char>::empty() + ",\"ms\":"@ + digits + "}\n"@
        =~= "{\"ok\":true,\"ms\":"@ + digits + "}\n"@);
}

/// No answer to a job that was done is an answer to one that was not.
pub proof fn law_done_and_failed_differ(
    done: Option<Value>,
    ms: u128,
    failed: Option<Value>,
    reason: Seq<char>,
)
    ensures
        crate::server::done_line(done, ms) != crate::server::failed_line(failed, reason),
{
    reveal_strlit("{\"ok\":true");
    reveal_strlit("{\"ok\":false");
    assert(crate::server::done_line(done, ms)[6] == 't');
    assert(crate::server::failed_line(failed, reason)[6] == 'f');
}

/// Answers to one id tell how long the job took.
pub proof fn law_time_is_told(id: Option<Value>, a: u128, b: u128)
    requires
        crate::server::done_line(id, a) == crate::server::done_line(id, b),
    ensures
        a == b,
{
    let digits_a = crate::numbers::decimal_digits(a as nat);
    let digits_b = crate::numbers::decimal_digits(b as nat);
    let head = "{\"ok\":true"@ + crate::server::id_part(id) + ",\"ms\":"@;
    let line = crate::server::done_line(id, a);
    let tail = "}\n"@.len();
    assert(line.subrange(head.len() as int, line.len() - tail) =~= digits_a);
    assert(crate::server::done_line(id, b).subrange(head.len() as int, line.len() - tail)
        =~= digits_b);
    crate::numbers::law_decimal_is_unambiguous(a as nat, b as nat);
}

/// Answers to one id tell why the job was not done.
pub proof fn law_reason_is_told(id: Option<Value>, a: Seq<char>, b: Seq<char>)
    requires
        crate::server::failed_line(id, a) == crate::server::failed_line(id, b),
    ensures
        a == b,
{
    let head = "{\"ok\":false"@ + crate::server::id_part(id) + ",\"error\":"@;
    let line = crate::server::failed_line(id, a);
    let tail = "}\n"@.len();
    assert(line.subrange(head.len() as int, line.len() - tail) =~= crate::json::quoted(a));
    assert(crate::server::failed_line(id, b).subrange(head.len() as int, line.len() - tail)
        =~= crate::json::quoted(b));
    crate::json::law_quoting_loses_nothing(a, b);
}

/// Whether the server cannot do without what it does in this turn.
pub open spec fn is_vital(turn: TurnView) -> bool {
    turn is Start || turn is Read || turn is Write
}

/// The server stops with success at the end of its input only, and with a failure
/// only, for the reason that came, where the graphics processor cannot be brought up,
/// a line cannot be read or an answer cannot be written. A job that fails or that is
/// no job does not stop it.
pub proof fn law_what_stops_the_server(turn: TurnView, incoming: IncomingView)
    requires
        !(turn is Stop),
    ensures
        ({
            let next = crate::server::turn_after(turn, incoming);
            &&& (next matches TurnView::Stop(Ok(()))) <==> turn is Read && incoming is EndOfInput
            &&& next matches TurnView::Stop(Err(reason)) ==> incoming == IncomingView::Failed(
                reason,
            )
            &&& (next matches TurnView::Stop(Err(_))) <==> is_vital(turn) && incoming is Failed
        }),
{
}

/// A server that has stopped stays stopped.
pub proof fn law_stopped_is_stopped(outcome: Result<(), Seq<char>>, incoming: IncomingView)
    ensures
        crate::server::turn_after(TurnView::Stop(outcome), incoming) == TurnView::Stop(outcome),
{
}

/// The server says that it is ready once, when the graphics processor is up, and only
/// then reads its first line.
pub proof fn law_ready_before_reading(turn: TurnView, incoming: IncomingView)
    requires
        crate::server::turn_after(turn, incoming) != turn,
    ensures
        crate::server::turn_after(turn, incoming) is Announce <==> turn is Start
            && incoming is Started,
        crate::server::turn_after(turn, incoming) matches TurnView::Announce(text) ==> text
            == "ready"@,
        !(crate::server::turn_after(turn, incoming) is Start),
        turn is Start ==> !(crate::server::turn_after(turn, incoming) is Read),
        turn is Announce ==> crate::server::turn_after(turn, incoming) is Read,
{
}

/// The turn of a server after all that came in.
pub open spec fn turn_of(came: Seq<IncomingView>) -> TurnView
    decreases came.len(),
{
    if came.len() == 0 {
        TurnView::Start
    } else {
        crate::server::turn_after(turn_of(came.drop_last()), came.last())
    }
}

/// How many lines that are not blank the server took in.
pub open spec fn lines_taken(came: Seq<IncomingView>) -> nat
    decreases came.len(),
{
    if came.len() == 0 {
        0
    } else {
        let more: nat = if turn_of(came.drop_last()) is Read && (came.last() matches
            IncomingView::Line(line) && !is_blank(line)) {
            1
        } else {
            0
        };
        lines_taken(came.drop_last()) + more
    }
}

/// How many answers the server wrote.
pub open spec fn answers_written(came: Seq<IncomingView>) -> nat
    decreases came.len(),
{
    if came.len() == 0 {
        0
    } else {
        let more: nat = if turn_of(came.drop_last()) is Write && came.last() is Written {
            1
        } else {
            0
        };
        answers_written(came.drop_last()) + more
    }
}

/// Every line that is not blank gets one answer, before the next line is read: while
/// the server reads, and when its input has ended, there are as many answers as
/// lines, and in between exactly one is due.
pub proof fn law_one_answer_per_line(came: Seq<IncomingView>)
    ensures
        match turn_of(came) {
            TurnView::Start
            | TurnView::Announce(_)
            | TurnView::Read
            | TurnView::Stop(Ok(())) => lines_taken(came) == answers_written(came),
            TurnView::Parse(_) | TurnView::Render { .. } | TurnView::Write(_) => lines_taken(came)
                == answers_written(came) + 1,
            TurnView::Stop(Err(_)) => answers_written(came) <= lines_taken(came)
                <= answers_written(came) + 1,
        },
    decreases came.len(),
{
    if came.len() > 0 {
        law_one_answer_per_line(came.drop_last());
        match came.last() {
            IncomingView::Line(line) => {
                law_blank_lines_are_passed_over(line);
            },
            _ => {},
        }
    }
}

/// White space in front of a text is trimmed away.
proof fn lemma_space_in_front(before: Seq<char>, text: Seq<char>)
    requires
        is_blank(before),
    ensures
        crate::server::trimmed_start(before + text) == crate::server::trimmed_start(text),
    decreases before.len(),
{
    if before.len() == 0 {
        assert(before + text =~= text);
    } else {
        let rest = before.skip(1);
        assert((before + text)[0] == before[0]);
        assert((before + text).skip(1) =~= rest + text);
        assert forall|i: int| 0 <= i < rest.len() implies crate::server::is_white_space(
            #[trigger] rest[i],
        ) by {
            assert(rest[i] == before[i + 1]);
        }
        lemma_space_in_front(rest, text);
    }
}

/// White space behind a text is trimmed away.
proof fn lemma_space_behind(text: Seq<char>, behind: Seq<char>)
    requires
        is_blank(behind),
    ensures
        crate::server::trimmed_end(text + behind) == crate::server::trimmed_end(text),
    decreases behind.len(),
{
    if behind.len() == 0 {
        assert(text + behind =~= text);
    } else {
        let rest = behind.drop_last();
        assert((text + behind).last() == behind[behind.len() - 1]);
        assert((text + behind).drop_last() =~= text + rest);
        assert forall|i: int| 0 <= i < rest.len() implies crate::server::is_white_space(
            #[trigger] rest[i],
        ) by {
            assert(rest[i] == behind[i]);
        }
        lemma_space_behind(text, rest);
    }
}

/// A text that is blank is trimmed away, and what is behind a text that is not stays
/// behind it when the front is trimmed.
proof fn lemma_front_trimmed(text: Seq<char>, behind: Seq<char>)
    ensures
        is_blank(text) ==> crate::server::trimmed_start(text).len() == 0,
        !is_blank(text) ==> crate::server::trimmed_start(text + behind)
            == crate::server::trimmed_start(text) + behind,
    decreases text.len(),
{
    if text.len() > 0 {
        let rest = text.skip(1);
        lemma_front_trimmed(rest, behind);
        assert((text + behind)[0] == text[0]);
        assert((text + behind).skip(1) =~= rest + behind);
        if is_blank(text) {
            assert forall|i: int| 0 <= i < rest.len() implies crate::server::is_white_space(
                #[trigger] rest[i],
            ) by {
                assert(rest[i] == text[i + 1]);
            }
        } else if crate::server::is_white_space(text[0]) {
            assert(!is_blank(rest)) by {
                let i = choose|i: int|
                    0 <= i < text.len() && !crate::server::is_white_space(#[trigger] text[i]);
                assert(rest[i - 1] == text[i]);
            }
        }
    }
}

/// White space around a text makes no difference to what is left of it when it is
/// trimmed.
pub proof fn law_space_around_does_not_matter(
    before: Seq<char>,
    text: Seq<char>,
    behind: Seq<char>,
)
    requires
        is_blank(before),
        is_blank(behind),
    ensures
        crate::server::trimmed(before + text + behind) == crate::server::trimmed(text),
{
    assert(before + text + behind =~= before + (text + behind));
    lemma_space_in_front(before, text + behind);
    lemma_front_trimmed(text, behind);
    if is_blank(text) {
        lemma_space_in_front(text, behind);
        lemma_front_trimmed(behind, Seq::empty());
        assert(crate::server::trimmed_start(behind) =~= crate::server::trimmed_start(text));
    } else {
        lemma_space_behind(crate::server::trimmed_start(text), behind);
    }
}

/// What comes of a line that is not blank.
pub enum Reply {
    /// It is no job, for this reason.
    NoJob(Seq<char>),
    /// It is a job, which was done in so many milliseconds.
    Done { job: Job, ms: u128 },
    /// It is a job, which was not done for this reason.
    NotDone { job: Job, reason: Seq<char> },
}

/// Where the server stands once a text that was to be parsed has come to this.
pub open spec fn answered(text: Seq<char>, reply: Reply) -> TurnView {
    let parsing = TurnView::Parse(text);
    match reply {
        Reply::NoJob(reason) => crate::server::turn_after(parsing, IncomingView::Failed(reason)),
        Reply::Done { job, ms } => crate::server::turn_after(
            crate::server::turn_after(parsing, IncomingView::Job(job)),
            IncomingView::Rendered(ms),
        ),
        Reply::NotDone { job, reason } => crate::server::turn_after(
            crate::server::turn_after(parsing, IncomingView::Job(job)),
            IncomingView::Failed(reason),
        ),
    }
}

/// The texts that the server parses of these lines, one after the other.
pub open spec fn parsed_texts(lines: Seq<Seq<char>>) -> Seq<Seq<char>>
    decreases lines.len(),
{
    if lines.len() == 0 {
        Seq::empty()
    } else {
        let earlier = parsed_texts(lines.drop_last());
        match crate::server::turn_after(TurnView::Read, IncomingView::Line(lines.last())) {
            TurnView::Parse(text) => earlier.push(text),
            _ => earlier,
        }
    }
}

/// The answers that the server writes to these lines, where `replies` tells what comes of
/// a text, given those that were parsed before it.
pub open spec fn answers_to(
    lines: Seq<Seq<char>>,
    replies: spec_fn(Seq<Seq<char>>, Seq<char>) -> Reply,
) -> Seq<Seq<char>>
    decreases lines.len(),
{
    if lines.len() == 0 {
        Seq::empty()
    } else {
        let before = lines.drop_last();
        let earlier = answers_to(before, replies);
        match crate::server::turn_after(TurnView::Read, IncomingView::Line(lines.last())) {
            TurnView::Parse(text) => match answered(text, replies(parsed_texts(before), text)) {
                TurnView::Write(line) => earlier.push(line),
                _ => earlier,
            },
            _ => earlier,
        }
    }
}

/// The answers to texts that are parsed.
spec fn answers_to_texts(
    texts: Seq<Seq<char>>,
    replies: spec_fn(Seq<Seq<char>>, Seq<char>) -> Reply,
) -> Seq<Seq<char>>
    decreases texts.len(),
{
    if texts.len() == 0 {
        Seq::empty()
    } else {
        let before = texts.drop_last();
        let earlier = answers_to_texts(before, replies);
        match answered(texts.last(), replies(before, texts.last())) {
            TurnView::Write(line) => earlier.push(line),
            _ => earlier,
        }
    }
}

/// The answers to lines are those to the texts that are parsed of them.
proof fn lemma_answers_to_lines(
    lines: Seq<Seq<char>>,
    replies: spec_fn(Seq<Seq<char>>, Seq<char>) -> Reply,
)
    ensures
        answers_to(lines, replies) == answers_to_texts(parsed_texts(lines), replies),
        answers_to(lines, replies).len() == parsed_texts(lines).len(),
    decreases lines.len(),
{
    if lines.len() > 0 {
        let before = lines.drop_last();
        lemma_answers_to_lines(before, replies);
        match crate::server::turn_after(TurnView::Read, IncomingView::Line(lines.last())) {
            TurnView::Parse(text) => {
                let texts = parsed_texts(before).push(text);
                assert(texts.drop_last() =~= parsed_texts(before));
                assert(texts.last() == text);
            },
            _ => {},
        }
    }
}

/// Whether the lines of `spaced` are those of `plain` with white space added around
/// them, and blank lines added between them.
pub open spec fn is_spaced_out(plain: Seq<Seq<char>>, spaced: Seq<Seq<char>>) -> bool
    decreases spaced.len(),
{
    if spaced.len() == 0 {
        plain.len() == 0
    } else {
        ||| is_blank(spaced.last()) && is_spaced_out(plain, spaced.drop_last())
        ||| plain.len() > 0 && is_padded(plain.last(), spaced.last()) && is_spaced_out(
            plain.drop_last(),
            spaced.drop_last(),
        )
    }
}

/// Whether `line` is `text` with white space around it.
pub open spec fn is_padded(text: Seq<char>, line: Seq<char>) -> bool {
    exists|from: int, to: int| #[trigger] is_core(text, line, from, to)
}

/// Adding white space and blank lines changes nothing of the texts that are parsed.
proof fn lemma_same_texts(plain: Seq<Seq<char>>, spaced: Seq<Seq<char>>)
    requires
        is_spaced_out(plain, spaced),
    ensures
        parsed_texts(spaced) == parsed_texts(plain),
    decreases spaced.len(),
{
    if spaced.len() > 0 {
        let line = spaced.last();
        law_blank_lines_are_passed_over(line);
        if is_blank(line) && is_spaced_out(plain, spaced.drop_last()) {
            lemma_same_texts(plain, spaced.drop_last());
        } else {
            let text = plain.last();
            let (from, to) = choose|from: int, to: int| #[trigger] is_core(text, line, from, to);
            assert(line =~= line.take(from) + text + line.skip(to));
            law_space_around_does_not_matter(line.take(from), text, line.skip(to));
            lemma_same_texts(plain.drop_last(), spaced.drop_last());
        }
    }
}

/// White space around lines and blank lines between them change nothing of the answers:
/// two inputs that differ in these alone get the same answers in the same order. There
/// is one for each line that is not blank.
pub proof fn law_space_changes_no_answer(
    plain: Seq<Seq<char>>,
    a: Seq<Seq<char>>,
    b: Seq<Seq<char>>,
    replies: spec_fn(Seq<Seq<char>>, Seq<char>) -> Reply,
)
    requires
        is_spaced_out(plain, a),
        is_spaced_out(plain, b),
    ensures
        answers_to(a, replies) == answers_to(b, replies),
        answers_to(a, replies).len() == parsed_texts(plain).len(),
{
    lemma_same_texts(plain, a);
    lemma_same_texts(plain, b);
    lemma_answers_to_lines(a, replies);
    lemma_answers_to_lines(b, replies);
}

/// A job is rendered as it asks: from its own input, with its own preset, to its own
/// output, at its own quality and with its own bound, and under its own id.
pub proof fn law_job_is_rendered_as_it_asks(text: Seq<char>, job: Job)
    ensures
        crate::server::turn_after(TurnView::Parse(text), IncomingView::Job(job)) matches
            TurnView::Render { id, request } && {
            &&& id == job.id
            &&& request.input == job.input
            &&& request.preset == job.preset
            &&& request.output == job.output
            &&& request.quality == job.quality
            &&& request.resize == job.resize
        },
{
}

/// Two jobs that lead to the same rendering under the same id are the same job.
pub proof fn law_renderings_tell_jobs_apart(text: Seq<char>, a: Job, b: Job)
    requires
        crate::server::turn_after(TurnView::Parse(text), IncomingView::Job(a))
            == crate::server::turn_after(TurnView::Parse(text), IncomingView::Job(b)),
    ensures
        a == b,
{
}

/// The answer to a rendering that was done: that it was, the id of its job where it has
/// one, and the milliseconds it took, in this order and in JSON.
pub proof fn law_answer_to_what_was_done(
    value: Value,
    request: Request,
    ms: u128,
)
    ensures
        crate::server::turn_after(
            TurnView::Render { id: Some(value), request },
            IncomingView::Rendered(ms),
        ) == TurnView::Write(
            "{\"ok\":true"@ + ",\"id\":"@ + crate::json::value_text(value) + ",\"ms\":"@
                + crate::numbers::decimal_digits(ms as nat) + "}\n"@,
        ),
        crate::server::turn_after(
            TurnView::Render { id: None, request },
            IncomingView::Rendered(ms),
        ) == TurnView::Write(
            "{\"ok\":true"@ + ",\"ms\":"@ + crate::numbers::decimal_digits(ms as nat) + "}\n"@,
        ),
{
    let digits = crate::numbers::decimal_digits(ms as nat);
    assert(crate::server::done_line(Some(value), ms) =~= "{\"ok\":true"@ + ",\"id\":"@
        + crate::json::value_text(value) + ",\"ms\":"@ + digits + "}\n"@);
    assert(crate::server::done_line(None, ms) =~= "{\"ok\":true"@ + ",\"ms\":"@ + digits
        + "}\n"@);
}

/// The answer to a rendering that was not done: that it was not, the id of its job where
/// it has one, and the reason, in this order and in JSON.
pub proof fn law_answer_to_what_was_not_done(
    value: Value,
    request: Request,
    reason: Seq<char>,
)
    ensures
        crate::server::turn_after(
            TurnView::Render { id: Some(value), request },
            IncomingView::Failed(reason),
        ) == TurnView::Write(
            "{\"ok\":false"@ + ",\"id\":"@ + crate::json::value_text(value) + ",\"error\":"@
                + crate::json::quoted(reason) + "}\n"@,
        ),
        crate::server::turn_after(
            TurnView::Render { id: None, request },
            IncomingView::Failed(reason),
        ) == TurnView::Write(
            "{\"ok\":false"@ + ",\"error\":"@ + crate::json::quoted(reason) + "}\n"@,
        ),
{
    let told = crate::json::quoted(reason);
    assert(crate::server::failed_line(Some(value), reason) =~= "{\"ok\":false"@ + ",\"id\":"@
        + crate::json::value_text(value) + ",\"error\":"@ + told + "}\n"@);
    assert(crate::server::failed_line(None, reason) =~= "{\"ok\":false"@ + ",\"error\":"@ + told
        + "}\n"@);
}

/// How an answer is written, member by member: whether all went well, the id where there
/// is one, and the time or the reason.
pub proof fn law_members_of_an_answer(ok: bool, value: Value, ms: u128, error: String)
    ensures
        ({
            let verdict = if ok {
                "{\"ok\":true"@
            } else {
                "{\"ok\":false"@
            };
            let named = verdict + ",\"id\":"@ + crate::json::value_text(value);
            let time = ",\"ms\":"@ + crate::numbers::decimal_digits(ms as nat) + "}\n"@;
            let told = ",\"error\":"@ + crate::json::quoted(error@) + "}\n"@;
            &&& crate::server::answer_line(JobResult::Done { ok, id: Some(value), ms }) == named
                + time
            &&& crate::server::answer_line(JobResult::Done { ok, id: None, ms }) == verdict + time
            &&& crate::server::answer_line(JobResult::Failed { ok, id: Some(value), error })
                == named + told
            &&& crate::server::answer_line(JobResult::Failed { ok, id: None, error }) == verdict
                + told
        }),
{
    reveal_strlit("{\"ok\":");
    reveal_strlit("{\"ok\":true");
    reveal_strlit("{\"ok\":false");
    reveal_strlit("true");
    reveal_strlit("false");
    reveal_strlit("}");
    reveal_strlit("}\n");
    let verdict = if ok {
        "{\"ok\":true"@
    } else {
        "{\"ok\":false"@
    };
    assert(verdict =~= "{\"ok\":"@ + crate::timing::bool_text(ok));
    let named = verdict + ",\"id\":"@ + crate::json::value_text(value);
    let time = ",\"ms\":"@ + crate::numbers::decimal_digits(ms as nat) + "}\n"@;
    let told = ",\"error\":"@ + crate::json::quoted(error@) + "}\n"@;
    assert(crate::server::answer_line(JobResult::Done { ok, id: Some(value), ms }) =~= named
        + time);
    assert(crate::server::answer_line(JobResult::Done { ok, id: None, ms }) =~= verdict + time);
    assert(crate::server::answer_line(JobResult::Failed { ok, id: Some(value), error }) =~= named
        + told);
    assert(crate::server::answer_line(JobResult::Failed { ok, id: None, error }) =~= verdict
        + told);
}

/// What is said of a line that is no job.
pub proof fn law_rejection_names_the_reason(reason: Seq<char>)
    ensures
        crate::server::rejection_text(reason) == "invalid job JSON: "@ + reason,
{
}

/// The round of the server: it comes up, says that it is ready, reads, and once an answer
/// is written reads again.
pub proof fn law_round_of_the_server(text: Seq<char>, line: Seq<char>)
    ensures
        crate::server::turn_after(TurnView::Start, IncomingView::Started) == TurnView::Announce(
            "ready"@,
        ),
        crate::server::turn_after(TurnView::Announce(text), IncomingView::Announced)
            == TurnView::Read,
        crate::server::turn_after(TurnView::Write(line), IncomingView::Written) == TurnView::Read,
        crate::server::turn_after(TurnView::Read, IncomingView::EndOfInput) == TurnView::Stop(
            Ok(()),
        ),
{
}

/// What is no answer to a turn leaves the server where it is.
pub proof fn law_what_is_no_answer_changes_no_turn(turn: TurnView, incoming: IncomingView)
    requires
        incoming is Started ==> !(turn is Start),
        incoming is Announced ==> !(turn is Announce),
        incoming is Line ==> !(turn is Read),
        incoming is EndOfInput ==> !(turn is Read),
        incoming is Job ==> !(turn is Parse),
        incoming is Rendered ==> !(turn is Render),
        incoming is Written ==> !(turn is Write),
        incoming is Failed ==> turn is Announce || turn is Stop,
    ensures
        crate::server::turn_after(turn, incoming) == turn,
{
}

/// Turns are taken as they are.
pub proof fn law_turns_are_taken_as_they_are(
    text: String,
    id: Option<Value>,
    request: Request,
)
    ensures
        (Turn::Start)@ == TurnView::Start,
        (Turn::Announce(text))@ == TurnView::Announce(text@),
        (Turn::Read)@ == TurnView::Read,
        (Turn::Parse(text))@ == TurnView::Parse(text@),
        (Turn::Render { id, request })@ == (TurnView::Render { id, request }),
        (Turn::Write(text))@ == TurnView::Write(text@),
        (Turn::Stop(Ok(())))@ == TurnView::Stop(Ok(())),
        (Turn::Stop(Err(text)))@ == TurnView::Stop(Err(text@)),
{
}

/// What came in is taken as it is.
pub proof fn law_what_came_in_is_taken_as_it_is(text: String, job: Job, ms: u128)
    ensures
        (Incoming::Started)@ == IncomingView::Started,
        (Incoming::Announced)@ == IncomingView::Announced,
        (Incoming::Line(text))@ == IncomingView::Line(text@),
        (Incoming::EndOfInput)@ == IncomingView::EndOfInput,
        (Incoming::Job(job))@ == IncomingView::Job(job),
        (Incoming::Rendered(ms))@ == IncomingView::Rendered(ms),
        (Incoming::Written)@ == IncomingView::Written,
        (Incoming::Failed(text))@ == IncomingView::Failed(text@),
{
}

/// The characters that count as white space: blanks, tabs and line breaks, and the wide
/// and narrow blanks of Unicode. No other character does.
pub proof fn law_white_space(c: char)
    ensures
        crate::server::is_white_space(c) <==> {
            ||| 0x9 <= c as int <= 0xd
            ||| c as int == 0x20
            ||| c as int == 0x85
            ||| c as int == 0xa0
            ||| c as int == 0x1680
            ||| 0x2000 <= c as int <= 0x200a
            ||| c as int == 0x2028
            ||| c as int == 0x2029
            ||| c as int == 0x202f
            ||| c as int == 0x205f
            ||| c as int == 0x3000
        },
{
}

/// A line with text and no white space around it is parsed as it stands.
pub proof fn law_text_without_space_is_parsed_whole(line: Seq<char>)
    requires
        line.len() > 0,
        !crate::server::is_white_space(line[0]),
        !crate::server::is_white_space(line.last()),
    ensures
        crate::server::turn_after(TurnView::Read, IncomingView::Line(line)) == TurnView::Parse(
            line,
        ),
{
    assert(crate::server::trimmed_start(line) == line);
    assert(crate::server::trimmed_end(line) == line);
}

} // verus!
