//! What the program does with its command line, and how it ends.

use vstd::prelude::*;
use vstd::string::StringExecFns;

use crate::args::{Invocation, USAGE};
use crate::pipeline::Request;

verus! {

/// The course that the program takes.
pub enum Course {
    /// It serves jobs.
    Serve,
    /// It does one rendering.
    Render(Request),
    /// It ends at once.
    End(Ending),
}

/// How the program ends.
pub struct Ending {
    /// What is printed, with its line breaks.
    pub printed: String,
    /// The exit code.
    pub code: i32,
}

/// What is printed of an error.
pub open spec fn error_line(reason: Seq<char>) -> Seq<char> {
    "Error: "@ + reason + "\n"@
}

/// The usage as it is printed.
pub open spec fn usage_lines() -> Seq<char> {
    USAGE@ + "\n"@
}

/// Prints an error to a text.
fn error_text(reason: &str) -> (text: String)
    ensures
        text@ == error_line(reason@),
{
    let mut text = "Error: ".to_string();
    text.append(reason);
    text.append("\n");
    text
}

/// The course that the program takes on what its command line asks for. One that was
/// refused is shown the reason and the usage.
pub fn course(invocation: Result<Invocation, String>) -> (taken: Course)
    ensures
        match invocation {
            Err(reason) => taken matches Course::End(ending) && ending.printed@ == error_line(
                reason@,
            ) + usage_lines() && ending.code == 1,
            Ok(Invocation::Help) => taken matches Course::End(ending) && ending.printed@
                == usage_lines() && ending.code == 0,
            Ok(Invocation::Run(args)) => if args.server {
                taken is Serve
            } else {
                taken matches Course::Render(request) && crate::args::is_asked(request, args)
            },
        },
{
    match invocation {
        Err(reason) => {
            let mut printed = error_text(reason.as_str());
            printed.append(USAGE);
            printed.append("\n");
            assert(printed@ =~= error_line(reason@) + usage_lines());
            Course::End(Ending { printed, code: 1 })
        },
        Ok(Invocation::Help) => {
            let mut printed = USAGE.to_string();
            printed.append("\n");
            Course::End(Ending { printed, code: 0 })
        },
        Ok(Invocation::Run(args)) => {
            if args.server {
                Course::Serve
            } else {
                Course::Render(args.into_request())
            }
        },
    }
}

/// How the program ends once it has rendered or served.
pub fn ending(outcome: Result<(), String>) -> (end: Ending)
    ensures
        match outcome {
            Ok(()) => end.printed@.len() == 0 && end.code == 0,
            Err(reason) => end.printed@ == error_line(reason@) && end.code == 1,
        },
{
    match outcome {
        Ok(()) => Ending { printed: String::new(), code: 0 },
        Err(reason) => Ending { printed: error_text(reason.as_str()), code: 1 },
    }
}

/// What is printed of an error: the reason, told as an error, on a line of its own.
pub proof fn law_errors_are_told(reason: Seq<char>)
    ensures
        error_line(reason) == "Error: "@ + reason + "\n"@,
{
}

/// The usage is printed whole, with a line break.
pub proof fn law_usage_is_printed_whole()
    ensures
        usage_lines() == USAGE@ + "\n"@,
{
}

} // verus!
