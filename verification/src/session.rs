//! Session-driver decisions: single-shot versus interactive execution, the
//! per-iteration step of the interactive loop, and the prompt text.
//!
//! The driver's outside work — connecting and executing over the network —
//! happens in the surrounding binary; this module decides what to execute
//! and how each outcome is judged, so that the loop around the suspending
//! calls carries no logic of its own.

use vstd::prelude::*;
use vstd::string::StringExecFns;
use crate::errors::Failure;

verus! {

/// The words of a command joined with single spaces.
pub open spec fn join_spaces(ws: Seq<Seq<char>>) -> Seq<char>
    decreases ws.len(),
{
    if ws.len() == 0 {
        Seq::empty()
    } else if ws.len() == 1 {
        ws[0]
    } else {
        ws[0] + " "@ + join_spaces(ws.drop_first())
    }
}

/// Relies on `itertools::join`: the words concatenated with a single space
/// between each pair.
#[verifier::external_body]
fn join_words(words: &Vec<String>) -> (r: String)
    ensures
        r@ == join_spaces(words@.map_values(|w: String| w@)),
{
    itertools::join(words.iter(), " ")
}

/// How a remote-session command executes.
#[derive(Debug)]
pub enum ExecMode {
    /// The command words were joined into this one command, executed once.
    Single(String),
    /// No command words were supplied: enter the interactive loop.
    Interactive,
}

/// Decides between single-shot and interactive execution: command words
/// present mean one joined command, none mean the interactive loop.
pub fn plan_session(commands: &Vec<String>) -> (m: ExecMode)
    ensures
        commands@.len() > 0 ==> (m matches ExecMode::Single(c) && c@ == join_spaces(
            commands@.map_values(|w: String| w@),
        )),
        commands@.len() == 0 ==> m is Interactive,
{
    if commands.len() > 0 {
        ExecMode::Single(join_words(commands))
    } else {
        ExecMode::Interactive
    }
}

/// What trimming trailing whitespace yields; a function of the characters
/// alone.
pub uninterp spec fn trim_end_of(s: Seq<char>) -> Seq<char>;

/// Relies on `str::trim_end`: removes trailing whitespace, so the result is
/// a prefix of the input.
#[verifier::external_body]
fn trim_end(s: &str) -> (r: String)
    ensures
        r@ == trim_end_of(s@),
        r@.len() <= s@.len(),
        r@ == s@.take(r@.len() as int),
{
    s.trim_end().to_string()
}

/// What one read of the interactive loop produced.
#[derive(Debug)]
pub enum LineRead {
    /// One line, without its terminator.
    Line(String),
    /// The input stream ended.
    EndOfInput,
    /// The read itself failed.
    Failed,
}

/// Judges one iteration of the interactive loop: a line read becomes the
/// command to execute, trimmed of trailing whitespace; end of input or a
/// failed read is an unrecoverable input failure, not a clean exit.
pub fn interactive_step(read: LineRead) -> (r: Result<String, Failure>)
    ensures
        read matches LineRead::Line(l) ==> r matches Result::Ok(c) && c@ == trim_end_of(l@),
        read is EndOfInput ==> r == Result::<String, Failure>::Err(Failure::LoopInput),
        read is Failed ==> r == Result::<String, Failure>::Err(Failure::LoopInput),
{
    match read {
        LineRead::Line(l) => Result::Ok(trim_end(l.as_str())),
        LineRead::EndOfInput => Result::Err(Failure::LoopInput),
        LineRead::Failed => Result::Err(Failure::LoopInput),
    }
}

/// The interactive prompt for a selector: the selector and a `>` marker.
pub fn prompt_for(selector: &str) -> (p: String)
    ensures
        p@ == selector@ + " > "@,
{
    let mut p = String::from_str(selector);
    p.append(" > ");
    p
}

} // verus!
