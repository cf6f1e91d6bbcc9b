//! Outcomes of analyzer invocations, the text captured from them, and the
//! timed wrapper that measures how long an invocation took.

use vstd::prelude::*;
use vstd::utf8::*;

verus! {

/// A point on the monotonic clock of the standard library.
#[verifier::external_type_specification]
#[verifier::external_body]
pub struct ExInstant(std::time::Instant);

/// `Instant::now`: the current reading of the monotonic clock. Nothing is
/// claimed of the value.
pub assume_specification[ std::time::Instant::now ]() -> std::time::Instant;

/// `Instant::elapsed`: the time that has passed since the reading was taken.
/// Nothing is claimed of the value.
pub assume_specification[ std::time::Instant::elapsed ](
    start: &std::time::Instant,
) -> std::time::Duration;

/// `Duration::as_millis`: the span in whole milliseconds. Nothing is claimed
/// of the value.
pub assume_specification[ std::time::Duration::as_millis ](span: &std::time::Duration) -> u128;

/// What a finished process wrote to its two output streams. The exit status
/// is not kept: an analyzer that reports findings and exits non-zero has
/// completed like any other.
#[derive(Debug, Clone, PartialEq, Eq)]
pub struct ProcessOutput {
    pub stdout: Vec<u8>,
    pub stderr: Vec<u8>,
}

/// How one analyzer invocation ended.
#[derive(Debug, Clone, PartialEq, Eq)]
pub enum Invocation {
    /// The process ran to completion, whatever its exit status.
    Completed(ProcessOutput),
    /// The process could not be started at all.
    SpawnFailed,
    /// The process was terminated because it ran past its time limit.
    TimedOut,
}

/// The text that `String::from_utf8_lossy` makes of a byte sequence.
pub uninterp spec fn lossy_text(bytes: Seq<u8>) -> Seq<char>;

/// `String::from_utf8_lossy`, with the result copied into an owned string.
/// The text is a function of the bytes alone; on well-formed UTF-8 it is the
/// decoded text, and elsewhere the standard library substitutes replacement
/// characters in a way that is not restated here.
#[verifier::external_body]
fn decode_lossy(bytes: &Vec<u8>) -> (text: String)
    ensures
        text@ == lossy_text(bytes@),
        valid_utf8(bytes@) ==> text@ == decode_utf8(bytes@),
{
    String::from_utf8_lossy(bytes).into_owned()
}

/// The stream whose content is kept: standard output unless it is empty,
/// standard error otherwise.
pub open spec fn preferred_stream(output: ProcessOutput) -> Seq<u8> {
    if output.stdout@.len() > 0 {
        output.stdout@
    } else {
        output.stderr@
    }
}

/// The text recorded for an invocation: the preferred stream of a completed
/// process, decoded leniently, and the empty placeholder for an invocation
/// that did not complete.
pub open spec fn captured(invocation: Invocation) -> Seq<char> {
    match invocation {
        Invocation::Completed(output) => lossy_text(preferred_stream(output)),
        Invocation::SpawnFailed => Seq::empty(),
        Invocation::TimedOut => Seq::empty(),
    }
}

impl ProcessOutput {
    /// The captured text of a completed process.
    pub fn text(&self) -> (text: String)
        ensures
            text@ == lossy_text(preferred_stream(*self)),
            valid_utf8(preferred_stream(*self)) ==> text@ == decode_utf8(preferred_stream(*self)),
    {
        if self.stdout.len() > 0 {
            decode_lossy(&self.stdout)
        } else {
            decode_lossy(&self.stderr)
        }
    }
}

impl Invocation {
    /// The text recorded for this invocation.
    pub fn captured_text(&self) -> (text: String)
        ensures
            text@ == captured(*self),
    {
        match self {
            Invocation::Completed(output) => output.text(),
            Invocation::SpawnFailed => String::new(),
            Invocation::TimedOut => String::new(),
        }
    }
}

/// Whether a process that has been running for `elapsed_ms` milliseconds
/// has used up its time limit and is to be terminated. Without a limit no
/// process ever is.
pub fn deadline_reached(elapsed_ms: u128, limit_ms: Option<u128>) -> (stop: bool)
    ensures
        stop == (limit_ms is Some && elapsed_ms >= limit_ms->0),
{
    match limit_ms {
        Some(limit) => elapsed_ms >= limit,
        None => false,
    }
}

/// A value together with the time it took to produce it.
#[derive(Debug, Clone)]
pub struct Timed<R> {
    pub value: R,
    pub elapsed_ms: u128,
}

/// Runs `work` once and reports its result together with the elapsed time in
/// whole milliseconds, measured on the monotonic clock from just before the
/// call to just after it.
pub fn timed<R, F: FnOnce() -> R>(work: F) -> (out: Timed<R>)
    requires
        work.requires(()),
    ensures
        work.ensures((), out.value),
{
    let start = std::time::Instant::now();
    let value = work();
    let elapsed_ms = start.elapsed().as_millis();
    Timed { value, elapsed_ms }
}

} // verus!
