use vstd::prelude::*;

verus! {

/// Why a write to the store was refused; the store is left unchanged.
#[derive(PartialEq, Eq, Structural, Debug, Clone, Copy)]
pub enum StoreError {
    /// The handle names no claim that is still waiting for its response.
    UnknownClaim,
    /// The response's status is not an HTTP status code (100 to 999).
    InvalidStatus,
    /// An issue with this identifier already exists.
    DuplicateIssue,
    /// The recipient list names one address twice.
    DuplicateRecipient,
}

} // verus!

verus! {

/// The text of an error and of each error that caused it: every message is
/// followed by a blank line, and every message after the first is introduced
/// by a "Caused by:" line.
pub open spec fn chain_text(chain: Seq<Seq<char>>) -> Seq<char>
    decreases chain.len(),
{
    if chain.len() == 0 {
        Seq::empty()
    } else {
        chain_text(chain.drop_last()) + (if chain.len() > 1 {
            "Caused by:\n\t\n"@
        } else {
            Seq::empty()
        }) + chain.last() + "\n\n"@
    }
}

/// Writes an error and its chain of causes, `chain[0]` being the error itself
/// and each next entry the cause of the one before.
pub fn error_chain_fmt(chain: &Vec<String>) -> (r: String)
    ensures
        r@ == chain_text(chain@.map_values(|e: String| e@)),
{
    let ghost c = chain@.map_values(|e: String| e@);
    let mut out = String::new();
    let mut i: usize = 0;
    while i < chain.len()
        invariant
            i <= chain.len(),
            c == chain@.map_values(|e: String| e@),
            out@ == chain_text(c.subrange(0, i as int)),
        decreases chain.len() - i,
    {
        if i > 0 {
            out.append("Caused by:\n\t\n");
        }
        out.append(chain[i].as_str());
        out.append("\n\n");
        proof {
            let s = c.subrange(0, i + 1);
            assert(s.drop_last() =~= c.subrange(0, i as int));
        }
        i += 1;
    }
    assert(c.subrange(0, i as int) =~= c);
    out
}

/// How a long-running task of the process ended.
#[derive(Debug)]
pub enum TaskExit {
    /// It returned normally.
    Exited,
    /// It returned an error; the text is the error's chain of causes.
    Failed(String),
    /// It could not run to completion (it panicked or was cancelled); the text
    /// says why.
    Aborted(String),
}

/// The severity of a log line.
#[derive(PartialEq, Eq, Structural, Debug, Clone, Copy)]
pub enum LogLevel {
    Info,
    Error,
}

/// A log line: its severity, its message, and the error it reports, if any.
#[derive(Debug)]
pub struct ExitReport {
    pub level: LogLevel,
    pub message: String,
    pub cause: Option<String>,
}

/// The report of how the task `task_name` ended: an information line when it
/// exited, an error line with the error when it failed or did not complete.
pub fn report_exit(task_name: &str, outcome: TaskExit) -> (r: ExitReport)
    ensures
        outcome is Exited ==> r.level == LogLevel::Info && r.message@ == task_name@
            + " has exited"@ && r.cause is None,
        outcome matches TaskExit::Failed(e) ==> r.level == LogLevel::Error && r.message@
            == task_name@ + " failed"@ && (r.cause matches Some(c) && c@ == e@),
        outcome matches TaskExit::Aborted(e) ==> r.level == LogLevel::Error && r.message@
            == task_name@ + " task failed to complete"@ && (r.cause matches Some(c) && c@ == e@),
{
    let mut message = task_name.to_owned();
    match outcome {
        TaskExit::Exited => {
            message.append(" has exited");
            ExitReport { level: LogLevel::Info, message, cause: None }
        },
        TaskExit::Failed(e) => {
            message.append(" failed");
            ExitReport { level: LogLevel::Error, message, cause: Some(e) }
        },
        TaskExit::Aborted(e) => {
            message.append(" task failed to complete");
            ExitReport { level: LogLevel::Error, message, cause: Some(e) }
        },
    }
}

} // verus!
