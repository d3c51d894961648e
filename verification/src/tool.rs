//! The boundary to the external tool: how it is invoked and what its
//! outcome means.
//!
//! The library never starts a process. It says which program to run, where
//! and with which arguments, and it is told how the run ended.

use crate::error::{ErrorView, GitMetricsError};
use crate::text::texts;
use vstd::prelude::*;
use vstd::string::StringExecFns;
use vstd::utf8::{decode_utf8, valid_utf8};

verus! {

/// One run of the tool: the program, the directory to run it in, and its
/// arguments in order.
#[derive(Debug, Clone, PartialEq, Eq)]
pub struct ToolInvocation {
    pub program: String,
    pub working_dir: String,
    pub args: Vec<String>,
}

/// What a `ToolInvocation` holds, as mathematical values.
pub struct ToolInvocationView {
    pub program: Seq<char>,
    pub working_dir: Seq<char>,
    pub args: Seq<Seq<char>>,
}

impl View for ToolInvocation {
    type V = ToolInvocationView;

    open spec fn view(&self) -> ToolInvocationView {
        ToolInvocationView {
            program: self.program@,
            working_dir: self.working_dir@,
            args: texts(self.args@),
        }
    }
}

/// How a run of the tool ended.
#[derive(Debug, Clone, PartialEq, Eq)]
pub enum ToolOutcome {
    /// The process could not be started; carries the cause.
    NotStarted(String),
    /// The process ran and exited; carries whether its exit status was zero
    /// and the bytes that it wrote to its two output streams.
    Exited { success: bool, stdout: Vec<u8>, stderr: Vec<u8> },
}

/// What a `ToolOutcome` holds, as mathematical values.
pub enum ToolOutcomeView {
    NotStarted(Seq<char>),
    Exited { success: bool, stdout: Seq<u8>, stderr: Seq<u8> },
}

impl View for ToolOutcome {
    type V = ToolOutcomeView;

    open spec fn view(&self) -> ToolOutcomeView {
        match self {
            ToolOutcome::NotStarted(cause) => ToolOutcomeView::NotStarted(cause@),
            ToolOutcome::Exited { success, stdout, stderr } => ToolOutcomeView::Exited {
                success: *success,
                stdout: stdout@,
                stderr: stderr@,
            },
        }
    }
}

/// The invocation of the tool in `working_dir` with `args`: the pager is
/// switched off before anything else.
pub open spec fn git_invocation(working_dir: Seq<char>, args: Seq<Seq<char>>) -> ToolInvocationView {
    ToolInvocationView { program: "git"@, working_dir, args: seq!["--no-pager"@] + args }
}

/// The text that a sequence of bytes is read as: the text that the bytes
/// encode where they are UTF-8, and else that text with a replacement
/// character for each part that is not.
pub uninterp spec fn lossy_text(bytes: Seq<u8>) -> Seq<char>;

/// `String::from_utf8_lossy` reads bytes as text and never fails. What it
/// gives depends on the bytes alone; bytes that are UTF-8 are decoded as
/// they stand.
#[verifier::external_body]
fn decode_lossy(bytes: &[u8]) -> (r: String)
    ensures
        r@ == lossy_text(bytes@),
        valid_utf8(bytes@) ==> r@ == decode_utf8(bytes@),
{
    String::from_utf8_lossy(bytes).into_owned()
}

/// What the outcome of a run means: the standard output of a run that
/// exited with status zero, read as text with nothing taken away; a command
/// failure with the error stream of a run that exited otherwise; an
/// execution failure for a process that could not be started.
pub open spec fn tool_result(outcome: ToolOutcomeView) -> Result<Seq<char>, ErrorView> {
    match outcome {
        ToolOutcomeView::NotStarted(cause) => Err(
            ErrorView::Other("Failed to execute git command: "@ + cause),
        ),
        ToolOutcomeView::Exited { success, stdout, stderr } => if success {
            Ok(lossy_text(stdout))
        } else {
            Err(ErrorView::CommandError("Git command failed: "@ + lossy_text(stderr)))
        },
    }
}

/// What the outcome of a run means, given the text that its two output
/// streams were read as.
pub open spec fn tool_result_of_text(
    outcome: ToolOutcomeView,
    stdout: Seq<char>,
    stderr: Seq<char>,
) -> Result<Seq<char>, ErrorView> {
    match outcome {
        ToolOutcomeView::NotStarted(cause) => Err(
            ErrorView::Other("Failed to execute git command: "@ + cause),
        ),
        ToolOutcomeView::Exited { success, .. } => if success {
            Ok(stdout)
        } else {
            Err(ErrorView::CommandError("Git command failed: "@ + stderr))
        },
    }
}

/// The invocation of the tool in `working_dir` with `args`.
pub fn git_command(working_dir: &str, args: Vec<String>) -> (r: ToolInvocation)
    ensures
        r@ == git_invocation(working_dir@, texts(args@)),
{
    let mut args = args;
    let mut all: Vec<String> = Vec::new();
    all.push(String::from_str("--no-pager"));
    let ghost head = texts(all@);
    let ghost tail = texts(args@);
    all.append(&mut args);
    assert(texts(all@) =~= head + tail);
    assert(head =~= seq!["--no-pager"@]);
    ToolInvocation {
        program: String::from_str("git"),
        working_dir: String::from_str(working_dir),
        args: all,
    }
}

/// What the outcome of a run means, given the text that its two output
/// streams were read as. Neither text is looked at for a process that could
/// not be started.
pub fn result_of_text(outcome: ToolOutcome, stdout: String, stderr: String) -> (r: Result<
    String,
    GitMetricsError,
>)
    ensures
        match r {
            Ok(text) => tool_result_of_text(outcome@, stdout@, stderr@) == Ok::<
                Seq<char>,
                ErrorView,
            >(text@),
            Err(e) => tool_result_of_text(outcome@, stdout@, stderr@) == Err::<
                Seq<char>,
                ErrorView,
            >(e@),
        },
{
    match outcome {
        ToolOutcome::NotStarted(cause) => Err(
            GitMetricsError::Other(
                String::from_str("Failed to execute git command: ").concat(cause.as_str()),
            ),
        ),
        ToolOutcome::Exited { success, .. } => if success {
            Ok(stdout)
        } else {
            Err(
                GitMetricsError::CommandError(
                    String::from_str("Git command failed: ").concat(stderr.as_str()),
                ),
            )
        },
    }
}

/// What the outcome of a run means.
pub fn command_result(outcome: ToolOutcome) -> (r: Result<String, GitMetricsError>)
    ensures
        match r {
            Ok(stdout) => tool_result(outcome@) == Ok::<Seq<char>, ErrorView>(stdout@),
            Err(e) => tool_result(outcome@) == Err::<Seq<char>, ErrorView>(e@),
        },
        match outcome@ {
            ToolOutcomeView::Exited { success, stdout, .. } => success && valid_utf8(stdout) ==> (
            match r {
                Ok(text) => text@ == decode_utf8(stdout),
                Err(_) => false,
            }),
            ToolOutcomeView::NotStarted(_) => true,
        },
{
    let (stdout, stderr) = match &outcome {
        ToolOutcome::NotStarted(_) => (String::new(), String::new()),
        ToolOutcome::Exited { success, stdout, stderr } => (
            decode_lossy(stdout.as_slice()),
            decode_lossy(stderr.as_slice()),
        ),
    };
    result_of_text(outcome, stdout, stderr)
}

} // verus!
