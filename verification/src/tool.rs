//! What a system utility left behind, and when its output may be used.

use vstd::prelude::*;
use vstd::utf8::{decode_utf8, valid_utf8};
use crate::error::{CollectionError, CollectionErrorView};

verus! {

/// How the run of a system utility ended.
#[derive(Clone, Debug, PartialEq, Eq)]
pub enum ToolRun {
    /// The utility could not be started.
    NotStarted { detail: String },
    /// The utility ran and exited.
    Exited { success: bool, exit_code: Option<i32>, stdout: Vec<u8>, stderr: Vec<u8> },
}

/// The text that the lossy UTF-8 conversion gives for `bytes`.
pub uninterp spec fn utf8_lossy_text(bytes: Seq<u8>) -> Seq<char>;

/// Converts captured output to text, replacing ill-formed bytes.
///
/// Trusted: `String::from_utf8_lossy` depends on the bytes alone, and
/// gives well-formed UTF-8 back as the text that it encodes. Nothing is
/// claimed of what stands in place of ill-formed input.
#[verifier::external_body]
fn utf8_lossy(bytes: &[u8]) -> (text: String)
    ensures
        text@ == utf8_lossy_text(bytes@),
        valid_utf8(bytes@) ==> text@ == decode_utf8(bytes@),
{
    String::from_utf8_lossy(bytes).into_owned()
}

/// What a run yields: the text of its standard output where it succeeded,
/// and otherwise the failure of the tool, with its exit status and the
/// text of its standard error. A tool that could not be started is named
/// by its program, with no exit status and the cause in place of the
/// standard error.
pub open spec fn run_outcome(tool: Seq<char>, program: Seq<char>, run: ToolRun) -> Result<
    Seq<char>,
    CollectionErrorView,
> {
    match run {
        ToolRun::NotStarted { detail } => Err(
            CollectionErrorView::ExternalToolFailure {
                tool: program,
                exit_status: None,
                stderr: detail@,
            },
        ),
        ToolRun::Exited { success, exit_code, stdout, stderr } => if success {
            Ok(utf8_lossy_text(stdout@))
        } else {
            Err(
                CollectionErrorView::ExternalToolFailure {
                    tool,
                    exit_status: exit_code,
                    stderr: utf8_lossy_text(stderr@),
                },
            )
        },
    }
}

/// Hands out the standard output of a run as text, or the failure.
///
/// A utility that could not be started or that exited with a failure
/// status ends the run at once: its output is not looked at, and nothing
/// is tried again. Output that is well-formed UTF-8 is handed out as the
/// text that it encodes.
pub fn tool_output(tool: &str, program: &str, run: &ToolRun) -> (res: Result<
    String,
    CollectionError,
>)
    ensures
        match res {
            Ok(text) => run_outcome(tool@, program@, *run) == Ok::<Seq<char>, CollectionErrorView>(
                text@,
            ),
            Err(e) => run_outcome(tool@, program@, *run) == Err::<Seq<char>, CollectionErrorView>(
                e@,
            ),
        },
        run matches ToolRun::Exited { success: true, stdout, .. } ==> (valid_utf8(stdout@) ==> (res
            matches Ok(text) && text@ == decode_utf8(stdout@))),
{
    match run {
        ToolRun::NotStarted { detail } => Err(
            CollectionError::ExternalToolFailure {
                tool: program.to_owned(),
                exit_status: None,
                stderr: detail.clone(),
            },
        ),
        ToolRun::Exited { success, exit_code, stdout, stderr } => {
            if *success {
                Ok(utf8_lossy(stdout.as_slice()))
            } else {
                Err(
                    CollectionError::ExternalToolFailure {
                        tool: tool.to_owned(),
                        exit_status: *exit_code,
                        stderr: utf8_lossy(stderr.as_slice()),
                    },
                )
            }
        },
    }
}

} // verus!
