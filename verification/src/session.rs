//! What one run does between the capture and the diagnosis: it refuses an
//! empty capture, shows what was captured, and asks before it sends it.

use crate::capture::TerminalCapture;
use crate::error::DiagnosisError;
use crate::text::{decimal, decimal_text, join, join_text};
use vstd::prelude::*;
use vstd::string::*;

verus! {

/// What is shown of a capture before it is sent: its lines in a fence, then
/// their number.
pub open spec fn preview(lines: Seq<Seq<char>>) -> Seq<char> {
    "```\r\n"@ + join(lines, "\r\n"@) + "\r\n```\r\n"@ + "captured "@ + decimal(lines.len())
        + " lines\r\n"@
}

/// What comes next once the capture is there.
#[derive(Debug, PartialEq, Eq)]
pub enum Plan {
    /// Nothing is shown; the capture is sent as it is.
    Send,
    /// The preview is shown.  Where `ask` is set, the capture is sent only
    /// after the user has confirmed it.
    Show { preview: String, ask: bool },
}

/// What the user's answer to the question means.
#[derive(Clone, Copy, Debug, PartialEq, Eq, Structural)]
pub enum Verdict {
    /// The capture is sent.
    Confirmed,
    /// The run ends here, without a failure.
    Aborted,
}

/// Decides what follows the capture.  An empty capture ends the run: there
/// is nothing to diagnose.  A quiet run shows and asks nothing.  Any other
/// run shows the preview, and asks unless confirmation was given in advance.
pub fn plan(capture: &TerminalCapture, quiet: bool, confirm: bool) -> (result: Result<
    Plan,
    DiagnosisError,
>)
    ensures
        match result {
            Err(error) => capture@.len() == 0 && error == DiagnosisError::EmptyCapture,
            Ok(Plan::Send) => capture@.len() > 0 && quiet,
            Ok(Plan::Show { preview: text, ask }) => {
                &&& capture@.len() > 0
                &&& !quiet
                &&& text@ == preview(capture@)
                &&& ask == !confirm
            },
        },
{
    if capture.lines.len() == 0 {
        return Err(DiagnosisError::EmptyCapture);
    }
    if quiet {
        return Ok(Plan::Send);
    }
    let mut text = String::from_str("```\r\n");
    text.append(join_text(&capture.lines, "\r\n").as_str());
    text.append("\r\n```\r\n");
    text.append("captured ");
    text.append(decimal_text(capture.lines.len() as u64).as_str());
    text.append(" lines\r\n");
    Ok(Plan::Show { preview: text, ask: !confirm })
}

/// The question put to the user.
pub fn question() -> (text: String)
    ensures
        text@ == "confirm output [Y/n]"@,
{
    String::from_str("confirm output [Y/n]")
}

/// Reads the user's answer: the letter `y`, small or capital, confirms, and
/// every other byte aborts.
pub fn judge(answer: u8) -> (verdict: Verdict)
    ensures
        verdict == if answer == 0x79 || answer == 0x59 {
            Verdict::Confirmed
        } else {
            Verdict::Aborted
        },
{
    if answer == 0x79 || answer == 0x59 {
        Verdict::Confirmed
    } else {
        Verdict::Aborted
    }
}

impl Verdict {
    /// The line shown in place of the question.
    pub open spec fn notice_spec(self) -> Seq<char> {
        match self {
            Verdict::Confirmed => "\routput confirmed\r\n"@,
            Verdict::Aborted => "\raborting...\r\n"@,
        }
    }

    /// Writes the line shown in place of the question.
    pub fn notice(self) -> (text: String)
        ensures
            text@ == self.notice_spec(),
    {
        match self {
            Verdict::Confirmed => String::from_str("\routput confirmed\r\n"),
            Verdict::Aborted => String::from_str("\raborting...\r\n"),
        }
    }
}

} // verus!
