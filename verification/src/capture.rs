//! Captured terminal text: where it comes from, and how the lines of the
//! last commands are taken out of it.

use crate::error::DiagnosisError;
use crate::segment::{
    boundaries, is_boundary, lemma_scan_gives_segment, lemma_segment_none,
    lemma_segment_without_boundary, neutral, scan, segment,
};
use crate::text::{
    decimal, decimal_text, filled, has_prefix, join, join_text, keep_filled, lemma_texts_reverse,
    lines, lines_of, reversed, split, split_text, texts, without_first, Separator,
};
use vstd::prelude::*;
use vstd::string::*;

verus! {

/// What a subprocess left behind when it ended.
#[derive(Debug, PartialEq, Eq)]
pub struct ProcessOutput {
    /// Whether it ended with status zero.
    pub success: bool,
    /// What it wrote to its standard output.
    pub stdout: String,
    /// What it wrote to its standard error.
    pub stderr: String,
}

/// The words of a command line: its pieces between white space.
pub open spec fn words_of(command: Seq<char>) -> Seq<Seq<char>> {
    filled(split(command, Separator::Whitespace))
}

/// The arguments with which the multiplexer prints the last `count` lines of
/// its pane.
pub open spec fn capture_arguments(count: u32) -> Seq<Seq<char>> {
    seq!["capture-pane"@, "-T"@, "-pS"@, "-"@ + decimal(count as nat)]
}

/// Lines of terminal text, oldest first.
#[derive(Debug, PartialEq, Eq)]
pub struct TerminalCapture {
    pub lines: Vec<String>,
}

impl View for TerminalCapture {
    type V = Seq<Seq<char>>;

    open spec fn view(&self) -> Seq<Seq<char>> {
        texts(self.lines@)
    }
}

fn neutralize(line: &str, prompt: &str) -> (text: String)
    requires
        is_boundary(line@, prompt@),
    ensures
        text@ == neutral(line@, prompt@),
{
    let mut text = String::from_str(">>> ");
    text.append(without_first(line, prompt.unicode_len()));
    text
}

impl TerminalCapture {
    /// A capture of the given lines.
    pub fn from_lines(lines: Vec<String>) -> (capture: TerminalCapture)
        ensures
            capture.lines == lines,
    {
        TerminalCapture { lines }
    }

    /// The capture as one text: its lines, a line feed between them.
    pub fn text(&self) -> (text: String)
        ensures
            text@ == join(self@, "\n"@),
    {
        join_text(&self.lines, "\n")
    }

    /// The words of a command line: the program first, then its arguments.
    /// A command line of white space alone has none.
    pub fn command_words(command: &str) -> (words: Vec<String>)
        ensures
            texts(words@) == words_of(command@),
    {
        let pieces = split_text(command, Separator::Whitespace);
        keep_filled(&pieces)
    }

    /// The capture of a command that was run in order to be diagnosed: the
    /// lines of its standard output, then those of its standard error.
    /// `output` is what the command left behind, or `None` where it could not
    /// be spawned.  A command that ended without failing is refused unless
    /// `force` is set.
    pub fn from_command(program: &str, output: Option<&ProcessOutput>, force: bool) -> (result:
        Result<TerminalCapture, DiagnosisError>)
        ensures
            match output {
                None => result matches Err(DiagnosisError::SpawnFailed(name)) && name@ == program@,
                Some(left) => if !force && left.success {
                    result matches Err(DiagnosisError::ExitSuccess(name)) && name@ == program@
                } else {
                    result matches Ok(capture) && capture@ == lines_of(left.stdout@) + lines_of(
                        left.stderr@,
                    )
                },
            },
    {
        let output = match output {
            Some(left) => left,
            None => {
                return Err(DiagnosisError::SpawnFailed(program.to_owned()));
            },
        };
        if !force && output.success {
            return Err(DiagnosisError::ExitSuccess(program.to_owned()));
        }
        let mut all = lines(output.stdout.as_str());
        let mut errors = lines(output.stderr.as_str());
        let ghost first = all@;
        let ghost second = errors@;
        all.append(&mut errors);
        proof {
            assert(texts(all@) =~= texts(first) + texts(second));
        }
        Ok(TerminalCapture { lines: all })
    }

    /// How to ask the multiplexer for the last `count` lines of its pane.
    /// Outside a multiplexer session there is nothing to ask.
    pub fn tmux_arguments(in_session: bool, count: u32) -> (result: Result<
        Vec<String>,
        DiagnosisError,
    >)
        ensures
            match result {
                Ok(arguments) => in_session && texts(arguments@) == capture_arguments(count),
                Err(error) => !in_session && error == DiagnosisError::MissingSession,
            },
    {
        if !in_session {
            return Err(DiagnosisError::MissingSession);
        }
        let mut depth = String::from_str("-");
        depth.append(decimal_text(count as u64).as_str());
        let mut arguments: Vec<String> = Vec::new();
        arguments.push(String::from_str("capture-pane"));
        arguments.push(String::from_str("-T"));
        arguments.push(String::from_str("-pS"));
        arguments.push(depth);
        proof {
            assert(texts(arguments@) =~= capture_arguments(count));
        }
        Ok(arguments)
    }

    /// The lines that the multiplexer printed, none dropped.  `output` is
    /// what the multiplexer left behind, or `None` where it could not be
    /// spawned.  A multiplexer that ended with a failing status gives no
    /// lines.
    pub fn tmux_capture_lines(output: Option<&ProcessOutput>) -> (result: Result<
        Vec<String>,
        DiagnosisError,
    >)
        ensures
            match output {
                None => result matches Err(DiagnosisError::SpawnFailed(name)) && name@ == "tmux"@,
                Some(left) => if left.success {
                    result matches Ok(found) && texts(found@) == lines_of(left.stdout@)
                } else {
                    result matches Err(DiagnosisError::ExitFailure(name)) && name@ == "tmux"@
                },
            },
    {
        match output {
            None => Err(DiagnosisError::SpawnFailed(String::from_str("tmux"))),
            Some(left) => if left.success {
                Ok(lines(left.stdout.as_str()))
            } else {
                Err(DiagnosisError::ExitFailure(String::from_str("tmux")))
            },
        }
    }

    /// The lines of the last `commands_count` commands of `snapshot`, each
    /// command line with the marker in place of the prompt.  Fewer commands
    /// in the snapshot than asked for is no failure: what is there comes
    /// back.
    pub fn from_last_commands(snapshot: Vec<String>, prompt: &str, commands_count: u8) -> (capture:
        TerminalCapture)
        ensures
            capture@ == segment(texts(snapshot@), prompt@, commands_count as nat),
            commands_count == 0 ==> capture@.len() == 0,
            boundaries(texts(snapshot@), prompt@) == 0 ==> capture@.len() == 0,
    {
        let ghost all = texts(snapshot@);
        let ghost count = commands_count as nat;
        let total = snapshot.len();
        let mut rest = snapshot;
        let mut buffer: Vec<String> = Vec::new();
        let mut hits: usize = 0;
        let mut bounded = false;
        while !bounded && rest.len() > 0
            invariant
                hits + rest@.len() <= total,
                !bounded ==> texts(buffer@) + scan(texts(rest@), prompt@, count, hits as nat)
                    == scan(all, prompt@, count, 0),
                bounded ==> texts(buffer@) == scan(all, prompt@, count, 0),
                count == commands_count as nat,
            decreases rest@.len() + if bounded { 0int } else { 1int },
        {
            let ghost lines = texts(rest@);
            let ghost before = texts(buffer@);
            let line = rest.pop().unwrap();
            proof {
                assert(texts(rest@) =~= lines.drop_last());
                assert(lines.last() == line@);
            }
            if has_prefix(line.as_str(), prompt) {
                hits = hits + 1;
                if hits > 1 {
                    buffer.push(neutralize(line.as_str(), prompt));
                    proof {
                        assert(texts(buffer@) =~= before + seq![neutral(line@, prompt@)]);
                    }
                }
                if hits == commands_count as usize + 1 {
                    bounded = true;
                }
            } else if hits > 0 {
                proof {
                    assert(texts(buffer@.push(line)) =~= before + seq![line@]);
                }
                buffer.push(line);
            }
        }
        proof {
            lemma_texts_reverse(buffer@);
            lemma_scan_gives_segment(all, prompt@, count);
            lemma_segment_none(all, prompt@);
            if boundaries(all, prompt@) == 0 {
                lemma_segment_without_boundary(all, prompt@, count);
            }
        }
        TerminalCapture { lines: reversed(buffer) }
    }
}

} // verus!
