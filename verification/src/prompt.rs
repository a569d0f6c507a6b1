//! The shell's prompt: how to make the shell print it, and how to read it
//! from what the shell printed.

use crate::capture::{ProcessOutput, TerminalCapture};
use crate::error::DiagnosisError;
use crate::text::{
    filled, keep_filled, lemma_split_nonempty, same_text, split, split_text, texts, Separator,
};
use vstd::prelude::*;
use vstd::string::*;

verus! {

/// What is left of a text once `strip_ansi_escapes` has taken the escape
/// sequences out of it.
pub uninterp spec fn ansi_stripped(text: Seq<char>) -> Seq<char>;

/// `strip_ansi_escapes::strip_str`.  Trusted: it returns `ansi_stripped` of
/// the text it is given.
#[verifier::external_body]
fn strip_ansi(text: &str) -> (stripped: String)
    ensures
        stripped@ == ansi_stripped(text@),
{
    strip_ansi_escapes::strip_str(text)
}

/// The shells whose prompt can be probed, by the way in which they are made
/// to print it.
#[derive(Clone, Copy, Debug, PartialEq, Eq, Structural)]
pub enum ShellFamily {
    /// `zsh`.
    Zsh,
    /// `bash` and `sh`.
    Bourne,
}

/// The name of an executable: what follows the last `/` of its path, where a
/// `/` at the very end of the path is left out of account.
pub open spec fn basename(path: Seq<char>) -> Seq<char> {
    let pieces = split(path, Separator::Char('/'));
    let names = if pieces.last().len() == 0 {
        pieces.drop_last()
    } else {
        pieces
    };
    if names.len() == 0 {
        Seq::empty()
    } else {
        names.last()
    }
}

/// The family of the shell at `shell`, where it is a supported one.
pub open spec fn family_of(shell: Seq<char>) -> Option<ShellFamily> {
    let name = basename(shell);
    if name == "zsh"@ {
        Some(ShellFamily::Zsh)
    } else if name == "bash"@ || name == "sh"@ {
        Some(ShellFamily::Bourne)
    } else {
        None
    }
}

/// The line of the probe's output that holds the prompt: the last one that
/// holds a character at all.  A shell may print a banner first.
pub open spec fn prompt_line(stdout: Seq<char>) -> Option<Seq<char>> {
    let lines = filled(split(stdout, Separator::Char('\n')));
    if lines.len() == 0 {
        None
    } else {
        Some(lines.last())
    }
}

/// The prompt that the probe's output gives: its prompt line without escape
/// sequences, where that leaves a character.
pub open spec fn prompt_of(stdout: Seq<char>) -> Option<Seq<char>> {
    match prompt_line(stdout) {
        Some(line) => if ansi_stripped(line).len() > 0 {
            Some(ansi_stripped(line))
        } else {
            None
        },
        None => None,
    }
}

impl ShellFamily {
    /// The arguments that make an interactive shell of the family print its
    /// expanded prompt and end.
    pub open spec fn probe_spec(self) -> Seq<Seq<char>> {
        match self {
            ShellFamily::Zsh => seq!["-i"@, "-c"@, "print -P $PS1"@],
            ShellFamily::Bourne => seq!["-i"@, "-c"@, "echo -e \"${PS1@P}\""@],
        }
    }

    /// Writes the arguments that make an interactive shell of the family
    /// print its expanded prompt and end.
    pub fn probe(self) -> (arguments: Vec<String>)
        ensures
            texts(arguments@) == self.probe_spec(),
    {
        let mut arguments: Vec<String> = Vec::new();
        arguments.push(String::from_str("-i"));
        arguments.push(String::from_str("-c"));
        match self {
            ShellFamily::Zsh => {
                arguments.push(String::from_str("print -P $PS1"));
            },
            ShellFamily::Bourne => {
                arguments.push(String::from_str("echo -e \"${PS1@P}\""));
            },
        }
        proof {
            assert(texts(arguments@) =~= self.probe_spec());
        }
        arguments
    }
}

/// The name of the executable at `path`.
pub fn executable_name(path: &str) -> (name: String)
    ensures
        name@ == basename(path@),
{
    let mut pieces = split_text(path, Separator::Char('/'));
    proof {
        lemma_split_nonempty(path@, Separator::Char('/'));
    }
    let ghost all = texts(pieces@);
    let last = pieces.pop().unwrap();
    proof {
        assert(texts(pieces@) =~= all.drop_last());
        assert(all.last() == last@);
    }
    if last.as_str().unicode_len() > 0 {
        return last;
    }
    let ghost names = texts(pieces@);
    match pieces.pop() {
        Some(name) => {
            proof {
                assert(names.last() == name@);
            }
            name
        },
        None => String::new(),
    }
}

/// Accepts what is left of the prompt line as the prompt, unless nothing is
/// left: a prompt holds at least one character.
pub fn checked_prompt(stripped: String) -> (result: Result<String, DiagnosisError>)
    ensures
        match result {
            Ok(prompt) => stripped@.len() > 0 && prompt == stripped,
            Err(error) => stripped@.len() == 0 && error == DiagnosisError::MissingPrompt,
        },
{
    if stripped.as_str().unicode_len() > 0 {
        Ok(stripped)
    } else {
        Err(DiagnosisError::MissingPrompt)
    }
}

impl TerminalCapture {
    /// The family of the shell that the environment names.  Without a shell
    /// there is no prompt, and none with a shell of another family.
    pub fn shell_family(shell: Option<&str>) -> (result: Result<ShellFamily, DiagnosisError>)
        ensures
            match shell {
                None => result == Err::<ShellFamily, DiagnosisError>(DiagnosisError::MissingShell),
                Some(path) => match family_of(path@) {
                    Some(family) => result == Ok::<ShellFamily, DiagnosisError>(family),
                    None => {
                        &&& result matches Err(DiagnosisError::UnsupportedShell(name))
                        &&& name@ == path@
                    },
                },
            },
    {
        match shell {
            None => Err(DiagnosisError::MissingShell),
            Some(path) => {
                let name = executable_name(path);
                if same_text(name.as_str(), "zsh") {
                    Ok(ShellFamily::Zsh)
                } else if same_text(name.as_str(), "bash") || same_text(name.as_str(), "sh") {
                    Ok(ShellFamily::Bourne)
                } else {
                    Err(DiagnosisError::UnsupportedShell(path.to_owned()))
                }
            },
        }
    }

    /// The prompt, read from what the probe of the shell at `shell` left
    /// behind: the last line of its output that holds a character, without
    /// escape sequences.  `output` is `None` where the shell could not be
    /// spawned.  Such a probe gives no prompt, nor does one that ended with
    /// a failing status or printed no prompt.
    pub fn prompt(shell: &str, output: Option<&ProcessOutput>) -> (result: Result<
        String,
        DiagnosisError,
    >)
        ensures
            match output {
                None => result matches Err(DiagnosisError::SpawnFailed(name)) && name@ == shell@,
                Some(left) => if !left.success {
                    result matches Err(DiagnosisError::ExitFailure(name)) && name@ == shell@
                } else {
                    match prompt_of(left.stdout@) {
                        Some(text) => result matches Ok(prompt) && prompt@ == text,
                        None => result matches Err(DiagnosisError::MissingPrompt),
                    }
                },
            },
    {
        let output = match output {
            Some(left) => left,
            None => {
                return Err(DiagnosisError::SpawnFailed(shell.to_owned()));
            },
        };
        if !output.success {
            return Err(DiagnosisError::ExitFailure(shell.to_owned()));
        }
        let pieces = split_text(output.stdout.as_str(), Separator::Char('\n'));
        let mut lines = keep_filled(&pieces);
        let ghost all = texts(lines@);
        match lines.pop() {
            None => Err(DiagnosisError::MissingPrompt),
            Some(line) => {
                proof {
                    assert(all.last() == line@);
                }
                checked_prompt(strip_ansi(line.as_str()))
            },
        }
    }
}

} // verus!
