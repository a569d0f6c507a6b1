use what::capture::{ProcessOutput, TerminalCapture};
use what::error::DiagnosisError;
use what::prompt::{checked_prompt, executable_name, ShellFamily};

fn printed(stdout: &str) -> ProcessOutput {
    ProcessOutput { success: true, stdout: stdout.to_string(), stderr: String::new() }
}

#[test]
fn supported_shells() {
    assert_eq!(TerminalCapture::shell_family(Some("/bin/zsh")), Ok(ShellFamily::Zsh));
    assert_eq!(TerminalCapture::shell_family(Some("/usr/local/bin/bash")), Ok(ShellFamily::Bourne));
    assert_eq!(TerminalCapture::shell_family(Some("/bin/sh")), Ok(ShellFamily::Bourne));
    assert_eq!(TerminalCapture::shell_family(Some("zsh")), Ok(ShellFamily::Zsh));
    assert_eq!(TerminalCapture::shell_family(Some("/bin/zsh/")), Ok(ShellFamily::Zsh));
}

#[test]
fn unsupported_shell_is_named() {
    assert_eq!(
        TerminalCapture::shell_family(Some("/usr/bin/fish")),
        Err(DiagnosisError::UnsupportedShell("/usr/bin/fish".to_string()))
    );
    assert_eq!(
        TerminalCapture::shell_family(Some("")),
        Err(DiagnosisError::UnsupportedShell(String::new()))
    );
    assert_eq!(
        TerminalCapture::shell_family(Some("/bin/zsh//")),
        Err(DiagnosisError::UnsupportedShell("/bin/zsh//".to_string()))
    );
    assert_eq!(
        TerminalCapture::shell_family(Some("/bin/bash5")),
        Err(DiagnosisError::UnsupportedShell("/bin/bash5".to_string()))
    );
}

#[test]
fn shell_that_the_environment_does_not_name() {
    assert_eq!(TerminalCapture::shell_family(None), Err(DiagnosisError::MissingShell));
}

#[test]
fn names_of_executables() {
    assert_eq!(executable_name("/bin/zsh"), "zsh");
    assert_eq!(executable_name("zsh"), "zsh");
    assert_eq!(executable_name("/opt/tools/"), "tools");
    assert_eq!(executable_name("/"), "");
    assert_eq!(executable_name(""), "");
    assert_eq!(executable_name("a//"), "");
}

#[test]
fn probe_arguments() {
    assert_eq!(ShellFamily::Zsh.probe(), vec!["-i", "-c", "print -P $PS1"]);
    assert_eq!(ShellFamily::Bourne.probe(), vec!["-i", "-c", "echo -e \"${PS1@P}\""]);
}

#[test]
fn prompt_is_the_last_line_that_holds_something() {
    assert_eq!(TerminalCapture::prompt("/bin/zsh", Some(&printed("user@host ~ % \n"))), Ok("user@host ~ % ".to_string()));
    assert_eq!(
        TerminalCapture::prompt("/bin/zsh", Some(&printed("Welcome back!\nLast login: today\n$ "))),
        Ok("$ ".to_string())
    );
    assert_eq!(TerminalCapture::prompt("/bin/zsh", Some(&printed("banner\n> \n\n\n"))), Ok("> ".to_string()));
}

#[test]
fn escape_sequences_are_taken_out_of_the_prompt() {
    assert_eq!(
        TerminalCapture::prompt("/bin/bash", Some(&printed("\u{1b}[1;32muser\u{1b}[0m:\u{1b}[34m~\u{1b}[m$ \n"))),
        Ok("user:~$ ".to_string())
    );
}

#[test]
fn probe_that_printed_no_prompt() {
    assert_eq!(TerminalCapture::prompt("/bin/sh", Some(&printed(""))), Err(DiagnosisError::MissingPrompt));
    assert_eq!(TerminalCapture::prompt("/bin/sh", Some(&printed("\n\n"))), Err(DiagnosisError::MissingPrompt));
    assert_eq!(
        TerminalCapture::prompt("/bin/sh", Some(&printed("banner\n\u{1b}[0m\n"))),
        Err(DiagnosisError::MissingPrompt)
    );
}

#[test]
fn probe_that_failed() {
    let output = ProcessOutput { success: false, stdout: "$ \n".to_string(), stderr: String::new() };
    assert_eq!(
        TerminalCapture::prompt("/bin/sh", Some(&output)),
        Err(DiagnosisError::ExitFailure("/bin/sh".to_string()))
    );
}

#[test]
fn prompt_holds_a_character() {
    assert_eq!(checked_prompt("$ ".to_string()), Ok("$ ".to_string()));
    assert_eq!(checked_prompt(String::new()), Err(DiagnosisError::MissingPrompt));
}

#[test]
fn shell_that_could_not_be_spawned() {
    assert_eq!(
        TerminalCapture::prompt("/bin/zsh", None),
        Err(DiagnosisError::SpawnFailed("/bin/zsh".to_string()))
    );
}
