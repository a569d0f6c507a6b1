use what::capture::TerminalCapture;
use what::error::DiagnosisError;
use what::session::{judge, plan, question, Plan, Verdict};

fn capture(lines: &[&str]) -> TerminalCapture {
    TerminalCapture::from_lines(lines.iter().map(|line| line.to_string()).collect())
}

#[test]
fn empty_capture_ends_the_run() {
    for quiet in [false, true] {
        for confirm in [false, true] {
            assert_eq!(plan(&capture(&[]), quiet, confirm), Err(DiagnosisError::EmptyCapture));
        }
    }
}

#[test]
fn quiet_run_shows_nothing() {
    assert_eq!(plan(&capture(&["x"]), true, false), Ok(Plan::Send));
    assert_eq!(plan(&capture(&["x"]), true, true), Ok(Plan::Send));
}

#[test]
fn preview_is_shown_and_confirmation_asked() {
    assert_eq!(
        plan(&capture(&[">>> make", "", "error"]), false, false),
        Ok(Plan::Show {
            preview: "```\r\n>>> make\r\n\r\nerror\r\n```\r\ncaptured 3 lines\r\n".to_string(),
            ask: true
        })
    );
}

#[test]
fn confirmation_given_in_advance() {
    assert_eq!(
        plan(&capture(&["one"]), false, true),
        Ok(Plan::Show { preview: "```\r\none\r\n```\r\ncaptured 1 lines\r\n".to_string(), ask: false })
    );
}

#[test]
fn preview_counts_every_line() {
    let lines = vec!["l"; 12];
    match plan(&capture(&lines), false, true) {
        Ok(Plan::Show { preview, .. }) => assert!(preview.ends_with("```\r\ncaptured 12 lines\r\n")),
        other => panic!("{:?}", other),
    }
}

#[test]
fn answers_to_the_question() {
    assert_eq!(question(), "confirm output [Y/n]");
    assert_eq!(judge(b'y'), Verdict::Confirmed);
    assert_eq!(judge(b'Y'), Verdict::Confirmed);
    assert_eq!(judge(b'n'), Verdict::Aborted);
    assert_eq!(judge(b'\n'), Verdict::Aborted);
    assert_eq!(judge(b'\r'), Verdict::Aborted);
    assert_eq!(judge(0), Verdict::Aborted);
    for answer in 0..=255u8 {
        let expected = if answer.to_ascii_lowercase() == b'y' { Verdict::Confirmed } else { Verdict::Aborted };
        assert_eq!(judge(answer), expected);
    }
}

#[test]
fn notices_of_the_verdicts() {
    assert_eq!(Verdict::Confirmed.notice(), "\routput confirmed\r\n");
    assert_eq!(Verdict::Aborted.notice(), "\raborting...\r\n");
}
