use what::capture::TerminalCapture;

fn snapshot(lines: &[&str]) -> Vec<String> {
    lines.iter().map(|line| line.to_string()).collect()
}

fn segmented(lines: &[&str], prompt: &str, count: u8) -> Vec<String> {
    TerminalCapture::from_last_commands(snapshot(lines), prompt, count).lines
}

const HISTORY: [&str; 9] = [
    "$ first",
    "alpha",
    "$ second",
    "beta",
    "gamma",
    "$ third",
    "",
    "delta",
    "$ what last 2",
];

#[test]
fn last_command_is_isolated() {
    assert_eq!(segmented(&HISTORY, "$ ", 1), vec![">>> third", "", "delta"]);
}

#[test]
fn two_commands_come_back_in_order() {
    assert_eq!(
        segmented(&HISTORY, "$ ", 2),
        vec![">>> second", "beta", "gamma", ">>> third", "", "delta"]
    );
}

#[test]
fn all_commands_of_the_snapshot() {
    assert_eq!(
        segmented(&HISTORY, "$ ", 3),
        vec![">>> first", "alpha", ">>> second", "beta", "gamma", ">>> third", "", "delta"]
    );
}

#[test]
fn each_count_gives_that_many_blocks() {
    for count in 1..=3u8 {
        let lines = segmented(&HISTORY, "$ ", count);
        let blocks = lines.iter().filter(|line| line.starts_with(">>> ")).count();
        assert_eq!(blocks, count as usize);
        assert!(lines[0].starts_with(">>> "));
    }
}

#[test]
fn more_commands_than_there_are() {
    let all = segmented(&HISTORY, "$ ", 3);
    assert_eq!(segmented(&HISTORY, "$ ", 4), all);
    assert_eq!(segmented(&HISTORY, "$ ", 200), all);
    assert_eq!(segmented(&HISTORY, "$ ", 255), all);
}

#[test]
fn partial_result_keeps_what_precedes_the_oldest_prompt() {
    let lines = ["left over", "$ ls", "a.txt", "$ what last 5"];
    assert_eq!(segmented(&lines, "$ ", 5), vec!["left over", ">>> ls", "a.txt"]);
    assert_eq!(segmented(&lines, "$ ", 1), vec![">>> ls", "a.txt"]);
}

#[test]
fn lines_after_the_newest_prompt_are_left_out() {
    let lines = ["$ ls", "a.txt", "$ what last 1", "trailing", "more"];
    assert_eq!(segmented(&lines, "$ ", 1), vec![">>> ls", "a.txt"]);
    assert_eq!(segmented(&lines, "$ ", 9), vec![">>> ls", "a.txt"]);
}

#[test]
fn no_command_asked_for() {
    assert_eq!(segmented(&HISTORY, "$ ", 0), Vec::<String>::new());
    assert_eq!(segmented(&[], "$ ", 0), Vec::<String>::new());
}

#[test]
fn prompt_that_never_occurs() {
    assert_eq!(segmented(&HISTORY, "% ", 1), Vec::<String>::new());
    assert_eq!(segmented(&HISTORY, "% ", 255), Vec::<String>::new());
}

#[test]
fn only_the_invoking_prompt() {
    assert_eq!(segmented(&["$ what last 1"], "$ ", 1), Vec::<String>::new());
    assert_eq!(segmented(&["noise", "$ what last 1"], "$ ", 1), vec!["noise"]);
}

#[test]
fn empty_snapshot() {
    assert_eq!(segmented(&[], "$ ", 1), Vec::<String>::new());
}

#[test]
fn output_that_starts_with_the_prompt_bounds_the_block() {
    let lines = ["$ cat notes", "first note", "$ not a command", "last note", "$ what last 1"];
    assert_eq!(segmented(&lines, "$ ", 1), vec![">>> not a command", "last note"]);
    assert_eq!(
        segmented(&lines, "$ ", 2),
        vec![">>> cat notes", "first note", ">>> not a command", "last note"]
    );
}

#[test]
fn only_the_prefix_is_replaced() {
    let lines = ["$ echo '$ '", "$ ", "$ what last 1"];
    assert_eq!(segmented(&lines, "$ ", 2), vec![">>> echo '$ '", ">>> "]);
}

#[test]
fn prompt_must_be_at_the_start() {
    let lines = ["$ ls", " $ indented", "x$ y", "$", "$ what last 1"];
    assert_eq!(segmented(&lines, "$ ", 3), vec![">>> ls", " $ indented", "x$ y", "$"]);
}

#[test]
fn prompt_of_several_characters() {
    let lines = ["user@host ~> make", "error: no rule", "user@host ~> what last 1"];
    assert_eq!(segmented(&lines, "user@host ~> ", 1), vec![">>> make", "error: no rule"]);
}

#[test]
fn prompt_beyond_ascii() {
    let lines = ["\u{276f} make", "caf\u{e9}", "\u{276f} what last 1"];
    assert_eq!(segmented(&lines, "\u{276f} ", 1), vec![">>> make", "caf\u{e9}"]);
}

#[test]
fn reversing_twice_changes_nothing() {
    let lines = segmented(&HISTORY, "$ ", 2);
    let mut turned = lines.clone();
    turned.reverse();
    assert_eq!(turned[0], "delta");
    turned.reverse();
    assert_eq!(turned, lines);
}

#[test]
fn capture_of_given_lines() {
    let capture = TerminalCapture::from_lines(snapshot(&["a", "", "b"]));
    assert_eq!(capture.lines, vec!["a", "", "b"]);
    assert_eq!(capture.text(), "a\n\nb");
    assert_eq!(TerminalCapture::from_lines(Vec::new()).text(), "");
}

/// The backward scan, written down plainly.
fn scanned(lines: &[String], prompt: &str, count: usize) -> Vec<String> {
    let mut buffer = Vec::new();
    let mut hits = 0;
    for line in lines.iter().rev() {
        if line.starts_with(prompt) {
            hits += 1;
            if hits > 1 {
                buffer.push(format!(">>> {}", &line[prompt.len()..]));
            }
            if hits == count + 1 {
                break;
            }
        } else if hits > 0 {
            buffer.push(line.clone());
        }
    }
    buffer.reverse();
    buffer
}

#[test]
fn every_small_snapshot_is_segmented_as_the_scan_says() {
    let kinds = ["$ cmd", "out", "", "$", " $ x", "$ "];
    for length in 0..=5usize {
        let mut total = 1;
        for _ in 0..length {
            total *= kinds.len();
        }
        for code in 0..total {
            let mut rest = code;
            let mut lines = Vec::new();
            for _ in 0..length {
                lines.push(kinds[rest % kinds.len()].to_string());
                rest /= kinds.len();
            }
            for count in 0..=4u8 {
                let expected = scanned(&lines, "$ ", count as usize);
                let found = TerminalCapture::from_last_commands(lines.clone(), "$ ", count);
                assert_eq!(found.lines, expected);
            }
        }
    }
}

#[test]
fn snapshots_with_many_prompts() {
    for prompts in 1..=6usize {
        let mut lines = Vec::new();
        for at in 0..prompts {
            lines.push(format!("$ command {}", at));
            if at + 1 < prompts {
                lines.push(format!("output {}", at));
            }
        }
        for count in 1..=8u8 {
            let found = TerminalCapture::from_last_commands(lines.clone(), "$ ", count).lines;
            let blocks = found.iter().filter(|line| line.starts_with(">>> command")).count();
            assert_eq!(blocks, (count as usize).min(prompts - 1));
            assert_eq!(found.len(), 2 * blocks);
            for (at, line) in found.iter().enumerate() {
                let command = prompts - 1 - blocks + at / 2;
                if at % 2 == 0 {
                    assert_eq!(*line, format!(">>> command {}", command));
                } else {
                    assert_eq!(*line, format!("output {}", command));
                }
            }
        }
    }
}
