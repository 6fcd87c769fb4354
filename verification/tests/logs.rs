use akrond::logs::{strip_ansi, LOG_HISTORY};
use akrond::text::chars_of;
use regex::Regex;

fn by_regex(line: &str) -> String {
    let pattern = Regex::new(r"\x1b\[[0-9;]*[mK]").expect("regex");
    pattern.replace_all(line, "").into_owned()
}

#[test]
fn colours_are_taken_out() {
    assert_eq!(strip_ansi("\x1b[31mred\x1b[0m"), "red");
    assert_eq!(strip_ansi("\x1b[1;32mINFO\x1b[0m started"), "INFO started");
    assert_eq!(strip_ansi("a\x1b[Kb"), "ab");
    assert_eq!(strip_ansi("\x1b[m"), "");
    assert_eq!(strip_ansi("\x1b[;;;m."), ".");
}

#[test]
fn plain_lines_stay_as_they_are() {
    assert_eq!(strip_ansi(""), "");
    assert_eq!(strip_ansi("plain text"), "plain text");
    assert_eq!(strip_ansi("größe ✓ 日本語"), "größe ✓ 日本語");
    assert_eq!(strip_ansi("[0m is no sequence without escape"), "[0m is no sequence without escape");
}

#[test]
fn other_control_sequences_stay() {
    assert_eq!(strip_ansi("\x1b[2J"), "\x1b[2J");
    assert_eq!(strip_ansi("\x1b[1A up"), "\x1b[1A up");
    assert_eq!(strip_ansi("\x1b]0;title\x07"), "\x1b]0;title\x07");
    assert_eq!(strip_ansi("\x1b[?25m"), "\x1b[?25m");
}

#[test]
fn unfinished_sequences_stay() {
    assert_eq!(strip_ansi("\x1b"), "\x1b");
    assert_eq!(strip_ansi("\x1b["), "\x1b[");
    assert_eq!(strip_ansi("\x1b[31"), "\x1b[31");
    assert_eq!(strip_ansi("\x1b[31;"), "\x1b[31;");
    assert_eq!(strip_ansi("x\x1b[3 m"), "x\x1b[3 m");
}

#[test]
fn what_surrounds_a_sequence_is_kept_in_order() {
    assert_eq!(strip_ansi("ä\x1b[0mö\x1b[Kü"), "äöü");
    assert_eq!(strip_ansi("\x1b[0m\x1b[1m\x1b[K"), "");
    assert_eq!(strip_ansi("mK\x1b[0mmK"), "mKmK");
}

#[test]
fn a_sequence_can_arise_where_one_was_taken_out() {
    // the escape in front opens no sequence, so it stays; what is left
    // reads as a sequence of its own
    assert_eq!(strip_ansi("\x1b[\x1b[mm"), "\x1b[m");
    assert_eq!(strip_ansi("\x1b[1\x1b[0mm"), "\x1b[1m");
}

#[test]
fn cleaning_agrees_with_the_pattern() {
    let lines = [
        "",
        "plain",
        "\x1b[31mred\x1b[0m",
        "\x1b[1;32mINFO\x1b[0m started",
        "\x1b",
        "\x1b[",
        "\x1b[31",
        "\x1b[\x1b[mm",
        "\x1b[1\x1b[0mm",
        "\x1b\x1b[m",
        "\x1b[[m",
        "\x1b[2J\x1b[K",
        "a\x1b[0;0;0;0Kb\x1b[",
        "\x1b[0m\x1b[0m\x1b[0m",
        "日本\x1b[38;5;196m語\x1b[0m",
        "\x1b[٣m",
        "\x1b[1m\x1b",
        "m\x1b[mK\x1b[K[",
    ];
    for line in lines {
        assert_eq!(strip_ansi(line), by_regex(line), "line {:?}", line);
    }
}

#[test]
fn cleaning_agrees_with_the_pattern_on_all_short_lines() {
    let alphabet = ['\x1b', '[', '1', ';', 'm', 'K', 'x'];
    let mut lines: Vec<String> = vec![String::new()];
    for _ in 0..5 {
        let mut longer = Vec::new();
        for line in &lines {
            for c in alphabet {
                let mut next = line.clone();
                next.push(c);
                longer.push(next);
            }
        }
        for line in &longer {
            assert_eq!(strip_ansi(line), by_regex(line), "line {:?}", line);
        }
        lines = longer;
    }
}

#[test]
fn chars_of_gives_every_character() {
    assert_eq!(chars_of("aß\u{2009}z"), vec!['a', 'ß', '\u{2009}', 'z']);
    assert_eq!(chars_of(""), Vec::<char>::new());
}

#[test]
fn log_history_is_five_thousand_lines() {
    assert_eq!(LOG_HISTORY, 5000);
}
