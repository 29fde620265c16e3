use whatsnew::output::{message_layout, message_lines};

fn std_lines(text: &str) -> Vec<String> {
    text.lines().map(|line| line.to_string()).collect()
}

fn std_layout(text: &str) -> (String, String) {
    let mut lines = text.lines();
    let summary = lines.next().unwrap_or_default().to_string();
    let details = lines.fold(String::new(), |output, line| output + "  " + line + "\n");
    (summary, details)
}

#[test]
fn message_without_lines() {
    assert_eq!(message_lines(""), Vec::<String>::new());
    assert_eq!(message_layout(""), (String::new(), String::new()));
}

#[test]
fn message_of_one_line() {
    assert_eq!(message_lines("Fix the build"), vec!["Fix the build"]);
    assert_eq!(message_layout("Fix the build"), ("Fix the build".to_string(), String::new()));
    assert_eq!(message_lines("Fix the build\n"), vec!["Fix the build"]);
    assert_eq!(message_layout("Fix the build\n"), ("Fix the build".to_string(), String::new()));
}

#[test]
fn message_with_a_body() {
    let message = "Fix the build\n\nThe flag was misspelt.\nNow it is not.";
    assert_eq!(
        message_lines(message),
        vec!["Fix the build", "", "The flag was misspelt.", "Now it is not."]
    );
    assert_eq!(
        message_layout(message),
        (
            "Fix the build".to_string(),
            "  \n  The flag was misspelt.\n  Now it is not.\n".to_string()
        )
    );
}

#[test]
fn carriage_return_before_newline_belongs_to_the_ending() {
    assert_eq!(message_lines("one\r\ntwo\r\n"), vec!["one", "two"]);
    assert_eq!(message_lines("one\r\r\ntwo"), vec!["one\r", "two"]);
    assert_eq!(message_lines("\r\n"), vec![""]);
}

#[test]
fn carriage_return_alone_ends_no_line() {
    assert_eq!(message_lines("one\rtwo"), vec!["one\rtwo"]);
    assert_eq!(message_lines("one\ntwo\r"), vec!["one", "two\r"]);
    assert_eq!(message_lines("\r"), vec!["\r"]);
}

#[test]
fn empty_lines_are_lines() {
    assert_eq!(message_lines("\n"), vec![""]);
    assert_eq!(message_lines("\n\n"), vec!["", ""]);
    assert_eq!(message_lines("\nx"), vec!["", "x"]);
    assert_eq!(message_layout("\n\n"), (String::new(), "  \n".to_string()));
}

#[test]
fn lines_are_split_by_characters_not_bytes() {
    assert_eq!(message_lines("größer\nüber\r\n日本語"), vec!["größer", "über", "日本語"]);
    assert_eq!(
        message_layout("größer\nüber\r\n日本語"),
        ("größer".to_string(), "  über\n  日本語\n".to_string())
    );
}

#[test]
fn lines_and_layout_agree_with_the_standard_library() {
    let pieces = ["", "a", "\n", "\r", "\r\n", "b c", "\n\n", "\r\r", "é"];
    for first in pieces {
        for second in pieces {
            for third in pieces {
                for fourth in pieces {
                    let text = format!("{first}{second}{third}{fourth}");
                    assert_eq!(message_lines(&text), std_lines(&text));
                    assert_eq!(message_layout(&text), std_layout(&text));
                }
            }
        }
    }
}
