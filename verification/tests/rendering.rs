use passgen::error::Error;
use passgen::manager::{PasswordManager, PasswordResult};

fn result_of(passwords: &[&str]) -> PasswordResult {
    PasswordResult::new(passwords.iter().map(|password| password.to_string()).collect())
}

#[test]
fn new_keeps_the_passwords_in_order() {
    let result = PasswordResult::new(vec!["b".to_string(), "a".to_string(), "b".to_string()]);
    assert_eq!(result.passwords, vec!["b", "a", "b"]);
}

#[test]
fn no_password_renders_as_no_text() {
    assert_eq!(result_of(&[]).to_string(), "");
}

#[test]
fn one_password_renders_as_one_numbered_line() {
    assert_eq!(result_of(&["s3cr3t!"]).to_string(), "1) s3cr3t!\r\n");
}

#[test]
fn lines_are_numbered_from_one_in_order() {
    assert_eq!(result_of(&["abc", "", "x y"]).to_string(), "1) abc\r\n2) \r\n3) x y\r\n");
}

#[test]
fn line_numbers_are_written_in_decimal() {
    let passwords: Vec<String> = (0..1001).map(|i| format!("word{}", i)).collect();
    let text = PasswordResult::new(passwords).to_string();
    let lines: Vec<&str> = text.split("\r\n").collect();
    assert_eq!(lines.len(), 1002);
    assert_eq!(lines[1001], "");
    assert_eq!(lines[0], "1) word0");
    assert_eq!(lines[8], "9) word8");
    assert_eq!(lines[9], "10) word9");
    assert_eq!(lines[10], "11) word10");
    assert_eq!(lines[99], "100) word99");
    assert_eq!(lines[108], "109) word108");
    assert_eq!(lines[999], "1000) word999");
    assert_eq!(lines[1000], "1001) word1000");
    for (index, line) in lines[..1001].iter().enumerate() {
        assert_eq!(*line, format!("{}) word{}", index + 1, index));
    }
}

#[test]
fn generated_passwords_render_as_one_line_each() {
    let pm = PasswordManager {
        upper_case: true,
        lower_case: true,
        digits: true,
        special: true,
        min_len: 8,
        max_len: 10,
        count: 12,
    };
    let result = pm.generate().unwrap();
    let text = result.to_string();
    let mut expected = String::new();
    for (index, password) in result.passwords.iter().enumerate() {
        expected.push_str(&format!("{}) {}\r\n", index + 1, password));
    }
    assert_eq!(text, expected);
    assert_eq!(text.matches("\r\n").count(), 12);
}

#[test]
fn errors_render_as_their_messages() {
    assert_eq!(
        Error::SelectCharsError.to_string(),
        "select data chars, use --help for more information."
    );
    assert_eq!(
        Error::LengthRangeError.to_string(),
        "select a minimum length below the maximum length, use --help for more information."
    );
}
