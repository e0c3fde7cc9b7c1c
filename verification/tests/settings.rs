use pms::settings::{line_entry, settings_entries};

fn entries(text: &str) -> Vec<(String, String)> {
    settings_entries(text.as_bytes())
        .into_iter()
        .map(|(k, v)| (String::from_utf8(k).unwrap(), String::from_utf8(v).unwrap()))
        .collect()
}

fn pair(k: &str, v: &str) -> (String, String) {
    (k.to_string(), v.to_string())
}

#[test]
fn settings_lines_give_names_and_values() {
    assert_eq!(
        entries("DATABASE_URI=mongodb://localhost:27017\nCLIENT_URL=http://localhost:3000\n"),
        vec![pair("DATABASE_URI", "mongodb://localhost:27017"), pair("CLIENT_URL", "http://localhost:3000")]
    );
}

#[test]
fn settings_lines_may_end_with_carriage_returns() {
    assert_eq!(entries("A=1\r\nB=2"), vec![pair("A", "1"), pair("B", "2")]);
    assert_eq!(entries("A=1\r"), vec![pair("A", "1\r")]);
}

#[test]
fn settings_empty_text_and_empty_lines() {
    assert_eq!(entries(""), Vec::<(String, String)>::new());
    assert_eq!(entries("\n\nA=1"), vec![pair("", ""), pair("", ""), pair("A", "1")]);
}

#[test]
fn settings_value_follows_the_last_equals_sign() {
    assert_eq!(entries("KEY=a=b=c"), vec![pair("KEY", "c")]);
    assert_eq!(entries("NOEQUALS"), vec![pair("NOEQUALS", "NOEQUALS")]);
    assert_eq!(line_entry(b"X="), (b"X".to_vec(), Vec::new()));
}
