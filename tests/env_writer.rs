use ironmonger::env_writer::{
    find_entry, render_lines, EnvFileWriter, ENV_FILE_PATH, SECRET_KEY_NAME,
};
use ironmonger::secret::AppSecret;

fn create_test_secret() -> AppSecret {
    AppSecret::new("a".repeat(192)).unwrap()
}

fn lines(texts: &[&str]) -> Vec<String> {
    texts.iter().map(|t| t.to_string()).collect()
}

#[test]
fn test_new_env_writer() {
    let writer = EnvFileWriter::new(".env", "TEST_SECRET");
    assert_eq!(writer.env_path(), ".env");
    assert_eq!(writer.key_name(), "TEST_SECRET");
}

#[test]
fn test_default_env_writer() {
    let writer = EnvFileWriter::default();
    assert_eq!(writer.env_path(), ENV_FILE_PATH);
}

#[test]
fn default_path_writer_uses_default_key() {
    let writer = EnvFileWriter::with_default_path();
    assert_eq!(writer.env_path(), ".env");
    assert_eq!(writer.key_name(), SECRET_KEY_NAME);
    assert_eq!(writer.key_name(), "APP_SECRET");
}

#[test]
fn writing_into_no_lines_gives_one_entry() {
    let writer = EnvFileWriter::new(".env", "APP_SECRET");
    let out = writer.update_secret_in_lines(Vec::new(), &create_test_secret());
    assert_eq!(out, vec![format!("APP_SECRET={}", "a".repeat(192))]);
}

#[test]
fn new_key_is_appended_after_a_separator() {
    let writer = EnvFileWriter::new(".env", "APP_SECRET");
    let out = writer.update_secret_in_lines(lines(&["FOO=bar"]), &create_test_secret());
    assert_eq!(
        out,
        vec![
            "FOO=bar".to_string(),
            String::new(),
            format!("APP_SECRET={}", "a".repeat(192)),
        ]
    );
}

#[test]
fn existing_entry_is_replaced_in_place() {
    let writer = EnvFileWriter::new(".env", "APP_SECRET");
    let secret = AppSecret::new("b".repeat(192)).unwrap();
    let out = writer.update_secret_in_lines(lines(&["APP_SECRET=old", "FOO=bar"]), &secret);
    assert_eq!(
        out,
        vec![format!("APP_SECRET={}", "b".repeat(192)), "FOO=bar".to_string()]
    );
}

#[test]
fn old_value_is_gone_after_update() {
    let writer = EnvFileWriter::new(".env", "APP_SECRET");
    let out = writer.update_secret_in_lines(lines(&["APP_SECRET=old_value"]), &create_test_secret());
    assert_eq!(out.len(), 1);
    assert!(out.iter().all(|l| !l.contains("old_value")));
    assert_eq!(out.iter().filter(|l| l.starts_with("APP_SECRET=")).count(), 1);
}

#[test]
fn no_separator_after_a_blank_last_line() {
    let writer = EnvFileWriter::new(".env", "JWT_SECRET");
    let out = writer.update_secret_in_lines(lines(&["FOO=bar", ""]), &create_test_secret());
    assert_eq!(
        out,
        vec![
            "FOO=bar".to_string(),
            String::new(),
            format!("JWT_SECRET={}", "a".repeat(192)),
        ]
    );
}

#[test]
fn only_first_duplicate_is_replaced() {
    let writer = EnvFileWriter::new(".env", "K");
    let out = writer.update_secret_in_lines(lines(&["# c", "K=1", "K=2"]), &create_test_secret());
    assert_eq!(
        out,
        vec!["# c".to_string(), format!("K={}", "a".repeat(192)), "K=2".to_string()]
    );
}

#[test]
fn key_with_longer_name_is_not_an_entry() {
    let writer = EnvFileWriter::new(".env", "APP_SECRET");
    let out = writer.update_secret_in_lines(
        lines(&["APP_SECRET_OLD=1", "XAPP_SECRET=2", "APP_SECRET"]),
        &create_test_secret(),
    );
    assert_eq!(out.len(), 5);
    assert_eq!(&out[..3], &lines(&["APP_SECRET_OLD=1", "XAPP_SECRET=2", "APP_SECRET"])[..]);
    assert_eq!(out[3], "");
    assert_eq!(out[4], format!("APP_SECRET={}", "a".repeat(192)));
}

#[test]
fn custom_key_does_not_touch_other_keys() {
    let writer = EnvFileWriter::new(".env", "JWT_SECRET");
    let out = writer.update_secret_in_lines(lines(&["APP_SECRET=x"]), &create_test_secret());
    assert_eq!(out[0], "APP_SECRET=x");
    assert!(out[2].starts_with("JWT_SECRET="));
}

#[test]
fn find_entry_returns_first_match() {
    let ls = lines(&["A=1", "B=2", "B=3"]);
    assert_eq!(find_entry(&ls, "B"), Some(1));
    assert_eq!(find_entry(&ls, "C"), None);
    assert_eq!(find_entry(&ls, ""), None);
    assert_eq!(find_entry(&lines(&["=x"]), ""), Some(0));
}

#[test]
fn rendered_text_ends_each_line() {
    assert_eq!(render_lines(&lines(&["FOO=bar", "", "K=v"])), "FOO=bar\n\nK=v\n");
    assert_eq!(render_lines(&Vec::new()), "");
}

#[test]
fn secret_line_joins_key_and_value() {
    let writer = EnvFileWriter::new(".env", "K");
    assert_eq!(writer.secret_line(&create_test_secret()), format!("K={}", "a".repeat(192)));
}
