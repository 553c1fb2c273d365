use netplan::winargs::command_line;

fn rendered(arguments: &[&str]) -> Result<String, String> {
    let arguments: Vec<Vec<u16>> = arguments.iter().map(|a| a.encode_utf16().collect()).collect();
    let encoded = command_line(&arguments)?;
    Ok(String::from_utf16_lossy(&encoded[..encoded.len() - 1]))
}

#[test]
fn quotes_windows_arguments_without_losing_spaces_or_quotes() -> Result<(), String> {
    assert_eq!(rendered(&["--endpoint", r"\\.\pipe\pe netplan"])?, r#"--endpoint "\\.\pipe\pe netplan""#);
    assert_eq!(rendered(&["", r#"a\"b"#])?, r#""" "a\\\"b""#);
    assert_eq!(rendered(&[r"trailing\"])?, r"trailing\");
    Ok(())
}

#[test]
fn nul_characters_are_refused() {
    assert_eq!(
        rendered(&["ok", "bad\0arg"]),
        Err("Windows paths and arguments cannot contain NUL characters".to_string())
    );
}

#[test]
fn the_command_line_ends_with_nul() {
    let encoded = command_line(&vec!["a".encode_utf16().collect()]);
    assert_eq!(encoded, Ok(vec![u16::from(b'a'), 0]));
}

#[test]
fn wide_strings_end_with_one_nul_and_refuse_inner_nuls() {
    assert_eq!(netplan::winargs::wide_null(&vec![97, 98]).ok(), Some(vec![97, 98, 0]));
    assert_eq!(
        netplan::winargs::wide_null(&vec![97, 0, 98]).err(),
        Some("Windows paths and arguments cannot contain NUL characters".to_string())
    );
}
