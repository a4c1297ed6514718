use cisak::text::{chars_of, format_command, is_affirmative, is_whitespace_char, join_dir, trim_str};

#[test]
fn trims_unicode_white_space_like_str_trim() {
    let samples = [
        "  1\n",
        "\t v1.36.1 \r\n",
        "",
        "   ",
        "\u{3000}x\u{85}",
        "a b",
        "\u{200B}x",
    ];
    for s in samples {
        assert_eq!(trim_str(s), s.trim());
    }
}

#[test]
fn whitespace_matches_char_is_whitespace() {
    for u in 0u32..0x3100 {
        if let Some(c) = char::from_u32(u) {
            assert_eq!(is_whitespace_char(c), c.is_whitespace(), "U+{u:04X}");
        }
    }
}

#[test]
fn chars_of_keeps_every_char() {
    assert_eq!(chars_of("héllo"), vec!['h', 'é', 'l', 'l', 'o']);
}

#[test]
fn affirmative_answers() {
    assert!(is_affirmative("y\n"));
    assert!(is_affirmative("  YES "));
    assert!(is_affirmative("Yes"));
    assert!(is_affirmative("yEs\r\n"));
}

#[test]
fn other_answers_decline() {
    assert!(!is_affirmative(""));
    assert!(!is_affirmative("\n"));
    assert!(!is_affirmative("n"));
    assert!(!is_affirmative("no"));
    assert!(!is_affirmative("ye"));
    assert!(!is_affirmative("yess"));
    assert!(!is_affirmative("y e s"));
}

#[test]
fn command_without_args_is_just_the_program() {
    assert_eq!(format_command("ls", &vec![]), "ls");
}

#[test]
fn command_args_with_spaces_are_quoted() {
    let args = vec![
        "--header".to_string(),
        "Accept: application/vnd.github.v3+json".to_string(),
        "https://x".to_string(),
    ];
    assert_eq!(
        format_command("curl", &args),
        "curl --header \"Accept: application/vnd.github.v3+json\" https://x"
    );
    assert_eq!(format_command("echo", &vec!["a\tb".to_string()]), "echo \"a\tb\"");
    assert_eq!(format_command("echo", &vec!["".to_string(), "x".to_string()]), "echo  x");
}

#[test]
fn join_dir_puts_one_separator() {
    assert_eq!(join_dir("/usr/local/bin", "cilium"), "/usr/local/bin/cilium");
    assert_eq!(join_dir("/usr/local/bin/", "cilium"), "/usr/local/bin/cilium");
    assert_eq!(join_dir("", "cilium"), "cilium");
    assert_eq!(join_dir("bin", "kubectl"), "bin/kubectl");
}

#[test]
fn join_dir_agrees_with_path_join() {
    for dir in ["/usr/bin", "/usr/bin/", "", "rel", "/"] {
        let expected = std::path::Path::new(dir).join("kubelet");
        assert_eq!(join_dir(dir, "kubelet"), expected.to_str().unwrap());
    }
}
