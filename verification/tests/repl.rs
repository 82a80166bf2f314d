use strontium::repl::{decode_hex_line, repl_command, ReplCommand};

#[test]
fn hex_line_with_spaces_decodes() {
    assert_eq!(decode_hex_line("01 0a FF"), Some(vec![1, 10, 255]));
    assert_eq!(decode_hex_line("0a"), Some(vec![10]));
    assert_eq!(decode_hex_line(""), Some(vec![]));
    assert_eq!(decode_hex_line("  "), Some(vec![]));
}

#[test]
fn hex_line_of_odd_length_is_refused() {
    assert_eq!(decode_hex_line("123"), None);
    assert_eq!(decode_hex_line("1 2 3"), None);
}

#[test]
fn hex_line_with_other_characters_is_refused() {
    assert_eq!(decode_hex_line("0g"), None);
    assert_eq!(decode_hex_line("foo!"), None);
    assert_eq!(decode_hex_line("é0"), None);
}

#[test]
fn prompt_lines_are_told_apart() {
    assert!(matches!(repl_command(":registers"), ReplCommand::ShowRegisters));
    assert!(matches!(repl_command(":registers "), ReplCommand::Ignore));
    match repl_command("00 01") {
        ReplCommand::Bytecode(b) => assert_eq!(b, vec![0, 1]),
        _ => panic!("expected bytecode"),
    }
    assert!(matches!(repl_command("hello"), ReplCommand::Ignore));
}
