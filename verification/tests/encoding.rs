use font_prompt::ansi::{encode, encode_command, encode_move, Motion};
use font_prompt::{ClearKind, Command, InputBuffer};

#[test]
fn each_motion_has_its_letter() {
    assert_eq!(encode(&vec![Command::MoveLeft(5)]), "\u{1b}[5D");
    assert_eq!(encode(&vec![Command::MoveRight(12)]), "\u{1b}[12C");
    assert_eq!(encode(&vec![Command::MoveToNextLine(1)]), "\u{1b}[1E");
    assert_eq!(encode(&vec![Command::MoveToPreviousLine(300)]), "\u{1b}[300F");
}

#[test]
fn clears_are_encoded() {
    assert_eq!(encode(&vec![Command::Clear(ClearKind::CurrentLine)]), "\u{1b}[2K");
    assert_eq!(encode(&vec![Command::Clear(ClearKind::FromCursorDown)]), "\u{1b}[J");
}

#[test]
fn print_is_the_text_itself() {
    assert_eq!(encode(&vec![Command::Print(String::from("[x]h\u{e9}llo"))]), "[x]h\u{e9}llo");
    assert_eq!(encode(&vec![Command::Print(String::new())]), "");
}

#[test]
fn empty_sequence_is_empty_text() {
    assert_eq!(encode(&Vec::new()), "");
}

#[test]
fn motion_over_nothing_is_not_written() {
    let mut out = String::from("ab");
    encode_move(Motion::Right, 0, &mut out);
    assert_eq!(out, "ab");
    assert_eq!(encode(&vec![Command::MoveLeft(0), Command::MoveToNextLine(0)]), "");
}

#[test]
fn long_motion_is_split() {
    assert_eq!(encode(&vec![Command::MoveLeft(65535)]), "\u{1b}[65535D");
    assert_eq!(encode(&vec![Command::MoveLeft(65536)]), "\u{1b}[65535D\u{1b}[1D");
    assert_eq!(encode(&vec![Command::MoveRight(70000)]), "\u{1b}[65535C\u{1b}[4465C");
    assert_eq!(
        encode(&vec![Command::MoveToPreviousLine(131071)]),
        "\u{1b}[65535F\u{1b}[65535F\u{1b}[1F"
    );
}

#[test]
fn encode_command_appends() {
    let mut out = String::from(">");
    encode_command(&Command::MoveToNextLine(2), &mut out);
    encode_command(&Command::Print(String::from("x")), &mut out);
    assert_eq!(out, ">\u{1b}[2Ex");
}

#[test]
fn commands_are_encoded_in_order() {
    let commands = vec![
        Command::Print(String::from("a")),
        Command::MoveLeft(1),
        Command::Print(String::from("b")),
    ];
    assert_eq!(encode(&commands), "a\u{1b}[1Db");
}

#[test]
fn remove_last_undoes_append() {
    let mut buffer = InputBuffer::new();
    buffer.append('a');
    buffer.append('b');
    let before = buffer.to_text();
    buffer.append('c');
    assert_eq!(buffer.to_text(), "abc");
    assert!(buffer.remove_last());
    assert_eq!(buffer.to_text(), before);
    assert_eq!(buffer.len(), 2);
}

#[test]
fn remove_last_of_empty_buffer_is_a_no_op() {
    let mut buffer = InputBuffer::new();
    assert!(!buffer.remove_last());
    assert!(!buffer.remove_last());
    assert!(buffer.is_empty());
    assert_eq!(buffer.to_text(), "");
    assert_eq!(buffer.as_text().len(), 0);
}
