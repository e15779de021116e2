use mcu_os::ascii::{
    is_ascii_alphabetic, is_ascii_alphanumeric, is_ascii_digit, is_ascii_graphic,
    is_ascii_punctuation, is_ascii_whitespace,
};
use mcu_os::edit_line::{is_printable, process_character, Echo, EditLine, EditLineEvent};

/// Types `text` and hands out the echo of each character and, for the
/// characters that finished something, what they finished.
fn type_all(edit_line: &mut EditLine, text: &[u8]) -> (Vec<Echo>, Vec<String>) {
    let mut echoes = Vec::new();
    let mut events = Vec::new();
    for &c in text {
        let (event, echo) = edit_line.input_character(c);
        echoes.push(echo);
        match event {
            Some(EditLineEvent::Command(command)) => {
                events.push(format!("command {:?}", String::from_utf8_lossy(command)))
            }
            Some(EditLineEvent::EscapeCode(code)) => {
                events.push(format!("escape {:?}", String::from_utf8_lossy(code)))
            }
            Some(EditLineEvent::UnrecognizedCode(c)) => events.push(format!("unrecognized {}", c)),
            None => {}
        }
    }
    (echoes, events)
}

#[test]
fn byte_classes_agree_with_the_standard_library() {
    for byte in 0..=255u8 {
        assert_eq!(is_ascii_digit(byte), byte.is_ascii_digit());
        assert_eq!(is_ascii_alphabetic(byte), byte.is_ascii_alphabetic());
        assert_eq!(is_ascii_alphanumeric(byte), byte.is_ascii_alphanumeric());
        assert_eq!(is_ascii_punctuation(byte), byte.is_ascii_punctuation());
        assert_eq!(is_ascii_graphic(byte), byte.is_ascii_graphic());
        assert_eq!(is_ascii_whitespace(byte), byte.is_ascii_whitespace());
    }
}

#[test]
fn printable_is_space_to_tilde() {
    for byte in 0..=255u8 {
        assert_eq!(is_printable(byte), (0x20..=0x7e).contains(&byte));
    }
}

#[test]
fn typed_line_comes_out_at_the_carriage_return() {
    let mut edit_line = EditLine::new();
    let (echoes, events) = type_all(&mut edit_line, b"ls -l\r");
    assert_eq!(
        echoes,
        vec![
            Echo::Character(b'l'),
            Echo::Character(b's'),
            Echo::Character(b' '),
            Echo::Character(b'-'),
            Echo::Character(b'l'),
            Echo::NewLine
        ]
    );
    assert_eq!(events, vec!["command \"ls -l\""]);
    let (_, events) = type_all(&mut edit_line, b"\r");
    assert_eq!(events, vec!["command \"\""]);
}

#[test]
fn backspace_and_delete_take_the_last_character() {
    let mut edit_line = EditLine::new();
    let (echoes, events) = type_all(&mut edit_line, b"\x08ab\x08c\x7f\x7f\x7fd\r");
    assert_eq!(events, vec!["command \"d\""]);
    assert_eq!(echoes[0], Echo::Nothing);
    assert_eq!(echoes[3], Echo::Erase);
    assert_eq!(echoes[5], Echo::Erase);
    assert_eq!(echoes[6], Echo::Erase);
    assert_eq!(echoes[7], Echo::Nothing);
}

#[test]
fn echo_bytes_are_what_the_terminal_gets() {
    assert_eq!(Echo::Nothing.to_bytes(), Vec::<u8>::new());
    assert_eq!(Echo::Character(b'q').to_bytes(), vec![b'q']);
    assert_eq!(Echo::NewLine.to_bytes(), vec![b'\r', b'\n']);
    assert_eq!(Echo::Erase.to_bytes(), vec![8, b' ', 8]);
}

#[test]
fn escape_code_ends_with_a_letter() {
    let mut edit_line = EditLine::new();
    let (echoes, events) = type_all(&mut edit_line, b"ab\x1b[1;5Dc\r");
    assert_eq!(events, vec!["escape \"[1;5D\"", "command \"abc\""]);
    assert_eq!(&echoes[2..8], &[Echo::Nothing; 6]);
}

#[test]
fn escape_code_ends_when_it_is_full() {
    let mut edit_line = EditLine::new();
    let (_, events) = type_all(&mut edit_line, b"\x1b0123456789012345678A");
    assert_eq!(events, vec!["escape \"0123456789012345\""]);
    let (_, events) = type_all(&mut edit_line, b"\r");
    assert_eq!(events, vec!["command \"678A\""]);
}

#[test]
fn carriage_return_inside_an_escape_code_belongs_to_it() {
    let mut edit_line = EditLine::new();
    let (echoes, events) = type_all(&mut edit_line, b"x\x1b\r\x08A\r");
    assert_eq!(events, vec!["escape \"\\r\\u{8}A\"", "command \"x\""]);
    assert_eq!(echoes[2], Echo::Nothing);
}

#[test]
fn character_without_meaning_empties_the_line() {
    let mut edit_line = EditLine::new();
    let (echoes, events) = type_all(&mut edit_line, b"abc\x03de\r");
    assert_eq!(events, vec!["unrecognized 3", "command \"de\""]);
    assert_eq!(echoes[3], Echo::Nothing);
    let (_, events) = type_all(&mut edit_line, &[200, b'\n', 0]);
    assert_eq!(events, vec!["unrecognized 200", "unrecognized 10", "unrecognized 0"]);
}

#[test]
fn full_line_takes_no_more_characters() {
    let mut edit_line = EditLine::new();
    let (echoes, _) = type_all(&mut edit_line, &[b'a'; 256]);
    assert_eq!(echoes[255], Echo::Character(b'a'));
    let (echoes, events) = type_all(&mut edit_line, b"bc\x08d\r");
    assert_eq!(
        echoes,
        vec![Echo::Nothing, Echo::Nothing, Echo::Erase, Echo::Character(b'd'), Echo::NewLine]
    );
    let mut expected = vec![b'a'; 255];
    expected.push(b'd');
    assert_eq!(events, vec![format!("command {:?}", String::from_utf8(expected).unwrap())]);
}

#[test]
fn free_function_does_what_the_method_does() {
    let mut edit_line = EditLine::new();
    assert!(matches!(process_character(&mut edit_line, b'h'), (None, Echo::Character(b'h'))));
    assert!(matches!(process_character(&mut edit_line, b'i'), (None, Echo::Character(b'i'))));
    match process_character(&mut edit_line, b'\r') {
        (Some(EditLineEvent::Command(command)), Echo::NewLine) => assert_eq!(command, b"hi"),
        _ => panic!("no command"),
    }
}
