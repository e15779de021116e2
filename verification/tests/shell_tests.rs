use mcu_os::edit_line::EditLine;
use mcu_os::file_system::{FileSystem, PasteOutcome};
use mcu_os::flash::Flash;
use mcu_os::shell::{
    complete_paste, execute, get_word, greet, handle_character, parse_command, process_command,
    process_escape_code, put_prompt, run_program, string_to_number, Action, Command,
};
use mcu_os::syscall::SystemCall;

fn fresh() -> FileSystem {
    FileSystem::new_from_scratch(Flash::new())
}

/// Carries out a command line and hands out what was printed.
fn run(store: &mut FileSystem, line: &[u8]) -> String {
    let mut out = Vec::new();
    process_command(line, store, &mut out);
    String::from_utf8(out).unwrap()
}

/// The system call that a command line leaves to be made.
fn call_of(line: &[u8]) -> Option<SystemCall> {
    let mut store = fresh();
    let mut out = Vec::new();
    match process_command(line, &mut store, &mut out) {
        Action::Call(call) => Some(call),
        _ => None,
    }
}

/// A program whose entry point lies `offset` bytes into the file.
fn program(offset: u32) -> Vec<u8> {
    let mut bytes = vec![0u8; 0x54];
    bytes[..5].copy_from_slice(&[0x7f, 0x45, 0x4c, 0x46, 1]);
    bytes[0x18..0x1c].copy_from_slice(&(0x1000 + offset).to_le_bytes());
    bytes[0x1c..0x20].copy_from_slice(&0x34u32.to_le_bytes());
    bytes[0x2a..0x2c].copy_from_slice(&0x20u16.to_le_bytes());
    bytes[0x2c..0x2e].copy_from_slice(&1u16.to_le_bytes());
    bytes[0x3c..0x40].copy_from_slice(&0x1000u32.to_le_bytes());
    bytes[0x44..0x48].copy_from_slice(&0x1000u32.to_le_bytes());
    bytes
}

#[test]
fn word_ends_at_the_first_whitespace() {
    assert_eq!(get_word(b"create name some text"), (&b"create"[..], &b"name some text"[..]));
    assert_eq!(get_word(b"word"), (&b"word"[..], &b""[..]));
    assert_eq!(get_word(b"word "), (&b"word"[..], &b""[..]));
    assert_eq!(get_word(b" word"), (&b""[..], &b"word"[..]));
    assert_eq!(get_word(b"a\tb"), (&b"a"[..], &b"b"[..]));
    assert_eq!(get_word(b"a  b"), (&b"a"[..], &b" b"[..]));
    assert_eq!(get_word(b""), (&b""[..], &b""[..]));
}

#[test]
fn number_is_read_from_the_digits() {
    assert_eq!(string_to_number(b"0"), 0);
    assert_eq!(string_to_number(b"1234"), 1234);
    assert_eq!(string_to_number(b"007"), 7);
    assert_eq!(string_to_number(b""), 0);
    assert_eq!(string_to_number(b"4294967295"), u32::MAX);
}

#[test]
fn number_passes_over_what_is_no_digit() {
    assert_eq!(string_to_number(b"1,024"), 1024);
    assert_eq!(string_to_number(b"-5"), 5);
    assert_eq!(string_to_number(b"0x10"), 10);
    assert_eq!(string_to_number(b"abc"), 0);
}

#[test]
fn number_wraps_at_thirty_two_bits() {
    assert_eq!(string_to_number(b"4294967296"), 0);
    assert_eq!(string_to_number(b"4294967301"), 5);
    assert_eq!(string_to_number(b"99999999999"), (99999999999u64 % (1 << 32)) as u32);
}

#[test]
fn commands_are_told_apart_by_their_first_word() {
    assert!(matches!(parse_command(b""), Command::Empty));
    assert!(matches!(parse_command(b"help"), Command::Help));
    assert!(matches!(parse_command(b"help me"), Command::Help));
    assert!(matches!(parse_command(b"ecall 77"), Command::Ecall(77)));
    assert!(matches!(parse_command(b"leds rgb x"), Command::Leds(b"rgb")));
    assert!(matches!(parse_command(b"delay 500"), Command::Delay(500)));
    assert!(matches!(parse_command(b"delay"), Command::Delay(0)));
    assert!(matches!(parse_command(b"run prog arg"), Command::Run(b"prog")));
    assert!(matches!(parse_command(b"exec 134283264"), Command::Exec(0x0801_0000)));
    assert!(matches!(parse_command(b"exit 3"), Command::Exit(3)));
    assert!(matches!(parse_command(b"ls"), Command::List(b"")));
    assert!(matches!(parse_command(b"ls name"), Command::List(b"name")));
    assert!(matches!(parse_command(b"cat f"), Command::Read(b"f")));
    assert!(matches!(parse_command(b"read f"), Command::Read(b"f")));
    assert!(matches!(parse_command(b"rm f"), Command::Remove(b"f")));
    assert!(matches!(parse_command(b"rx"), Command::Receive));
    assert!(matches!(parse_command(b"paste f 12 x"), Command::Paste(b"f", 12)));
    assert!(matches!(parse_command(b"paste f"), Command::Paste(b"f", 0)));
    assert!(matches!(parse_command(b"Help"), Command::Unknown(b"Help")));
    assert!(matches!(parse_command(b" ls"), Command::Unknown(b"")));
    assert!(matches!(parse_command(b"lsx y"), Command::Unknown(b"lsx")));
}

#[test]
fn create_takes_the_rest_of_the_line_as_content() {
    assert!(matches!(
        parse_command(b"create note to  self "),
        Command::Create(b"note", b"to  self ")
    ));
    assert!(matches!(parse_command(b"write note"), Command::Create(b"note", b"")));
    assert!(matches!(parse_command(b"write"), Command::Create(b"", b"")));
}

#[test]
fn fs_takes_all_that_follows_as_its_subcommand() {
    assert!(matches!(parse_command(b"fs stats"), Command::FsStats));
    assert!(matches!(parse_command(b"fs save"), Command::FsSave));
    assert!(matches!(parse_command(b"fs load"), Command::FsLoad));
    assert!(matches!(parse_command(b"fs reset"), Command::FsReset));
    assert!(matches!(parse_command(b"fs"), Command::FsUnknown(b"")));
    assert!(matches!(parse_command(b"fs stats now"), Command::FsUnknown(b"stats now")));
    assert!(matches!(parse_command(b"fs  save"), Command::FsUnknown(b" save")));
}

#[test]
fn help_and_unknown_commands_print_a_line() {
    let mut store = fresh();
    assert_eq!(run(&mut store, b"help"), "No help available at this time.\r\n");
    assert_eq!(run(&mut store, b"frobnicate now"), "Unknown command: frobnicate\r\n");
    assert_eq!(run(&mut store, b""), "");
    assert_eq!(
        run(&mut store, b"fs check"),
        "Unknown argument: check\r\nSubcommands: stats, save, load, reset\r\n"
    );
}

#[test]
fn system_calls_are_left_to_the_caller() {
    assert_eq!(call_of(b"delay 250"), Some(SystemCall { number: 1, argument: 250 }));
    assert_eq!(call_of(b"leds rb"), Some(SystemCall { number: 2, argument: 0b010101 }));
    assert_eq!(call_of(b"exec 4096"), Some(SystemCall { number: 3, argument: 4096 }));
    assert_eq!(call_of(b"exit 2"), Some(SystemCall { number: 4, argument: 2 }));
    assert_eq!(call_of(b"help"), None);
}

#[test]
fn ecall_prints_before_and_after_the_call() {
    let mut store = fresh();
    let mut out = Vec::new();
    let action = process_command(b"ecall 9", &mut store, &mut out);
    assert_eq!(out, b"Calling system interrupt...\r\n".to_vec());
    assert!(matches!(action, Action::Interrupt(SystemCall { number: 1, argument: 9 })));
    assert_eq!(action.epilogue(), "Back to Rust now.\r\n");
    assert_eq!(Action::Nothing.epilogue(), "");
    assert_eq!(Action::Receive.epilogue(), "");
}

#[test]
fn files_are_created_listed_read_and_removed() {
    let mut store = fresh();
    assert_eq!(run(&mut store, b"create one first file"), "");
    assert_eq!(run(&mut store, b"write two second"), "");
    assert_eq!(run(&mut store, b"ls"), "one\r\ntwo\r\n");
    assert_eq!(run(&mut store, b"ls two"), "two\r\n");
    assert_eq!(run(&mut store, b"ls three"), "");
    assert_eq!(run(&mut store, b"cat one"), "first file\r\n");
    assert_eq!(run(&mut store, b"read two"), "second\r\n");
    assert_eq!(run(&mut store, b"cat three"), "File not found: three\r\n");
    assert_eq!(run(&mut store, b"rm one"), "");
    assert_eq!(run(&mut store, b"rm one"), "File not found: one\r\n");
    assert_eq!(run(&mut store, b"ls"), "two\r\n");
    assert!(store.is_consistent());
}

#[test]
fn file_that_does_not_fit_is_reported() {
    let mut store = fresh();
    let mut line = b"create big ".to_vec();
    line.extend_from_slice(&[b'x'; 1021]);
    assert_eq!(run(&mut store, &line), "No file created.\r\n");
    assert_eq!(run(&mut store, b"ls"), "");
    line.pop();
    assert_eq!(run(&mut store, &line), "");
    assert_eq!(run(&mut store, b"ls"), "big\r\n");
}

#[test]
fn fs_commands_save_load_and_reset() {
    let mut store = fresh();
    assert_eq!(run(&mut store, b"fs load"), "No file system found.\r\n");
    run(&mut store, b"create a 1");
    run(&mut store, b"rm a");
    assert_eq!(
        run(&mut store, b"fs stats"),
        "Initialized: yes\r\nFile blocks:  0\r\nFree blocks:  64\r\n"
    );
    assert_eq!(run(&mut store, b"fs load"), "");
    assert_eq!(run(&mut store, b"ls"), "a\r\n");
    assert_eq!(run(&mut store, b"fs reset"), "");
    assert_eq!(run(&mut store, b"ls"), "");
    assert_eq!(run(&mut store, b"fs save"), "");
    assert_eq!(run(&mut store, b"create b 2"), "");
    assert_eq!(run(&mut store, b"rm b"), "");
    assert_eq!(run(&mut store, b"fs save"), "");
    assert_eq!(run(&mut store, b"create c 3"), "");
    assert_eq!(run(&mut store, b"fs reset"), "");
    assert_eq!(run(&mut store, b"fs load"), "");
    assert_eq!(run(&mut store, b"ls"), "c\r\n");
}

#[test]
fn receive_is_left_to_the_caller() {
    let mut store = fresh();
    let mut out = Vec::new();
    let action = process_command(b"rx", &mut store, &mut out);
    assert!(matches!(action, Action::Receive));
    assert_eq!(out, b"Preparing to receive...\r\n".to_vec());
}

#[test]
fn paste_announces_and_leaves_the_reading_to_the_caller() {
    let mut store = fresh();
    let mut out = Vec::new();
    let action = process_command(b"paste note 5", &mut store, &mut out);
    assert!(matches!(action, Action::Paste(b"note", 5)));
    assert_eq!(out, b"Pasting 5 bytes into: note\r\n".to_vec());
    let mut out = Vec::new();
    let outcome = complete_paste(b"note", 5, b"hello", &mut store, &mut out);
    assert!(matches!(outcome, PasteOutcome::Created(_)));
    assert_eq!(out, b"Done.\r\n".to_vec());
    assert_eq!(run(&mut store, b"cat note"), "hello\r\n");
    let mut out = Vec::new();
    complete_paste(b"note", 0, b"", &mut store, &mut out);
    assert_eq!(out, b"Done.\r\nRemoving existing file\r\n".to_vec());
    assert_eq!(run(&mut store, b"cat note"), "\r\n");
    assert_eq!(run(&mut store, b"ls"), "note\r\n");
}

#[test]
fn paste_of_a_block_or_more_is_refused_before_reading() {
    let mut store = fresh();
    let mut out = Vec::new();
    let action = process_command(b"paste big 1024", &mut store, &mut out);
    assert!(matches!(action, Action::Nothing));
    assert_eq!(
        out,
        b"Pasting 1024 bytes into: big\r\nFile size too large, multiple blocks not yet supported.\r\n"
            .to_vec()
    );
    let mut out = Vec::new();
    assert!(matches!(process_command(b"paste ok 1023", &mut store, &mut out), Action::Paste(_, 1023)));
    assert_eq!(run(&mut store, b"paste neg 4294967295"), "Pasting -1 bytes into: neg\r\nFile size too large, multiple blocks not yet supported.\r\n");
    assert_eq!(run(&mut store, b"ls"), "");
}

#[test]
fn program_runs_from_its_entry_point() {
    let mut store = fresh();
    store.create_file(b"prog", &program(0x20)).unwrap();
    let mut out = Vec::new();
    let call = run_program(&store, b"prog", &mut out);
    let file_address = 0x0801_0000u32 + 63 * 1024 + 4;
    assert_eq!(call, Some(SystemCall { number: 3, argument: file_address + 0x20 }));
    assert_eq!(
        String::from_utf8(out).unwrap(),
        format!("Running program from: {} {}\r\n", file_address, file_address + 0x20)
    );
    let mut out = Vec::new();
    assert!(matches!(
        process_command(b"run prog", &mut store, &mut out),
        Action::Call(SystemCall { number: 3, .. })
    ));
}

#[test]
fn program_that_cannot_run_says_why() {
    let mut store = fresh();
    let mut out = Vec::new();
    assert_eq!(run_program(&store, b"none", &mut out), None);
    assert_eq!(out, b"File not found: none\r\n".to_vec());
    store.create_file(b"short", &program(0)[..55]).unwrap();
    assert_eq!(run(&mut store, b"run short"), "Cannot run program: Header too short.\r\n");
    let mut bad = program(0);
    bad[0] = 0;
    store.create_file(b"bad", &bad).unwrap();
    assert_eq!(
        run(&mut store, b"run bad"),
        "Cannot run program: Cannot run program: Magic ELF header not found.\r\n"
    );
    store.create_file(b"miss", &program(0x2000)).unwrap();
    assert_eq!(run(&mut store, b"run miss"), "Cannot run program: No program headers found\r\n");
}

#[test]
fn entry_address_wraps_at_thirty_two_bits() {
    let mut store = fresh();
    let mut bytes = program(0);
    bytes[0x38..0x3c].copy_from_slice(&0xffff_ffffu32.to_le_bytes());
    store.create_file(b"far", &bytes).unwrap();
    let mut out = Vec::new();
    let call = run_program(&store, b"far", &mut out);
    let file_address = 0x0801_0000u32 + 63 * 1024 + 3;
    assert_eq!(call, Some(SystemCall { number: 3, argument: file_address - 1 }));
}

#[test]
fn arrow_keys_are_named() {
    let text = |code: &[u8]| {
        let mut out = Vec::new();
        process_escape_code(code, &mut out);
        String::from_utf8(out).unwrap()
    };
    assert_eq!(text(b"[D"), "\r\nEscape code: Left key\r\n");
    assert_eq!(text(b"[C"), "\r\nEscape code: Right key\r\n");
    assert_eq!(text(b"[A"), "\r\nEscape code: Up key\r\n");
    assert_eq!(text(b"[B"), "\r\nEscape code: Down key\r\n");
    assert_eq!(text(b"[1~\x07 "), "\r\nUnrecognized escape code: Esc '[' '1' '~' 7 32\r\n");
    assert_eq!(text(b""), "\r\nUnrecognized escape code: Esc\r\n");
    assert_eq!(text(&[0xff]), "\r\nUnrecognized escape code: Esc 255\r\n");
}

#[test]
fn shell_greets_and_prompts() {
    let mut out = Vec::new();
    greet(&mut out);
    assert_eq!(
        out,
        b"Hi from Rust!\r\nNumber from Rust: 1234\r\n\x1b[1;34m>\x1b[0m ".to_vec()
    );
    let mut out = Vec::new();
    put_prompt(&mut out);
    assert_eq!(out, b"\x1b[1;34m>\x1b[0m ".to_vec());
}

#[test]
fn typed_command_is_carried_out() {
    let mut store = fresh();
    let mut edit_line = EditLine::new();
    let mut out = Vec::new();
    for &c in b"create a bc" {
        let (action, prompt) = handle_character(&mut edit_line, &mut store, c, &mut out);
        assert!(matches!(action, Action::Nothing));
        assert!(!prompt);
    }
    assert_eq!(out, b"create a bc".to_vec());
    let (action, prompt) = handle_character(&mut edit_line, &mut store, b'\r', &mut out);
    assert!(matches!(action, Action::Nothing));
    assert!(prompt);
    assert_eq!(out, b"create a bc\r\n".to_vec());
    let mut out = Vec::new();
    for &c in b"cat a\r" {
        handle_character(&mut edit_line, &mut store, c, &mut out);
    }
    assert_eq!(out, b"cat a\r\nbc\r\n".to_vec());
}

#[test]
fn typed_call_is_handed_out_with_the_prompt_due() {
    let mut store = fresh();
    let mut edit_line = EditLine::new();
    let mut out = Vec::new();
    for &c in b"leds g" {
        handle_character(&mut edit_line, &mut store, c, &mut out);
    }
    let (action, prompt) = handle_character(&mut edit_line, &mut store, b'\r', &mut out);
    assert!(matches!(action, Action::Call(SystemCall { number: 2, argument: 0b101010 })));
    assert!(prompt);
}

#[test]
fn escape_codes_and_stray_characters_are_reported() {
    let mut store = fresh();
    let mut edit_line = EditLine::new();
    let mut out = Vec::new();
    handle_character(&mut edit_line, &mut store, 27, &mut out);
    handle_character(&mut edit_line, &mut store, b'[', &mut out);
    let (_, prompt) = handle_character(&mut edit_line, &mut store, b'A', &mut out);
    assert!(prompt);
    assert_eq!(out, b"\r\nEscape code: Up key\r\n".to_vec());
    let mut out = Vec::new();
    let (_, prompt) = handle_character(&mut edit_line, &mut store, 3, &mut out);
    assert!(prompt);
    assert_eq!(out, b"\r\nUnrecognized ascii code: 3\r\n".to_vec());
}

#[test]
fn execute_takes_a_command_that_was_not_typed() {
    let mut store = fresh();
    let mut out = Vec::new();
    execute(Command::Create(b"with space", b"x"), &mut store, &mut out);
    execute(Command::List(b""), &mut store, &mut out);
    assert_eq!(out, b"with space\r\n".to_vec());
}
