//! The command shell: splits a command line into words, tells the commands
//! apart and carries them out on the store, as far as that takes no more
//! than the store and a buffer for what is printed.

use vstd::prelude::*;
use vstd::slice::slice_subrange;
use vstd::string::StringSliceAdditionalSpecFns;
use crate::ascii::{is_ascii_graphic, is_ascii_whitespace, is_digit, is_graphic, is_whitespace};
use crate::bytes::{is_text, same_bytes};
use crate::edit_line::{EditLine, EditLineEvent, EditLineView, EventView};
use crate::elf::{entry_offset, read_elf};
use crate::file_system::{FileSystem, PasteOutcome, STORE_PAGE};
use crate::flash::{METADATA_PAGE, PAGE_SIZE};
use crate::print::{decimal_text, put_decimal, put_printable, put_string};
use crate::stack::BlockId;
use crate::store::{fresh_store, loadable, loaded_store, StoreView};
use crate::sys_call::led_bits;
use crate::syscall::{SystemCall, DELAY, EXEC, EXIT, SET_LEDS};

verus! {

/// Number of leading bytes of `s` that are no whitespace.
pub open spec fn word_length(s: Seq<u8>) -> int
    decreases s.len(),
{
    if s.len() == 0 || is_whitespace(s[0]) {
        0
    } else {
        1 + word_length(s.drop_first())
    }
}

/// The first word of `s`: its bytes up to the first whitespace.
pub open spec fn first_word(s: Seq<u8>) -> Seq<u8> {
    s.take(word_length(s))
}

/// What follows the first word of `s` and the one whitespace character
/// behind it.
pub open spec fn after_word(s: Seq<u8>) -> Seq<u8> {
    if word_length(s) < s.len() {
        s.skip(word_length(s) + 1)
    } else {
        Seq::empty()
    }
}

/// `word_length` is the position of the first whitespace character, or the
/// length of a sequence without one.
pub proof fn lemma_word_length(s: Seq<u8>, at: int)
    requires
        0 <= at <= s.len(),
        forall|before: int| 0 <= before < at ==> !is_whitespace(s[before]),
        at < s.len() ==> is_whitespace(s[at]),
    ensures
        word_length(s) == at,
    decreases s.len(),
{
    if s.len() > 0 && !is_whitespace(s[0]) {
        let rest = s.drop_first();
        lemma_word_length(rest, at - 1);
    }
}

/// The number that the decimal digits of `s` write, wrapped to 32 bits;
/// bytes that are no digits are passed over.
pub open spec fn number_of(s: Seq<u8>) -> u32
    decreases s.len(),
{
    if s.len() == 0 {
        0
    } else if is_digit(s.last()) {
        ((number_of(s.drop_last()) * 10 + (s.last() - 0x30)) % 0x1_0000_0000) as u32
    } else {
        number_of(s.drop_last())
    }
}

/// Splits `s` into its first word and what follows the whitespace character
/// behind that word.
pub fn get_word(s: &[u8]) -> (parts: (&[u8], &[u8]))
    ensures
        parts.0@ == first_word(s@),
        parts.1@ == after_word(s@),
{
    let mut index: usize = 0;
    while index < s.len()
        invariant
            index <= s@.len(),
            forall|before: int| 0 <= before < index ==> !is_whitespace(s@[before]),
        decreases s@.len() - index,
    {
        if is_ascii_whitespace(s[index]) {
            proof {
                lemma_word_length(s@, index as int);
            }
            let word = slice_subrange(s, 0, index);
            let rest = slice_subrange(s, index + 1, s.len());
            return (word, rest);
        }
        index = index + 1;
    }
    proof {
        lemma_word_length(s@, s@.len() as int);
    }
    (s, slice_subrange(s, s.len(), s.len()))
}

/// Reads the decimal digits of `s` as a number, passing over every byte
/// that is no digit; a number that has no room in 32 bits wraps.
pub fn string_to_number(s: &[u8]) -> (number: u32)
    ensures
        number == number_of(s@),
{
    let mut number: u32 = 0;
    let mut index: usize = 0;
    while index < s.len()
        invariant
            index <= s@.len(),
            number == number_of(s@.take(index as int)),
        decreases s@.len() - index,
    {
        let byte = s[index];
        proof {
            assert(s@.take(index + 1).drop_last() =~= s@.take(index as int));
        }
        if byte >= 0x30 && byte <= 0x39 {
            let digit: u8 = byte - 0x30;
            number = number.wrapping_mul(10);
            number = number.wrapping_add(digit as u32);
        }
        index = index + 1;
    }
    assert(s@.take(s@.len() as int) =~= s@);
    number
}

/// A command of the shell, as a mathematical value.
pub enum CommandView {
    /// An empty line.
    Empty,
    /// `help`.
    Help,
    /// `ecall`, with the argument of the system call.
    Ecall(u32),
    /// `leds`, with the names of the lights.
    Leds(Seq<u8>),
    /// `delay`, with the time to wait.
    Delay(u32),
    /// `run`, with the name of the file that holds the program.
    Run(Seq<u8>),
    /// `exec`, with the address to run from.
    Exec(u32),
    /// `exit`, with the exit code.
    Exit(u32),
    /// `fs stats`.
    FsStats,
    /// `fs save`.
    FsSave,
    /// `fs load`.
    FsLoad,
    /// `fs reset`.
    FsReset,
    /// `fs` with anything else behind it.
    FsUnknown(Seq<u8>),
    /// `write` or `create`, with the name of the file and its content.
    Create(Seq<u8>, Seq<u8>),
    /// `ls`, with the name to look for; every file is listed if it is empty.
    List(Seq<u8>),
    /// `cat` or `read`, with the name of the file.
    Read(Seq<u8>),
    /// `rm`, with the name of the file.
    Remove(Seq<u8>),
    /// `rx`.
    Receive,
    /// `paste`, with the name of the file and the number of bytes to come.
    Paste(Seq<u8>, u32),
    /// Any other word.
    Unknown(Seq<u8>),
}

/// A command of the shell.
pub enum Command<'a> {
    /// An empty line.
    Empty,
    /// `help`.
    Help,
    /// `ecall`, with the argument of the system call.
    Ecall(u32),
    /// `leds`, with the names of the lights.
    Leds(&'a [u8]),
    /// `delay`, with the time to wait.
    Delay(u32),
    /// `run`, with the name of the file that holds the program.
    Run(&'a [u8]),
    /// `exec`, with the address to run from.
    Exec(u32),
    /// `exit`, with the exit code.
    Exit(u32),
    /// `fs stats`.
    FsStats,
    /// `fs save`.
    FsSave,
    /// `fs load`.
    FsLoad,
    /// `fs reset`.
    FsReset,
    /// `fs` with anything else behind it.
    FsUnknown(&'a [u8]),
    /// `write` or `create`, with the name of the file and its content.
    Create(&'a [u8], &'a [u8]),
    /// `ls`, with the name to look for; every file is listed if it is empty.
    List(&'a [u8]),
    /// `cat` or `read`, with the name of the file.
    Read(&'a [u8]),
    /// `rm`, with the name of the file.
    Remove(&'a [u8]),
    /// `rx`.
    Receive,
    /// `paste`, with the name of the file and the number of bytes to come.
    Paste(&'a [u8], u32),
    /// Any other word.
    Unknown(&'a [u8]),
}

impl<'a> Command<'a> {
    /// The command as a mathematical value.
    pub open spec fn view(&self) -> CommandView {
        match *self {
            Command::Empty => CommandView::Empty,
            Command::Help => CommandView::Help,
            Command::Ecall(argument) => CommandView::Ecall(argument),
            Command::Leds(colors) => CommandView::Leds(colors@),
            Command::Delay(time) => CommandView::Delay(time),
            Command::Run(name) => CommandView::Run(name@),
            Command::Exec(address) => CommandView::Exec(address),
            Command::Exit(code) => CommandView::Exit(code),
            Command::FsStats => CommandView::FsStats,
            Command::FsSave => CommandView::FsSave,
            Command::FsLoad => CommandView::FsLoad,
            Command::FsReset => CommandView::FsReset,
            Command::FsUnknown(arguments) => CommandView::FsUnknown(arguments@),
            Command::Create(name, content) => CommandView::Create(name@, content@),
            Command::List(name) => CommandView::List(name@),
            Command::Read(name) => CommandView::Read(name@),
            Command::Remove(name) => CommandView::Remove(name@),
            Command::Receive => CommandView::Receive,
            Command::Paste(name, size) => CommandView::Paste(name@, size),
            Command::Unknown(word) => CommandView::Unknown(word@),
        }
    }
}

/// The subcommand of `fs` that `arguments`, all that follows `fs`, names.
pub open spec fn parsed_fs(arguments: Seq<u8>) -> CommandView {
    if arguments == "stats".spec_bytes() {
        CommandView::FsStats
    } else if arguments == "save".spec_bytes() {
        CommandView::FsSave
    } else if arguments == "load".spec_bytes() {
        CommandView::FsLoad
    } else if arguments == "reset".spec_bytes() {
        CommandView::FsReset
    } else {
        CommandView::FsUnknown(arguments)
    }
}

/// The command that `line` holds: its first word names the command, and
/// the words behind it are the arguments. Numbers are read as
/// `number_of` reads them.
pub open spec fn parsed(line: Seq<u8>) -> CommandView {
    let command = first_word(line);
    let arguments = after_word(line);
    let first = first_word(arguments);
    if line.len() == 0 {
        CommandView::Empty
    } else if command == "help".spec_bytes() {
        CommandView::Help
    } else if command == "ecall".spec_bytes() {
        CommandView::Ecall(number_of(first))
    } else if command == "leds".spec_bytes() {
        CommandView::Leds(first)
    } else if command == "delay".spec_bytes() {
        CommandView::Delay(number_of(first))
    } else if command == "run".spec_bytes() {
        CommandView::Run(first)
    } else if command == "exec".spec_bytes() {
        CommandView::Exec(number_of(first))
    } else if command == "exit".spec_bytes() {
        CommandView::Exit(number_of(first))
    } else if command == "fs".spec_bytes() {
        parsed_fs(arguments)
    } else if command == "write".spec_bytes() || command == "create".spec_bytes() {
        CommandView::Create(first, after_word(arguments))
    } else if command == "ls".spec_bytes() {
        CommandView::List(first)
    } else if command == "cat".spec_bytes() || command == "read".spec_bytes() {
        CommandView::Read(first)
    } else if command == "rm".spec_bytes() {
        CommandView::Remove(first)
    } else if command == "rx".spec_bytes() {
        CommandView::Receive
    } else if command == "paste".spec_bytes() {
        CommandView::Paste(first, number_of(first_word(after_word(arguments))))
    } else {
        CommandView::Unknown(command)
    }
}

/// Tells which command a line holds.
pub fn parse_command(line: &[u8]) -> (command: Command<'_>)
    ensures
        command@ == parsed(line@),
{
    if line.len() == 0 {
        return Command::Empty;
    }
    let (command, arguments) = get_word(line);
    let (first, rest) = get_word(arguments);
    if is_text(command, "help") {
        Command::Help
    } else if is_text(command, "ecall") {
        Command::Ecall(string_to_number(first))
    } else if is_text(command, "leds") {
        Command::Leds(first)
    } else if is_text(command, "delay") {
        Command::Delay(string_to_number(first))
    } else if is_text(command, "run") {
        Command::Run(first)
    } else if is_text(command, "exec") {
        Command::Exec(string_to_number(first))
    } else if is_text(command, "exit") {
        Command::Exit(string_to_number(first))
    } else if is_text(command, "fs") {
        if is_text(arguments, "stats") {
            Command::FsStats
        } else if is_text(arguments, "save") {
            Command::FsSave
        } else if is_text(arguments, "load") {
            Command::FsLoad
        } else if is_text(arguments, "reset") {
            Command::FsReset
        } else {
            Command::FsUnknown(arguments)
        }
    } else if is_text(command, "write") || is_text(command, "create") {
        Command::Create(first, rest)
    } else if is_text(command, "ls") {
        Command::List(first)
    } else if is_text(command, "cat") || is_text(command, "read") {
        Command::Read(first)
    } else if is_text(command, "rm") {
        Command::Remove(first)
    } else if is_text(command, "rx") {
        Command::Receive
    } else if is_text(command, "paste") {
        let (size, _) = get_word(rest);
        Command::Paste(first, string_to_number(size))
    } else {
        Command::Unknown(command)
    }
}

/// What is left for the caller to do when the shell has carried out its
/// part of a command, as a mathematical value.
pub enum ActionView {
    /// Nothing.
    Nothing,
    /// To make a system call.
    Call(SystemCall),
    /// To make a system call and, when it has come back, to print the
    /// action's epilogue.
    Interrupt(SystemCall),
    /// To receive a file over the serial line.
    Receive,
    /// To read the announced number of bytes and to paste them into the
    /// file of this name.
    Paste(Seq<u8>, u32),
}

/// What is left for the caller to do when the shell has carried out its
/// part of a command.
pub enum Action<'a> {
    /// Nothing.
    Nothing,
    /// To make a system call.
    Call(SystemCall),
    /// To make a system call and, when it has come back, to print the
    /// action's epilogue.
    Interrupt(SystemCall),
    /// To receive a file over the serial line.
    Receive,
    /// To read the announced number of bytes and to paste them into the
    /// file of this name.
    Paste(&'a [u8], u32),
}

impl<'a> Action<'a> {
    /// The action as a mathematical value.
    pub open spec fn view(&self) -> ActionView {
        match *self {
            Action::Nothing => ActionView::Nothing,
            Action::Call(call) => ActionView::Call(call),
            Action::Interrupt(call) => ActionView::Interrupt(call),
            Action::Receive => ActionView::Receive,
            Action::Paste(name, size) => ActionView::Paste(name@, size),
        }
    }

    /// What is printed when the action is done.
    pub fn epilogue(&self) -> (text: &'static str)
        ensures
            text.spec_bytes() == self@.epilogue(),
    {
        match self {
            Action::Interrupt(_) => "Back to Rust now.\r\n",
            _ => "",
        }
    }
}

impl ActionView {
    /// What is printed when the action is done.
    pub open spec fn epilogue(self) -> Seq<u8> {
        match self {
            ActionView::Interrupt(_) => "Back to Rust now.\r\n".spec_bytes(),
            _ => "".spec_bytes(),
        }
    }
}

/// What the shell makes of a command.
pub struct Response {
    /// The store after the command.
    pub store: StoreView,
    /// What the command prints.
    pub printed: Seq<u8>,
    /// What is left for the caller to do.
    pub action: ActionView,
}

/// `text` as a line of its own.
pub open spec fn line(text: Seq<u8>) -> Seq<u8> {
    text + "\r\n".spec_bytes()
}

/// A line that holds `label`, a space and `value`.
pub open spec fn labelled(label: Seq<u8>, value: Seq<u8>) -> Seq<u8> {
    label + " ".spec_bytes() + value + "\r\n".spec_bytes()
}

/// The number that the 32 bits of `address` are when the highest of them is
/// read as a sign.
pub open spec fn signed(address: u32) -> int {
    if address < 0x8000_0000 {
        address as int
    } else {
        address - 0x1_0000_0000
    }
}

/// The address to run a program from whose entry point lies `offset` bytes
/// into the file that starts in block `id`, wrapped to 32 bits.
pub open spec fn run_address(store: StoreView, id: BlockId, offset: int) -> u32 {
    ((store.file_address(id) + offset) % 0x1_0000_0000) as u32
}

/// The lines that list the files from position `from` of the list on whose
/// name is `filter`, or all of them if `filter` is empty.
pub open spec fn listing(store: StoreView, filter: Seq<u8>, from: int) -> Seq<u8>
    decreases store.first_blocks.len() - from,
{
    if from < 0 || from >= store.first_blocks.len() {
        Seq::empty()
    } else {
        let name = store.file_name(store.first_blocks[from]);
        (if filter.len() == 0 || name == filter {
            line(name)
        } else {
            Seq::empty()
        }) + listing(store, filter, from + 1)
    }
}

/// The line that says where a program runs from: the address of the file
/// and the address of the entry point.
pub open spec fn running_text(file_address: int, exec_address: u32) -> Seq<u8> {
    "Running program from:".spec_bytes() + " ".spec_bytes() + decimal_text(file_address)
        + " ".spec_bytes() + decimal_text(signed(exec_address)) + "\r\n".spec_bytes()
}

/// What running the program in the file `name` prints.
pub open spec fn run_text(store: StoreView, name: Seq<u8>) -> Seq<u8> {
    match store.find_file(name) {
        None => labelled("File not found:".spec_bytes(), name),
        Some(id) => if store.content(id).len() < 56 {
            line("Cannot run program: Header too short.".spec_bytes())
        } else {
            match entry_offset(store.content(id)) {
                Err(error) => labelled("Cannot run program:".spec_bytes(), error.message_text()),
                Ok(offset) => running_text(
                    store.file_address(id),
                    run_address(store, id, offset),
                ),
            }
        },
    }
}

/// The system call that runs the program in the file `name`, if the file
/// exists and its entry point can be resolved.
pub open spec fn run_call(store: StoreView, name: Seq<u8>) -> Option<SystemCall> {
    match store.find_file(name) {
        None => None,
        Some(id) => if store.content(id).len() < 56 {
            None
        } else {
            match entry_offset(store.content(id)) {
                Err(_) => None,
                Ok(offset) => Some(
                    SystemCall { number: EXEC, argument: run_address(store, id, offset) },
                ),
            }
        },
    }
}

/// What pasting `size` bytes into the file `name` prints before the bytes
/// are read.
pub open spec fn paste_text(name: Seq<u8>, size: u32) -> Seq<u8> {
    "Pasting".spec_bytes() + " ".spec_bytes() + decimal_text(signed(size)) + " ".spec_bytes()
        + "bytes into:".spec_bytes() + " ".spec_bytes() + name + "\r\n".spec_bytes() + (if size
        >= PAGE_SIZE {
        line("File size too large, multiple blocks not yet supported.".spec_bytes())
    } else {
        Seq::empty()
    })
}

/// What the shell makes of `command` on `store`.
pub open spec fn response(store: StoreView, command: CommandView) -> Response {
    let silent = Response { store, printed: Seq::empty(), action: ActionView::Nothing };
    match command {
        CommandView::Empty => silent,
        CommandView::Help => Response {
            printed: line("No help available at this time.".spec_bytes()),
            ..silent
        },
        CommandView::Ecall(argument) => Response {
            printed: line("Calling system interrupt...".spec_bytes()),
            action: ActionView::Interrupt(SystemCall { number: DELAY, argument }),
            ..silent
        },
        CommandView::Leds(colors) => Response {
            action: ActionView::Call(SystemCall { number: SET_LEDS, argument: led_bits(colors) }),
            ..silent
        },
        CommandView::Delay(time) => Response {
            action: ActionView::Call(SystemCall { number: DELAY, argument: time }),
            ..silent
        },
        CommandView::Run(name) => Response {
            printed: run_text(store, name),
            action: match run_call(store, name) {
                Some(call) => ActionView::Call(call),
                None => ActionView::Nothing,
            },
            ..silent
        },
        CommandView::Exec(address) => Response {
            action: ActionView::Call(SystemCall { number: EXEC, argument: address }),
            ..silent
        },
        CommandView::Exit(code) => Response {
            action: ActionView::Call(SystemCall { number: EXIT, argument: code }),
            ..silent
        },
        CommandView::FsStats => Response { printed: store.stats_text(), ..silent },
        CommandView::FsSave => Response {
            store: store.saved(STORE_PAGE as int, METADATA_PAGE),
            ..silent
        },
        CommandView::FsLoad => if loadable(store.flash) {
            Response {
                store: StoreView { staging: store.staging, ..loaded_store(store.flash) },
                ..silent
            }
        } else {
            Response { printed: line("No file system found.".spec_bytes()), ..silent }
        },
        CommandView::FsReset => Response { store: fresh_store(store.flash), ..silent },
        CommandView::FsUnknown(arguments) => Response {
            printed: labelled("Unknown argument:".spec_bytes(), arguments) + line(
                "Subcommands: stats, save, load, reset".spec_bytes(),
            ),
            ..silent
        },
        CommandView::Create(name, content) => if store.can_create(name, content) {
            Response { store: store.created(name, content), ..silent }
        } else {
            Response { printed: line("No file created.".spec_bytes()), ..silent }
        },
        CommandView::List(filter) => Response { printed: listing(store, filter, 0), ..silent },
        CommandView::Read(name) => Response {
            printed: match store.find_file(name) {
                Some(id) => line(store.content(id)),
                None => labelled("File not found:".spec_bytes(), name),
            },
            ..silent
        },
        CommandView::Remove(name) => match store.find_file(name) {
            Some(id) => Response { store: store.removed(id), ..silent },
            None => Response {
                printed: labelled("File not found:".spec_bytes(), name),
                ..silent
            },
        },
        CommandView::Receive => Response {
            printed: line("Preparing to receive...".spec_bytes()),
            action: ActionView::Receive,
            ..silent
        },
        CommandView::Paste(name, size) => Response {
            printed: paste_text(name, size),
            action: if size >= PAGE_SIZE {
                ActionView::Nothing
            } else {
                ActionView::Paste(name, size)
            },
            ..silent
        },
        CommandView::Unknown(word) => Response {
            printed: labelled("Unknown command:".spec_bytes(), word),
            ..silent
        },
    }
}

/// Prints `text` as a line of its own.
fn put_line(text: &[u8], out: &mut Vec<u8>)
    ensures
        final(out)@ == old(out)@ + line(text@),
{
    put_string(text, out);
    put_printable("\r\n", out);
}

/// Prints a line that holds `label`, a space and `value`.
fn put_labelled(label: &str, value: &[u8], out: &mut Vec<u8>)
    ensures
        final(out)@ == old(out)@ + labelled(label.spec_bytes(), value@),
{
    put_printable(label, out);
    put_printable(" ", out);
    put_string(value, out);
    put_printable("\r\n", out);
}

/// The number that the 32 bits of `address` are when the highest of them is
/// read as a sign.
fn to_signed(address: u32) -> (number: i32)
    ensures
        number == signed(address),
{
    if address < 0x8000_0000 {
        address as i32
    } else {
        (address as i64 - 0x1_0000_0000) as i32
    }
}

/// Looks up the program in the file `file_name`, resolves its entry point
/// and prints where it runs from, or why it does not run. Hands out the
/// system call that runs it.
pub fn run_program(file_system: &FileSystem, file_name: &[u8], out: &mut Vec<u8>) -> (call: Option<
    SystemCall,
>)
    ensures
        final(out)@ == old(out)@ + run_text(file_system@, file_name@),
        call == run_call(file_system@, file_name@),
{
    let block_id = match file_system.file(file_name) {
        Some(block_id) => block_id,
        None => {
            put_labelled("File not found:", file_name, out);
            return None;
        },
    };
    let contents = file_system.read_file(block_id);
    if contents.len() < 56 {
        put_line("Cannot run program: Header too short.".as_bytes(), out);
        return None;
    }
    let entry_point = match read_elf(contents) {
        Ok(address) => address,
        Err(error) => {
            put_labelled("Cannot run program:", error.message().as_bytes(), out);
            return None;
        },
    };
    proof {
        use_type_invariant(block_id);
    }
    let file_address: u32 = file_system.file_address(block_id);
    let exec_address: u32 = wrapped_sum(file_address, entry_point);
    announce_run(file_address, exec_address, out);
    Some(crate::sys_call::exec(exec_address))
}

/// The sum of an address and an offset, wrapped to 32 bits.
fn wrapped_sum(address: u32, offset: u64) -> (sum: u32)
    requires
        offset <= 2 * u32::MAX,
    ensures
        sum == ((address + offset) % 0x1_0000_0000) as u32,
{
    ((address as u64 + offset) % 0x1_0000_0000) as u32
}

/// Prints where a program runs from.
fn announce_run(file_address: u32, exec_address: u32, out: &mut Vec<u8>)
    requires
        file_address < 0x8000_0000,
    ensures
        final(out)@ == old(out)@ + running_text(file_address as int, exec_address),
{
    put_printable("Running program from:", out);
    put_printable(" ", out);
    put_decimal(to_signed(file_address), out);
    put_printable(" ", out);
    put_decimal(to_signed(exec_address), out);
    put_printable("\r\n", out);
}

/// Prints the names of the files whose name is `filter`, or of all files
/// if `filter` is empty, each on a line of its own.
fn list_files(file_system: &FileSystem, filter: &[u8], out: &mut Vec<u8>)
    ensures
        final(out)@ == old(out)@ + listing(file_system@, filter@, 0),
{
    let files = file_system.list_files();
    let mut index: usize = 0;
    while index < files.len()
        invariant
            index <= files@.len(),
            files@ == file_system@.first_blocks,
            old(out)@ + listing(file_system@, filter@, 0) == out@ + listing(
                file_system@,
                filter@,
                index as int,
            ),
        decreases files@.len() - index,
    {
        let file_name = file_system.file_name(files[index]);
        if filter.len() == 0 || same_bytes(file_name, filter) {
            put_line(file_name, out);
        }
        index = index + 1;
    }
}

/// Prints what pasting `file_size` bytes into the file `file_name` prints
/// before the bytes are read.
fn announce_paste(file_name: &[u8], file_size: u32, out: &mut Vec<u8>)
    ensures
        final(out)@ == old(out)@ + paste_text(file_name@, file_size),
{
    put_printable("Pasting", out);
    put_printable(" ", out);
    put_decimal(to_signed(file_size), out);
    put_printable(" ", out);
    put_printable("bytes into:", out);
    put_printable(" ", out);
    put_string(file_name, out);
    put_printable("\r\n", out);
    if file_size as usize >= PAGE_SIZE {
        put_line("File size too large, multiple blocks not yet supported.".as_bytes(), out);
    }
}

/// Prints that `arguments` names no subcommand of `fs`, and which there are.
fn refuse_subcommand(arguments: &[u8], out: &mut Vec<u8>)
    ensures
        final(out)@ == old(out)@ + (labelled("Unknown argument:".spec_bytes(), arguments@) + line(
            "Subcommands: stats, save, load, reset".spec_bytes(),
        )),
{
    put_labelled("Unknown argument:", arguments, out);
    put_line("Subcommands: stats, save, load, reset".as_bytes(), out);
}

/// Writes the store's metadata to flash.
fn save_store(file_system: &mut FileSystem)
    requires
        old(file_system)@.wf(),
    ensures
        final(file_system)@.wf(),
        final(file_system)@ == response(old(file_system)@, CommandView::FsSave).store,
{
    proof {
        file_system@.lemma_saved_wf(STORE_PAGE as int, METADATA_PAGE);
    }
    file_system.save_file_system();
}

/// Reads the store back from flash, or prints that the flash holds none.
fn load_store(file_system: &mut FileSystem, out: &mut Vec<u8>)
    requires
        old(file_system)@.wf(),
    ensures
        final(file_system)@.wf(),
        final(file_system)@ == response(old(file_system)@, CommandView::FsLoad).store,
        final(out)@ == old(out)@ + response(old(file_system)@, CommandView::FsLoad).printed,
{
    if !file_system.reload() {
        put_line("No file system found.".as_bytes(), out);
    }
}

/// Creates a file, or prints that none was created.
fn create_file(file_name: &[u8], content: &[u8], file_system: &mut FileSystem, out: &mut Vec<u8>)
    requires
        old(file_system)@.wf(),
    ensures
        final(file_system)@.wf(),
        final(file_system)@ == response(
            old(file_system)@,
            CommandView::Create(file_name@, content@),
        ).store,
        final(out)@ == old(out)@ + response(
            old(file_system)@,
            CommandView::Create(file_name@, content@),
        ).printed,
{
    if let None = file_system.create_file(file_name, content) {
        put_line("No file created.".as_bytes(), out);
    }
}

/// Prints the content of the file `file_name`, or that there is no such
/// file.
fn read_file(file_name: &[u8], file_system: &FileSystem, out: &mut Vec<u8>)
    ensures
        final(out)@ == old(out)@ + response(file_system@, CommandView::Read(file_name@)).printed,
{
    match file_system.file(file_name) {
        Some(file) => {
            put_line(file_system.read_file(file), out);
        },
        None => {
            put_labelled("File not found:", file_name, out);
        },
    }
}

/// Removes the file `file_name`, or prints that there is no such file.
fn remove_file(file_name: &[u8], file_system: &mut FileSystem, out: &mut Vec<u8>)
    requires
        old(file_system)@.wf(),
    ensures
        final(file_system)@.wf(),
        final(file_system)@ == response(old(file_system)@, CommandView::Remove(file_name@)).store,
        final(out)@ == old(out)@ + response(
            old(file_system)@,
            CommandView::Remove(file_name@),
        ).printed,
{
    match file_system.file(file_name) {
        Some(file) => {
            file_system.remove_file(file);
        },
        None => {
            put_labelled("File not found:", file_name, out);
        },
    }
}

/// Carries out `command`, as far as the store and the buffer `out` for what
/// is printed are all that it takes, and says what is left to do.
pub fn execute<'a>(command: Command<'a>, file_system: &mut FileSystem, out: &mut Vec<u8>) -> (
    action: Action<'a>
)
    requires
        old(file_system)@.wf(),
    ensures
        final(file_system)@.wf(),
        final(file_system)@ == response(old(file_system)@, command@).store,
        final(out)@ == old(out)@ + response(old(file_system)@, command@).printed,
        action@ == response(old(file_system)@, command@).action,
{
    match command {
        Command::Empty => Action::Nothing,
        Command::Help => {
            put_line("No help available at this time.".as_bytes(), out);
            Action::Nothing
        },
        Command::Ecall(argument) => {
            put_line("Calling system interrupt...".as_bytes(), out);
            Action::Interrupt(SystemCall { number: DELAY, argument })
        },
        Command::Leds(colors) => Action::Call(crate::sys_call::set_leds(colors)),
        Command::Delay(time) => Action::Call(crate::sys_call::delay(time)),
        Command::Run(name) => {
            match run_program(file_system, name, out) {
                Some(call) => Action::Call(call),
                None => Action::Nothing,
            }
        },
        Command::Exec(address) => Action::Call(crate::sys_call::exec(address)),
        Command::Exit(code) => Action::Call(crate::sys_call::exit(code)),
        Command::FsStats => {
            file_system.print_stats(out);
            Action::Nothing
        },
        Command::FsSave => {
            save_store(file_system);
            Action::Nothing
        },
        Command::FsLoad => {
            load_store(file_system, out);
            Action::Nothing
        },
        Command::FsReset => {
            file_system.reset();
            Action::Nothing
        },
        Command::FsUnknown(arguments) => {
            refuse_subcommand(arguments, out);
            Action::Nothing
        },
        Command::Create(file_name, content) => {
            create_file(file_name, content, file_system, out);
            Action::Nothing
        },
        Command::List(file_name_arg) => {
            list_files(file_system, file_name_arg, out);
            Action::Nothing
        },
        Command::Read(file_name) => {
            read_file(file_name, file_system, out);
            Action::Nothing
        },
        Command::Remove(file_name) => {
            remove_file(file_name, file_system, out);
            Action::Nothing
        },
        Command::Receive => {
            put_line("Preparing to receive...".as_bytes(), out);
            Action::Receive
        },
        Command::Paste(file_name, file_size) => {
            announce_paste(file_name, file_size, out);
            if file_size as usize >= PAGE_SIZE {
                Action::Nothing
            } else {
                Action::Paste(file_name, file_size)
            }
        },
        Command::Unknown(word) => {
            put_labelled("Unknown command:", word, out);
            Action::Nothing
        },
    }
}

/// Carries out the command that the line `command` holds, as far as the
/// store and the buffer `out` for what is printed are all that it takes, and
/// says what is left to do.
pub fn process_command<'a>(command: &'a [u8], file_system: &mut FileSystem, out: &mut Vec<u8>) -> (
    action: Action<'a>
)
    requires
        old(file_system)@.wf(),
    ensures
        final(file_system)@.wf(),
        final(file_system)@ == response(old(file_system)@, parsed(command@)).store,
        final(out)@ == old(out)@ + response(old(file_system)@, parsed(command@)).printed,
        action@ == response(old(file_system)@, parsed(command@)).action,
{
    execute(parse_command(command), file_system, out)
}

/// The prompt of the shell.
pub open spec fn prompt() -> Seq<u8> {
    "\x1b[1;34m>\x1b[0m ".spec_bytes()
}

/// What the shell prints when it starts: a greeting, a number and the
/// prompt.
pub open spec fn greeting() -> Seq<u8> {
    line("Hi from Rust!".spec_bytes()) + labelled(
        "Number from Rust:".spec_bytes(),
        decimal_text(1234),
    ) + prompt()
}

/// How one byte of an escape code that the shell does not know is shown: a
/// character with a visible shape between quotes, any other byte as a
/// number.
pub open spec fn code_item(byte: u8) -> Seq<u8> {
    if is_graphic(byte) {
        " '".spec_bytes() + seq![byte] + "'".spec_bytes()
    } else {
        " ".spec_bytes() + decimal_text(byte as int)
    }
}

/// How the bytes of an escape code that the shell does not know are shown.
pub open spec fn code_items(code: Seq<u8>) -> Seq<u8>
    decreases code.len(),
{
    if code.len() == 0 {
        Seq::empty()
    } else {
        code_items(code.drop_last()) + code_item(code.last())
    }
}

/// What the shell prints for the escape code `code`: the name of an arrow
/// key, or the bytes of a code that it does not know.
pub open spec fn escape_text(code: Seq<u8>) -> Seq<u8> {
    "\r\n".spec_bytes() + (if code == "[D".spec_bytes() {
        line("Escape code: Left key".spec_bytes())
    } else if code == "[C".spec_bytes() {
        line("Escape code: Right key".spec_bytes())
    } else if code == "[A".spec_bytes() {
        line("Escape code: Up key".spec_bytes())
    } else if code == "[B".spec_bytes() {
        line("Escape code: Down key".spec_bytes())
    } else {
        "Unrecognized escape code: Esc".spec_bytes() + code_items(code) + "\r\n".spec_bytes()
    })
}

/// What the shell prints for a character that the line editor does not
/// know.
pub open spec fn unrecognized_text(c: u8) -> Seq<u8> {
    "\r\n".spec_bytes() + labelled(
        "Unrecognized ascii code:".spec_bytes(),
        decimal_text(c as int),
    )
}

/// What the shell prints when the bytes of a pasted file have been read:
/// that it is done, and that it removes a file that has the name already.
pub open spec fn pasted_text(store: StoreView, name: Seq<u8>) -> Seq<u8> {
    line("Done.".spec_bytes()) + (if store.find_file(name) is Some {
        line("Removing existing file".spec_bytes())
    } else {
        Seq::empty()
    })
}

/// Prints the prompt.
pub fn put_prompt(out: &mut Vec<u8>)
    ensures
        final(out)@ == old(out)@ + prompt(),
{
    put_printable("\x1b[1;34m>\x1b[0m ", out);
}

/// Prints what the shell prints when it starts.
pub fn greet(out: &mut Vec<u8>)
    ensures
        final(out)@ == old(out)@ + greeting(),
{
    put_line("Hi from Rust!".as_bytes(), out);
    put_printable("Number from Rust:", out);
    put_printable(" ", out);
    put_printable(1234i32, out);
    put_printable("\r\n", out);
    put_prompt(out);
}

/// Prints what the shell makes of the escape code `escape_code`.
pub fn process_escape_code(escape_code: &[u8], out: &mut Vec<u8>)
    ensures
        final(out)@ == old(out)@ + escape_text(escape_code@),
{
    put_printable("\r\n", out);
    if is_text(escape_code, "[D") {
        put_line("Escape code: Left key".as_bytes(), out);
    } else if is_text(escape_code, "[C") {
        put_line("Escape code: Right key".as_bytes(), out);
    } else if is_text(escape_code, "[A") {
        put_line("Escape code: Up key".as_bytes(), out);
    } else if is_text(escape_code, "[B") {
        put_line("Escape code: Down key".as_bytes(), out);
    } else {
        put_printable("Unrecognized escape code: Esc", out);
        let ghost listed = out@;
        let mut index: usize = 0;
        while index < escape_code.len()
            invariant
                index <= escape_code@.len(),
                out@ == listed + code_items(escape_code@.take(index as int)),
            decreases escape_code@.len() - index,
        {
            let byte = escape_code[index];
            if is_ascii_graphic(byte) {
                put_printable(" '", out);
                put_printable(byte, out);
                put_printable("'", out);
            } else {
                put_printable(" ", out);
                put_printable(byte as i32, out);
            }
            index = index + 1;
            assert(escape_code@.take(index as int).drop_last() =~= escape_code@.take(index - 1));
        }
        assert(escape_code@.take(escape_code@.len() as int) =~= escape_code@);
        put_printable("\r\n", out);
    }
}

/// Stores the `file_size` bytes of `input` that were read for the file
/// `file_name`, and prints what the shell prints on the way.
pub fn complete_paste(
    file_name: &[u8],
    file_size: u32,
    input: &[u8],
    file_system: &mut FileSystem,
    out: &mut Vec<u8>,
) -> (outcome: PasteOutcome)
    requires
        old(file_system)@.wf(),
        file_size < PAGE_SIZE,
        file_size <= input@.len(),
    ensures
        final(file_system)@.wf(),
        final(file_system)@ == old(file_system)@.pasted(file_name@, input@.take(file_size as int)),
        final(out)@ == old(out)@ + pasted_text(old(file_system)@, file_name@),
        outcome == if old(file_system)@.cleared(file_name@).can_create(
            file_name@,
            input@.take(file_size as int),
        ) {
            PasteOutcome::Created(old(file_system)@.cleared(file_name@).free_blocks.last())
        } else {
            PasteOutcome::NotCreated
        },
{
    put_line("Done.".as_bytes(), out);
    if file_system.file(file_name).is_some() {
        put_line("Removing existing file".as_bytes(), out);
    }
    file_system.paste_file(file_name, file_size as usize, input)
}

/// What the shell makes of a character typed, as a mathematical value.
pub struct Reaction {
    /// The store after the character.
    pub store: StoreView,
    /// What is printed.
    pub printed: Seq<u8>,
    /// What is left for the caller to do.
    pub action: ActionView,
    /// Whether the prompt is to be printed when the action is done.
    pub prompt: bool,
}

/// What the shell makes of the character `c` typed into `edit_line`, with
/// the store `store`: the character is echoed; an escape code is named; a
/// finished command is carried out; a character without meaning is
/// reported. Whenever something was finished, the prompt is due.
pub open spec fn reaction(edit_line: EditLineView, store: StoreView, c: u8) -> Reaction {
    let echo = edit_line.echo(c).bytes();
    match edit_line.event(c) {
        None => Reaction { store, printed: echo, action: ActionView::Nothing, prompt: false },
        Some(EventView::EscapeCode(code)) => Reaction {
            store,
            printed: echo + escape_text(code),
            action: ActionView::Nothing,
            prompt: true,
        },
        Some(EventView::Command(command)) => Reaction {
            store: response(store, parsed(command)).store,
            printed: echo + response(store, parsed(command)).printed,
            action: response(store, parsed(command)).action,
            prompt: true,
        },
        Some(EventView::UnrecognizedCode(code)) => Reaction {
            store,
            printed: echo + unrecognized_text(code),
            action: ActionView::Nothing,
            prompt: true,
        },
    }
}

/// Takes a character typed: feeds it to the line editor and carries out what
/// it finishes. Hands out what is left for the caller to do, and whether
/// the prompt is to be printed when that is done.
pub fn handle_character<'a>(
    edit_line: &'a mut EditLine,
    file_system: &mut FileSystem,
    input_character: u8,
    out: &mut Vec<u8>,
) -> (step: (Action<'a>, bool))
    requires
        old(file_system)@.wf(),
    ensures
        final(file_system)@.wf(),
        final(edit_line)@ == old(edit_line)@.typed(input_character),
        final(file_system)@ == reaction(
            old(edit_line)@,
            old(file_system)@,
            input_character,
        ).store,
        final(out)@ == old(out)@ + reaction(
            old(edit_line)@,
            old(file_system)@,
            input_character,
        ).printed,
        step.0@ == reaction(old(edit_line)@, old(file_system)@, input_character).action,
        step.1 == reaction(old(edit_line)@, old(file_system)@, input_character).prompt,
{
    let (event, echo) = edit_line.input_character(input_character);
    let shown = echo.to_bytes();
    put_string(shown.as_slice(), out);
    match event {
        None => (Action::Nothing, false),
        Some(EditLineEvent::EscapeCode(escape_code)) => {
            process_escape_code(escape_code, out);
            (Action::Nothing, true)
        },
        Some(EditLineEvent::Command(command)) => {
            let action = process_command(command, file_system, out);
            (action, true)
        },
        Some(EditLineEvent::UnrecognizedCode(c)) => {
            put_printable("\r\n", out);
            put_printable("Unrecognized ascii code:", out);
            put_printable(" ", out);
            put_printable(c as i32, out);
            put_printable("\r\n", out);
            (Action::Nothing, true)
        },
    }
}

} // verus!
