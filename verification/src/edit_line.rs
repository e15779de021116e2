//! The line editor of the shell: takes the characters typed one by one and
//! hands out the finished commands and escape codes.

use vstd::prelude::*;
use vstd::slice::slice_subrange;
use crate::ascii::{
    is_alphabetic, is_ascii_alphabetic, is_ascii_alphanumeric, is_ascii_digit,
    is_ascii_punctuation, is_digit, is_punctuation,
};

verus! {

/// Number of characters that a command line can hold.
pub const LINE_CAPACITY: usize = 256;

/// Number of characters behind the escape character that an escape code can
/// hold.
pub const ESCAPE_CAPACITY: usize = 16;

/// The carriage return, which ends a command.
pub const CARRIAGE_RETURN: u8 = 13;

/// The backspace character.
pub const BACKSPACE: u8 = 8;

/// The delete character, which is taken as a backspace.
pub const DELETE: u8 = 127;

/// The escape character, which starts an escape code.
pub const ESCAPE: u8 = 27;

/// Whether `c` is a character that can stand in a command: a letter, a
/// digit, a space or a punctuation character.
pub open spec fn printable(c: u8) -> bool {
    is_alphabetic(c) || is_digit(c) || c == 0x20 || is_punctuation(c)
}

/// The editor as a mathematical value.
pub struct EditLineView {
    /// The characters of the command typed so far.
    pub command: Seq<u8>,
    /// The characters of the escape code typed so far, if the editor is
    /// inside one.
    pub escape: Option<Seq<u8>>,
}

/// What a character typed brings about, as a mathematical value.
pub enum EventView {
    /// The command is finished.
    Command(Seq<u8>),
    /// An escape code is finished; the escape character is not part of it.
    EscapeCode(Seq<u8>),
    /// A character that has no meaning to the editor was typed.
    UnrecognizedCode(u8),
}

/// What a character typed brings about.
pub enum EditLineEvent<'a> {
    /// The command is finished.
    Command(&'a [u8]),
    /// An escape code is finished; the escape character is not part of it.
    EscapeCode(&'a [u8]),
    /// A character that has no meaning to the editor was typed.
    UnrecognizedCode(u8),
}

impl<'a> EditLineEvent<'a> {
    /// The event as a mathematical value.
    pub open spec fn view(&self) -> EventView {
        match *self {
            EditLineEvent::Command(command) => EventView::Command(command@),
            EditLineEvent::EscapeCode(escape_code) => EventView::EscapeCode(escape_code@),
            EditLineEvent::UnrecognizedCode(c) => EventView::UnrecognizedCode(c),
        }
    }
}

/// What the terminal is to show in answer to a character typed.
#[derive(Clone, Copy, Debug, PartialEq, Eq, Structural)]
pub enum Echo {
    /// Nothing.
    Nothing,
    /// The character itself.
    Character(u8),
    /// The start of a new line.
    NewLine,
    /// The last character disappears: a backspace, a space and a backspace.
    Erase,
}

impl Echo {
    /// The bytes to write to the terminal.
    pub open spec fn bytes(self) -> Seq<u8> {
        match self {
            Echo::Nothing => Seq::empty(),
            Echo::Character(c) => seq![c],
            Echo::NewLine => seq![0x0du8, 0x0au8],
            Echo::Erase => seq![BACKSPACE, 0x20u8, BACKSPACE],
        }
    }

    /// The bytes to write to the terminal.
    pub fn to_bytes(&self) -> (bytes: Vec<u8>)
        ensures
            bytes@ == self.bytes(),
    {
        let mut bytes: Vec<u8> = Vec::new();
        match *self {
            Echo::Nothing => {},
            Echo::Character(c) => {
                bytes.push(c);
            },
            Echo::NewLine => {
                bytes.push(0x0d);
                bytes.push(0x0a);
            },
            Echo::Erase => {
                bytes.push(BACKSPACE);
                bytes.push(0x20);
                bytes.push(BACKSPACE);
            },
        }
        bytes
    }
}

impl EditLineView {
    /// Whether a character ends the escape code that it is added to: a
    /// letter does, and so does the character that fills the code.
    pub open spec fn ends_escape(code: Seq<u8>, c: u8) -> bool {
        is_alphabetic(c) || code.len() + 1 >= ESCAPE_CAPACITY
    }

    /// The editor after `c` has been typed.
    ///
    /// Inside an escape code every character belongs to the code. Outside, a
    /// printable character is added to the command unless the line is full;
    /// a carriage return ends the command; a backspace or a delete takes the
    /// last character away; an escape starts an escape code; any other
    /// character empties the line.
    pub open spec fn typed(self, c: u8) -> EditLineView {
        match self.escape {
            Some(code) => EditLineView {
                escape: if Self::ends_escape(code, c) {
                    None
                } else {
                    Some(code.push(c))
                },
                ..self
            },
            None => if printable(c) {
                if self.command.len() < LINE_CAPACITY {
                    EditLineView { command: self.command.push(c), ..self }
                } else {
                    self
                }
            } else if c == CARRIAGE_RETURN {
                EditLineView { command: Seq::empty(), ..self }
            } else if c == BACKSPACE || c == DELETE {
                if self.command.len() > 0 {
                    EditLineView { command: self.command.drop_last(), ..self }
                } else {
                    self
                }
            } else if c == ESCAPE {
                EditLineView { escape: Some(Seq::empty()), ..self }
            } else {
                EditLineView { command: Seq::empty(), ..self }
            },
        }
    }

    /// An editor with an empty line, outside an escape code.
    pub open spec fn empty() -> EditLineView {
        EditLineView { command: Seq::empty(), escape: None }
    }

    /// The editor after the characters of `text` have been typed, one after
    /// the other.
    pub open spec fn typed_all(self, text: Seq<u8>) -> EditLineView
        decreases text.len(),
    {
        if text.len() == 0 {
            self
        } else {
            self.typed_all(text.drop_last()).typed(text.last())
        }
    }

    /// A line of printable characters that the editor has room for comes
    /// out as the command when the carriage return is typed, and leaves an
    /// empty line behind.
    pub proof fn lemma_typed_line(text: Seq<u8>)
        requires
            text.len() <= LINE_CAPACITY,
            forall|at: int| 0 <= at < text.len() ==> printable(text[at]),
        ensures
            Self::empty().typed_all(text) == (EditLineView { command: text, escape: None }),
            Self::empty().typed_all(text).event(CARRIAGE_RETURN) == Some(EventView::Command(text)),
            Self::empty().typed_all(text).typed(CARRIAGE_RETURN) == Self::empty(),
        decreases text.len(),
    {
        if text.len() > 0 {
            Self::lemma_typed_line(text.drop_last());
            assert(text.drop_last().push(text.last()) =~= text);
        } else {
            assert(text =~= Seq::<u8>::empty());
        }
    }

    /// What typing `c` brings about.
    pub open spec fn event(self, c: u8) -> Option<EventView> {
        match self.escape {
            Some(code) => if Self::ends_escape(code, c) {
                Some(EventView::EscapeCode(code.push(c)))
            } else {
                None
            },
            None => if printable(c) {
                None
            } else if c == CARRIAGE_RETURN {
                Some(EventView::Command(self.command))
            } else if c == BACKSPACE || c == DELETE || c == ESCAPE {
                None
            } else {
                Some(EventView::UnrecognizedCode(c))
            },
        }
    }

    /// What the terminal is to show when `c` has been typed.
    pub open spec fn echo(self, c: u8) -> Echo {
        match self.escape {
            Some(_) => Echo::Nothing,
            None => if printable(c) {
                if self.command.len() < LINE_CAPACITY {
                    Echo::Character(c)
                } else {
                    Echo::Nothing
                }
            } else if c == CARRIAGE_RETURN {
                Echo::NewLine
            } else if (c == BACKSPACE || c == DELETE) && self.command.len() > 0 {
                Echo::Erase
            } else {
                Echo::Nothing
            },
        }
    }
}

/// The line editor.
pub struct EditLine {
    command: [u8; 256],
    cursor: usize,
    inside_escape_code: bool,
    escape_code: [u8; 16],
    escape_cursor: usize,
}

impl EditLine {
    /// The cursors stay within their buffers, and outside an escape code no
    /// character of one is kept.
    #[verifier::type_invariant]
    pub closed spec fn wf(&self) -> bool {
        &&& self.cursor <= LINE_CAPACITY
        &&& self.escape_cursor < ESCAPE_CAPACITY
        &&& !self.inside_escape_code ==> self.escape_cursor == 0
    }

    /// The editor as a mathematical value.
    pub closed spec fn view(&self) -> EditLineView {
        EditLineView {
            command: self.command@.take(self.cursor as int),
            escape: if self.inside_escape_code {
                Some(self.escape_code@.take(self.escape_cursor as int))
            } else {
                None
            },
        }
    }

    /// An editor with an empty line, outside an escape code.
    pub fn new() -> (edit_line: EditLine)
        ensures
            edit_line@ == EditLineView::empty(),
    {
        let edit_line = EditLine {
            command: [0;256],
            cursor: 0,
            inside_escape_code: false,
            escape_code: [0;16],
            escape_cursor: 0,
        };
        assert(edit_line@.command =~= Seq::<u8>::empty());
        edit_line
    }

    /// Takes the character `c` that was typed: says what it brings about, and
    /// what the terminal is to show.
    pub fn input_character<'a>(&'a mut self, c: u8) -> (input: (Option<EditLineEvent<'a>>, Echo))
        ensures
            final(self)@ == old(self)@.typed(c),
            match input.0 {
                Some(event) => old(self)@.event(c) == Some(event@),
                None => old(self)@.event(c) is None,
            },
            input.1 == old(self)@.echo(c),
    {
        process_character(self, c)
    }
}

/// Takes the character `input_character` that was typed into `edit_line`:
/// says what it brings about, and what the terminal is to show.
pub fn process_character<'a>(edit_line: &'a mut EditLine, input_character: u8) -> (input: (
    Option<EditLineEvent<'a>>,
    Echo,
))
    ensures
        final(edit_line)@ == old(edit_line)@.typed(input_character),
        match input.0 {
            Some(event) => old(edit_line)@.event(input_character) == Some(event@),
            None => old(edit_line)@.event(input_character) is None,
        },
        input.1 == old(edit_line)@.echo(input_character),
{
    proof {
        use_type_invariant(&*edit_line);
    }
    let c = input_character;
    if edit_line.inside_escape_code {
        edit_line.escape_code[edit_line.escape_cursor] = c;
        let filled: usize = edit_line.escape_cursor + 1;
        if is_ascii_alphabetic(c) || filled > 15 {
            edit_line.escape_cursor = 0;
            edit_line.inside_escape_code = false;
            let escape_code = slice_subrange(edit_line.escape_code.as_slice(), 0, filled);
            assert(escape_code@ =~= old(edit_line)@.escape.unwrap().push(c));
            (Some(EditLineEvent::EscapeCode(escape_code)), Echo::Nothing)
        } else {
            edit_line.escape_cursor = filled;
            assert(edit_line@.escape.unwrap() =~= old(edit_line)@.escape.unwrap().push(c));
            (None, Echo::Nothing)
        }
    } else if is_printable(c) {
        if edit_line.cursor < LINE_CAPACITY {
            edit_line.command[edit_line.cursor] = c;
            edit_line.cursor = edit_line.cursor + 1;
            assert(edit_line@.command =~= old(edit_line)@.command.push(c));
            (None, Echo::Character(c))
        } else {
            (None, Echo::Nothing)
        }
    } else if c == CARRIAGE_RETURN {
        let cursor = edit_line.cursor;
        edit_line.cursor = 0;
        let command = slice_subrange(edit_line.command.as_slice(), 0, cursor);
        assert(edit_line@.command =~= Seq::<u8>::empty());
        (Some(EditLineEvent::Command(command)), Echo::NewLine)
    } else if c == BACKSPACE || c == DELETE {
        if edit_line.cursor > 0 {
            edit_line.cursor = edit_line.cursor - 1;
            assert(edit_line@.command =~= old(edit_line)@.command.drop_last());
            (None, Echo::Erase)
        } else {
            (None, Echo::Nothing)
        }
    } else if c == ESCAPE {
        edit_line.inside_escape_code = true;
        assert(edit_line@.escape.unwrap() =~= Seq::<u8>::empty());
        (None, Echo::Nothing)
    } else {
        edit_line.cursor = 0;
        assert(edit_line@.command =~= Seq::<u8>::empty());
        (Some(EditLineEvent::UnrecognizedCode(c)), Echo::Nothing)
    }
}

/// Whether `c` is a character that can stand in a command.
pub fn is_printable(c: u8) -> (result: bool)
    ensures
        result == printable(c),
        result == (0x20 <= c <= 0x7e),
{
    is_ascii_alphanumeric(c) || is_ascii_digit(c) || c == 0x20 || is_ascii_punctuation(c)
}

} // verus!
