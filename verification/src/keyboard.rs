use vstd::prelude::*;

verus! {

use crate::text::{
    console_char_step,
    console_write,
    position_left_of,
    position_next_row,
    shift_rows,
    Direction,
    TextWriter,
};
use pc_keyboard::{DecodedKey, KeyCode};

/// A key press after decoding: a printable character, an arrow key, or
/// another raw key described by its debug name.
pub enum KeyInput {
    Unicode(char),
    Arrow(Direction),
    Raw(String),
}

#[verifier::external_type_specification]
#[verifier::external_body]
pub struct ExKeyEvent(pc_keyboard::KeyEvent);

/// pc_keyboard's scancode decoder for the US 104-key layout over
/// scancode set 1, held opaquely: its generic struct cannot be declared
/// to the verifier, whose view of this holder is therefore trusted.
#[verifier::external_body]
pub struct UsKeyboardDecoder {
    device: pc_keyboard::PS2Keyboard<pc_keyboard::layouts::Us104Key, pc_keyboard::ScancodeSet1>,
}

/// Relies on pc_keyboard's `PS2Keyboard::new`: a fresh decoder for the
/// US 104-key layout over scancode set 1, ignoring the control mapping.
#[verifier::external_body]
fn new_us_decoder() -> UsKeyboardDecoder {
    UsKeyboardDecoder {
        device: pc_keyboard::PS2Keyboard::new(
            pc_keyboard::ScancodeSet1::new(),
            pc_keyboard::layouts::Us104Key,
            pc_keyboard::HandleControl::Ignore,
        ),
    }
}

/// Relies on pc_keyboard's `PS2Keyboard::add_byte`: feeds one scancode
/// byte to the decoder's state machine; what comes back depends on the
/// bytes fed so far, so nothing more is promised of it. A byte the
/// decoder rejects counts as no event.
#[verifier::external_body]
fn decoder_add_byte(decoder: &mut UsKeyboardDecoder, scancode: u8) -> Option<
    pc_keyboard::KeyEvent,
> {
    match decoder.device.add_byte(scancode) {
        Ok(event) => event,
        Err(_) => None,
    }
}

/// Relies on pc_keyboard's `PS2Keyboard::process_keyevent` for the
/// decoding, whose result depends on the decoder's modifier state, and on
/// `KeyCode`'s debug names for keys other than the arrows; each decoded
/// variant is carried over one to one.
#[verifier::external_body]
fn decode_event(decoder: &mut UsKeyboardDecoder, event: pc_keyboard::KeyEvent) -> Option<
    KeyInput,
> {
    match decoder.device.process_keyevent(event)? {
        DecodedKey::Unicode(c) => Some(KeyInput::Unicode(c)),
        DecodedKey::RawKey(KeyCode::ArrowLeft) => Some(KeyInput::Arrow(Direction::Left)),
        DecodedKey::RawKey(KeyCode::ArrowRight) => Some(KeyInput::Arrow(Direction::Right)),
        DecodedKey::RawKey(KeyCode::ArrowUp) => Some(KeyInput::Arrow(Direction::Up)),
        DecodedKey::RawKey(KeyCode::ArrowDown) => Some(KeyInput::Arrow(Direction::Down)),
        DecodedKey::RawKey(other) => Some(KeyInput::Raw(format!("{other:?}"))),
    }
}

/// The keyboard: pc_keyboard's scancode decoder for the US layout, with
/// the console reactions to what it decodes.
pub struct Keyboard {
    device: UsKeyboardDecoder,
}

impl Keyboard {
    /// A keyboard with a fresh decoder.
    pub fn new() -> Keyboard {
        Keyboard { device: new_us_decoder() }
    }

    /// Feeds one scancode byte through the decoder: most bytes complete
    /// no key press; a completed one comes back decoded.
    pub fn process_scancode(&mut self, scancode: u8) -> Option<KeyInput> {
        match decoder_add_byte(&mut self.device, scancode) {
            Some(event) => decode_event(&mut self.device, event),
            None => None,
        }
    }

    /// Applies one decoded key press to the console: newline starts a
    /// row, tab writes four spaces, backspace clears the last cell, any
    /// other character is written out; arrows move the cursor, and other
    /// raw keys write their names.
    pub fn handle_keypress(&self, console: &mut TextWriter, key: KeyInput)
        requires
            old(console).wf(),
            old(console).canvas_shows_grid(),
        ensures
            final(console).wf(),
            TextWriter::same_grid(*final(console), *old(console)),
            final(console).canvas_shows_grid(),
            (key matches KeyInput::Unicode(c) && c != '\n' && c != '\t' && c != '\u{8}') ==> ({
                let (cells, p) = console_char_step(
                    old(console).back.inner@,
                    old(console).position,
                    old(console).dimensions,
                    key->Unicode_0,
                );
                final(console).back.inner@ == cells && final(console).position == p
            }),
            key matches KeyInput::Unicode(c) && c == '\n' ==> ({
                let (p, scrolled) = position_next_row(old(console).dimensions, old(console).position);
                &&& final(console).position == p
                &&& final(console).back.inner@ == if scrolled {
                    shift_rows(old(console).back.inner@, old(console).back.width as int)
                } else {
                    old(console).back.inner@
                }
            }),
            key matches KeyInput::Unicode(c) && c == '\t' ==> ({
                let (cells, p) = console_write(
                    old(console).back.inner@,
                    old(console).position,
                    old(console).dimensions,
                    "    "@,
                );
                final(console).back.inner@ == cells && final(console).position == p
            }),
            key matches KeyInput::Unicode(c) && c == '\u{8}' ==> final(console).position
                == position_left_of(old(console).dimensions, old(console).position)
                && final(console).back.inner@ == old(console).back.inner@.update(
                old(console).back.spec_index_of(
                    position_left_of(old(console).dimensions, old(console).position),
                ),
                Some(' '),
            ),
            key matches KeyInput::Arrow(d) && d == Direction::Left ==> final(console).position
                == position_left_of(old(console).dimensions, old(console).position)
                && final(console).back.inner@ == old(console).back.inner@,
            key matches KeyInput::Arrow(d) && d == Direction::Up ==> ({
                let (p, scrolled) = position_next_row(old(console).dimensions, old(console).position);
                &&& final(console).position == p
                &&& final(console).back.inner@ == if scrolled {
                    shift_rows(old(console).back.inner@, old(console).back.width as int)
                } else {
                    old(console).back.inner@
                }
            }),
            key matches KeyInput::Raw(name) ==> ({
                let (cells, p) = console_write(
                    old(console).back.inner@,
                    old(console).position,
                    old(console).dimensions,
                    name@,
                );
                final(console).back.inner@ == cells && final(console).position == p
            }),
    {
        match key {
            KeyInput::Unicode(key) => match key {
                '\n' => console.newline(),
                '\t' => console.write_str("    "),
                '\u{8}' => console.clear_last(),
                _ => console.write_char(key),
            },
            KeyInput::Arrow(direction) => console.move_cursor(direction),
            KeyInput::Raw(name) => console.write_str(name.as_str()),
        }
    }
}

/// A keyboard for the US 104-key layout over scancode set 1.
pub fn init_us_keyboard() -> Keyboard {
    Keyboard::new()
}

} // verus!
