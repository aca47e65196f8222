use vstd::prelude::*;
use pc_keyboard::layouts::Uk105Key;
use pc_keyboard::{DecodedKey, HandleControl, KeyCode, KeyEvent, Keyboard, ScancodeSet1};

use crate::interrupts::InterruptIndex;
use crate::qemu::QemuExitCode;

verus! {

#[verifier::external_type_specification]
#[verifier::external_body]
pub struct ExKeyEvent(KeyEvent);

#[verifier::external_type_specification]
#[verifier::external_body]
pub struct ExDecodeError(pc_keyboard::Error);

#[verifier::external_type_specification]
pub struct ExKeyCode(KeyCode);

#[verifier::external_type_specification]
pub struct ExDecodedKey(DecodedKey);

/// First byte of a two-byte scancode.
pub const EXTENDED_PREFIX: u8 = 0xE0;

/// Turns raw scancode bytes into keys, keeping partial sequences and the
/// state of the modifier keys between calls.
#[verifier::external_body]
pub struct KeyboardDecoder {
    keyboard: Keyboard<Uk105Key, ScancodeSet1>,
}

/// Whether the decoder has taken an extended prefix and awaits its second byte.
pub uninterp spec fn prefix_pending(d: KeyboardDecoder) -> bool;

/// What the scancode decoder returns for byte `b` in state `d`.
pub uninterp spec fn scancode_step(d: KeyboardDecoder, b: u8) -> Result<Option<KeyEvent>, pc_keyboard::Error>;

/// The decoder's state after taking byte `b` in state `d`.
pub uninterp spec fn after_scancode(d: KeyboardDecoder, b: u8) -> KeyboardDecoder;

/// The key that the layout gives for event `ev` in state `d`.
pub uninterp spec fn key_of_event(d: KeyboardDecoder, ev: KeyEvent) -> Option<DecodedKey>;

/// The decoder's state after it has taken event `ev` in state `d`.
pub uninterp spec fn after_event(d: KeyboardDecoder, ev: KeyEvent) -> KeyboardDecoder;

/// Relies on pc_keyboard::Keyboard::new: a decoder for the UK 105-key
/// layout over scancode set 1, passing Ctrl through as a plain key; it
/// starts with no prefix pending.
#[verifier::external_body]
fn new_keyboard() -> (r: KeyboardDecoder)
    ensures
        !prefix_pending(r),
{
    KeyboardDecoder { keyboard: Keyboard::new(Uk105Key, ScancodeSet1, HandleControl::Ignore) }
}

/// Relies on pc_keyboard::Keyboard::add_byte with scancode set 1. With no
/// prefix pending, 0xE0 gives `Ok(None)` and makes the prefix pending, and
/// any other byte gives a key event or an error and leaves none pending.
/// With a prefix pending, any byte gives a key event or an error and the
/// prefix is consumed.
#[verifier::external_body]
fn add_byte(decoder: &mut KeyboardDecoder, byte: u8) -> (r: Result<Option<KeyEvent>, pc_keyboard::Error>)
    ensures
        r == scancode_step(*old(decoder), byte),
        *final(decoder) == after_scancode(*old(decoder), byte),
        !prefix_pending(*old(decoder)) && byte == EXTENDED_PREFIX ==> (r matches Ok(None)) && prefix_pending(*final(decoder)),
        !prefix_pending(*old(decoder)) && byte != EXTENDED_PREFIX ==> !(r matches Ok(None)) && !prefix_pending(*final(decoder)),
        prefix_pending(*old(decoder)) ==> !(r matches Ok(None)) && !prefix_pending(*final(decoder)),
{
    decoder.keyboard.add_byte(byte)
}

/// Relies on pc_keyboard::Keyboard::process_keyevent: tracks modifiers and
/// maps a key event to a key through the layout; the scancode state is left
/// as it was.
#[verifier::external_body]
fn process_keyevent(decoder: &mut KeyboardDecoder, ev: KeyEvent) -> (r: Option<DecodedKey>)
    ensures
        r == key_of_event(*old(decoder), ev),
        *final(decoder) == after_event(*old(decoder), ev),
        prefix_pending(*final(decoder)) == prefix_pending(*old(decoder)),
{
    decoder.keyboard.process_keyevent(ev)
}

/// The key that feeding byte `b` to decoder `d` gives: the layout's key for
/// the completed event, or none while a sequence is incomplete or when the
/// byte is not a known scancode.
pub open spec fn decoded_key(d: KeyboardDecoder, b: u8) -> Option<DecodedKey> {
    match scancode_step(d, b) {
        Ok(Some(ev)) => key_of_event(after_scancode(d, b), ev),
        _ => None,
    }
}

/// The decoder's state after byte `b` is fed to `d`.
pub open spec fn decoder_after(d: KeyboardDecoder, b: u8) -> KeyboardDecoder {
    match scancode_step(d, b) {
        Ok(Some(ev)) => after_event(after_scancode(d, b), ev),
        _ => after_scancode(d, b),
    }
}

impl KeyboardDecoder {
    pub fn new() -> (r: KeyboardDecoder)
        ensures
            !prefix_pending(r),
    {
        new_keyboard()
    }

    /// Feeds one scancode byte. A key comes back only when a sequence is
    /// complete and the layout maps it to a key; an incomplete sequence or
    /// an unknown scancode gives none, and the decoder is then ready for a
    /// new sequence unless the byte was a fresh prefix.
    pub fn feed(&mut self, byte: u8) -> (r: Option<DecodedKey>)
        ensures
            r == decoded_key(*old(self), byte),
            *final(self) == decoder_after(*old(self), byte),
            scancode_step(*old(self), byte) is Err ==> r is None,
            !prefix_pending(*old(self)) && byte == EXTENDED_PREFIX ==> r is None && prefix_pending(*final(self)),
            !prefix_pending(*old(self)) && byte != EXTENDED_PREFIX ==> !prefix_pending(*final(self)),
            prefix_pending(*old(self)) ==> !prefix_pending(*final(self)),
    {
        match add_byte(self, byte) {
            Ok(Some(event)) => process_keyevent(self, event),
            Ok(None) => None,
            Err(_) => None,
        }
    }
}

/// The character that the Escape key decodes to.
pub const ESCAPE_CHAR: char = '\u{1b}';

/// What the keyboard handler does with a decoded key.
#[derive(Clone, Copy, Debug, PartialEq, Eq)]
pub enum KeyAction {
    /// Signal the end of the session to the emulator.
    Exit(QemuExitCode),
    /// Print the character on the console.
    Print(char),
    /// Print the name of a key that has no character.
    Describe(KeyCode),
}

/// The action for a key: Escape, as a raw key or as its character, ends the
/// session with success; any other character is printed; any other key is
/// printed by name.
pub open spec fn action_for(key: DecodedKey) -> KeyAction {
    match key {
        DecodedKey::RawKey(KeyCode::Escape) => KeyAction::Exit(QemuExitCode::Success),
        DecodedKey::Unicode(c) => if c == ESCAPE_CHAR {
            KeyAction::Exit(QemuExitCode::Success)
        } else {
            KeyAction::Print(c)
        },
        DecodedKey::RawKey(k) => KeyAction::Describe(k),
    }
}

pub fn dispatch(key: DecodedKey) -> (r: KeyAction)
    ensures
        r == action_for(key),
{
    match key {
        DecodedKey::RawKey(KeyCode::Escape) => KeyAction::Exit(QemuExitCode::Success),
        DecodedKey::Unicode(c) => {
            if c == ESCAPE_CHAR {
                KeyAction::Exit(QemuExitCode::Success)
            } else {
                KeyAction::Print(c)
            }
        },
        DecodedKey::RawKey(k) => KeyAction::Describe(k),
    }
}

/// What the keyboard interrupt handler does for one scancode: the key that
/// was completed, if any, the action for it, and the interrupt line to
/// acknowledge before returning, which is owed whatever was decoded.
#[derive(Clone, Copy, Debug, PartialEq, Eq)]
pub struct KeyboardResponse {
    pub key: Option<DecodedKey>,
    pub action: Option<KeyAction>,
    pub acknowledge: InterruptIndex,
}

/// Decodes one scancode and decides the handler's response.
pub fn keyboard_interrupt(decoder: &mut KeyboardDecoder, scancode: u8) -> (r: KeyboardResponse)
    ensures
        r.key == decoded_key(*old(decoder), scancode),
        *final(decoder) == decoder_after(*old(decoder), scancode),
        r.acknowledge == InterruptIndex::Keyboard,
        match r.key {
            Some(k) => r.action == Some(action_for(k)),
            None => r.action is None,
        },
        !prefix_pending(*old(decoder)) && scancode == EXTENDED_PREFIX ==> r.key is None,
{
    let key = decoder.feed(scancode);
    let action = match key {
        Some(k) => Some(dispatch(k)),
        None => None,
    };
    KeyboardResponse { key, action, acknowledge: InterruptIndex::Keyboard }
}

} // verus!
