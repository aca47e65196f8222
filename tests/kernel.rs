use std::cell::Cell;

use pc_keyboard::{DecodedKey, KeyCode};
use rs_os::clock::Uptime;
use rs_os::interrupts::{InterruptIndex, PIC_1_OFFSET, PIC_2_OFFSET};
use rs_os::keyboard::{dispatch, keyboard_interrupt, KeyAction, KeyboardDecoder};
use rs_os::qemu::QemuExitCode;
use rs_os::testing::{test_runner, Testable};

#[test]
fn make_code_gives_one_character() {
    let mut k = KeyboardDecoder::new();
    assert_eq!(k.feed(0x1E), Some(DecodedKey::Unicode('a')));
    assert_eq!(k.feed(0x9E), None);
    assert_eq!(k.feed(0x02), Some(DecodedKey::Unicode('1')));
}

#[test]
fn extended_sequence_waits_for_second_byte() {
    let mut k = KeyboardDecoder::new();
    assert_eq!(k.feed(0xE0), None);
    assert_eq!(k.feed(0x48), Some(DecodedKey::RawKey(KeyCode::ArrowUp)));
    assert_eq!(k.feed(0xE0), None);
    assert_eq!(k.feed(0xC8), None);
    assert_eq!(k.feed(0x1E), Some(DecodedKey::Unicode('a')));
}

#[test]
fn shift_changes_character() {
    let mut k = KeyboardDecoder::new();
    assert_eq!(k.feed(0x2A), None);
    assert_eq!(k.feed(0x1E), Some(DecodedKey::Unicode('A')));
    assert_eq!(k.feed(0xAA), None);
    assert_eq!(k.feed(0x1E), Some(DecodedKey::Unicode('a')));
}

#[test]
fn unknown_scancode_is_dropped() {
    let mut k = KeyboardDecoder::new();
    assert_eq!(k.feed(0x7F), None);
    assert_eq!(k.feed(0xE0), None);
    assert_eq!(k.feed(0xE0), None);
    assert_eq!(k.feed(0x1E), Some(DecodedKey::Unicode('a')));
}

#[test]
fn dispatch_maps_keys_to_actions() {
    assert_eq!(dispatch(DecodedKey::RawKey(KeyCode::Escape)), KeyAction::Exit(QemuExitCode::Success));
    assert_eq!(dispatch(DecodedKey::Unicode('\u{1b}')), KeyAction::Exit(QemuExitCode::Success));
    assert_eq!(dispatch(DecodedKey::Unicode('q')), KeyAction::Print('q'));
    assert_eq!(dispatch(DecodedKey::RawKey(KeyCode::ArrowUp)), KeyAction::Describe(KeyCode::ArrowUp));
}

#[test]
fn interrupt_vectors_follow_offset() {
    assert_eq!(PIC_1_OFFSET, 32);
    assert_eq!(PIC_2_OFFSET, 40);
    assert_eq!(InterruptIndex::Timer.as_u8(), 32);
    assert_eq!(InterruptIndex::Keyboard.as_u8(), 33);
    assert_eq!(InterruptIndex::Timer.as_usize(), 32);
    assert_eq!(InterruptIndex::Keyboard.as_usize(), 33);
}

#[test]
fn exit_codes() {
    assert_eq!(QemuExitCode::Success.value(), 0x10);
    assert_eq!(QemuExitCode::Fail.value(), 0x11);
}

#[test]
fn uptime_size() {
    let _u = Uptime::new();
    assert_eq!(Uptime::size(), 8);
}

struct Counted<'a> {
    runs: &'a Cell<u32>,
}

impl Testable for Counted<'_> {
    fn run(&self) {
        self.runs.set(self.runs.get() + 1);
    }
}

#[test]
fn runner_runs_every_check() {
    let runs = Cell::new(0);
    let tests = [Counted { runs: &runs }, Counted { runs: &runs }, Counted { runs: &runs }];
    assert_eq!(test_runner(&tests), QemuExitCode::Success);
    assert_eq!(runs.get(), 3);
    let none: [Counted; 0] = [];
    assert_eq!(test_runner(&none), QemuExitCode::Success);
}

#[test]
fn keyboard_interrupt_always_acknowledges() {
    let mut k = KeyboardDecoder::new();
    let r = keyboard_interrupt(&mut k, 0xE0);
    assert_eq!(r.key, None);
    assert_eq!(r.action, None);
    assert_eq!(r.acknowledge, InterruptIndex::Keyboard);
    let r = keyboard_interrupt(&mut k, 0x48);
    assert_eq!(r.key, Some(DecodedKey::RawKey(KeyCode::ArrowUp)));
    assert_eq!(r.action, Some(KeyAction::Describe(KeyCode::ArrowUp)));
    assert_eq!(r.acknowledge, InterruptIndex::Keyboard);
    let r = keyboard_interrupt(&mut k, 0x10);
    assert_eq!(r.action, Some(KeyAction::Print('q')));
    assert_eq!(r.acknowledge.as_u8(), 33);
}

#[test]
fn escape_key_ends_session() {
    let mut k = KeyboardDecoder::new();
    let r = keyboard_interrupt(&mut k, 0x01);
    assert_eq!(r.action, Some(KeyAction::Exit(QemuExitCode::Success)));
    assert_eq!(r.acknowledge, InterruptIndex::Keyboard);
}

#[test]
fn decode_error_is_absorbed_and_decoder_resynchronises() {
    let mut k = KeyboardDecoder::new();
    assert_eq!(keyboard_interrupt(&mut k, 0xE0).key, None);
    let r = keyboard_interrupt(&mut k, 0xE0);
    assert_eq!(r.key, None);
    assert_eq!(r.action, None);
    assert_eq!(r.acknowledge.as_u8(), 33);
    let r = keyboard_interrupt(&mut k, 0x1E);
    assert_eq!(r.action, Some(KeyAction::Print('a')));
}
