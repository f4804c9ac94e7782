//! The PS/2 keyboard: how its scancodes (set 1) become key events, with the
//! modifier keys held and the lock keys toggled, broadcast to readers.
//!
//! The caller reads the bytes from the controller (see `ps2`) and hands
//! them over one at a time.

use vstd::prelude::*;
use blinkcast::alloc::{Receiver, Sender};

verus! {

/// Number of key events that can be buffered before being overwritten.
pub const KEYBOARD_BUFFER_SIZE: usize = 256;

/// PS/2 keyboard interrupt.
pub const KEYBOARD_INT_NUM: u8 = 1;

/// The scancode byte that announces an extended key.
pub const EXTENDED_PREFIX: u8 = 0xE0;

/// The bits of the modifier keys and of the lock keys in an event.
pub const SHIFT: u8 = 0x01;
pub const CTRL: u8 = 0x02;
pub const ALT: u8 = 0x04;
pub const CAPS_LOCK: u8 = 0x08;
pub const NUM_LOCK: u8 = 0x10;
pub const SCROLL_LOCK: u8 = 0x20;

/// The highest plain scancode that names a key (F12).
pub const LAST_PLAIN_KEY: u8 = 0x58;

/// A key: a plain one by its scancode, or an extended one by the scancode
/// that follows the extension prefix (its pressed bit cleared).
#[derive(Debug, Clone, Copy, PartialEq, Eq, Structural)]
pub enum KeyCode {
    Plain(u8),
    Extended(u8),
}

/// A key going down or up, with the modifiers and lock keys active then.
#[derive(Debug, Clone, Copy, PartialEq, Eq, Structural)]
pub struct KeyEvent {
    pub pressed: bool,
    pub modifiers: u8,
    pub key: KeyCode,
}

/// What the keyboard remembers between bytes: the modifier and lock keys
/// held down, the locks toggled on, and whether the previous byte was the
/// extension prefix.
#[derive(Debug, Clone, Copy, PartialEq, Eq, Structural)]
pub struct KeyboardState {
    pub held: u8,
    pub toggles: u8,
    pub extended: bool,
}

/// The extended scancodes that name a key.
pub open spec fn is_extended_key(k: u8) -> bool {
    k == 0x10 || k == 0x19 || k == 0x1C || k == 0x1D || k == 0x20 || k == 0x21 || k == 0x22 || k == 0x24
        || k == 0x2E || k == 0x30 || k == 0x32 || k == 0x35 || k == 0x38 || k == 0x47 || k == 0x48
        || k == 0x49 || k == 0x4B || k == 0x4D || k == 0x4F || k == 0x50 || k == 0x51 || k == 0x52
        || k == 0x53 || k == 0x5B || k == 0x5C || k == 0x5D || k == 0x5E || k == 0x5F || k == 0x63
        || (0x65 <= k <= 0x6D)
}

/// The modifier bit of a plain scancode (pressed bit cleared): both shift
/// keys, control and alt.
pub open spec fn modifier_bit(k: u8) -> Option<u8> {
    if k == 0x2A || k == 0x36 {
        Some(SHIFT)
    } else if k == 0x1D {
        Some(CTRL)
    } else if k == 0x38 {
        Some(ALT)
    } else {
        None
    }
}

/// The lock bit of a plain scancode (pressed bit cleared).
pub open spec fn toggle_bit(k: u8) -> Option<u8> {
    if k == 0x3A {
        Some(CAPS_LOCK)
    } else if k == 0x45 {
        Some(NUM_LOCK)
    } else if k == 0x46 {
        Some(SCROLL_LOCK)
    } else {
        None
    }
}

/// The modifiers an event carries: the modifier keys held, and the locks
/// that are toggled on (not the lock keys held).
pub open spec fn active_modifiers(s: KeyboardState) -> u8 {
    (s.held & !(CAPS_LOCK | NUM_LOCK | SCROLL_LOCK)) | s.toggles
}

/// Sets (`pressed`) or clears the bit `m` of `v`.
pub open spec fn with_bit(v: u8, m: u8, pressed: bool) -> u8 {
    if pressed {
        v | m
    } else {
        v & !m
    }
}

/// One byte from the keyboard: the state after it and the event it makes.
///
/// After the extension prefix, the byte names an extended key (its top bit
/// set when the key goes up); the held keys do not change. Otherwise a
/// modifier key is held or let go; a lock key is held or let go too, and a
/// press that is not a repeat toggles its lock; then a plain scancode up to
/// F12 (other than zero) makes an event with the modifiers as they now are.
pub open spec fn keyboard_step_spec(s: KeyboardState, data: u8) -> (KeyboardState, Option<KeyEvent>) {
    let pressed = data & 0x80 == 0;
    let k = data & 0x7F;
    if s.extended {
        let ns = KeyboardState { extended: false, ..s };
        if is_extended_key(k) {
            (ns, Some(KeyEvent { pressed, modifiers: active_modifiers(s), key: KeyCode::Extended(k) }))
        } else {
            (ns, None)
        }
    } else if data == EXTENDED_PREFIX {
        (KeyboardState { extended: true, ..s }, None)
    } else {
        let s1 = match modifier_bit(k) {
            Some(m) => KeyboardState { held: with_bit(s.held, m, pressed), ..s },
            None => match toggle_bit(k) {
                Some(t) => KeyboardState {
                    held: with_bit(s.held, t, pressed),
                    toggles: if pressed && s.held & t == 0 {
                        s.toggles ^ t
                    } else {
                        s.toggles
                    },
                    ..s
                },
                None => s,
            },
        };
        if 1 <= k <= LAST_PLAIN_KEY {
            (s1, Some(KeyEvent { pressed, modifiers: active_modifiers(s1), key: KeyCode::Plain(k) }))
        } else {
            (s1, None)
        }
    }
}

fn modifier_bit_of(k: u8) -> (r: Option<u8>)
    ensures
        r == modifier_bit(k),
{
    if k == 0x2A || k == 0x36 {
        Some(SHIFT)
    } else if k == 0x1D {
        Some(CTRL)
    } else if k == 0x38 {
        Some(ALT)
    } else {
        None
    }
}

fn toggle_bit_of(k: u8) -> (r: Option<u8>)
    ensures
        r == toggle_bit(k),
{
    if k == 0x3A {
        Some(CAPS_LOCK)
    } else if k == 0x45 {
        Some(NUM_LOCK)
    } else if k == 0x46 {
        Some(SCROLL_LOCK)
    } else {
        None
    }
}

fn extended_key(k: u8) -> (r: bool)
    ensures
        r == is_extended_key(k),
{
    k == 0x10 || k == 0x19 || k == 0x1C || k == 0x1D || k == 0x20 || k == 0x21 || k == 0x22 || k == 0x24
        || k == 0x2E || k == 0x30 || k == 0x32 || k == 0x35 || k == 0x38 || k == 0x47 || k == 0x48
        || k == 0x49 || k == 0x4B || k == 0x4D || k == 0x4F || k == 0x50 || k == 0x51 || k == 0x52
        || k == 0x53 || k == 0x5B || k == 0x5C || k == 0x5D || k == 0x5E || k == 0x5F || k == 0x63
        || (0x65 <= k && k <= 0x6D)
}

fn modifiers_of(s: KeyboardState) -> (r: u8)
    ensures
        r == active_modifiers(s),
{
    (s.held & !(CAPS_LOCK | NUM_LOCK | SCROLL_LOCK)) | s.toggles
}

fn set_bit(v: u8, m: u8, pressed: bool) -> (r: u8)
    ensures
        r == with_bit(v, m, pressed),
{
    if pressed {
        v | m
    } else {
        v & !m
    }
}

/// One byte from the keyboard, as `keyboard_step_spec` says.
pub fn keyboard_step(s: KeyboardState, data: u8) -> (r: (KeyboardState, Option<KeyEvent>))
    ensures
        r == keyboard_step_spec(s, data),
{
    let pressed = data & 0x80 == 0;
    let k = data & 0x7F;
    if s.extended {
        let ns = KeyboardState { extended: false, ..s };
        if extended_key(k) {
            (ns, Some(KeyEvent { pressed, modifiers: modifiers_of(s), key: KeyCode::Extended(k) }))
        } else {
            (ns, None)
        }
    } else if data == EXTENDED_PREFIX {
        (KeyboardState { extended: true, ..s }, None)
    } else {
        let s1 = match modifier_bit_of(k) {
            Some(m) => KeyboardState { held: set_bit(s.held, m, pressed), ..s },
            None => match toggle_bit_of(k) {
                Some(t) => {
                    let toggles = if pressed && s.held & t == 0 {
                        s.toggles ^ t
                    } else {
                        s.toggles
                    };
                    KeyboardState { held: set_bit(s.held, t, pressed), toggles, ..s }
                },
                None => s,
            },
        };
        if 1 <= k && k <= LAST_PLAIN_KEY {
            (s1, Some(KeyEvent { pressed, modifiers: modifiers_of(s1), key: KeyCode::Plain(k) }))
        } else {
            (s1, None)
        }
    }
}

/// The bit that a modifier key holds: 0x01 for either shift key (0x2A,
/// 0x36), 0x02 for control (0x1D), 0x04 for alt (0x38).
pub open spec fn held_bit_of_modifier_key(k: u8) -> u8 {
    if k == 0x1D {
        0x02u8
    } else if k == 0x38 {
        0x04u8
    } else {
        0x01u8
    }
}

/// Pressing a modifier key sets exactly its own bit among the held keys and
/// letting it go (the same scancode with 0x80 set) clears exactly that bit:
/// control is 0x02, alt 0x04, either shift 0x01. The locks stay as they
/// were, and the press is reported as that plain key.
pub proof fn lemma_modifier_key_bits(s: KeyboardState, k: u8)
    requires
        !s.extended,
        k == 0x2A || k == 0x36 || k == 0x1D || k == 0x38,
    ensures
        ({
            let bit = held_bit_of_modifier_key(k);
            let (down, e) = keyboard_step_spec(s, k);
            let (up, _) = keyboard_step_spec(s, k | 0x80u8);
            &&& down == KeyboardState { held: s.held | bit, ..s }
            &&& up == KeyboardState { held: s.held & !bit, ..s }
            &&& e == Some(KeyEvent { pressed: true, modifiers: active_modifiers(down), key: KeyCode::Plain(k) })
        }),
{
    assert(k & 0x80u8 == 0 && k & 0x7Fu8 == k && (k | 0x80u8) & 0x80u8 != 0
        && (k | 0x80u8) & 0x7Fu8 == k && (k | 0x80u8) != 0xE0u8) by (bit_vector)
        requires
            k == 0x2A || k == 0x36 || k == 0x1D || k == 0x38,
    ;
}

/// The bit of a lock key: 0x08 for caps lock (0x3A), 0x10 for num lock
/// (0x45), 0x20 for scroll lock (0x46).
pub open spec fn lock_bit_of_key(k: u8) -> u8 {
    if k == 0x3A {
        0x08u8
    } else if k == 0x45 {
        0x10u8
    } else {
        0x20u8
    }
}

/// A lock key is held while down and let go when up; a press that is not a
/// repeat (the key was not already held) flips its lock, a repeat leaves it.
/// The press is reported with the lock as it now is: on exactly when it was
/// off before a first press, whether or not the key is still held.
pub proof fn lemma_lock_key_bits(s: KeyboardState, k: u8)
    requires
        !s.extended,
        k == 0x3A || k == 0x45 || k == 0x46,
    ensures
        ({
            let bit = lock_bit_of_key(k);
            let (down, e) = keyboard_step_spec(s, k);
            let (up, _) = keyboard_step_spec(s, k | 0x80u8);
            &&& down.held == s.held | bit
            &&& down.toggles == (if s.held & bit == 0 { s.toggles ^ bit } else { s.toggles })
            &&& !down.extended
            &&& up == KeyboardState { held: s.held & !bit, ..s }
            &&& e is Some
            &&& e.unwrap().pressed
            &&& e.unwrap().key == KeyCode::Plain(k)
            &&& s.held & bit == 0 ==> (e.unwrap().modifiers & bit != 0 <==> s.toggles & bit == 0)
        }),
{
    assert(k & 0x80u8 == 0 && k & 0x7Fu8 == k && (k | 0x80u8) & 0x80u8 != 0
        && (k | 0x80u8) & 0x7Fu8 == k && (k | 0x80u8) != 0xE0u8) by (bit_vector)
        requires
            k == 0x3A || k == 0x45 || k == 0x46,
    ;
    let bit = lock_bit_of_key(k);
    let h = s.held;
    let t = s.toggles;
    assert(((((h | bit) & !(0x08u8 | 0x10u8 | 0x20u8)) | (t ^ bit)) & bit != 0) == (t & bit == 0)) by (bit_vector)
        requires
            bit == 0x08u8 || bit == 0x10u8 || bit == 0x20u8,
    ;
}

/// After control goes down (scancode 0x1D) from a state where alt is not
/// held, a plain key pressed next (any scancode up to F12 that is neither a
/// modifier nor a lock key) is reported with the control bit 0x02 set and
/// the alt bit 0x04 clear; its modifier bits are those held before, plus
/// control. The control press itself is reported with the control bit set.
pub proof fn lemma_key_after_control(s: KeyboardState, c: u8)
    requires
        !s.extended,
        s.toggles & 0x07u8 == 0,
        1 <= c <= 0x58,
        c != 0x2A && c != 0x36 && c != 0x1D && c != 0x38,
        c != 0x3A && c != 0x45 && c != 0x46,
    ensures
        ({
            let (s1, e1) = keyboard_step_spec(s, 0x1Du8);
            let (s2, e2) = keyboard_step_spec(s1, c);
            &&& e1 is Some
            &&& e1.unwrap().pressed
            &&& e1.unwrap().key == KeyCode::Plain(0x1Du8)
            &&& e1.unwrap().modifiers & 0x02u8 != 0
            &&& s2 == s1
            &&& e2 is Some
            &&& e2.unwrap().pressed
            &&& e2.unwrap().key == KeyCode::Plain(c)
            &&& e2.unwrap().modifiers & 0x07u8 == (s.held & 0x07u8) | 0x02u8
            &&& e2.unwrap().modifiers & 0x02u8 != 0
            &&& s.held & 0x04u8 == 0 ==> e2.unwrap().modifiers & 0x04u8 == 0
        }),
{
    assert(0x1Du8 & 0x80u8 == 0 && 0x1Du8 & 0x7Fu8 == 0x1Du8) by (bit_vector);
    let h = s.held;
    let t = s.toggles;
    assert(c & 0x80u8 == 0 && c & 0x7Fu8 == c && c != 0xE0u8) by (bit_vector)
        requires
            1 <= c <= 0x58,
    ;
    assert(((((h | 0x02u8) & !(0x08u8 | 0x10u8 | 0x20u8)) | t) & 0x07u8) == ((h & 0x07u8) | 0x02u8)
        && ((h & 0x07u8) | 0x02u8) & 0x02u8 != 0
        && (h & 0x04u8 == 0 ==> (((h | 0x02u8) & !(0x08u8 | 0x10u8 | 0x20u8)) | t) & 0x04u8 == 0)
        && (((h | 0x02u8) & !(0x08u8 | 0x10u8 | 0x20u8)) | t) & 0x02u8 != 0) by (bit_vector)
        requires
            t & 0x07u8 == 0,
    ;
    let s1 = KeyboardState { held: h | 0x02u8, ..s };
    assert(keyboard_step_spec(s, 0x1Du8).0 == s1);
    assert(active_modifiers(s1) == (((h | 0x02u8) & !(0x08u8 | 0x10u8 | 0x20u8)) | t));
    assert(modifier_bit(c) is None && toggle_bit(c) is None);
    assert(keyboard_step_spec(s1, c) == (s1, Some(
        KeyEvent { pressed: true, modifiers: active_modifiers(s1), key: KeyCode::Plain(c) },
    )));
}

// ---------------------------------------------------------------------------
// The event channel

/// The number of slots of the ring buffer the key channel was made with.
pub uninterp spec fn key_channel_size(s: Sender<KeyEvent>) -> nat;

/// `blinkcast::alloc::Sender::new`, for key events: a channel of `size`
/// slots. It panics above the crate's `MAX_LEN` (`2^16 - 1` on 32-bit
/// targets, more on 64-bit ones).
#[verifier::external_body]
fn new_key_channel(size: usize) -> (r: Sender<KeyEvent>)
    requires
        size <= 0xFFFF,
    ensures
        key_channel_size(r) == size,
{
    Sender::new(size)
}

/// `blinkcast::alloc::Sender::send`, for key events: broadcasts `event`,
/// overwriting the oldest one when the buffer is full. It takes the slot by
/// the index modulo the size, so the channel must have a slot. What the
/// readers then receive is not stated: the channel changes behind a shared
/// reference.
#[verifier::external_body]
fn send_key(sender: &Sender<KeyEvent>, event: KeyEvent)
    requires
        key_channel_size(*sender) > 0,
{
    sender.send(event)
}

/// `blinkcast::alloc::Sender::new_receiver`, for key events: a reader that
/// gets the events sent from now on. Nothing is stated of it.
#[verifier::external_body]
fn key_receiver(sender: &Sender<KeyEvent>) -> (r: Receiver<KeyEvent>) {
    sender.new_receiver()
}

/// Reader of key events.
pub type KeyboardReader = Receiver<KeyEvent>;

/// The keyboard: its state and the channel its events go to.
pub struct Keyboard {
    state: KeyboardState,
    sender: Sender<KeyEvent>,
}

impl Keyboard {
    #[verifier::type_invariant]
    spec fn channel_ready(self) -> bool {
        key_channel_size(self.sender) == KEYBOARD_BUFFER_SIZE
    }

    /// The keyboard's state.
    pub closed spec fn state_view(self) -> KeyboardState {
        self.state
    }

    /// A keyboard with no key held, no lock on, and a new channel.
    pub fn new() -> (r: Keyboard)
        ensures
            r.state_view() == (KeyboardState { held: 0, toggles: 0, extended: false }),
    {
        Keyboard { state: KeyboardState { held: 0, toggles: 0, extended: false }, sender: new_key_channel(KEYBOARD_BUFFER_SIZE) }
    }

    /// A new reader of the events sent from now on.
    pub fn new_receiver(&self) -> (r: KeyboardReader) {
        key_receiver(&self.sender)
    }

    /// The modifiers and locks an event would carry now.
    pub fn modifiers(&self) -> (r: u8)
        ensures
            r == active_modifiers(self.state_view()),
    {
        modifiers_of(self.state)
    }

    /// Handles one byte read from the keyboard: updates the state and, when
    /// the byte completes a key, broadcasts the event, which is returned.
    pub fn handle_keyboard_data(&mut self, data: u8) -> (r: Option<KeyEvent>)
        ensures
            r == keyboard_step_spec(old(self).state_view(), data).1,
            final(self).state_view() == keyboard_step_spec(old(self).state_view(), data).0,
    {
        proof {
            use_type_invariant(&*self);
        }
        let (ns, event) = keyboard_step(self.state, data);
        self.state = ns;
        if let Some(e) = event {
            send_key(&self.sender, e);
        }
        event
    }
}

} // verus!
