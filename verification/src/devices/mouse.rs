//! The PS/2 mouse: how it is brought to its scroll-wheel modes, and how its
//! movement packets become events broadcast to readers.
//!
//! The caller talks to the controller (see `ps2`); the functions here take
//! the bytes it read.

pub mod scaling;
pub mod resolution;
pub mod commands;
pub mod packet;

use vstd::prelude::*;
use blinkcast::alloc::{Receiver, Sender};

verus! {

/// Number of events that can be buffered before being overwritten
pub const MOUSE_BUFFER_SIZE: usize = 1024;

/// PS/2 mouse interrupt
pub const MOUSE_INT_NUM: u8 = 12;

/// The movement of the scroll wheels in one packet.
#[derive(Debug, Clone, Copy, PartialEq, Eq, Structural)]
pub enum ScrollType {
    NoScroll,
    VerticalUp,
    VerticalDown,
    HorizontalRight,
    HorizontalNegative,
}

/// One movement packet: relative motion, pressed buttons (bit 0 left,
/// 1 right, 2 middle, 3 and 4 the side buttons) and scrolling.
#[derive(Debug, Clone, Copy, PartialEq, Eq, Structural)]
pub struct MouseEvent {
    pub x: i16,
    pub y: i16,
    pub buttons: u8,
    pub scroll_type: ScrollType,
}

/// The nine-bit two's complement motion: the low byte, and the sign bit
/// from the first byte of the packet.
pub open spec fn motion(low: u8, negative: bool) -> i16 {
    if negative {
        (low - 256) as i16
    } else {
        low as i16
    }
}

/// The scroll movement of the low four bits of the fourth byte.
pub open spec fn scroll_of(b: u8) -> ScrollType {
    if b % 16 == 1 {
        ScrollType::VerticalUp
    } else if b % 16 == 15 {
        ScrollType::VerticalDown
    } else if b % 16 == 2 {
        ScrollType::HorizontalRight
    } else if b % 16 == 14 {
        ScrollType::HorizontalNegative
    } else {
        ScrollType::NoScroll
    }
}

/// The event of a packet; none when either motion overflowed. A mouse
/// without the fourth byte reads as one whose fourth byte is zero.
pub open spec fn packet_event(d0: u8, d1: u8, d2: u8, d3: u8) -> Option<MouseEvent> {
    if (d0 / 64) % 2 == 1 || d0 >= 128 {
        None
    } else {
        Some(
            MouseEvent {
                x: motion(d1, (d0 / 16) % 2 == 1),
                y: motion(d2, (d0 / 32) % 2 == 1),
                buttons: (d0 % 8 + ((d3 / 16) % 4) * 8) as u8,
                scroll_type: scroll_of(d3),
            },
        )
    }
}

fn signed_motion(low: u8, negative: bool) -> (r: i16)
    ensures
        r == motion(low, negative),
{
    if negative {
        low as i16 - 256
    } else {
        low as i16
    }
}

/// Decodes a movement packet; `data[3]` is zero for a mouse that sends
/// three bytes.
pub fn decode_packet(data: [u8; 4]) -> (r: Option<MouseEvent>)
    ensures
        r == packet_event(data[0], data[1], data[2], data[3]),
{
    let d0 = data[0];
    let d3 = data[3];
    proof {
        crate::bits::lemma_u8(d0);
        crate::bits::lemma_u8(d3);
    }
    if d0 & packet::X_OVERFLOW != 0 || d0 & packet::Y_OVERFLOW != 0 {
        return None;
    }

    // the three main buttons, then the 4th/5th from the fourth byte
    let buttons = (d0 & 0b111) + ((d3 >> 4) & 0b11) * 8;
    let x = signed_motion(data[1], d0 & packet::X_SIGN != 0);
    let y = signed_motion(data[2], d0 & packet::Y_SIGN != 0);

    let low = d3 & 0b1111;
    let scroll_type = if low == 1 {
        ScrollType::VerticalUp
    } else if low == 0xF {
        ScrollType::VerticalDown
    } else if low == 2 {
        ScrollType::HorizontalRight
    } else if low == 0xE {
        ScrollType::HorizontalNegative
    } else {
        ScrollType::NoScroll
    };

    Some(MouseEvent { x, y, buttons, scroll_type })
}

/// What a packet reads as, bit by bit: it is dropped exactly when an
/// overflow bit of the first byte (0x40 or 0x80) is set. Otherwise the x
/// motion is the second byte read as a nine-bit two's complement number
/// whose sign is bit 0x10 of the first byte, and the y motion the third
/// byte with sign bit 0x20; the buttons are the low three bits of the first
/// byte and, above them, bits 4 and 5 of the fourth byte; the low four
/// bits of the fourth byte, as a four-bit two's complement step, give the
/// scroll: +1 up, -1 down, +2 right, -2 left, anything else none.
pub proof fn lemma_packet_bits(d0: u8, d1: u8, d2: u8, d3: u8)
    ensures
        packet_event(d0, d1, d2, d3) is None <==> (d0 & 0x40u8 != 0 || d0 & 0x80u8 != 0),
        packet_event(d0, d1, d2, d3) matches Some(ev) ==> {
            &&& ev.x as int == d1 as int - (if d0 & 0x10u8 != 0 { 256int } else { 0int })
            &&& ev.y as int == d2 as int - (if d0 & 0x20u8 != 0 { 256int } else { 0int })
            &&& ev.buttons == (d0 & 0x07u8) | (((d3 >> 4u8) & 0x03u8) << 3u8)
            &&& ev.scroll_type == (if d3 & 0x0Fu8 == 0x01u8 {
                ScrollType::VerticalUp
            } else if d3 & 0x0Fu8 == 0x0Fu8 {
                ScrollType::VerticalDown
            } else if d3 & 0x0Fu8 == 0x02u8 {
                ScrollType::HorizontalRight
            } else if d3 & 0x0Fu8 == 0x0Eu8 {
                ScrollType::HorizontalNegative
            } else {
                ScrollType::NoScroll
            })
        },
{
    crate::bits::lemma_u8(d0);
    crate::bits::lemma_u8(d3);
    let b0 = d0 & 0x07u8;
    let b3 = (d3 >> 4u8) & 0x03u8;
    assert(b0 | (b3 << 3u8) == b0 + b3 * 8) by (bit_vector)
        requires
            b0 < 8,
            b3 < 4,
    ;
}

/// Which device id the setup is waiting for.
#[derive(Debug, Clone, Copy, PartialEq, Eq, Structural)]
pub enum SetupStage {
    /// The id read after reset, defaults and streaming were set.
    First,
    /// The id read after the sequence that unlocks the scroll wheel.
    Second,
    /// The id read after the sequence that unlocks the side buttons.
    Third,
}

/// What the setup does with an id.
#[derive(Debug, Clone, Copy)]
pub enum SetupStep {
    /// Set these three sample rates in turn, read the id again and hand it
    /// to the given stage.
    SampleRates([u8; 3], SetupStage),
    /// Done: whether packets carry a fourth byte.
    Finish(bool),
}

/// The rates that turn a standard mouse (id 0) into a scroll mouse (id 3).
pub open spec fn scroll_rates() -> Seq<u8> {
    seq![200u8, 100, 80]
}

/// The rates that turn a scroll mouse (id 3) into a five-button mouse (id 4).
pub open spec fn five_button_rates() -> Seq<u8> {
    seq![200u8, 200, 80]
}

pub open spec fn setup_step_spec(stage: SetupStage, id: u8) -> (Option<(Seq<u8>, SetupStage)>, bool) {
    match stage {
        SetupStage::First => if id != 3 {
            (Some((scroll_rates(), SetupStage::Second)), false)
        } else {
            (Some((five_button_rates(), SetupStage::Third)), false)
        },
        SetupStage::Second => if id == 3 {
            (Some((five_button_rates(), SetupStage::Third)), false)
        } else {
            (None, id == 4)
        },
        SetupStage::Third => (None, id == 3 || id == 4),
    }
}

pub open spec fn step_model(s: SetupStep) -> (Option<(Seq<u8>, SetupStage)>, bool) {
    match s {
        SetupStep::SampleRates(rates, next) => (Some((rates@, next)), false),
        SetupStep::Finish(extra) => (None, extra),
    }
}

/// The next step of the mouse setup for the id read at `stage`: a mouse
/// that is not yet a scroll mouse is asked to become one, a scroll mouse
/// to become a five-button mouse; packets have a fourth byte when the last
/// id is 3 or 4.
pub fn setup_step(stage: SetupStage, id: u8) -> (r: SetupStep)
    ensures
        step_model(r) == setup_step_spec(stage, id),
{
    let scroll = [scaling::PER_SEC_200, scaling::PER_SEC_100, scaling::PER_SEC_80];
    let five = [scaling::PER_SEC_200, scaling::PER_SEC_200, scaling::PER_SEC_80];
    let r = match stage {
        SetupStage::First => if id != 3 {
            SetupStep::SampleRates(scroll, SetupStage::Second)
        } else {
            SetupStep::SampleRates(five, SetupStage::Third)
        },
        SetupStage::Second => if id == 3 {
            SetupStep::SampleRates(five, SetupStage::Third)
        } else {
            SetupStep::Finish(id == 4)
        },
        SetupStage::Third => SetupStep::Finish(id == 3 || id == 4),
    };
    assert(scroll@ =~= scroll_rates());
    assert(five@ =~= five_button_rates());
    r
}

/// The number of ids the setup reads before it finishes, from `stage`,
/// given the ids the mouse answers in turn.
pub open spec fn setup_reads(stage: SetupStage, ids: Seq<u8>) -> Option<(nat, bool)>
    decreases ids.len(),
{
    if ids.len() == 0 {
        None
    } else {
        match setup_step_spec(stage, ids[0]) {
            (Some((_, next)), _) => match setup_reads(next, ids.drop_first()) {
                Some((n, extra)) => Some((n + 1, extra)),
                None => None,
            },
            (None, extra) => Some((1nat, extra)),
        }
    }
}

/// The setup finishes after at most three ids, whatever the mouse answers,
/// and packets have a fourth byte exactly when the last id read is 3 or 4.
pub proof fn lemma_setup_finishes(ids: Seq<u8>)
    requires
        ids.len() >= 3,
    ensures
        setup_reads(SetupStage::First, ids) matches Some((n, extra)) && 1 <= n <= 3 && extra == (
        ids[n - 1] == 3 || ids[n - 1] == 4),
{
    let t1 = ids.drop_first();
    let t2 = t1.drop_first();
    assert(t1[0] == ids[1]);
    assert(t2[0] == ids[2]);
    reveal_with_fuel(setup_reads, 4);
}

// ---------------------------------------------------------------------------
// The event channel

/// The sending side of a `blinkcast` broadcast channel.
#[verifier::external_type_specification]
#[verifier::external_body]
#[verifier::reject_recursive_types(T)]
pub struct ExSender<T>(Sender<T>);

/// The receiving side of a `blinkcast` broadcast channel.
#[verifier::external_type_specification]
#[verifier::external_body]
#[verifier::reject_recursive_types(T)]
pub struct ExReceiver<T>(Receiver<T>);

/// The number of slots of the ring buffer the channel was made with.
pub uninterp spec fn channel_size(s: Sender<MouseEvent>) -> nat;

/// `blinkcast::alloc::Sender::new`: a channel of `size` slots. It panics
/// above the crate's `MAX_LEN` (`2^16 - 1` on 32-bit targets, more on
/// 64-bit ones).
#[verifier::external_body]
fn new_event_channel(size: usize) -> (r: Sender<MouseEvent>)
    requires
        size <= 0xFFFF,
    ensures
        channel_size(r) == size,
{
    Sender::new(size)
}

/// `blinkcast::alloc::Sender::send`: broadcasts `event`, overwriting the
/// oldest one when the buffer is full. It takes the slot by the index
/// modulo the size, so the channel must have a slot. What the readers then
/// receive is not stated: the channel changes behind a shared reference.
#[verifier::external_body]
fn send_event(sender: &Sender<MouseEvent>, event: MouseEvent)
    requires
        channel_size(*sender) > 0,
{
    sender.send(event)
}

/// `blinkcast::alloc::Sender::new_receiver`: a reader that gets the events
/// sent from now on. Nothing is stated of it.
#[verifier::external_body]
fn event_receiver(sender: &Sender<MouseEvent>) -> (r: Receiver<MouseEvent>) {
    sender.new_receiver()
}

/// Reader of mouse events.
pub type MouseReader = Receiver<MouseEvent>;

/// The mouse after its setup, with the channel its events go to.
pub struct Mouse {
    has_extra_byte: bool,
    sender: Sender<MouseEvent>,
}

impl Mouse {
    #[verifier::type_invariant]
    spec fn channel_ready(self) -> bool {
        channel_size(self.sender) == MOUSE_BUFFER_SIZE
    }

    pub closed spec fn extra_byte(self) -> bool {
        self.has_extra_byte
    }

    /// A mouse whose setup ended with `has_extra_byte` (see `setup_step`).
    pub fn new(has_extra_byte: bool) -> (r: Mouse)
        ensures
            r.extra_byte() == has_extra_byte,
    {
        Mouse { has_extra_byte, sender: new_event_channel(MOUSE_BUFFER_SIZE) }
    }

    /// Whether packets have a fourth byte.
    pub fn has_extra_byte(&self) -> (r: bool)
        ensures
            r == self.extra_byte(),
    {
        self.has_extra_byte
    }

    /// How many bytes to read for one packet.
    pub fn packet_len(&self) -> (r: usize)
        ensures
            r == if self.extra_byte() { 4usize } else { 3usize },
    {
        if self.has_extra_byte {
            4
        } else {
            3
        }
    }

    /// A new reader of the events sent from now on.
    pub fn new_receiver(&self) -> (r: MouseReader) {
        event_receiver(&self.sender)
    }

    /// Handles the bytes of one packet (`packet_len` of them; a fourth
    /// byte is ignored unless the mouse sends one): decodes it and, unless
    /// a motion overflowed, broadcasts the event, which is returned.
    pub fn handle_mouse_data(&self, data: [u8; 4]) -> (r: Option<MouseEvent>)
        ensures
            r == packet_event(data[0], data[1], data[2], if self.extra_byte() { data[3] } else { 0 }),
    {
        proof {
            use_type_invariant(self);
        }
        let fourth = if self.has_extra_byte { data[3] } else { 0 };
        let event = decode_packet([data[0], data[1], data[2], fourth]);
        if let Some(e) = event {
            send_event(&self.sender, e);
        }
        event
    }
}

} // verus!
