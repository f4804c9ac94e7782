use emerald_kernel::devices::mouse::{
    decode_packet, setup_step, Mouse, MouseEvent, ScrollType, SetupStage, SetupStep,
    MOUSE_BUFFER_SIZE, MOUSE_INT_NUM,
};
use emerald_kernel::devices::keyboard::{
    keyboard_step, KeyCode, KeyEvent, Keyboard, KeyboardState, CAPS_LOCK, SHIFT,
};
use emerald_kernel::devices::pipe::{create_pipe_pair, InnerPipe, PipeError, PipeSide};

#[test]
fn mouse_packet_positive_motion() {
    let event = decode_packet([0b0000_1001, 5, 7, 0]).unwrap();
    assert_eq!(
        event,
        MouseEvent { x: 5, y: 7, buttons: 1, scroll_type: ScrollType::NoScroll }
    );
}

#[test]
fn mouse_packet_negative_motion_is_sign_extended() {
    // X_SIGN and Y_SIGN set: 0xFF is -1, 0x80 is -128
    let event = decode_packet([0b0011_1000, 0xFF, 0x80, 0]).unwrap();
    assert_eq!(event.x, -1);
    assert_eq!(event.y, -128);
    assert_eq!(event.buttons, 0);
}

#[test]
fn mouse_packet_overflow_is_dropped() {
    assert_eq!(decode_packet([0x40 | 0x08, 1, 1, 0]), None);
    assert_eq!(decode_packet([0x80 | 0x08, 1, 1, 0]), None);
}

#[test]
fn mouse_packet_side_buttons_and_scroll() {
    // fourth byte: buttons 4 and 5 in bits 4-5, scroll in bits 0-3
    let up = decode_packet([0x0F, 0, 0, 0x31]).unwrap();
    assert_eq!(up.buttons, 0b11111);
    assert_eq!(up.scroll_type, ScrollType::VerticalUp);
    assert_eq!(decode_packet([0x08, 0, 0, 0x0F]).unwrap().scroll_type, ScrollType::VerticalDown);
    assert_eq!(decode_packet([0x08, 0, 0, 0x02]).unwrap().scroll_type, ScrollType::HorizontalRight);
    assert_eq!(
        decode_packet([0x08, 0, 0, 0x0E]).unwrap().scroll_type,
        ScrollType::HorizontalNegative
    );
    assert_eq!(decode_packet([0x08, 0, 0, 0x05]).unwrap().scroll_type, ScrollType::NoScroll);
}

#[test]
fn mouse_without_fourth_byte_ignores_it() {
    let mouse = Mouse::new(false);
    assert_eq!(mouse.packet_len(), 3);
    let event = mouse.handle_mouse_data([0x09, 2, 3, 0x31]).unwrap();
    assert_eq!(event.buttons, 1);
    assert_eq!(event.scroll_type, ScrollType::NoScroll);

    let wheel = Mouse::new(true);
    assert_eq!(wheel.packet_len(), 4);
    let event = wheel.handle_mouse_data([0x09, 2, 3, 0x31]).unwrap();
    assert_eq!(event.buttons, 0b11001);
    assert_eq!(event.scroll_type, ScrollType::VerticalUp);
}

#[test]
fn mouse_events_reach_receivers() {
    let mouse = Mouse::new(true);
    let mut reader = mouse.new_receiver();
    assert_eq!(reader.recv(), None);
    let sent = mouse.handle_mouse_data([0x08, 4, 0xFC, 0]).unwrap();
    assert_eq!(reader.recv(), Some(sent));
    // an overflowing packet sends nothing
    assert_eq!(mouse.handle_mouse_data([0x48, 4, 4, 0]), None);
    assert_eq!(reader.recv(), None);
    assert_eq!(MOUSE_BUFFER_SIZE, 1024);
    assert_eq!(MOUSE_INT_NUM, 12);
}

#[test]
fn mouse_setup_standard_mouse() {
    // id 0 stays 0 after both sequences: three bytes per packet
    match setup_step(SetupStage::First, 0) {
        SetupStep::SampleRates(rates, next) => {
            assert_eq!(rates, [200, 100, 80]);
            assert_eq!(next, SetupStage::Second);
        }
        SetupStep::Finish(_) => panic!("should ask for the scroll wheel"),
    }
    assert!(matches!(setup_step(SetupStage::Second, 0), SetupStep::Finish(false)));
}

#[test]
fn mouse_setup_five_button_mouse() {
    match setup_step(SetupStage::Second, 3) {
        SetupStep::SampleRates(rates, next) => {
            assert_eq!(rates, [200, 200, 80]);
            assert_eq!(next, SetupStage::Third);
        }
        SetupStep::Finish(_) => panic!("should ask for the side buttons"),
    }
    assert!(matches!(setup_step(SetupStage::Third, 4), SetupStep::Finish(true)));
    assert!(matches!(setup_step(SetupStage::Third, 3), SetupStep::Finish(true)));
    assert!(matches!(setup_step(SetupStage::Third, 0), SetupStep::Finish(false)));
    // a mouse that is a scroll mouse from the start skips the first sequence
    assert!(matches!(
        setup_step(SetupStage::First, 3),
        SetupStep::SampleRates([200, 200, 80], SetupStage::Third)
    ));
}

#[test]
fn pipe_bytes_come_out_in_order() {
    let (mut pipe, reader, writer) = create_pipe_pair();
    assert!(reader.is_read_side);
    assert!(!writer.is_read_side);
    assert_eq!(writer.write(&mut pipe, b"hello"), Ok(5));
    assert_eq!(writer.write(&mut pipe, b" world"), Ok(6));
    assert_eq!(reader.read(&mut pipe, 3), Ok(b"hel".to_vec()));
    assert_eq!(reader.read(&mut pipe, 100), Ok(b"lo world".to_vec()));
    assert_eq!(reader.read(&mut pipe, 100), Ok(Vec::new()));
    assert_eq!(reader.name(), "pipe");
}

#[test]
fn pipe_wrong_side_errors() {
    let mut pipe = InnerPipe::new();
    let reader = PipeSide { is_read_side: true };
    let writer = PipeSide { is_read_side: false };
    assert_eq!(reader.write(&mut pipe, b"x"), Err(PipeError::WriteNotSupported));
    assert_eq!(writer.read(&mut pipe, 1), Err(PipeError::ReadNotSupported));
}

#[test]
fn pipe_closed_side_gives_end_of_file() {
    let (mut pipe, reader, writer) = create_pipe_pair();
    assert_eq!(writer.write(&mut pipe, b"abc"), Ok(3));
    assert_eq!(writer.close(&mut pipe), Ok(()));
    // pending bytes are not read once the writer is gone
    assert_eq!(reader.read(&mut pipe, 3), Err(PipeError::EndOfFile));

    let (mut pipe, reader, writer) = create_pipe_pair();
    assert_eq!(reader.close(&mut pipe), Ok(()));
    assert_eq!(writer.write(&mut pipe, b"abc"), Err(PipeError::EndOfFile));
}

fn run_keys(bytes: &[u8]) -> (KeyboardState, Vec<KeyEvent>) {
    let mut s = KeyboardState { held: 0, toggles: 0, extended: false };
    let mut events = Vec::new();
    for b in bytes {
        let (ns, e) = keyboard_step(s, *b);
        s = ns;
        if let Some(e) = e {
            events.push(e);
        }
    }
    (s, events)
}

#[test]
fn plain_key_press_and_release() {
    let (_, events) = run_keys(&[0x1E, 0x9E]);
    assert_eq!(
        events,
        vec![
            KeyEvent { pressed: true, modifiers: 0, key: KeyCode::Plain(0x1E) },
            KeyEvent { pressed: false, modifiers: 0, key: KeyCode::Plain(0x1E) },
        ]
    );
}

#[test]
fn shift_is_held_while_pressed() {
    let (s, events) = run_keys(&[0x2A, 0x1E, 0xAA, 0x1E]);
    assert_eq!(events[0], KeyEvent { pressed: true, modifiers: SHIFT, key: KeyCode::Plain(0x2A) });
    assert_eq!(events[1], KeyEvent { pressed: true, modifiers: SHIFT, key: KeyCode::Plain(0x1E) });
    assert_eq!(events[2], KeyEvent { pressed: false, modifiers: 0, key: KeyCode::Plain(0x2A) });
    assert_eq!(events[3], KeyEvent { pressed: true, modifiers: 0, key: KeyCode::Plain(0x1E) });
    assert_eq!(s.held, 0);
}

#[test]
fn caps_lock_toggles_once_per_press() {
    // press, repeat while held, release: one toggle
    let (s, _) = run_keys(&[0x3A, 0x3A, 0xBA]);
    assert_eq!(s.toggles, CAPS_LOCK);
    let (_, events) = run_keys(&[0x3A, 0xBA, 0x1E]);
    assert_eq!(events[2].modifiers, CAPS_LOCK);
    // a second press turns it off
    let (s, _) = run_keys(&[0x3A, 0xBA, 0x3A, 0xBA]);
    assert_eq!(s.toggles, 0);
}

#[test]
fn extended_keys() {
    let (s, events) = run_keys(&[0xE0, 0x48, 0xE0, 0xC8, 0xE0, 0x01]);
    assert_eq!(
        events,
        vec![
            KeyEvent { pressed: true, modifiers: 0, key: KeyCode::Extended(0x48) },
            KeyEvent { pressed: false, modifiers: 0, key: KeyCode::Extended(0x48) },
        ]
    );
    assert!(!s.extended);
}

#[test]
fn keyboard_handles_bytes() {
    let mut k = Keyboard::new();
    let _reader = k.new_receiver();
    assert_eq!(k.handle_keyboard_data(0x2A), Some(KeyEvent { pressed: true, modifiers: SHIFT, key: KeyCode::Plain(0x2A) }));
    assert_eq!(k.modifiers(), SHIFT);
    assert_eq!(k.handle_keyboard_data(0xE0), None);
    assert_eq!(k.handle_keyboard_data(0x1C), Some(KeyEvent { pressed: true, modifiers: SHIFT, key: KeyCode::Extended(0x1C) }));
    assert_eq!(k.handle_keyboard_data(0x59), None);
}
