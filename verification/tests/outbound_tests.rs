use hqm_bot::game::HQMPlayerInput;
use hqm_bot::outbound::{encode_join, encode_update, input_flags};

#[test]
fn join_request_layout() {
    let mut expected = b"Hock".to_vec();
    expected.push(2);
    expected.push(55);
    expected.extend_from_slice(b"bot");
    expected.extend_from_slice(&[0u8; 29]);
    assert_eq!(encode_join("bot"), expected);
    assert_eq!(encode_join("bot").len(), 38);
}

#[test]
fn join_request_cuts_long_names() {
    let name = "0123456789abcdefghijklmnopqrstuvwxyz";
    let datagram = encode_join(name);
    assert_eq!(datagram.len(), 38);
    assert_eq!(&datagram[6..], &name.as_bytes()[..32]);
}

#[test]
fn join_request_with_exact_and_empty_name() {
    let name = "0123456789abcdefghijklmnopqrstuv";
    assert_eq!(&encode_join(name)[6..], name.as_bytes());
    assert_eq!(&encode_join("")[6..], &[0u8; 32]);
}

#[test]
fn default_input_is_idle() {
    let input = HQMPlayerInput::default();
    assert_eq!(input.stick_angle, 0);
    assert_eq!(input.turn, 0);
    assert_eq!(input.unknown, 0);
    assert_eq!(input.fwbw, 0);
    assert_eq!(input.stick, (0, 0));
    assert_eq!(input.head_rot, 0);
    assert_eq!(input.body_rot, 0);
    assert!(!input.shift_rotate && !input.crouch && !input.jump);
    assert!(!input.join_red && !input.join_blue && !input.spectate);
    assert_eq!(f32::from_bits(input.stick_angle), 0.0);
}

#[test]
fn flags_have_their_bits() {
    let idle = HQMPlayerInput::default();
    assert_eq!(input_flags(&idle), 0);
    assert_eq!(input_flags(&HQMPlayerInput { jump: true, ..idle }), 0x1);
    assert_eq!(input_flags(&HQMPlayerInput { crouch: true, ..idle }), 0x2);
    assert_eq!(input_flags(&HQMPlayerInput { join_red: true, ..idle }), 0x4);
    assert_eq!(input_flags(&HQMPlayerInput { join_blue: true, ..idle }), 0x8);
    assert_eq!(input_flags(&HQMPlayerInput { shift_rotate: true, ..idle }), 0x10);
    assert_eq!(input_flags(&HQMPlayerInput { spectate: true, ..idle }), 0x20);
    assert_eq!(input_flags(&HQMPlayerInput { jump: true, spectate: true, ..idle }), 0x21);
    let all = HQMPlayerInput {
        jump: true,
        crouch: true,
        join_red: true,
        join_blue: true,
        shift_rotate: true,
        spectate: true,
        ..idle
    };
    assert_eq!(input_flags(&all), 0x3f);
}

#[test]
fn update_without_chat() {
    let datagram = encode_update(42, &HQMPlayerInput::default(), 7, 3, 5, &None);
    let mut expected = b"Hock".to_vec();
    expected.push(4);
    expected.extend_from_slice(&[42, 0, 0, 0]);
    expected.extend_from_slice(&[0u8; 32]);
    expected.extend_from_slice(&[0u8; 4]);
    expected.extend_from_slice(&[7, 0, 0, 0]);
    expected.extend_from_slice(&[3, 0]);
    expected.push(0);
    assert_eq!(datagram, expected);
    assert_eq!(datagram.len(), 52);
}

#[test]
fn update_carries_input_channels_in_order() {
    let input = HQMPlayerInput {
        stick_angle: 1.5f32.to_bits(),
        turn: (-1.0f32).to_bits(),
        unknown: 3,
        fwbw: 1.0f32.to_bits(),
        stick: (0.25f32.to_bits(), 0.75f32.to_bits()),
        head_rot: 7,
        body_rot: 8,
        shift_rotate: false,
        crouch: true,
        jump: true,
        join_red: false,
        join_blue: false,
        spectate: false,
    };
    let datagram = encode_update(0x0102_0304, &input, 0xffff_ffff, 0xabcd, 0, &None);
    assert_eq!(&datagram[0..5], b"Hock\x04");
    assert_eq!(&datagram[5..9], &[4, 3, 2, 1]);
    assert_eq!(&datagram[9..13], &1.5f32.to_le_bytes());
    assert_eq!(&datagram[13..17], &(-1.0f32).to_le_bytes());
    assert_eq!(&datagram[17..21], &[3, 0, 0, 0]);
    assert_eq!(&datagram[21..25], &1.0f32.to_le_bytes());
    assert_eq!(&datagram[25..29], &0.25f32.to_le_bytes());
    assert_eq!(&datagram[29..33], &0.75f32.to_le_bytes());
    assert_eq!(&datagram[33..37], &[7, 0, 0, 0]);
    assert_eq!(&datagram[37..41], &[8, 0, 0, 0]);
    assert_eq!(&datagram[41..45], &[3, 0, 0, 0]);
    assert_eq!(&datagram[45..49], &[0xff, 0xff, 0xff, 0xff]);
    assert_eq!(&datagram[49..51], &[0xcd, 0xab]);
    assert_eq!(&datagram[51..], &[0]);
}

#[test]
fn update_with_chat() {
    let chat = Some("hi".to_string());
    let datagram = encode_update(1, &HQMPlayerInput::default(), 2, 3, 5, &chat);
    assert_eq!(datagram.len(), 55);
    assert_eq!(datagram[51], 1 + 2 * 5 + 16 * 2);
    assert_eq!(datagram[52], 0);
    assert_eq!(&datagram[53..], b"hi");
}

#[test]
fn update_with_empty_chat() {
    let chat = Some(String::new());
    let datagram = encode_update(1, &HQMPlayerInput::default(), 2, 3, 0, &chat);
    assert_eq!(&datagram[51..], &[1, 0]);
}

#[test]
fn update_chat_length_spans_two_bytes() {
    let text = "x".repeat(100);
    let datagram = encode_update(1, &HQMPlayerInput::default(), 2, 3, 7, &Some(text.clone()));
    assert_eq!(datagram[51], 1 + 2 * 7 + 16 * (100 % 16));
    assert_eq!(datagram[52], 100 / 16);
    assert_eq!(&datagram[53..], text.as_bytes());
}

#[test]
fn update_chat_is_cut_to_255_bytes() {
    let text = "y".repeat(300);
    let datagram = encode_update(1, &HQMPlayerInput::default(), 2, 3, 1, &Some(text.clone()));
    assert_eq!(datagram.len(), 51 + 2 + 255);
    assert_eq!(datagram[51], 1 + 2 + 16 * 15);
    assert_eq!(datagram[52], 15);
    assert_eq!(&datagram[53..], &text.as_bytes()[..255]);
    let exact = "z".repeat(255);
    let datagram = encode_update(1, &HQMPlayerInput::default(), 2, 3, 1, &Some(exact.clone()));
    assert_eq!(&datagram[53..], exact.as_bytes());
}

#[test]
fn update_chat_sequence_number_travels_modulo_8() {
    let chat = Some("a".to_string());
    let low = encode_update(1, &HQMPlayerInput::default(), 2, 3, 3, &chat);
    let high = encode_update(1, &HQMPlayerInput::default(), 2, 3, 11, &chat);
    assert_eq!(low, high);
    assert_eq!(low[51], 1 + 2 * 3 + 16);
}
