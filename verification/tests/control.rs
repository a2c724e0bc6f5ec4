use moonshine::control::{
    open_control_frame, parse_control_frame, seal_control_message, ControlAction, ControlChannel,
    CONTROL_TYPE_AUDIO_OR_INPUT, CONTROL_TYPE_FRAME_STATS, CONTROL_TYPE_IDR_OR_TERMINATE,
    CONTROL_TYPE_INVALIDATE_REFERENCE_FRAMES, CONTROL_TYPE_LOSS_STATS, CONTROL_TYPE_RUMBLE,
};
use moonshine::session::NetAddress;

fn addr(port: u16) -> NetAddress {
    NetAddress { ip_hi: 0, ip_lo: 0x7f000001, port }
}

fn key() -> Vec<u8> {
    (0u8..16).collect()
}

/// Sealing a payload and opening the parsed frame yields the payload:
/// encrypt-then-decrypt is the identity.
#[test]
fn seal_open_roundtrip() {
    let payload = b"keyboard input event".to_vec();
    let frame_bytes = seal_control_message(&key(), 42, CONTROL_TYPE_AUDIO_OR_INPUT, &payload).unwrap();
    let frame = parse_control_frame(&frame_bytes).unwrap();
    assert_eq!(frame.type_code, CONTROL_TYPE_AUDIO_OR_INPUT);
    assert_eq!(frame.counter, 42);
    let opened = open_control_frame(&key(), &frame).unwrap();
    assert_eq!(opened, payload);
}

/// The ciphertext differs from the plaintext, and decrypting with
/// openssl directly gives the plaintext back.
#[test]
fn seal_really_encrypts() {
    let payload = b"0123456789abcdefXYZ".to_vec();
    let frame_bytes = seal_control_message(&key(), 7, CONTROL_TYPE_LOSS_STATS, &payload).unwrap();
    let frame = parse_control_frame(&frame_bytes).unwrap();
    assert_ne!(frame.ciphertext, payload);
    let mut iv = vec![7u8, 0, 0, 0];
    iv.extend_from_slice(&[0u8; 8]);
    let plain = openssl::symm::decrypt_aead(
        openssl::symm::Cipher::aes_128_gcm(),
        &key(),
        Some(&iv),
        &[],
        &frame.ciphertext,
        &frame.tag,
    )
    .unwrap();
    assert_eq!(plain, payload);
}

/// The client address is learned from PING, and a termination is
/// honoured only from that address.
#[test]
fn termination_address_gate() {
    let mut channel = ControlChannel::new(key());
    let termination = seal_control_message(&key(), 1, CONTROL_TYPE_IDR_OR_TERMINATE, &vec![0u8; 4]).unwrap();

    // Before any ping, termination is ignored.
    let action = channel.handle_datagram(addr(1000), &termination);
    assert!(matches!(action, ControlAction::Ignore));

    // The ping reveals the client's address.
    let action = channel.handle_datagram(addr(1000), &b"PING".to_vec());
    assert!(matches!(action, ControlAction::Ignore));
    assert_eq!(channel.client_address, Some(addr(1000)));

    // A termination from another peer is ignored.
    let action = channel.handle_datagram(addr(2000), &termination);
    assert!(matches!(action, ControlAction::Ignore));

    // From the pinged address it is honoured.
    let action = channel.handle_datagram(addr(1000), &termination);
    assert!(matches!(action, ControlAction::Termination));
}

/// Empty payloads select the short form of the overloaded type codes.
#[test]
fn message_classification() {
    let mut channel = ControlChannel::new(key());
    channel.handle_datagram(addr(9), &b"PING".to_vec());

    let start_audio = seal_control_message(&key(), 2, CONTROL_TYPE_AUDIO_OR_INPUT, &Vec::new()).unwrap();
    assert!(matches!(
        channel.handle_datagram(addr(9), &start_audio),
        ControlAction::StartAudio
    ));

    let input = seal_control_message(&key(), 3, CONTROL_TYPE_AUDIO_OR_INPUT, &vec![1, 2, 3]).unwrap();
    match channel.handle_datagram(addr(9), &input) {
        ControlAction::InputData(data) => assert_eq!(data, vec![1, 2, 3]),
        other => panic!("unexpected action {:?}", action_name(&other)),
    }

    let idr = seal_control_message(&key(), 4, CONTROL_TYPE_IDR_OR_TERMINATE, &Vec::new()).unwrap();
    assert!(matches!(
        channel.handle_datagram(addr(9), &idr),
        ControlAction::RequestIdr
    ));

    let invalidate = seal_control_message(&key(), 5, CONTROL_TYPE_INVALIDATE_REFERENCE_FRAMES, &vec![0u8; 8]).unwrap();
    assert!(matches!(
        channel.handle_datagram(addr(9), &invalidate),
        ControlAction::RequestIdr
    ));

    let loss_stats = seal_control_message(&key(), 6, CONTROL_TYPE_LOSS_STATS, &vec![0u8; 16]).unwrap();
    assert!(matches!(
        channel.handle_datagram(addr(9), &loss_stats),
        ControlAction::Ignore
    ));

    let frame_stats =
        seal_control_message(&key(), 7, CONTROL_TYPE_FRAME_STATS, &vec![0u8; 16]).unwrap();
    assert!(matches!(
        channel.handle_datagram(addr(9), &frame_stats),
        ControlAction::Ignore
    ));

    let rumble = seal_control_message(&key(), 8, CONTROL_TYPE_RUMBLE, &vec![0u8; 4]).unwrap();
    assert!(matches!(
        channel.handle_datagram(addr(9), &rumble),
        ControlAction::Ignore
    ));
}

fn action_name(action: &ControlAction) -> &'static str {
    match action {
        ControlAction::Ignore => "ignore",
        ControlAction::StartAudio => "start-audio",
        ControlAction::RequestIdr => "request-idr",
        ControlAction::InputData(_) => "input-data",
        ControlAction::Termination => "termination",
        ControlAction::SessionFatal => "session-fatal",
    }
}

/// A sustained decryption failure rate over one half of a hundred
/// packets is fatal to the session.
#[test]
fn failure_window() {
    let mut channel = ControlChannel::new(key());
    // Frames sealed under a different key cannot be opened.
    let wrong_key: Vec<u8> = (100u8..116).collect();
    let mut fatal_seen = false;
    for i in 0..100u32 {
        let frame = seal_control_message(&wrong_key, i, CONTROL_TYPE_LOSS_STATS, &vec![0u8; 8]).unwrap();
        match channel.handle_datagram(addr(5), &frame) {
            ControlAction::SessionFatal => {
                assert_eq!(i, 99);
                fatal_seen = true;
            },
            ControlAction::Ignore => (),
            _ => panic!("unexpected action"),
        }
    }
    assert!(fatal_seen);
    assert_eq!(channel.window_total, 0);
    assert_eq!(channel.window_failures, 0);
}

/// A malformed datagram is dropped without touching the window.
#[test]
fn malformed_dropped() {
    let mut channel = ControlChannel::new(key());
    let action = channel.handle_datagram(addr(5), &vec![1, 2, 3]);
    assert!(matches!(action, ControlAction::Ignore));
    assert_eq!(channel.window_total, 0);
}
