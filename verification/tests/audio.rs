use moonshine::audio::{AudioPacketizer, AudioStreamContext};

/// Opus packets are wrapped in the fixed 16-byte header with the
/// sequence number advancing per packet.
#[test]
fn audio_packetize() {
    let mut packetizer = AudioPacketizer::new();
    let opus = vec![0x11u8, 0x22, 0x33];
    let (packet, parity) = packetizer.packetize(&opus, 5);
    assert_eq!(packet.sequence_number, 0);
    assert!(parity.is_empty());
    assert_eq!(packet.data.len(), 16 + 3);
    assert_eq!(&packet.data[0..4], &[0, 0, 0, 0]);
    assert_eq!(&packet.data[4..8], &[3, 0, 0, 0]);
    assert_eq!(&packet.data[8..12], &[5, 0, 0, 0]);
    assert_eq!(&packet.data[12..16], &[0, 0, 0, 0]);
    assert_eq!(&packet.data[16..], &opus[..]);

    let (packet, parity) = packetizer.packetize(&opus, 5);
    assert_eq!(packet.sequence_number, 1);
    assert!(parity.is_empty());
    assert_eq!(&packet.data[0..4], &[1, 0, 0, 0]);
}

/// Every fourth frame completes the window: two parity shards follow,
/// numbered in sequence, and any four of the six shards rebuild the
/// four frames.
#[test]
fn audio_fec_window() {
    let mut packetizer = AudioPacketizer::new();
    let frames: Vec<Vec<u8>> = vec![
        vec![1, 2, 3],
        vec![4, 5],
        vec![6, 7, 8, 9],
        vec![10],
    ];
    let mut parity_packets = Vec::new();
    for (i, frame) in frames.iter().enumerate() {
        let (packet, parity) = packetizer.packetize(frame, 5);
        assert_eq!(packet.sequence_number, i as u32);
        if i < 3 {
            assert!(parity.is_empty());
        } else {
            parity_packets = parity;
        }
    }
    assert_eq!(parity_packets.len(), 2);
    assert_eq!(parity_packets[0].sequence_number, 4);
    assert_eq!(parity_packets[1].sequence_number, 5);
    // The parity payload length is the window's longest frame.
    assert_eq!(&parity_packets[0].data[4..8], &[4, 0, 0, 0]);
    assert_eq!(parity_packets[0].data.len(), 16 + 4);
    // The sixth packet continues the sequence.
    let (packet, _) = packetizer.packetize(&vec![9u8], 5);
    assert_eq!(packet.sequence_number, 6);

    // Any four of the six shards rebuild the padded frames.
    let codec = reed_solomon_erasure::ReedSolomon::<reed_solomon_erasure::galois_8::Field>::new(
        4, 2,
    )
    .unwrap();
    let padded: Vec<Vec<u8>> = frames
        .iter()
        .map(|f| {
            let mut p = f.clone();
            p.resize(4, 0);
            p
        })
        .collect();
    let mut shards: Vec<Option<Vec<u8>>> = padded.iter().map(|p| Some(p.clone())).collect();
    shards.push(Some(parity_packets[0].data[16..].to_vec()));
    shards.push(Some(parity_packets[1].data[16..].to_vec()));
    shards[0] = None;
    shards[2] = None;
    codec.reconstruct(&mut shards).unwrap();
    assert_eq!(shards[0].as_ref().unwrap(), &padded[0]);
    assert_eq!(shards[2].as_ref().unwrap(), &padded[2]);
}

/// The negotiated audio parameters carry over unchanged.
#[test]
fn audio_context_fields() {
    let context = AudioStreamContext { packet_duration: 5, qos: true };
    assert_eq!(context.packet_duration, 5);
    assert!(context.qos);
}
