use moonshine::video::{
    encode_video_header, fec_shard_count, fragment_payload, VideoPacketHeader, VideoPacketizer,
    FLAG_END_OF_FRAME, FLAG_IDR, FLAG_START_OF_FRAME,
};

/// With no configured minimum, the parity count falls back to the
/// rounded-up percentage of the data shards.
#[test]
fn fec_fallback_without_minimum() {
    assert_eq!(fec_shard_count(10, 0, 20), 2);
    assert_eq!(fec_shard_count(3, 0, 20), 1);
    assert_eq!(fec_shard_count(5, 0, 0), 0);
    assert_eq!(fec_shard_count(100, 0, 33), 33);
}

/// The configured minimum wins when it is larger.
#[test]
fn fec_minimum_wins() {
    assert_eq!(fec_shard_count(10, 5, 20), 5);
    assert_eq!(fec_shard_count(10, 1, 20), 2);
}

/// The formula holds over the whole input range, not just the shard
/// counts a frame can produce.
#[test]
fn fec_extreme_inputs() {
    assert_eq!(fec_shard_count(u32::MAX, 0, 100), u32::MAX as u64);
    assert_eq!(
        fec_shard_count(u32::MAX, 0, u32::MAX),
        ((u32::MAX as u64) * (u32::MAX as u64) + 99) / 100
    );
    assert_eq!(fec_shard_count(0, 7, 20), 7);
}

/// Fragmentation cuts the payload in order, the last shard short.
#[test]
fn fragmentation() {
    let payload: Vec<u8> = (0u8..10).collect();
    let chunks = fragment_payload(&payload, 4);
    assert_eq!(chunks.len(), 3);
    assert_eq!(chunks[0], vec![0, 1, 2, 3]);
    assert_eq!(chunks[1], vec![4, 5, 6, 7]);
    assert_eq!(chunks[2], vec![8, 9]);
    let empty = fragment_payload(&Vec::new(), 4);
    assert_eq!(empty.len(), 0);
}

/// A frame is packetised into data and parity shards with counted,
/// flagged headers and consecutive sequence numbers.
#[test]
fn packetize_with_parity() {
    let mut packetizer = VideoPacketizer::new();
    let payload: Vec<u8> = (0..2500u32).map(|i| (i % 251) as u8).collect();
    let packets = packetizer.packetize_frame(&payload, 1024, 2, 20);
    // 3 data shards; parity = max(2, ceil(3 * 20 / 100)) = 2.
    assert_eq!(packets.len(), 5);
    for (i, packet) in packets.iter().enumerate() {
        assert_eq!(packet.header.frame_number, 0);
        assert_eq!(packet.header.shard_index, i as u32);
        assert_eq!(packet.header.data_shards, 3);
        assert_eq!(packet.header.total_shards, 5);
        assert_eq!(packet.header.sequence_number, i as u32);
        assert_eq!(packet.data.len(), 1024);
    }
    assert_eq!(packets[0].header.flags, FLAG_START_OF_FRAME);
    assert_eq!(packets[1].header.flags, 0);
    assert_eq!(packets[2].header.flags, FLAG_END_OF_FRAME);
    assert_eq!(packets[3].header.flags, 0);
    assert_eq!(packets[4].header.flags, 0);
    assert_eq!(packets[0].header.payload_length, 1024);
    assert_eq!(packets[2].header.payload_length, 2500 - 2048);
    // The data shards carry the payload in order.
    let mut reassembled = Vec::new();
    for packet in packets.iter().take(3) {
        reassembled.extend_from_slice(&packet.data);
    }
    reassembled.truncate(2500);
    assert_eq!(reassembled, payload);
    assert_eq!(packetizer.frame_number, 1);
    assert_eq!(packetizer.sequence_number, 5);
}

/// Any `data_shards` of the emitted shards suffice to reconstruct the
/// frame: drop a data shard and rebuild it from the rest.
#[test]
fn reconstruct_from_any_shards() {
    let mut packetizer = VideoPacketizer::new();
    let payload: Vec<u8> = (0..3000u32).map(|i| (i * 7 % 256) as u8).collect();
    let packets = packetizer.packetize_frame(&payload, 1024, 2, 20);
    let data_shards = 3usize;
    let parity_shards = packets.len() - data_shards;
    let codec = reed_solomon_erasure::ReedSolomon::<reed_solomon_erasure::galois_8::Field>::new(
        data_shards,
        parity_shards,
    )
    .unwrap();
    let mut shards: Vec<Option<Vec<u8>>> =
        packets.iter().map(|p| Some(p.data.clone())).collect();
    // Lose one data shard and one parity shard.
    shards[1] = None;
    shards[4] = None;
    codec.reconstruct(&mut shards).unwrap();
    assert_eq!(shards[1].as_ref().unwrap(), &packets[1].data);
    let mut reassembled = Vec::new();
    for shard in shards.iter().take(data_shards) {
        reassembled.extend_from_slice(shard.as_ref().unwrap());
    }
    reassembled.truncate(3000);
    assert_eq!(reassembled, payload);
}

/// After an IDR request, the next frame carries the IDR flag on its
/// data shards and the request is consumed.
#[test]
fn idr_on_demand() {
    let mut packetizer = VideoPacketizer::new();
    let payload = vec![1u8; 100];
    let packets = packetizer.packetize_frame(&payload, 64, 0, 0);
    assert_eq!(packets[0].header.flags & FLAG_IDR, 0);

    packetizer.request_idr_frame();
    let packets = packetizer.packetize_frame(&payload, 64, 0, 0);
    assert_eq!(packets.len(), 2);
    assert_ne!(packets[0].header.flags & FLAG_IDR, 0);
    assert_ne!(packets[1].header.flags & FLAG_IDR, 0);

    let packets = packetizer.packetize_frame(&payload, 64, 0, 0);
    assert_eq!(packets[0].header.flags & FLAG_IDR, 0);
}

/// The wire header is 56 bytes with the fields at their offsets.
#[test]
fn header_layout() {
    let header = VideoPacketHeader {
        frame_number: 0x01020304,
        shard_index: 5,
        data_shards: 6,
        total_shards: 8,
        flags: FLAG_START_OF_FRAME | FLAG_IDR,
        sequence_number: 0xA0B0C0D0,
        payload_length: 1024,
    };
    let bytes = encode_video_header(&header);
    assert_eq!(bytes.len(), 56);
    assert_eq!(&bytes[0..4], &[0x04, 0x03, 0x02, 0x01]);
    assert_eq!(&bytes[4..8], &[5, 0, 0, 0]);
    assert_eq!(&bytes[8..12], &[6, 0, 0, 0]);
    assert_eq!(&bytes[12..16], &[8, 0, 0, 0]);
    assert_eq!(bytes[16], FLAG_START_OF_FRAME | FLAG_IDR);
    assert_eq!(&bytes[20..24], &[0xD0, 0xC0, 0xB0, 0xA0]);
    assert_eq!(&bytes[24..28], &[0, 4, 0, 0]);
    assert!(bytes[28..].iter().all(|b| *b == 0));
}
