//! Audio streaming: stream parameters and the packetiser that wraps
//! Opus packets in the fixed 16-byte audio header, with Reed-Solomon
//! parity over a sliding window of four audio frames.

use vstd::prelude::*;

use crate::video::{le_byte, rs_config_ok, rs_parity, rs_parity_of, shard_views, wrap_add};

verus! {

/// How many audio frames one parity window covers.
pub const AUDIO_FEC_WINDOW: usize = 4;

/// How many parity shards each full window emits.
pub const AUDIO_FEC_SHARDS: usize = 2;

/// Stream parameters extracted from the client's session description.
#[derive(Clone, Copy, Debug, PartialEq, Eq, Structural)]
pub struct AudioStreamContext {
    /// Duration of one Opus packet in milliseconds.
    pub packet_duration: u32,
    /// Set the IP type-of-service byte on the audio socket when true.
    pub qos: bool,
}

/// The fixed 16-byte audio header: sequence number, payload length and
/// packet duration, little endian, then four reserved zero bytes.
pub open spec fn audio_header_bytes(sequence: u32, payload_len: u32, duration: u32) -> Seq<u8> {
    Seq::new(16, |i: int|
        if i < 4 {
            le_byte(sequence, i)
        } else if i < 8 {
            le_byte(payload_len, i - 4)
        } else if i < 12 {
            le_byte(duration, i - 8)
        } else {
            0
        })
}

/// The longest shard in a window.
pub open spec fn max_shard_len(w: Seq<Seq<u8>>) -> int
    decreases w.len(),
{
    if w.len() == 0 {
        0
    } else if w[0].len() as int >= max_shard_len(w.drop_first()) {
        w[0].len() as int
    } else {
        max_shard_len(w.drop_first())
    }
}

/// Every shard padded with zeroes to the window's longest length.
pub open spec fn pad_shards(w: Seq<Seq<u8>>, len: int) -> Seq<Seq<u8>> {
    w.map_values(|s: Seq<u8>| s + Seq::new((len - s.len()) as nat, |j: int| 0u8))
}

/// No shard outgrows the window maximum.
proof fn lemma_max_shard_len(w: Seq<Seq<u8>>)
    ensures
        forall|i: int| 0 <= i < w.len() ==> (#[trigger] w[i]).len() <= max_shard_len(w),
        max_shard_len(w) >= 0,
        w.len() > 0 ==> exists|i: int| 0 <= i < w.len() && (#[trigger] w[i]).len()
            == max_shard_len(w),
    decreases w.len(),
{
    if w.len() > 0 {
        lemma_max_shard_len(w.drop_first());
        assert forall|i: int| 0 <= i < w.len() implies (#[trigger] w[i]).len() <= max_shard_len(
            w,
        ) by {
            if i > 0 {
                assert(w[i] == w.drop_first()[i - 1]);
            }
        }
        if w[0].len() as int >= max_shard_len(w.drop_first()) {
            assert(w[0].len() == max_shard_len(w));
        } else {
            let j = choose|j: int|
                0 <= j < w.drop_first().len() && (#[trigger] w.drop_first()[j]).len()
                    == max_shard_len(w.drop_first());
            assert(w[j + 1].len() == max_shard_len(w));
        }
    }
}

/// One audio packet: the headed wire datagram.
pub struct AudioPacket {
    pub sequence_number: u32,
    pub data: Vec<u8>,
}

/// The audio packetiser: a sequence counter and the sliding window of
/// the frames the next parity shards will cover.
pub struct AudioPacketizer {
    pub sequence_number: u32,
    pub window: Vec<Vec<u8>>,
}

impl AudioPacketizer {
    /// The window never exceeds its size and holds frames whose
    /// lengths fit the header's 32-bit field.
    pub open spec fn wf(self) -> bool {
        &&& self.window@.len() < AUDIO_FEC_WINDOW
        &&& forall|i: int|
            0 <= i < self.window@.len() ==> (#[trigger] self.window@[i])@.len() < 0x100000000
    }

    /// A fresh packetiser.
    pub fn new() -> (r: AudioPacketizer)
        ensures
            r.wf(),
            r.sequence_number == 0,
            r.window@.len() == 0,
    {
        AudioPacketizer { sequence_number: 0, window: Vec::new() }
    }

    /// Wrap one Opus packet: the 16-byte header followed by the
    /// payload, under the next sequence number. Every fourth frame
    /// completes the window: two Reed-Solomon parity shards over the
    /// four frames (each padded to the window's longest) follow, each
    /// headed and numbered in sequence, and the window starts afresh.
    pub fn packetize(&mut self, opus: &Vec<u8>, duration: u32) -> (r: (
        AudioPacket,
        Vec<AudioPacket>,
    ))
        requires
            old(self).wf(),
            opus@.len() < 0x100000000,
        ensures
            final(self).wf(),
            r.0.sequence_number == old(self).sequence_number,
            r.0.data@.len() == 16 + opus@.len(),
            r.0.data@.subrange(0, 16) == audio_header_bytes(
                old(self).sequence_number,
                opus@.len() as u32,
                duration,
            ),
            r.0.data@.subrange(16, r.0.data@.len() as int) == opus@,
            final(self).sequence_number == wrap_add(
                old(self).sequence_number,
                1 + r.1@.len() as int,
            ),
            old(self).window@.len() + 1 < AUDIO_FEC_WINDOW ==> r.1@.len() == 0 && shard_views(
                final(self).window@,
            ) == shard_views(old(self).window@).push(opus@),
            old(self).window@.len() + 1 == AUDIO_FEC_WINDOW ==> ({
                let w = shard_views(old(self).window@).push(opus@);
                let longest = max_shard_len(w);
                &&& final(self).window@.len() == 0
                &&& (longest >= 1 ==> {
                    &&& r.1@.len() == AUDIO_FEC_SHARDS
                    &&& forall|j: int|
                        0 <= j < r.1@.len() ==> (#[trigger] r.1@[j]).sequence_number == wrap_add(
                            old(self).sequence_number,
                            1 + j,
                        ) && r.1@[j].data@ == audio_header_bytes(
                            wrap_add(old(self).sequence_number, 1 + j),
                            longest as u32,
                            duration,
                        ) + rs_parity_of(pad_shards(w, longest), AUDIO_FEC_SHARDS as nat)[j]
                })
                &&& (longest == 0 ==> r.1@.len() == 0)
            }),
    {
        let sequence = self.sequence_number;
        let data = wrap_audio_payload(sequence, opus, opus.len() as u32, duration);
        let packet = AudioPacket { sequence_number: sequence, data };

        let mut parity_packets: Vec<AudioPacket> = Vec::new();
        self.window.push(opus.clone());
        proof {
            assert(shard_views(self.window@) =~= shard_views(old(self).window@).push(opus@));
        }
        if self.window.len() == AUDIO_FEC_WINDOW {
            let ghost w = shard_views(self.window@);
            let mut longest: usize = 0;
            let mut i: usize = 0;
            while i < self.window.len()
                invariant
                    w == shard_views(self.window@),
                    i <= self.window@.len(),
                    forall|k: int|
                        0 <= k < i ==> (#[trigger] self.window@[k])@.len() <= longest,
                    i > 0 ==> (exists|k: int|
                        0 <= k < i && (#[trigger] self.window@[k])@.len() == longest),
                    i == 0 ==> longest == 0,
                    forall|k: int|
                        0 <= k < self.window@.len() ==> (#[trigger] self.window@[k])@.len()
                            < 0x100000000,
                    longest < 0x100000000,
                decreases self.window@.len() - i,
            {
                if self.window[i].len() > longest {
                    longest = self.window[i].len();
                }
                i += 1;
            }
            proof {
                lemma_max_shard_len(w);
                assert(forall|k: int|
                    0 <= k < w.len() ==> w[k] == (#[trigger] self.window@[k])@);
                let kw = choose|k: int|
                    0 <= k < w.len() && (#[trigger] w[k]).len() == max_shard_len(w);
                assert(self.window@[kw]@.len() <= longest as int);
                let kl = choose|k: int|
                    0 <= k < self.window@.len() && (#[trigger] self.window@[k])@.len()
                        == longest;
                assert(w[kl].len() <= max_shard_len(w));
                assert(max_shard_len(w) == longest as int);
            }
            if longest >= 1 {
                let mut padded: Vec<Vec<u8>> = Vec::new();
                let mut k: usize = 0;
                while k < self.window.len()
                    invariant
                        k <= self.window@.len(),
                        padded@.len() == k,
                        longest >= 1,
                        w == shard_views(self.window@),
                        forall|j: int|
                            0 <= j < self.window@.len() ==> (#[trigger] self.window@[j])@.len()
                                <= longest,
                        forall|j: int|
                            0 <= j < k ==> (#[trigger] padded@[j])@.len() == longest && padded@[
                                j
                            ]@ == pad_shards(w, longest as int)[j],
                    decreases self.window@.len() - k,
                {
                    let mut shard = self.window[k].clone();
                    while shard.len() < longest
                        invariant
                            shard@.subrange(0, self.window@[k as int]@.len() as int)
                                == self.window@[k as int]@,
                            self.window@[k as int]@.len() <= shard@.len() <= longest,
                            k < self.window@.len(),
                            forall|j: int|
                                0 <= j < shard@.len() ==> j >= self.window@[k as int]@.len()
                                    ==> shard@[j] == 0,
                        decreases longest - shard@.len(),
                    {
                        shard.push(0);
                        assert(shard@.subrange(0, self.window@[k as int]@.len() as int) =~= shard@.drop_last().subrange(
                            0,
                            self.window@[k as int]@.len() as int,
                        ));
                    }
                    proof {
                        assert(shard@ =~= pad_shards(w, longest as int)[k as int]);
                    }
                    padded.push(shard);
                    k += 1;
                }
                match rs_parity(&padded, AUDIO_FEC_SHARDS, longest) {
                    Some(parity) => {
                        proof {
                            assert(shard_views(padded@) =~= pad_shards(w, longest as int));
                        }
                        let mut j: usize = 0;
                        while j < parity.len()
                            invariant
                                j <= parity@.len(),
                                parity@.len() == AUDIO_FEC_SHARDS,
                                parity_packets@.len() == j,
                                sequence == old(self).sequence_number,
                                longest < 0x100000000,
                                forall|i2: int|
                                    0 <= i2 < parity@.len() ==> (#[trigger] parity@[
                                        i2
                                    ])@.len() == longest,
                                shard_views(parity@) == rs_parity_of(
                                    pad_shards(w, longest as int),
                                    AUDIO_FEC_SHARDS as nat,
                                ),
                                forall|i2: int|
                                    0 <= i2 < j ==> (#[trigger] parity_packets@[
                                        i2
                                    ]).sequence_number == wrap_add(sequence, 1 + i2)
                                        && parity_packets@[i2].data@ == audio_header_bytes(
                                        wrap_add(sequence, 1 + i2),
                                        longest as u32,
                                        duration,
                                    ) + rs_parity_of(
                                        pad_shards(w, longest as int),
                                        AUDIO_FEC_SHARDS as nat,
                                    )[i2],
                            decreases parity@.len() - j,
                        {
                            let seq_j = advance_audio_counter(sequence, 1 + j);
                            let shard_data = wrap_audio_payload(
                                seq_j,
                                &parity[j],
                                longest as u32,
                                duration,
                            );
                            proof {
                                assert(parity@[j as int]@ == rs_parity_of(
                                    pad_shards(w, longest as int),
                                    AUDIO_FEC_SHARDS as nat,
                                )[j as int]);
                                assert(shard_data@ =~= audio_header_bytes(
                                    seq_j,
                                    longest as u32,
                                    duration,
                                ) + parity@[j as int]@);
                            }
                            parity_packets.push(
                                AudioPacket { sequence_number: seq_j, data: shard_data },
                            );
                            j += 1;
                        }
                    },
                    None => {
                        proof {
                            assert(rs_config_ok(padded@, AUDIO_FEC_SHARDS as int, longest as int));
                            assert(false);
                        }
                    },
                }
            }
            self.window.clear();
        }
        self.sequence_number = advance_audio_counter(sequence, 1 + parity_packets.len());
        (packet, parity_packets)
    }
}

/// The 16-byte header followed by the payload bytes.
fn wrap_audio_payload(sequence: u32, payload: &Vec<u8>, payload_len: u32, duration: u32) -> (r:
    Vec<u8>)
    ensures
        r@.len() == 16 + payload@.len(),
        r@.subrange(0, 16) == audio_header_bytes(sequence, payload_len, duration),
        r@.subrange(16, r@.len() as int) == payload@,
{
    let mut data: Vec<u8> = Vec::new();
    push_le32_audio(&mut data, sequence);
    push_le32_audio(&mut data, payload_len);
    push_le32_audio(&mut data, duration);
    data.push(0);
    data.push(0);
    data.push(0);
    data.push(0);
    assert(data@ =~= audio_header_bytes(sequence, payload_len, duration));
    data.extend_from_slice(payload.as_slice());
    assert(data@.subrange(0, 16) =~= audio_header_bytes(sequence, payload_len, duration));
    assert(data@.subrange(16, data@.len() as int) =~= payload@);
    data
}

/// Advance the 32-bit sequence counter, wrapping.
fn advance_audio_counter(n: u32, k: usize) -> (r: u32)
    ensures
        r == wrap_add(n, k as int),
{
    let modulus: u64 = 0x100000000;
    let k_mod: u64 = (k as u64) % modulus;
    let r = ((n as u64) + k_mod) % modulus;
    proof {
        vstd::arithmetic::div_mod::lemma_add_mod_noop(n as int, k as int, 0x100000000);
        vstd::arithmetic::div_mod::lemma_mod_twice(k as int, 0x100000000);
        vstd::arithmetic::div_mod::lemma_small_mod(n as nat, 0x100000000);
    }
    r as u32
}

/// Append the little-endian bytes of `n`.
fn push_le32_audio(out: &mut Vec<u8>, n: u32)
    ensures
        final(out)@ == old(out)@ + seq![le_byte(n, 0), le_byte(n, 1), le_byte(n, 2), le_byte(n, 3)],
{
    out.push((n % 256) as u8);
    out.push(((n / 256) % 256) as u8);
    out.push(((n / 65536) % 256) as u8);
    out.push(((n / 16777216) % 256) as u8);
    assert(out@ =~= old(out)@ + seq![le_byte(n, 0), le_byte(n, 1), le_byte(n, 2), le_byte(n, 3)]);
}

} // verus!
