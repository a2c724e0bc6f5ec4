//! Video streaming data plane: stream parameters, fragmentation of
//! encoded units into fixed-size shards, the packet header layout, and
//! the forward-error-correction shard count.

use vstd::prelude::*;

use crate::control::ping_bytes;
use crate::session::NetAddress;

verus! {

/// Stream parameters extracted from the client's session description.
#[derive(Clone, Copy, Debug, PartialEq, Eq, Structural)]
pub struct VideoStreamContext {
    pub width: u32,
    pub height: u32,
    pub fps: u32,
    /// Payload bytes per video packet.
    pub packet_size: usize,
    /// Bits per second. The client sends kilobits; the negotiator
    /// multiplies by 1024.
    pub bitrate: usize,
    /// Lower bound on the number of parity shards per frame.
    pub minimum_fec_packets: u32,
    /// Set the IP type-of-service byte on the video socket when true.
    pub qos: bool,
    /// 0 selects H.264, any other value HEVC.
    pub video_format: u32,
}

/// The number of parity shards for a frame: at least the configured
/// minimum, and no less than the given percentage of the data shards,
/// rounded up.
pub open spec fn fec_shards_spec(data_shards: u32, minimum: u32, percentage: u32) -> int {
    let c = (data_shards * percentage + 99) / 100;
    if minimum > c {
        minimum as int
    } else {
        c
    }
}

/// Compute the parity shard count, for every configuration. With
/// `minimum` zero this is exactly the rounded-up percentage of the
/// data shard count.
pub fn fec_shard_count(data_shards: u32, minimum: u32, percentage: u32) -> (r: u64)
    ensures
        r == fec_shards_spec(data_shards, minimum, percentage),
        minimum == 0 ==> r == (data_shards * percentage + 99) / 100,
{
    proof {
        assert(data_shards * percentage <= 0xFFFFFFFFu64 * 0xFFFFFFFFu64) by (nonlinear_arith)
            requires
                data_shards <= 0xFFFFFFFFu64 && percentage <= 0xFFFFFFFFu64,
        ;
    }
    let c = ((data_shards as u64) * (percentage as u64) + 99) / 100;
    if (minimum as u64) > c {
        minimum as u64
    } else {
        c
    }
}

/// The bounds of shard `i` of a payload of `len` bytes cut into pieces
/// of `ps` bytes: it spans `[i * ps, min((i + 1) * ps, len))`.
pub open spec fn shard_end(i: int, ps: int, len: int) -> int {
    if (i + 1) * ps <= len {
        (i + 1) * ps
    } else {
        len
    }
}

/// Fragment a payload into shards of `packet_size` bytes; the last
/// shard may be short, and an empty payload yields no shards.
pub fn fragment_payload(payload: &Vec<u8>, packet_size: usize) -> (r: Vec<Vec<u8>>)
    requires
        1 <= packet_size,
        payload@.len() + packet_size <= usize::MAX,
    ensures
        payload@.len() == 0 ==> r@.len() == 0,
        payload@.len() > 0 ==> (r@.len() - 1) * packet_size < payload@.len() <= r@.len()
            * packet_size,
        r@.len() == (payload@.len() + packet_size - 1) as int / packet_size as int,
        forall|i: int|
            0 <= i < r@.len() ==> (#[trigger] r@[i])@ == payload@.subrange(
                i * packet_size,
                shard_end(i, packet_size as int, payload@.len() as int),
            ),
{
    let len = payload.len();
    let ghost ps = packet_size as int;
    let mut r: Vec<Vec<u8>> = Vec::new();
    let mut start: usize = 0;
    proof {
        assert(r@.len() * ps == 0) by (nonlinear_arith)
            requires
                r@.len() == 0,
        ;
    }
    while start < len
        invariant
            1 <= packet_size,
            ps == packet_size as int,
            len == payload@.len(),
            len + packet_size <= usize::MAX,
            start <= len,
            start as int == if r@.len() * ps <= len as int {
                r@.len() * ps
            } else {
                len as int
            },
            r@.len() > 0 ==> (r@.len() - 1) * ps < len as int,
            forall|i: int|
                0 <= i < r@.len() ==> (#[trigger] r@[i])@ == payload@.subrange(
                    i * packet_size,
                    shard_end(i, ps, len as int),
                ),
        decreases len - start,
    {
        let end = if len - start < packet_size {
            len
        } else {
            start + packet_size
        };
        let mut chunk: Vec<u8> = Vec::new();
        let mut k: usize = start;
        while k < end
            invariant
                start <= k <= end <= payload@.len(),
                chunk@ == payload@.subrange(start as int, k as int),
            decreases end - k,
        {
            chunk.push(payload[k]);
            assert(chunk@ =~= payload@.subrange(start as int, k + 1 as int));
            k += 1;
        }
        let ghost n0 = r@.len() as int;
        proof {
            assert(start as int == n0 * ps);
            assert((n0 + 1) * ps == n0 * ps + ps) by (nonlinear_arith);
            assert(chunk@ == payload@.subrange(n0 * packet_size, shard_end(n0, ps, len as int)));
        }
        r.push(chunk);
        start = end;
        proof {
            assert(r@.len() == n0 + 1);
            assert((r@.len() - 1) * ps < len as int);
            assert(forall|i: int|
                0 <= i < n0 ==> (#[trigger] r@[i])@ == payload@.subrange(
                    i * packet_size,
                    shard_end(i, ps, len as int),
                ));
        }
    }
    proof {
        let n = r@.len() as int;
        let d = packet_size as int;
        let x = len as int + d - 1;
        let rem = x - n * d;
        if len == 0 {
            assert(n * d == 0) by (nonlinear_arith)
                requires
                    n == 0,
            ;
        } else {
            assert(n * d - d == (n - 1) * d) by (nonlinear_arith);
        }
        assert(0 <= rem < d);
        assert(x == n * d + rem);
        vstd::arithmetic::div_mod::lemma_fundamental_div_mod_converse(x, d, n, rem);
    }
    r
}

/// The Reed-Solomon parity shards over GF(256) for equal-length data
/// shards: a function of the data and the parity count alone.
pub uninterp spec fn rs_parity_of(data: Seq<Seq<u8>>, parity: nat) -> Seq<Seq<u8>>;

/// The byte strings a sequence of shards holds.
pub open spec fn shard_views(s: Seq<Vec<u8>>) -> Seq<Seq<u8>> {
    s.map_values(|v: Vec<u8>| v@)
}

/// A shard configuration the Reed-Solomon code accepts: one to 256
/// total shards, every data shard of one equal nonzero length.
pub open spec fn rs_config_ok(data: Seq<Vec<u8>>, parity_count: int, shard_len: int) -> bool {
    &&& 1 <= data.len()
    &&& 1 <= parity_count
    &&& data.len() + parity_count <= 256
    &&& 1 <= shard_len
    &&& forall|i: int| 0 <= i < data.len() ==> (#[trigger] data[i])@.len() == shard_len
}

/// Relies on `reed_solomon_erasure::ReedSolomon::<galois_8::Field>::new`
/// and `encode_sep`: with one to 256 total shards of one equal nonzero
/// length, the parity shards are computed, have that same length, and
/// are a function of the data shards and the parity count; any other
/// configuration is refused.
#[verifier::external_body]
pub(crate) fn rs_parity(data: &Vec<Vec<u8>>, parity_count: usize, shard_len: usize) -> (r: Option<Vec<Vec<u8>>>)
    ensures
        match r {
            Some(p) => {
                &&& rs_config_ok(data@, parity_count as int, shard_len as int)
                &&& p@.len() == parity_count
                &&& forall|i: int| 0 <= i < p@.len() ==> (#[trigger] p@[i])@.len() == shard_len
                &&& shard_views(p@) == rs_parity_of(shard_views(data@), parity_count as nat)
            },
            None => !rs_config_ok(data@, parity_count as int, shard_len as int),
        },
{
    let codec = reed_solomon_erasure::ReedSolomon::<reed_solomon_erasure::galois_8::Field>::new(
        data.len(),
        parity_count,
    ).ok()?;
    if shard_len == 0 || data.iter().any(|d| d.len() != shard_len) {
        return None;
    }
    let mut parity = vec![vec![0u8; shard_len]; parity_count];
    codec.encode_sep(data.as_slice(), parity.as_mut_slice()).ok()?;
    Some(parity)
}

/// Start-of-frame flag bit.
pub const FLAG_START_OF_FRAME: u8 = 1;

/// End-of-frame flag bit.
pub const FLAG_END_OF_FRAME: u8 = 2;

/// The frame is an instantaneous decoder refresh.
pub const FLAG_IDR: u8 = 4;

/// The header of one video packet.
#[derive(Clone, Copy, Debug, PartialEq, Eq, Structural)]
pub struct VideoPacketHeader {
    /// Which frame this shard belongs to.
    pub frame_number: u32,
    /// Index of this shard within the frame, parity shards included.
    pub shard_index: u32,
    /// How many data shards the frame was cut into.
    pub data_shards: u32,
    /// Data and parity shards together.
    pub total_shards: u32,
    /// Start/end-of-frame and IDR bits.
    pub flags: u8,
    /// Monotonically increasing per endpoint, wrapping at 2^32.
    pub sequence_number: u32,
    /// How many payload bytes are meaningful (the rest is padding).
    pub payload_length: u32,
}

/// Byte `k` of the little-endian form of `n`.
pub open spec fn le_byte(n: u32, k: int) -> u8 {
    if k == 0 {
        (n % 256) as u8
    } else if k == 1 {
        ((n / 256) % 256) as u8
    } else if k == 2 {
        ((n / 65536) % 256) as u8
    } else {
        ((n / 16777216) % 256) as u8
    }
}

/// Byte `i` of the 56-byte wire header.
pub open spec fn header_byte(h: VideoPacketHeader, i: int) -> u8 {
    if i < 4 {
        le_byte(h.frame_number, i)
    } else if i < 8 {
        le_byte(h.shard_index, i - 4)
    } else if i < 12 {
        le_byte(h.data_shards, i - 8)
    } else if i < 16 {
        le_byte(h.total_shards, i - 12)
    } else if i == 16 {
        h.flags
    } else if i < 20 {
        0
    } else if i < 24 {
        le_byte(h.sequence_number, i - 20)
    } else if i < 28 {
        le_byte(h.payload_length, i - 24)
    } else {
        0
    }
}

/// The 56-byte wire form of a header.
pub open spec fn header_bytes(h: VideoPacketHeader) -> Seq<u8> {
    Seq::new(56, |i: int| header_byte(h, i))
}

/// Append the little-endian bytes of `n`.
fn push_le32(out: &mut Vec<u8>, n: u32)
    ensures
        final(out)@ == old(out)@ + seq![le_byte(n, 0), le_byte(n, 1), le_byte(n, 2), le_byte(n, 3)],
{
    out.push((n % 256) as u8);
    out.push(((n / 256) % 256) as u8);
    out.push(((n / 65536) % 256) as u8);
    out.push(((n / 16777216) % 256) as u8);
    assert(out@ =~= old(out)@ + seq![le_byte(n, 0), le_byte(n, 1), le_byte(n, 2), le_byte(n, 3)]);
}

/// Write a header to its 56-byte wire form.
pub fn encode_video_header(h: &VideoPacketHeader) -> (r: Vec<u8>)
    ensures
        r@ == header_bytes(*h),
        r@.len() == 56,
{
    let mut out: Vec<u8> = Vec::new();
    push_le32(&mut out, h.frame_number);
    push_le32(&mut out, h.shard_index);
    push_le32(&mut out, h.data_shards);
    push_le32(&mut out, h.total_shards);
    out.push(h.flags);
    out.push(0);
    out.push(0);
    out.push(0);
    push_le32(&mut out, h.sequence_number);
    push_le32(&mut out, h.payload_length);
    let mut k: usize = 28;
    while k < 56
        invariant
            28 <= k <= 56,
            out@.len() == k,
            forall|i: int| 0 <= i < k ==> out@[i] == header_byte(*h, i),
        decreases 56 - k,
    {
        out.push(0);
        k += 1;
    }
    assert(out@ =~= header_bytes(*h));
    out
}

/// One video packet: its header and its (padded) shard bytes.
pub struct VideoPacket {
    pub header: VideoPacketHeader,
    pub data: Vec<u8>,
}

/// The flag bits of data shard `i` of `ds`: start on the first, end on
/// the last, and the IDR bit when the frame answers an IDR request.
pub open spec fn shard_flags(i: int, ds: int, idr: bool) -> u8 {
    ((if i == 0 {
        1int
    } else {
        0int
    }) + (if i == ds - 1 {
        2int
    } else {
        0int
    }) + (if idr {
        4int
    } else {
        0int
    })) as u8
}

/// A 32-bit counter advanced by `k`, wrapping.
pub open spec fn wrap_add(n: u32, k: int) -> u32 {
    ((n + k) % 0x100000000) as u32
}

/// The state of the video packetiser: frame and sequence counters and
/// the pending IDR request.
pub struct VideoPacketizer {
    pub frame_number: u32,
    pub sequence_number: u32,
    pub idr_pending: bool,
}

impl VideoPacketizer {
    /// A fresh packetiser.
    pub fn new() -> (r: VideoPacketizer)
        ensures
            r.frame_number == 0,
            r.sequence_number == 0,
            !r.idr_pending,
    {
        VideoPacketizer { frame_number: 0, sequence_number: 0, idr_pending: false }
    }

    /// An IDR frame was requested: the next packetised frame carries
    /// the IDR flag.
    pub fn request_idr_frame(&mut self)
        ensures
            final(self).idr_pending,
            final(self).frame_number == old(self).frame_number,
            final(self).sequence_number == old(self).sequence_number,
    {
        self.idr_pending = true;
    }

    /// Cut one encoded frame into data shards of `packet_size` bytes
    /// (zero-padded), append Reed-Solomon parity shards where the
    /// configuration permits them, and head every shard. The data
    /// shards carry the payload in order; the first is flagged as
    /// start of frame, the last data shard as its end, and all of them
    /// carry the IDR flag exactly when an IDR request is pending.
    /// Payload and shard sizes are bounded by the 32-bit length and
    /// count fields of the wire header.
    #[verifier::rlimit(100)]
    #[verifier::spinoff_prover]
    pub fn packetize_frame(
        &mut self,
        payload: &Vec<u8>,
        packet_size: usize,
        minimum_fec_packets: u32,
        fec_percentage: u32,
    ) -> (r: Vec<VideoPacket>)
        requires
            1 <= packet_size < 0x100000000,
            payload@.len() < 0x100000000,
            payload@.len() + packet_size <= usize::MAX,
        ensures
            payload@.len() == 0 ==> r@.len() == 0 && *final(self) == *old(self),
            payload@.len() > 0 ==> ({
                let ds = (payload@.len() + packet_size - 1) as int / packet_size as int;
                let fec = fec_shards_spec(ds as u32, minimum_fec_packets, fec_percentage);
                let with_parity = ds <= 4096 && 1 <= fec && ds + fec <= 256;
                let total = if with_parity {
                    ds + fec
                } else {
                    ds
                };
                &&& r@.len() == total
                &&& (ds - 1) * packet_size < payload@.len() <= ds * packet_size
                &&& forall|i: int|
                    0 <= i < r@.len() ==> (#[trigger] r@[i]).header == (VideoPacketHeader {
                        frame_number: old(self).frame_number,
                        shard_index: i as u32,
                        data_shards: ds as u32,
                        total_shards: total as u32,
                        flags: if i < ds {
                            shard_flags(i, ds, old(self).idr_pending)
                        } else {
                            0
                        },
                        sequence_number: wrap_add(old(self).sequence_number, i),
                        payload_length: if i < ds {
                            (shard_end(i, packet_size as int, payload@.len() as int) - i
                                * packet_size) as u32
                        } else {
                            packet_size as u32
                        },
                    })
                &&& forall|i: int|
                    0 <= i < r@.len() ==> (#[trigger] r@[i]).data@.len() == packet_size
                &&& forall|i: int|
                    0 <= i < ds ==> (#[trigger] r@[i]).data@.subrange(
                        0,
                        shard_end(i, packet_size as int, payload@.len() as int) - i * packet_size,
                    ) == payload@.subrange(
                        i * packet_size,
                        shard_end(i, packet_size as int, payload@.len() as int),
                    )
                &&& (with_parity ==> forall|j: int|
                    0 <= j < fec ==> (#[trigger] r@[ds + j]).data@ == rs_parity_of(
                        shard_views(r@.subrange(0, ds).map_values(|p: VideoPacket| p.data)),
                        fec as nat,
                    )[j])
                &&& final(self).frame_number == wrap_add(old(self).frame_number, 1)
                &&& final(self).sequence_number == wrap_add(old(self).sequence_number, total)
                &&& !final(self).idr_pending
            }),
    {
        let chunks = fragment_payload(payload, packet_size);
        let ds = chunks.len();
        if ds == 0 {
            proof {
                assert(chunks@.len() * (packet_size as int) == 0) by (nonlinear_arith)
                    requires
                        chunks@.len() == 0,
                ;
                assert(payload@.len() == 0);
            }
            return Vec::new();
        }
        let ghost ps = packet_size as int;
        proof {
            assert forall|j: int| 0 <= j < ds implies (#[trigger] chunks@[j])@.len()
                <= packet_size by {
                assert((j + 1) * ps == j * ps + ps) by (nonlinear_arith);
                assert(j * ps >= 0) by (nonlinear_arith)
                    requires
                        j >= 0 && ps >= 0,
                ;
                vstd::arithmetic::mul::lemma_mul_inequality(j, ds - 1, ps);
            }
        }
        let mut padded: Vec<Vec<u8>> = Vec::new();
        let mut i: usize = 0;
        while i < ds
            invariant
                ds == chunks@.len(),
                i <= ds,
                padded@.len() == i,
                packet_size >= 1,
                forall|j: int|
                    0 <= j < i ==> (#[trigger] padded@[j])@.len() == packet_size && padded@[
                        j
                    ]@.subrange(0, chunks@[j]@.len() as int) == chunks@[j]@,
                forall|j: int| 0 <= j < ds ==> (#[trigger] chunks@[j])@.len() <= packet_size,
            decreases ds - i,
        {
            let mut shard = chunks[i].clone();
            while shard.len() < packet_size
                invariant
                    chunks@[i as int]@.len() <= shard@.len() <= packet_size,
                    shard@.subrange(0, chunks@[i as int]@.len() as int) == chunks@[i as int]@,
                    i < ds == chunks@.len(),
                decreases packet_size - shard@.len(),
            {
                shard.push(0);
                assert(shard@.subrange(0, chunks@[i as int]@.len() as int) =~= chunks@[
                    i as int
                ]@);
            }
            padded.push(shard);
            i += 1;
        }
        let fec_count: u64 = if ds <= 4096 {
            fec_shard_count(ds as u32, minimum_fec_packets, fec_percentage)
        } else {
            0
        };
        let with_parity = ds <= 4096 && 1 <= fec_count && fec_count <= 256 && ds + (
        fec_count as usize) <= 256;
        let parity: Option<Vec<Vec<u8>>> = if with_parity {
            rs_parity(&padded, fec_count as usize, packet_size)
        } else {
            None
        };
        proof {
            if with_parity {
                assert(parity is Some);
            }
        }
        proof {
            assert((ds - 1) * (packet_size as int) >= ds - 1) by (nonlinear_arith)
                requires
                    packet_size >= 1,
                    ds >= 1,
            ;
            assert(ds < 0x100000000);
        }
        let total = match &parity {
            Some(p) => ds + p.len(),
            None => ds,
        };
        assert(total < 0x100000000);
        let mut out: Vec<VideoPacket> = Vec::new();
        let base = self.sequence_number;
        let idr = self.idr_pending;
        let frame = self.frame_number;
        let mut k: usize = 0;
        while k < ds
            invariant
                out@.len() == k,
                k <= ds,
                base == old(self).sequence_number,
                idr == old(self).idr_pending,
                frame == old(self).frame_number,
                ds == chunks@.len() == padded@.len(),
                packet_size >= 1,
                packet_size < 0x100000000,
                ds <= total < 0x100000000,
                forall|j: int|
                    0 <= j < k ==> (#[trigger] out@[j]).header == (VideoPacketHeader {
                        frame_number: old(self).frame_number,
                        shard_index: j as u32,
                        data_shards: ds as u32,
                        total_shards: total as u32,
                        flags: shard_flags(j, ds as int, old(self).idr_pending),
                        sequence_number: wrap_add(old(self).sequence_number, j),
                        payload_length: chunks@[j]@.len() as u32,
                    }) && (#[trigger] out@[j]).data@ == padded@[j]@,
                forall|j: int|
                    0 <= j < ds ==> (#[trigger] padded@[j])@.len() == packet_size && padded@[
                        j
                    ]@.subrange(0, chunks@[j]@.len() as int) == chunks@[j]@,
                forall|j: int| 0 <= j < ds ==> (#[trigger] chunks@[j])@.len() <= packet_size,
            decreases ds - k,
        {
            let flags = compute_flags(k, ds, idr);
            let header = VideoPacketHeader {
                frame_number: frame,
                shard_index: k as u32,
                data_shards: ds as u32,
                total_shards: total as u32,
                flags,
                sequence_number: seq_counter(base, k),
                payload_length: chunks[k].len() as u32,
            };
            let data = padded[k].clone();
            assert(data@ == padded@[k as int]@);
            out.push(VideoPacket { header, data });
            k += 1;
        }
        match parity {
            Some(parity_shards) => {
                let fec = parity_shards.len();
                let mut j: usize = 0;
                while j < fec
                    invariant
                        out@.len() == ds + j,
                        j <= fec,
                        total == ds + fec,
                        ds + fec <= 256,
                        base == old(self).sequence_number,
                        frame == old(self).frame_number,
                        fec == parity_shards@.len(),
                        forall|i2: int|
                            0 <= i2 < ds ==> (#[trigger] out@[i2]).header == (VideoPacketHeader {
                                frame_number: old(self).frame_number,
                                shard_index: i2 as u32,
                                data_shards: ds as u32,
                                total_shards: total as u32,
                                flags: shard_flags(i2, ds as int, old(self).idr_pending),
                                sequence_number: wrap_add(old(self).sequence_number, i2),
                                payload_length: chunks@[i2]@.len() as u32,
                            }) && (#[trigger] out@[i2]).data@ == padded@[i2]@,
                        forall|i2: int|
                            0 <= i2 < j ==> (#[trigger] out@[ds + i2]).header
                                == (VideoPacketHeader {
                                frame_number: old(self).frame_number,
                                shard_index: (ds + i2) as u32,
                                data_shards: ds as u32,
                                total_shards: total as u32,
                                flags: 0,
                                sequence_number: wrap_add(old(self).sequence_number, ds + i2),
                                payload_length: packet_size as u32,
                            }) && (#[trigger] out@[ds + i2]).data@ == parity_shards@[i2]@,
                        ds == chunks@.len() == padded@.len(),
                        packet_size >= 1,
                        packet_size < 0x100000000,
                        forall|i2: int|
                            0 <= i2 < ds ==> (#[trigger] padded@[i2])@.len() == packet_size
                                && padded@[i2]@.subrange(0, chunks@[i2]@.len() as int) == chunks@[
                                i2
                            ]@,
                        forall|i2: int|
                            0 <= i2 < ds ==> (#[trigger] chunks@[i2])@.len() <= packet_size,
                        forall|i2: int|
                            0 <= i2 < fec ==> (#[trigger] parity_shards@[i2])@.len()
                                == packet_size,
                        shard_views(parity_shards@) == rs_parity_of(
                            shard_views(padded@),
                            fec as nat,
                        ),
                    decreases fec - j,
                {
                    let header = VideoPacketHeader {
                        frame_number: frame,
                        shard_index: (ds + j) as u32,
                        data_shards: ds as u32,
                        total_shards: total as u32,
                        flags: 0,
                        sequence_number: seq_counter(base, ds + j),
                        payload_length: packet_size as u32,
                    };
                    let data = parity_shards[j].clone();
                    assert(data@ == parity_shards@[j as int]@);
                    out.push(VideoPacket { header, data });
                    j += 1;
                }
                proof {
                    assert(shard_views(out@.subrange(0, ds as int).map_values(
                        |p: VideoPacket| p.data,
                    )) =~= shard_views(padded@));
                }
            proof {
                let ghost gds = ds as int;
                let ghost gtotal = total as int;
                assert forall|i: int| 0 <= i < out@.len() implies (#[trigger] out@[i]).header
                    == (VideoPacketHeader {
                    frame_number: old(self).frame_number,
                    shard_index: i as u32,
                    data_shards: gds as u32,
                    total_shards: gtotal as u32,
                    flags: if i < gds {
                        shard_flags(i, gds, old(self).idr_pending)
                    } else {
                        0
                    },
                    sequence_number: wrap_add(old(self).sequence_number, i),
                    payload_length: if i < gds {
                        chunks@[i]@.len() as u32
                    } else {
                        packet_size as u32
                    },
                }) by {
                    if i >= gds {
                        let i2 = i - gds;
                        assert(out@[ds + i2] == out@[i]);
                    }
                }
                assert forall|i: int|
                    0 <= i < out@.len() implies (#[trigger] out@[i]).data@.len()
                    == packet_size by {
                    if i >= gds {
                        let i2 = i - gds;
                        assert(out@[ds + i2] == out@[i]);
                    }
                }
            }
            },
            None => {
            proof {
                let ghost gds = ds as int;
                let ghost gtotal = total as int;
                assert forall|i: int| 0 <= i < out@.len() implies (#[trigger] out@[i]).header
                    == (VideoPacketHeader {
                    frame_number: old(self).frame_number,
                    shard_index: i as u32,
                    data_shards: gds as u32,
                    total_shards: gtotal as u32,
                    flags: if i < gds {
                        shard_flags(i, gds, old(self).idr_pending)
                    } else {
                        0
                    },
                    sequence_number: wrap_add(old(self).sequence_number, i),
                    payload_length: if i < gds {
                        chunks@[i]@.len() as u32
                    } else {
                        packet_size as u32
                    },
                }) by {
                    if i >= gds {
                        let i2 = i - gds;
                        assert(out@[ds + i2] == out@[i]);
                    }
                }
                assert forall|i: int|
                    0 <= i < out@.len() implies (#[trigger] out@[i]).data@.len()
                    == packet_size by {
                    if i >= gds {
                        let i2 = i - gds;
                        assert(out@[ds + i2] == out@[i]);
                    }
                }
            }
            },
        }
        proof {
            assert(out@.len() == total);
            assert(out@[0].header.frame_number == old(self).frame_number);
            assert(out@[0].header.shard_index == 0u32);
        }
        proof {
            lemma_packetize_post(out@, chunks@, padded@, payload@, packet_size as int, ds as int);
        }
        self.idr_pending = false;
        self.frame_number = seq_counter(frame, 1);
        self.sequence_number = seq_counter(base, total);
        out
    }
}

/// Tie the shard payloads back to the original payload: each data
/// shard's meaningful prefix is the corresponding payload slice.
proof fn lemma_packetize_post(
    out: Seq<VideoPacket>,
    chunks: Seq<Vec<u8>>,
    padded: Seq<Vec<u8>>,
    payload: Seq<u8>,
    ps: int,
    ds: int,
)
    requires
        1 <= ps,
        ds == chunks.len() == padded.len(),
        ds <= out.len(),
        ds >= 1,
        (ds - 1) * ps < payload.len(),
        forall|j: int| 0 <= j < ds ==> (#[trigger] out[j]).data@ == padded[j]@,
        forall|j: int|
            0 <= j < ds ==> (#[trigger] padded[j])@.len() == ps && padded[j]@.subrange(
                0,
                chunks[j]@.len() as int,
            ) == chunks[j]@,
        forall|j: int|
            0 <= j < ds ==> (#[trigger] chunks[j])@ == payload.subrange(
                j * ps,
                shard_end(j, ps, payload.len() as int),
            ),
    ensures
        forall|i: int|
            0 <= i < ds ==> (#[trigger] out[i]).data@.subrange(
                0,
                shard_end(i, ps, payload.len() as int) - i * ps,
            ) == payload.subrange(i * ps, shard_end(i, ps, payload.len() as int)),
        forall|i: int|
            0 <= i < ds ==> (#[trigger] chunks[i])@.len() == shard_end(
                i,
                ps,
                payload.len() as int,
            ) - i * ps,
{
    assert forall|i: int| 0 <= i < ds implies (#[trigger] chunks[i])@.len() == shard_end(
        i,
        ps,
        payload.len() as int,
    ) - i * ps by {
        assert((i + 1) * ps == i * ps + ps) by (nonlinear_arith);
        assert(i * ps >= 0) by (nonlinear_arith)
            requires
                i >= 0 && ps >= 0,
        ;
        vstd::arithmetic::mul::lemma_mul_inequality(i, ds - 1, ps);
        assert(i * ps <= (ds - 1) * ps < payload.len());
    }
    assert forall|i: int| 0 <= i < ds implies (#[trigger] out[i]).data@.subrange(
        0,
        shard_end(i, ps, payload.len() as int) - i * ps,
    ) == payload.subrange(i * ps, shard_end(i, ps, payload.len() as int)) by {
        assert(out[i].data@.subrange(0, chunks[i]@.len() as int) == chunks[i]@);
    }
}

/// The flag byte of data shard `k` of `ds`.
fn compute_flags(k: usize, ds: usize, idr: bool) -> (r: u8)
    requires
        k < ds,
    ensures
        r == shard_flags(k as int, ds as int, idr),
{
    let mut flags: u8 = 0;
    if k == 0 {
        flags = flags + 1;
    }
    if k == ds - 1 {
        flags = flags + 2;
    }
    if idr {
        flags = flags + 4;
    }
    flags
}

/// Advance a 32-bit counter, wrapping at 2^32.
fn seq_counter(n: u32, k: usize) -> (r: u32)
    ensures
        r == wrap_add(n, k as int),
{
    let modulus: u64 = 0x100000000;
    let k_mod: u64 = (k as u64) % modulus;
    let r = ((n as u64) + k_mod) % modulus;
    proof {
        vstd::arithmetic::div_mod::lemma_add_mod_noop(n as int, k as int, 0x100000000);
        vstd::arithmetic::div_mod::lemma_mod_twice(k as int, 0x100000000);
        vstd::arithmetic::div_mod::lemma_small_mod(n as nat, 0x100000000);
    }
    r as u32
}

/// A media UDP endpoint: packets go to the address the client's PING
/// revealed; packets produced before the first ping are dropped.
pub struct StreamEndpoint {
    pub client_address: Option<NetAddress>,
}

impl StreamEndpoint {
    /// A fresh endpoint with no client address yet.
    pub fn new() -> (r: StreamEndpoint)
        ensures
            r.client_address is None,
    {
        StreamEndpoint { client_address: None }
    }

    /// Handle one datagram: a `PING` reveals the sender as the client.
    pub fn handle_datagram(&mut self, source: NetAddress, data: &Vec<u8>)
        ensures
            data@ == ping_bytes() ==> final(self).client_address == Some(source),
            data@ != ping_bytes() ==> final(self).client_address == old(self).client_address,
    {
        if data.len() == 4 && data[0] == 0x50 && data[1] == 0x49 && data[2] == 0x4e && data[3]
            == 0x47 {
            proof {
                assert(data@ =~= ping_bytes());
            }
            self.client_address = Some(source);
        } else {
            proof {
                assert(data@ != ping_bytes());
            }
        }
    }

    /// Where outbound packets go: the pinged address, or nowhere yet.
    pub fn dispatch_target(&self) -> (r: Option<NetAddress>)
        ensures
            r == self.client_address,
    {
        self.client_address
    }
}

} // verus!
