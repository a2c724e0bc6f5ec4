//! Control channel: the reliable datagram endpoint that carries
//! encrypted control messages from the client.
//!
//! A control frame is laid out as
//! `{ type: u16 LE, length: u16 LE, counter: u32 LE, tag: 16 bytes,
//! ciphertext }`, where `length` counts every byte after the length
//! field and the per-message counter forms the first four bytes of the
//! 12-byte AES-GCM nonce. Two type codes are overloaded by the clients;
//! an empty payload distinguishes the short form (start-audio,
//! IDR request) from the long one (input data, termination).

use vstd::prelude::*;

use crate::crypto::{aes_128_gcm_open, aes_128_gcm_seal, aes_gcm_open_of, OPENSSL_MAX_INPUT};
use crate::session::NetAddress;

verus! {

/// Type code for starting audio (empty payload) or input data.
pub const CONTROL_TYPE_AUDIO_OR_INPUT: u16 = 0x0100;

/// Type code for an IDR request (empty payload) or termination.
pub const CONTROL_TYPE_IDR_OR_TERMINATE: u16 = 0x0200;

/// Type code for invalidating reference frames; answered like an IDR
/// request.
pub const CONTROL_TYPE_INVALIDATE_REFERENCE_FRAMES: u16 = 0x0302;

/// Type code for loss statistics; ignored in this version.
pub const CONTROL_TYPE_LOSS_STATS: u16 = 0x0305;

/// Type code for frame statistics; ignored in this version.
pub const CONTROL_TYPE_FRAME_STATS: u16 = 0x0307;

/// Type code for rumble data; host-to-client only, never acted on.
pub const CONTROL_TYPE_RUMBLE: u16 = 0x0109;

/// The datagram a client sends to reveal its address to an endpoint.
pub open spec fn ping_bytes() -> Seq<u8> {
    seq![0x50u8, 0x49u8, 0x4eu8, 0x47u8]
}

/// A 16-bit value from its little-endian bytes.
pub open spec fn le16(b0: u8, b1: u8) -> u16 {
    (b0 + 256 * b1) as u16
}

/// A 32-bit value from its little-endian bytes.
pub open spec fn le32(b0: u8, b1: u8, b2: u8, b3: u8) -> u32 {
    (b0 + 256 * b1 + 65536 * b2 + 16777216 * b3) as u32
}

/// The AES-GCM nonce of a message: its 32-bit counter, little endian,
/// followed by eight zero bytes.
pub open spec fn control_iv(counter: u32) -> Seq<u8> {
    seq![
        (counter % 256) as u8,
        ((counter / 256) % 256) as u8,
        ((counter / 65536) % 256) as u8,
        ((counter / 16777216) % 256) as u8,
    ] + Seq::new(8, |i: int| 0u8)
}

/// A parsed control frame, payload still encrypted.
pub struct ControlFrame {
    pub type_code: u16,
    pub counter: u32,
    pub tag: Vec<u8>,
    pub ciphertext: Vec<u8>,
}

/// What a control datagram parses to: the frame fields exactly when the
/// datagram is long enough and its length field counts every byte after
/// itself, nothing otherwise.
pub open spec fn parse_control_frame_spec(d: Seq<u8>) -> Option<(u16, u32, Seq<u8>, Seq<u8>)> {
    if d.len() >= 24 && d.len() - 4 <= 65535 && le16(d[2], d[3]) == d.len() - 4 {
        Some(
            (
                le16(d[0], d[1]),
                le32(d[4], d[5], d[6], d[7]),
                d.subrange(8, 24),
                d.subrange(24, d.len() as int),
            ),
        )
    } else {
        None
    }
}

/// Parse a control datagram into its frame.
pub fn parse_control_frame(data: &Vec<u8>) -> (r: Option<ControlFrame>)
    ensures
        match r {
            Some(f) => parse_control_frame_spec(data@) == Some(
                (f.type_code, f.counter, f.tag@, f.ciphertext@),
            ) && f.tag@.len() == 16,
            None => parse_control_frame_spec(data@) is None,
        },
{
    if data.len() < 24 {
        return None;
    }
    if data.len() - 4 > 65535 {
        return None;
    }
    let length = (data[2] as u16) + 256 * (data[3] as u16);
    if (length as usize) != data.len() - 4 {
        return None;
    }
    let type_code = (data[0] as u16) + 256 * (data[1] as u16);
    let counter = (data[4] as u32) + 256 * (data[5] as u32) + 65536 * (data[6] as u32) + 16777216
        * (data[7] as u32);
    let mut tag: Vec<u8> = Vec::new();
    let mut i: usize = 8;
    while i < 24
        invariant
            8 <= i <= 24,
            data@.len() >= 24,
            tag@ == data@.subrange(8, i as int),
        decreases 24 - i,
    {
        tag.push(data[i]);
        assert(tag@ =~= data@.subrange(8, i + 1 as int));
        i += 1;
    }
    let mut ciphertext: Vec<u8> = Vec::new();
    let mut j: usize = 24;
    while j < data.len()
        invariant
            24 <= j <= data@.len(),
            ciphertext@ == data@.subrange(24, j as int),
        decreases data@.len() - j,
    {
        ciphertext.push(data[j]);
        assert(ciphertext@ =~= data@.subrange(24, j + 1 as int));
        j += 1;
    }
    Some(ControlFrame { type_code, counter, tag, ciphertext })
}

/// The 12-byte nonce of a message counter.
fn build_control_iv(counter: u32) -> (r: Vec<u8>)
    ensures
        r@ == control_iv(counter),
        r@.len() == 12,
{
    let mut iv: Vec<u8> = Vec::new();
    iv.push((counter % 256) as u8);
    iv.push(((counter / 256) % 256) as u8);
    iv.push(((counter / 65536) % 256) as u8);
    iv.push(((counter / 16777216) % 256) as u8);
    let mut k: usize = 0;
    while k < 8
        invariant
            k <= 8,
            iv@.len() == 4 + k,
            iv@ == control_iv(counter).subrange(0, 4 + k as int),
        decreases 8 - k,
    {
        iv.push(0u8);
        assert(iv@ =~= control_iv(counter).subrange(0, 4 + (k + 1) as int));
        k += 1;
    }
    assert(iv@ =~= control_iv(counter));
    iv
}

/// Seal a control payload into a full frame: every payload that fits
/// the 16-bit length field is sealed. Parsing the frame back and
/// decrypting it with the same key and counter yields the payload:
/// encrypt-then-decrypt is the identity.
pub fn seal_control_message(key: &Vec<u8>, counter: u32, type_code: u16, plaintext: &Vec<u8>) -> (r:
    Option<Vec<u8>>)
    requires
        key@.len() == 16,
    ensures
        r is Some <==> plaintext@.len() <= 65515,
        r matches Some(frame) ==> {
            &&& parse_control_frame_spec(frame@) matches Some(f)
            &&& f.0 == type_code
            &&& f.1 == counter
            &&& aes_gcm_open_of(key@, control_iv(counter), f.3, f.2) == Some(plaintext@)
        },
{
    if plaintext.len() > 65515 {
        // Longer payloads cannot be framed: the length field is 16 bits.
        return None;
    }
    let iv = build_control_iv(counter);
    let (ciphertext, tag) = aes_128_gcm_seal(key, &iv, plaintext);
    let length: usize = 20 + ciphertext.len();
    let mut frame: Vec<u8> = Vec::new();
    frame.push((type_code % 256) as u8);
    frame.push((type_code / 256) as u8);
    frame.push((length % 256) as u8);
    frame.push(((length / 256) % 256) as u8);
    frame.push((counter % 256) as u8);
    frame.push(((counter / 256) % 256) as u8);
    frame.push(((counter / 65536) % 256) as u8);
    frame.push(((counter / 16777216) % 256) as u8);
    frame.extend_from_slice(tag.as_slice());
    frame.extend_from_slice(ciphertext.as_slice());
    proof {
        let d = frame@;
        assert(d.len() == 24 + ciphertext@.len());
        assert(le16(d[2], d[3]) == d.len() - 4);
        assert(le16(d[0], d[1]) == type_code);
        assert(le32(d[4], d[5], d[6], d[7]) == counter);
        assert(d.subrange(8, 24) =~= tag@);
        assert(d.subrange(24, d.len() as int) =~= ciphertext@);
    }
    Some(frame)
}

/// Decrypt a parsed frame with the session key.
pub fn open_control_frame(key: &Vec<u8>, frame: &ControlFrame) -> (r: Option<Vec<u8>>)
    requires
        key@.len() == 16,
        frame.ciphertext@.len() <= OPENSSL_MAX_INPUT,
        frame.tag@.len() == 16,
    ensures
        match r {
            Some(p) => aes_gcm_open_of(
                key@,
                control_iv(frame.counter),
                frame.ciphertext@,
                frame.tag@,
            ) == Some(p@),
            None => aes_gcm_open_of(
                key@,
                control_iv(frame.counter),
                frame.ciphertext@,
                frame.tag@,
            ) is None,
        },
{
    let iv = build_control_iv(frame.counter);
    aes_128_gcm_open(key, &iv, &frame.ciphertext, &frame.tag)
}

/// What the runtime must do with a control datagram.
pub enum ControlAction {
    /// Nothing: pings, statistics, rumble, unknown codes, undecryptable
    /// or malformed packets.
    Ignore,
    /// Begin (or acknowledge) audio streaming.
    StartAudio,
    /// Broadcast an IDR request to the video encoder.
    RequestIdr,
    /// Forward decrypted input data to the input injector.
    InputData(Vec<u8>),
    /// Tear the session down.
    Termination,
    /// The decryption failure rate exceeded one half over the last
    /// hundred packets: fatal to the session.
    SessionFatal,
}

/// The control endpoint's state: the session key, the client address
/// learned from its ping, and the decrypt-failure window.
pub struct ControlChannel {
    pub key: Vec<u8>,
    pub client_address: Option<NetAddress>,
    /// Encrypted packets seen in the current window of one hundred.
    pub window_total: u32,
    /// How many of them failed to decrypt.
    pub window_failures: u32,
}

impl ControlChannel {
    pub open spec fn wf(self) -> bool {
        &&& self.key@.len() == 16
        &&& self.window_failures <= self.window_total < 100
    }

    /// A fresh endpoint for a session key.
    pub fn new(key: Vec<u8>) -> (r: ControlChannel)
        requires
            key@.len() == 16,
        ensures
            r.wf(),
            r.key@ == key@,
            r.client_address is None,
            r.window_total == 0,
            r.window_failures == 0,
    {
        ControlChannel { key, client_address: None, window_total: 0, window_failures: 0 }
    }

    /// Rotate the session key mid-session.
    pub fn set_key(&mut self, key: Vec<u8>)
        requires
            old(self).wf(),
            key@.len() == 16,
        ensures
            final(self).wf(),
            final(self).key@ == key@,
            final(self).client_address == old(self).client_address,
            final(self).window_total == old(self).window_total,
            final(self).window_failures == old(self).window_failures,
    {
        self.key = key;
    }

    /// Handle one datagram from `source`. A `PING` reveals the client's
    /// address; every other datagram is parsed, decrypted and
    /// classified. A termination is honoured only when it comes from
    /// the address the ping revealed.
    pub fn handle_datagram(&mut self, source: NetAddress, data: &Vec<u8>) -> (r: ControlAction)
        requires
            old(self).wf(),
        ensures
            final(self).wf(),
            final(self).key@ == old(self).key@,
            data@ == ping_bytes() ==> final(self).client_address == Some(source) && r is Ignore,
            data@ != ping_bytes() ==> final(self).client_address == old(self).client_address,
            r is Termination ==> old(self).client_address == Some(source),
            ({
                let parsed = parse_control_frame_spec(data@);
                let code = parsed->Some_0.0;
                let opened = if parsed is Some {
                    aes_gcm_open_of(
                        old(self).key@,
                        control_iv(parsed->Some_0.1),
                        parsed->Some_0.3,
                        parsed->Some_0.2,
                    )
                } else {
                    None
                };
                let payload = opened->Some_0;
                &&& (r is Termination <==> data@ != ping_bytes() && parsed is Some
                    && opened is Some && code == CONTROL_TYPE_IDR_OR_TERMINATE && payload.len() > 0
                    && old(self).client_address == Some(source))
                &&& (r is RequestIdr <==> data@ != ping_bytes() && parsed is Some && opened is Some
                    && (code == CONTROL_TYPE_INVALIDATE_REFERENCE_FRAMES || (code
                    == CONTROL_TYPE_IDR_OR_TERMINATE && payload.len() == 0)))
                &&& (r is StartAudio <==> data@ != ping_bytes() && parsed is Some && opened is Some
                    && code == CONTROL_TYPE_AUDIO_OR_INPUT && payload.len() == 0)
                &&& (r matches ControlAction::InputData(p) ==> parsed is Some && opened == Some(p@)
                    && code == CONTROL_TYPE_AUDIO_OR_INPUT && p@.len() > 0)
                &&& (r is SessionFatal <==> data@ != ping_bytes() && parsed is Some
                    && opened is None && old(self).window_total == 99 && (old(self).window_failures + 1) * 2 > 100)
                &&& (data@ != ping_bytes() && parsed is Some && opened is None ==> (if old(self).window_total == 99 {
                    final(self).window_total == 0 && final(self).window_failures == 0
                } else {
                    final(self).window_total == old(self).window_total + 1 && final(self).window_failures == old(self).window_failures + 1
                }))
                &&& (data@ != ping_bytes() && parsed is Some && opened is Some ==> (if old(self).window_total == 99 {
                    final(self).window_total == 0 && final(self).window_failures == 0
                } else {
                    final(self).window_total == old(self).window_total + 1 && final(self).window_failures == old(self).window_failures
                }))
                &&& (data@ == ping_bytes() || parsed is None ==> final(self).window_total == old(self).window_total && final(self).window_failures == old(self).window_failures)
            }),
    {
        if data.len() == 4 && data[0] == 0x50 && data[1] == 0x49 && data[2] == 0x4e && data[3]
            == 0x47 {
            proof {
                assert(data@ =~= ping_bytes());
            }
            self.client_address = Some(source);
            return ControlAction::Ignore;
        }
        proof {
            assert(data@ != ping_bytes());
        }
        let frame = match parse_control_frame(data) {
            Some(f) => f,
            None => return ControlAction::Ignore,
        };
        let plaintext = match open_control_frame(&self.key, &frame) {
            Some(p) => p,
            None => {
                if self.window_total == 99 {
                    let fatal = (self.window_failures + 1) * 2 > 100;
                    self.window_total = 0;
                    self.window_failures = 0;
                    if fatal {
                        return ControlAction::SessionFatal;
                    }
                    return ControlAction::Ignore;
                }
                self.window_total = self.window_total + 1;
                self.window_failures = self.window_failures + 1;
                return ControlAction::Ignore;
            },
        };
        if self.window_total == 99 {
            self.window_total = 0;
            self.window_failures = 0;
        } else {
            self.window_total = self.window_total + 1;
        }
        if frame.type_code == CONTROL_TYPE_AUDIO_OR_INPUT {
            if plaintext.len() == 0 {
                ControlAction::StartAudio
            } else {
                ControlAction::InputData(plaintext)
            }
        } else if frame.type_code == CONTROL_TYPE_IDR_OR_TERMINATE {
            if plaintext.len() == 0 {
                ControlAction::RequestIdr
            } else {
                match self.client_address {
                    Some(addr) => {
                        if addr == source {
                            ControlAction::Termination
                        } else {
                            ControlAction::Ignore
                        }
                    },
                    None => ControlAction::Ignore,
                }
            }
        } else if frame.type_code == CONTROL_TYPE_INVALIDATE_REFERENCE_FRAMES {
            ControlAction::RequestIdr
        } else {
            ControlAction::Ignore
        }
    }
}

} // verus!
