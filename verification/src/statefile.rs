//! The persisted client state: an array of client entries carrying the
//! unique id, the certificate and the key, the two latter rendered in
//! hexadecimal. The file is written whole and reloaded whole.

use vstd::prelude::*;

use crate::bytes::{find_from, first_match_from, match_at, matches_at, subvec};
use crate::registry::Client;

verus! {

/// Whether `b` is the code of a hexadecimal digit, either case.
pub open spec fn is_hex_byte(b: u8) -> bool {
    (48 <= b <= 57) || (97 <= b <= 102) || (65 <= b <= 70)
}

/// The value of a hexadecimal digit code.
pub open spec fn hex_byte_val(b: u8) -> u8 {
    if 48 <= b <= 57 {
        (b - 48) as u8
    } else if 97 <= b <= 102 {
        (b - 87) as u8
    } else if 65 <= b <= 70 {
        (b - 55) as u8
    } else {
        0
    }
}

/// The lower-case digit code of a value below 16.
pub open spec fn hex_digit_byte(v: u8) -> u8 {
    if v < 10 {
        (48 + v) as u8
    } else {
        (87 + v) as u8
    }
}

/// Lower-case hexadecimal rendering: two digit codes per byte, high
/// nibble first.
pub open spec fn hexb_of(data: Seq<u8>) -> Seq<u8>
    decreases data.len(),
{
    if data.len() == 0 {
        Seq::empty()
    } else {
        seq![hex_digit_byte(data[0] / 16), hex_digit_byte((data[0] % 16) as u8)] + hexb_of(
            data.drop_first(),
        )
    }
}

/// What decoding a hexadecimal byte string yields: the bytes, when the
/// input has even length and holds only digits, and nothing otherwise.
pub open spec fn hexb_decode(s: Seq<u8>) -> Option<Seq<u8>> {
    if s.len() % 2 == 0 && (forall|i: int| 0 <= i < s.len() ==> is_hex_byte(s[i])) {
        Some(Seq::new((s.len() / 2) as nat, |i: int|
            (hex_byte_val(s[2 * i]) * 16 + hex_byte_val(s[2 * i + 1])) as u8))
    } else {
        None
    }
}

/// Digit positions of a rendering.
proof fn lemma_hexb_index(data: Seq<u8>)
    ensures
        hexb_of(data).len() == 2 * data.len(),
        forall|i: int| 0 <= i < data.len() ==> #[trigger] hexb_of(data)[2 * i] == hex_digit_byte(
            data[i] / 16,
        ),
        forall|i: int| 0 <= i < data.len() ==> #[trigger] hexb_of(data)[2 * i + 1]
            == hex_digit_byte((data[i] % 16) as u8),
    decreases data.len(),
{
    if data.len() > 0 {
        lemma_hexb_index(data.drop_first());
        assert forall|i: int| 0 <= i < data.len() implies #[trigger] hexb_of(data)[2 * i]
            == hex_digit_byte(data[i] / 16) by {
            if i > 0 {
                assert(hexb_of(data)[2 * i] == hexb_of(data.drop_first())[2 * (i - 1)]);
            }
        }
        assert forall|i: int| 0 <= i < data.len() implies #[trigger] hexb_of(data)[2 * i + 1]
            == hex_digit_byte((data[i] % 16) as u8) by {
            if i > 0 {
                assert(hexb_of(data)[2 * i + 1] == hexb_of(data.drop_first())[2 * (i - 1) + 1]);
            }
        }
    }
}

/// A digit code decodes to the value it was made from.
proof fn lemma_hex_digit_byte(v: u8)
    requires
        v < 16,
    ensures
        is_hex_byte(hex_digit_byte(v)),
        hex_byte_val(hex_digit_byte(v)) == v,
{
}

/// Decoding inverts encoding for byte-level hexadecimal.
pub proof fn lemma_hexb_roundtrip(data: Seq<u8>)
    ensures
        hexb_decode(hexb_of(data)) == Some(data),
{
    let s = hexb_of(data);
    lemma_hexb_index(data);
    assert forall|i: int| 0 <= i < s.len() implies is_hex_byte(s[i]) by {
        let b = i / 2;
        if i % 2 == 0 {
            assert(i == 2 * b);
            lemma_hex_digit_byte(data[b] / 16);
        } else {
            assert(i == 2 * b + 1);
            lemma_hex_digit_byte((data[b] % 16) as u8);
        }
    }
    let decoded = hexb_decode(s)->Some_0;
    assert forall|i: int| 0 <= i < data.len() implies decoded[i] == data[i] by {
        lemma_hex_digit_byte(data[i] / 16);
        lemma_hex_digit_byte((data[i] % 16) as u8);
        assert(decoded[i] == (data[i] / 16) * 16 + data[i] % 16);
    }
    assert(decoded =~= data);
}

/// Render bytes as hexadecimal digit codes.
pub fn hex_encode_bytes(data: &Vec<u8>) -> (r: Vec<u8>)
    ensures
        r@ == hexb_of(data@),
{
    proof {
        lemma_hexb_index(data@);
    }
    let mut out: Vec<u8> = Vec::new();
    let mut i: usize = 0;
    while i < data.len()
        invariant
            i <= data@.len(),
            out@.len() == 2 * i,
            forall|j: int| 0 <= j < out@.len() ==> out@[j] == hexb_of(data@)[j],
            hexb_of(data@).len() == 2 * data@.len(),
            forall|j: int| 0 <= j < data@.len() ==> #[trigger] hexb_of(data@)[2 * j]
                == hex_digit_byte(data@[j] / 16),
            forall|j: int| 0 <= j < data@.len() ==> #[trigger] hexb_of(data@)[2 * j + 1]
                == hex_digit_byte((data@[j] % 16) as u8),
        decreases data@.len() - i,
    {
        let b = data[i];
        let hi = b / 16;
        let lo = b % 16;
        out.push(if hi < 10 {
            48 + hi
        } else {
            87 + hi
        });
        out.push(if lo < 10 {
            48 + lo
        } else {
            87 + lo
        });
        i += 1;
    }
    assert(out@ =~= hexb_of(data@));
    out
}

/// Decode hexadecimal digit codes back to bytes.
pub fn hex_decode_bytes(s: &Vec<u8>) -> (r: Option<Vec<u8>>)
    ensures
        match r {
            Some(v) => hexb_decode(s@) == Some(v@),
            None => hexb_decode(s@) is None,
        },
{
    if s.len() % 2 != 0 {
        return None;
    }
    let mut out: Vec<u8> = Vec::new();
    let mut i: usize = 0;
    while i < s.len() / 2
        invariant
            s@.len() % 2 == 0,
            i <= s@.len() / 2,
            out@.len() == i,
            forall|j: int| 0 <= j < 2 * i ==> is_hex_byte(s@[j]),
            forall|j: int|
                0 <= j < i ==> out@[j] == (hex_byte_val(s@[2 * j]) * 16 + hex_byte_val(
                    s@[2 * j + 1],
                )) as u8,
        decreases s@.len() / 2 - i,
    {
        let a = s[2 * i];
        let b = s[2 * i + 1];
        let av = if 48 <= a && a <= 57 {
            a - 48
        } else if 97 <= a && a <= 102 {
            a - 87
        } else if 65 <= a && a <= 70 {
            a - 55
        } else {
            return None;
        };
        let bv = if 48 <= b && b <= 57 {
            b - 48
        } else if 97 <= b && b <= 102 {
            b - 87
        } else if 65 <= b && b <= 70 {
            b - 55
        } else {
            return None;
        };
        out.push(av * 16 + bv);
        i += 1;
    }
    proof {
        assert forall|j: int| 0 <= j < s@.len() implies is_hex_byte(s@[j]) by {
            if j % 2 == 0 {
                assert(j == 2 * (j / 2));
            } else {
                assert(j == 2 * (j / 2) + 1);
            }
        }
        assert(out@ =~= hexb_decode(s@)->Some_0);
    }
    Some(out)
}

/// The persisted fields of a client.
pub struct StoredClient {
    /// The unique id, as the bytes of its text.
    pub unique_id: Vec<u8>,
    pub certificate: Vec<u8>,
    pub key: Vec<u8>,
}

/// The persisted fields, as plain values.
#[verifier::ext_equal]
pub ghost struct StoredView {
    pub unique_id: Seq<u8>,
    pub certificate: Seq<u8>,
    pub key: Seq<u8>,
}

impl StoredClient {
    pub open spec fn view(self) -> StoredView {
        StoredView {
            unique_id: self.unique_id@,
            certificate: self.certificate@,
            key: self.key@,
        }
    }
}

/// An id the state file can carry: no quote, no line break.
pub open spec fn id_storable(id: Seq<u8>) -> bool {
    forall|i: int| 0 <= i < id.len() ==> id[i] != 34
}

/// No byte of the UTF-8 encoding of a scalar other than the quote is
/// the quote byte: a one-byte encoding is the scalar itself, and every
/// byte of a longer encoding has its high bit set.
proof fn lemma_encode_scalar_quote_free(v: u32)
    requires
        v != 34,
    ensures
        forall|j: int|
            0 <= j < vstd::utf8::encode_scalar(v).len() ==> #[trigger] vstd::utf8::encode_scalar(
                v,
            )[j] != 34,
{
    if vstd::utf8::has_width_1_encoding(v) {
        assert((v & 0x7F) as u8 != 34) by (bit_vector)
            requires
                v <= 0x7F && v != 34,
        ;
    } else {
        assert((0xC0u8 | ((v >> 6) & 0x1F) as u8) != 34) by (bit_vector);
        assert((0xE0u8 | ((v >> 12) & 0x0F) as u8) != 34) by (bit_vector);
        assert((0xF0u8 | ((v >> 18) & 0x7) as u8) != 34) by (bit_vector);
        assert((0x80u8 | (v & 0x3F) as u8) != 34) by (bit_vector);
        assert((0x80u8 | ((v >> 6) & 0x3F) as u8) != 34) by (bit_vector);
        assert((0x80u8 | ((v >> 12) & 0x3F) as u8) != 34) by (bit_vector);
    }
}

/// An id whose characters carry no quote encodes to bytes that carry
/// no quote: what the pairing front end admits, the state file can
/// hold and round-trip.
pub proof fn lemma_quote_free_id_storable(id: Seq<char>)
    requires
        crate::pairing::id_quote_free(id),
    ensures
        id_storable(vstd::utf8::encode_utf8(id)),
    decreases id.len(),
{
    if id.len() > 0 {
        lemma_encode_scalar_quote_free(id[0] as u32);
        assert(crate::pairing::id_quote_free(id.drop_first()));
        lemma_quote_free_id_storable(id.drop_first());
        let head = vstd::utf8::encode_scalar(id[0] as u32);
        let tail = vstd::utf8::encode_utf8(id.drop_first());
        assert forall|j: int|
            0 <= j < vstd::utf8::encode_utf8(id).len() implies #[trigger] vstd::utf8::encode_utf8(
            id,
        )[j] != 34 by {
            if j < head.len() {
                assert(vstd::utf8::encode_utf8(id)[j] == head[j]);
            } else {
                assert(vstd::utf8::encode_utf8(id)[j] == tail[j - head.len()]);
            }
        }
    }
}

/// `[[clients]]\nunique_id = "`.
pub open spec fn entry_head() -> Seq<u8> {
    seq![
        91u8, 91u8, 99u8, 108u8, 105u8, 101u8, 110u8, 116u8, 115u8, 93u8, 93u8, 10u8, 117u8,
        110u8, 105u8, 113u8, 117u8, 101u8, 95u8, 105u8, 100u8, 32u8, 61u8, 32u8, 34u8,
    ]
}

/// `"\ncertificate = "`.
pub open spec fn cert_sep() -> Seq<u8> {
    seq![
        34u8, 10u8, 99u8, 101u8, 114u8, 116u8, 105u8, 102u8, 105u8, 99u8, 97u8, 116u8, 101u8,
        32u8, 61u8, 32u8, 34u8,
    ]
}

/// `"\nkey = "`.
pub open spec fn key_sep() -> Seq<u8> {
    seq![34u8, 10u8, 107u8, 101u8, 121u8, 32u8, 61u8, 32u8, 34u8]
}

/// `"\n`.
pub open spec fn entry_tail() -> Seq<u8> {
    seq![34u8, 10u8]
}

/// One rendered entry.
pub open spec fn render_entry(v: StoredView) -> Seq<u8> {
    entry_head() + v.unique_id + cert_sep() + hexb_of(v.certificate) + key_sep() + hexb_of(v.key)
        + entry_tail()
}

/// The rendered state file: the entries in order.
pub open spec fn render_state_spec(vs: Seq<StoredView>) -> Seq<u8>
    decreases vs.len(),
{
    if vs.len() == 0 {
        Seq::empty()
    } else {
        render_entry(vs[0]) + render_state_spec(vs.drop_first())
    }
}

/// Parse one entry: the head literal, the id up to the closing quote,
/// then the certificate and the key in hexadecimal, each up to its
/// closing quote. Yields the entry and how many bytes it spans.
pub open spec fn parse_entry_spec(s: Seq<u8>) -> Option<(StoredView, int)> {
    if !matches_at(s, entry_head(), 0) {
        None
    } else {
        let id_start = entry_head().len() as int;
        match first_match_from(s, seq![34u8], id_start) {
            None => None,
            Some(id_end) => if !matches_at(s, cert_sep(), id_end) {
                None
            } else {
                let cert_start = id_end + cert_sep().len();
                match first_match_from(s, seq![34u8], cert_start) {
                    None => None,
                    Some(cert_end) => if !matches_at(s, key_sep(), cert_end) {
                        None
                    } else {
                        let key_start = cert_end + key_sep().len();
                        match first_match_from(s, seq![34u8], key_start) {
                            None => None,
                            Some(key_end) => if !matches_at(s, entry_tail(), key_end) {
                                None
                            } else {
                                match (
                                    hexb_decode(s.subrange(cert_start, cert_end)),
                                    hexb_decode(s.subrange(key_start, key_end)),
                                ) {
                                    (Some(cert), Some(key)) => Some(
                                        (
                                            StoredView {
                                                unique_id: s.subrange(id_start, id_end),
                                                certificate: cert,
                                                key: key,
                                            },
                                            key_end + entry_tail().len(),
                                        ),
                                    ),
                                    _ => None,
                                }
                            },
                        }
                    },
                }
            },
        }
    }
}

/// Parse a whole state file: entries until the bytes run out.
pub open spec fn parse_state_spec(s: Seq<u8>) -> Option<Seq<StoredView>>
    decreases s.len(),
{
    if s.len() == 0 {
        Some(Seq::empty())
    } else {
        match parse_entry_spec(s) {
            None => None,
            Some((v, used)) => if 1 <= used <= s.len() {
                match parse_state_spec(s.skip(used)) {
                    None => None,
                    Some(rest) => Some(seq![v] + rest),
                }
            } else {
                None
            },
        }
    }
}

/// The views of a list of stored clients.
pub open spec fn stored_views(s: Seq<StoredClient>) -> Seq<StoredView> {
    s.map_values(|c: StoredClient| c@)
}

/// Every digit of a rendering is a hexadecimal digit.
proof fn lemma_hexb_all_hex(data: Seq<u8>)
    ensures
        forall|i: int| 0 <= i < hexb_of(data).len() ==> is_hex_byte(#[trigger] hexb_of(data)[i]),
        hexb_of(data).len() == 2 * data.len(),
{
    lemma_hexb_index(data);
    assert forall|i: int| 0 <= i < hexb_of(data).len() implies is_hex_byte(
        #[trigger] hexb_of(data)[i],
    ) by {
        let b = i / 2;
        if i % 2 == 0 {
            assert(i == 2 * b);
            lemma_hex_digit_byte(data[b] / 16);
        } else {
            assert(i == 2 * b + 1);
            lemma_hex_digit_byte((data[b] % 16) as u8);
        }
    }
}

/// The first quote at or after `start` is at `q`.
proof fn lemma_first_quote(s: Seq<u8>, start: int, q: int)
    requires
        0 <= start <= q < s.len(),
        s[q] == 34,
        forall|j: int| start <= j < q ==> s[j] != 34,
    ensures
        first_match_from(s, seq![34u8], start) == Some(q),
    decreases q - start,
{
    assert(s.subrange(q, q + 1) =~= seq![34u8]);
    if start == q {
        assert(matches_at(s, seq![34u8], start));
    } else {
        assert(!matches_at(s, seq![34u8], start)) by {
            if matches_at(s, seq![34u8], start) {
                assert(s.subrange(start, start + 1) == seq![34u8]);
                assert(s.subrange(start, start + 1)[0] == s[start]);
            }
        }
        lemma_first_quote(s, start + 1, q);
    }
}

/// Parsing the rendering of one entry, followed by anything, yields
/// that entry and consumes exactly its rendering.
proof fn lemma_parse_render_entry(v: StoredView, rest: Seq<u8>)
    requires
        id_storable(v.unique_id),
    ensures
        parse_entry_spec(render_entry(v) + rest) == Some(
            (v, render_entry(v).len() as int),
        ),
        (render_entry(v) + rest).skip(render_entry(v).len() as int) == rest,
        render_entry(v).len() >= 1,
{
    let s = render_entry(v) + rest;
    let o1 = entry_head().len() as int;
    let o2 = o1 + v.unique_id.len();
    let o3 = o2 + cert_sep().len();
    let o4 = o3 + hexb_of(v.certificate).len();
    let o5 = o4 + key_sep().len();
    let o6 = o5 + hexb_of(v.key).len();
    let o7 = o6 + entry_tail().len();
    lemma_hexb_all_hex(v.certificate);
    lemma_hexb_all_hex(v.key);
    assert(s.subrange(0, o1) =~= entry_head());
    assert(s.subrange(o1, o2) =~= v.unique_id);
    assert(s.subrange(o2, o3) =~= cert_sep());
    assert(s.subrange(o3, o4) =~= hexb_of(v.certificate));
    assert(s.subrange(o4, o5) =~= key_sep());
    assert(s.subrange(o5, o6) =~= hexb_of(v.key));
    assert(s.subrange(o6, o7) =~= entry_tail());
    assert(matches_at(s, entry_head(), 0));
    assert forall|j: int| o1 <= j < o2 implies s[j] != 34 by {
        assert(s[j] == s.subrange(o1, o2)[j - o1]);
    }
    assert(s[o2] == s.subrange(o2, o3)[0]);
    lemma_first_quote(s, o1, o2);
    assert(matches_at(s, cert_sep(), o2));
    assert forall|j: int| o3 <= j < o4 implies s[j] != 34 by {
        assert(s[j] == s.subrange(o3, o4)[j - o3]);
        assert(is_hex_byte(hexb_of(v.certificate)[j - o3]));
    }
    assert(s[o4] == s.subrange(o4, o5)[0]);
    lemma_first_quote(s, o3, o4);
    assert(matches_at(s, key_sep(), o4));
    assert forall|j: int| o5 <= j < o6 implies s[j] != 34 by {
        assert(s[j] == s.subrange(o5, o6)[j - o5]);
        assert(is_hex_byte(hexb_of(v.key)[j - o5]));
    }
    assert(s[o6] == s.subrange(o6, o7)[0]);
    lemma_first_quote(s, o5, o6);
    assert(matches_at(s, entry_tail(), o6));
    lemma_hexb_roundtrip(v.certificate);
    lemma_hexb_roundtrip(v.key);
    assert(parse_entry_spec(s) == Some((v, o7)));
    assert(s.skip(o7) =~= rest);
}

/// Reloading a rendered state file yields the same entries: the state
/// file round trip is the identity, for every list of clients whose
/// ids carry no quote character.
#[verifier::rlimit(100)]
#[verifier::spinoff_prover]
pub proof fn lemma_state_roundtrip(vs: Seq<StoredView>)
    requires
        forall|i: int| 0 <= i < vs.len() ==> id_storable(#[trigger] vs[i].unique_id),
    ensures
        parse_state_spec(render_state_spec(vs)) == Some(vs),
    decreases vs.len(),
{
    if vs.len() == 0 {
        assert(render_state_spec(vs).len() == 0);
        assert(parse_state_spec(render_state_spec(vs)) == Some(Seq::<StoredView>::empty()));
        assert(vs =~= Seq::<StoredView>::empty());
    } else {
        let head = render_entry(vs[0]);
        let tail = render_state_spec(vs.drop_first());
        let s = head + tail;
        lemma_parse_render_entry(vs[0], tail);
        lemma_state_roundtrip(vs.drop_first());
        assert(s.len() > 0);
        assert(parse_entry_spec(s) == Some((vs[0], head.len() as int)));
        assert(s.skip(head.len() as int) == tail);
        assert(parse_state_spec(s) == Some(seq![vs[0]] + vs.drop_first()));
        assert(seq![vs[0]] + vs.drop_first() =~= vs);
    }
}

/// The persisted form of a paired client: the id as its text's bytes,
/// certificate and key unchanged.
pub fn store_client(c: &Client) -> (r: StoredClient)
    ensures
        r@.unique_id == vstd::utf8::encode_utf8(c.unique_id@),
        r@.certificate == c.certificate@,
        r@.key == c.key@,
{
    StoredClient {
        unique_id: c.unique_id.as_str().as_bytes_vec(),
        certificate: c.certificate.clone(),
        key: c.key.clone(),
    }
}

/// The `[[clients]]` head literal.
fn entry_head_vec() -> (r: Vec<u8>)
    ensures
        r@ == entry_head(),
{
    let mut out: Vec<u8> = Vec::new();
    out.push(91);
    out.push(91);
    out.push(99);
    out.push(108);
    out.push(105);
    out.push(101);
    out.push(110);
    out.push(116);
    out.push(115);
    out.push(93);
    out.push(93);
    out.push(10);
    out.push(117);
    out.push(110);
    out.push(105);
    out.push(113);
    out.push(117);
    out.push(101);
    out.push(95);
    out.push(105);
    out.push(100);
    out.push(32);
    out.push(61);
    out.push(32);
    out.push(34);
    assert(out@ =~= entry_head());
    out
}

/// The certificate separator literal.
fn cert_sep_vec() -> (r: Vec<u8>)
    ensures
        r@ == cert_sep(),
{
    let mut out: Vec<u8> = Vec::new();
    out.push(34);
    out.push(10);
    out.push(99);
    out.push(101);
    out.push(114);
    out.push(116);
    out.push(105);
    out.push(102);
    out.push(105);
    out.push(99);
    out.push(97);
    out.push(116);
    out.push(101);
    out.push(32);
    out.push(61);
    out.push(32);
    out.push(34);
    assert(out@ =~= cert_sep());
    out
}

/// The key separator literal.
fn key_sep_vec() -> (r: Vec<u8>)
    ensures
        r@ == key_sep(),
{
    let mut out: Vec<u8> = Vec::new();
    out.push(34);
    out.push(10);
    out.push(107);
    out.push(101);
    out.push(121);
    out.push(32);
    out.push(61);
    out.push(32);
    out.push(34);
    assert(out@ =~= key_sep());
    out
}

/// Render one entry.
fn render_entry_exec(c: &StoredClient) -> (r: Vec<u8>)
    ensures
        r@ == render_entry(c@),
{
    let mut out = entry_head_vec();
    out.extend_from_slice(c.unique_id.as_slice());
    let sep = cert_sep_vec();
    out.extend_from_slice(sep.as_slice());
    let cert_hex = hex_encode_bytes(&c.certificate);
    out.extend_from_slice(cert_hex.as_slice());
    let ksep = key_sep_vec();
    out.extend_from_slice(ksep.as_slice());
    let key_hex = hex_encode_bytes(&c.key);
    out.extend_from_slice(key_hex.as_slice());
    out.push(34);
    out.push(10);
    assert(out@ =~= render_entry(c@));
    out
}

/// Render the whole state file.
pub fn render_state(clients: &Vec<StoredClient>) -> (r: Vec<u8>)
    ensures
        r@ == render_state_spec(stored_views(clients@)),
{
    let mut out: Vec<u8> = Vec::new();
    let mut i: usize = 0;
    while i < clients.len()
        invariant
            i <= clients@.len(),
            out@ == render_state_spec(stored_views(clients@.subrange(0, i as int))),
        decreases clients@.len() - i,
    {
        let entry = render_entry_exec(&clients[i]);
        out.extend_from_slice(entry.as_slice());
        proof {
            lemma_render_state_snoc(clients@, i as int);
        }
        i += 1;
    }
    proof {
        assert(clients@.subrange(0, clients@.len() as int) =~= clients@);
    }
    out
}

/// Rendering one more entry appends its text.
proof fn lemma_render_state_snoc(cs: Seq<StoredClient>, i: int)
    requires
        0 <= i < cs.len(),
    ensures
        render_state_spec(stored_views(cs.subrange(0, i + 1))) == render_state_spec(
            stored_views(cs.subrange(0, i)),
        ) + render_entry(cs[i]@),
    decreases i,
{
    if i == 0 {
        let svs = stored_views(cs.subrange(0, 1));
        assert(svs.drop_first() =~= Seq::<StoredView>::empty());
        assert(stored_views(cs.subrange(0, 0)) =~= Seq::<StoredView>::empty());
        assert(svs[0] == cs[0]@);
        assert(render_state_spec(svs) == render_entry(cs[0]@) + render_state_spec(
            svs.drop_first(),
        ));
        assert(render_entry(cs[0]@) + Seq::<u8>::empty() =~= render_entry(cs[0]@));
        assert(Seq::<u8>::empty() + render_entry(cs[0]@) =~= render_entry(cs[0]@));
    } else {
        lemma_render_state_snoc(cs.drop_first(), i - 1);
        assert(stored_views(cs.subrange(0, i + 1)).drop_first() =~= stored_views(
            cs.drop_first().subrange(0, i),
        ));
        assert(stored_views(cs.subrange(0, i)).drop_first() =~= stored_views(
            cs.drop_first().subrange(0, i - 1),
        ));
        assert(stored_views(cs.subrange(0, i + 1))[0] == cs[0]@);
        assert(stored_views(cs.subrange(0, i))[0] == cs[0]@);
        assert(cs.drop_first()[i - 1]@ == cs[i]@);
        assert(render_state_spec(stored_views(cs.subrange(0, i + 1))) =~= render_state_spec(
            stored_views(cs.subrange(0, i)),
        ) + render_entry(cs[i]@));
    }
}

/// Parse one entry at the front of the bytes.
fn parse_entry(d: &Vec<u8>) -> (r: Option<(StoredClient, usize)>)
    ensures
        match r {
            Some(p) => parse_entry_spec(d@) == Some((p.0@, p.1 as int)) && 1 <= p.1 <= d@.len(),
            None => parse_entry_spec(d@) is None,
        },
{
    let n = d.len();
    let head = entry_head_vec();
    if !match_at(d, &head, 0) {
        return None;
    }
    let mut quote: Vec<u8> = Vec::new();
    quote.push(34);
    assert(quote@ =~= seq![34u8]);
    let id_start = head.len();
    let id_end = match find_from(d, &quote, id_start) {
        Some(i) => i,
        None => return None,
    };
    let sep = cert_sep_vec();
    if !match_at(d, &sep, id_end) {
        return None;
    }
    assert(id_end + sep@.len() <= n);
    let cert_start = id_end + sep.len();
    let cert_end = match find_from(d, &quote, cert_start) {
        Some(i) => i,
        None => return None,
    };
    let ksep = key_sep_vec();
    if !match_at(d, &ksep, cert_end) {
        return None;
    }
    assert(cert_end + ksep@.len() <= n);
    let key_start = cert_end + ksep.len();
    let key_end = match find_from(d, &quote, key_start) {
        Some(i) => i,
        None => return None,
    };
    let mut tail: Vec<u8> = Vec::new();
    tail.push(34);
    tail.push(10);
    assert(tail@ =~= entry_tail());
    if !match_at(d, &tail, key_end) {
        return None;
    }
    let cert_hex = subvec(d, cert_start, cert_end);
    let key_hex = subvec(d, key_start, key_end);
    let certificate = match hex_decode_bytes(&cert_hex) {
        Some(c) => c,
        None => return None,
    };
    let key = match hex_decode_bytes(&key_hex) {
        Some(k) => k,
        None => return None,
    };
    let unique_id = subvec(d, id_start, id_end);
    Some((StoredClient { unique_id, certificate, key }, key_end + 2))
}

/// Parse a whole state file.
pub fn parse_state(data: &Vec<u8>) -> (r: Option<Vec<StoredClient>>)
    ensures
        match r {
            Some(list) => parse_state_spec(data@) == Some(stored_views(list@)),
            None => parse_state_spec(data@) is None,
        },
{
    let mut out: Vec<StoredClient> = Vec::new();
    let mut pos: usize = 0;
    proof {
        assert(data@.skip(0) =~= data@);
        assert(stored_views(out@) =~= Seq::<StoredView>::empty());
    }
    while pos < data.len()
        invariant
            pos <= data@.len(),
            match parse_state_spec(data@.skip(pos as int)) {
                Some(tail) => parse_state_spec(data@) == Some(stored_views(out@) + tail),
                None => parse_state_spec(data@) is None,
            },
        decreases data@.len() - pos,
    {
        let rest = subvec(data, pos, data.len());
        let (entry, used) = match parse_entry(&rest) {
            Some(p) => p,
            None => {
                return None;
            },
        };
        proof {
            assert(data@.skip(pos as int).skip(used as int) =~= data@.skip(pos + used));
        }
        out.push(entry);
        proof {
            let ghost s = data@.skip(pos as int);
            assert(s.len() > 0);
            match parse_state_spec(data@.skip(pos + used)) {
                Some(tail2) => {
                    assert(parse_state_spec(s) == Some(seq![entry@] + tail2));
                    assert(stored_views(out@) =~= stored_views(out@.drop_last()) + seq![entry@]);
                    assert(stored_views(out@.drop_last()) + (seq![entry@] + tail2) =~= stored_views(
                        out@,
                    ) + tail2);
                },
                None => {
                    assert(parse_state_spec(s) is None);
                },
            }
        }
        pos = pos + used;
    }
    proof {
        assert(data@.skip(pos as int) =~= Seq::<u8>::empty());
        assert(parse_state_spec(Seq::<u8>::empty()) == Some(Seq::<StoredView>::empty()));
        assert(stored_views(out@) + Seq::<StoredView>::empty() =~= stored_views(out@));
    }
    Some(out)
}

} // verus!
