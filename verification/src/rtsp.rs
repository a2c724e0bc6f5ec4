//! RTSP negotiator: a tolerant parser for the subset of RTSP 1.0 the
//! streaming clients speak, the response writer, and the handlers for
//! OPTIONS, DESCRIBE, SETUP, ANNOUNCE and PLAY.
//!
//! The clients emit non-URI request targets (`PLAY /`) and bare
//! `streamid` transport parameters, so the parser works directly on
//! bytes instead of demanding well-formed URIs: the request target is
//! kept verbatim and queries are found by substring search.

use vstd::prelude::*;
use vstd::string::StringSliceAdditionalSpecFns;

use crate::audio::AudioStreamContext;
use crate::bytes::{
    bytes_eq, dec_str, dec_val, find_from, first_match_from, is_digit, parse_u32_dec, subvec,
    u32_to_dec,
};
use crate::video::VideoStreamContext;

verus! {

/// Largest accepted video payload size per packet: the conservative
/// Ethernet MTU budget after IP, UDP and the stream headers.
pub const MAX_PACKET_SIZE: usize = 1392;

/// Largest accepted video bitrate in kilobits per second: the largest
/// value whose bits-per-second product still fits the 32-bit floor of
/// `usize`, the type of the stored bitrate.
pub const MAX_BITRATE_KBPS: u32 = 4194303;

/// The request methods the negotiator distinguishes.
#[derive(Clone, Copy, Debug, PartialEq, Eq, Structural)]
pub enum RtspMethod {
    Options,
    Describe,
    Setup,
    Announce,
    Play,
    Other,
}

/// A parsed request: method, verbatim target, sequence number and body.
pub struct RtspRequest {
    pub method: RtspMethod,
    pub target: Vec<u8>,
    pub cseq: u32,
    pub body: Vec<u8>,
}

/// What reading a buffer yields.
pub enum RtspParseOutcome {
    /// No complete message yet: keep the buffer and read more.
    Incomplete,
    /// The head is complete but not a usable request: drop the
    /// connection.
    Malformed,
    /// A complete request.
    Request(RtspRequest),
}

/// A response under construction: status, echoed sequence number,
/// extra headers, body.
pub struct RtspResponse {
    pub status: u16,
    pub cseq: u32,
    pub headers: Vec<(Vec<u8>, Vec<u8>)>,
    pub body: Vec<u8>,
}

/// The UDP ports the negotiator hands out for each stream kind.
#[derive(Clone, Copy, Debug, PartialEq, Eq, Structural)]
pub struct StreamPorts {
    pub video: u16,
    pub audio: u16,
    pub control: u16,
}

/// What the runtime must do after a reply is sent.
pub enum RtspAction {
    /// Nothing beyond sending the reply.
    Nothing,
    /// Hand the negotiated stream parameters to the session manager.
    SetStreamContext(VideoStreamContext, AudioStreamContext),
    /// Ask the session manager to start the session.
    StartSession,
}

/// Outcome of feeding a connection's buffer to the negotiator.
pub enum RtspMessageOutcome {
    /// The buffer holds no complete message yet.
    Incomplete,
    /// The message cannot be answered; close the connection.
    ProtocolError,
    /// Send the response, then perform the action.
    Reply(RtspResponse, RtspAction),
}

/// `\r\n`.
pub open spec fn crlf() -> Seq<u8> {
    seq![13u8, 10u8]
}

/// `\r\n\r\n`: the end of a message head.
pub open spec fn crlf2() -> Seq<u8> {
    seq![13u8, 10u8, 13u8, 10u8]
}

/// A single space.
pub open spec fn sp1() -> Seq<u8> {
    seq![32u8]
}

/// The first position at or after `i` that is neither space nor tab.
pub open spec fn skip_spaces_from(d: Seq<u8>, i: int) -> int
    decreases d.len() - i,
        when 0 <= i <= d.len()
{
    if i < d.len() && (d[i] == 32 || d[i] == 9) {
        skip_spaces_from(d, i + 1)
    } else {
        i
    }
}

/// The first position at or after `i` holding a carriage return or
/// line feed, or the end of the string.
pub open spec fn line_end_from(d: Seq<u8>, i: int) -> int
    decreases d.len() - i,
        when 0 <= i <= d.len()
{
    if i < d.len() && d[i] != 13 && d[i] != 10 {
        line_end_from(d, i + 1)
    } else {
        i
    }
}

/// Classify a method token.
pub open spec fn method_spec(t: Seq<u8>) -> RtspMethod {
    if t == "OPTIONS".spec_bytes() {
        RtspMethod::Options
    } else if t == "DESCRIBE".spec_bytes() {
        RtspMethod::Describe
    } else if t == "SETUP".spec_bytes() {
        RtspMethod::Setup
    } else if t == "ANNOUNCE".spec_bytes() {
        RtspMethod::Announce
    } else if t == "PLAY".spec_bytes() {
        RtspMethod::Play
    } else {
        RtspMethod::Other
    }
}

/// The position before `ve` where the trailing blanks of the range
/// `[vs, ve)` begin.
pub open spec fn trim_spaces_back(d: Seq<u8>, vs: int, ve: int) -> int
    decreases ve - vs,
        when 0 <= vs <= ve <= d.len()
{
    if ve > vs && (d[ve - 1] == 32 || d[ve - 1] == 9) {
        trim_spaces_back(d, vs, ve - 1)
    } else {
        ve
    }
}

/// The attribute value behind the first occurrence of `name:`: spaces
/// and tabs trimmed from both ends, running to the end of its line.
pub open spec fn attr_raw(d: Seq<u8>, name: Seq<u8>) -> Option<Seq<u8>> {
    match first_match_from(d, name + seq![58u8], 0) {
        None => None,
        Some(i) => {
            let vs = skip_spaces_from(d, i + name.len() + 1);
            let ve = trim_spaces_back(d, vs, line_end_from(d, vs));
            Some(d.subrange(vs, ve))
        },
    }
}

/// The attribute value as a number: present, one to ten digits, and
/// within 32 bits.
pub open spec fn attr_num(d: Seq<u8>, name: Seq<u8>) -> Option<int> {
    match attr_raw(d, name) {
        None => None,
        Some(v) => if 1 <= v.len() <= 10 && (forall|j: int| 0 <= j < v.len() ==> is_digit(v[j]))
            && dec_val(v) <= 0xFFFFFFFF {
            Some(dec_val(v))
        } else {
            None
        },
    }
}

/// What parsing a buffer yields, at the specification level.
pub ghost enum RtspParseSpec {
    Incomplete,
    Malformed,
    Req { method: RtspMethod, target: Seq<u8>, cseq: int, body: Seq<u8> },
}

/// The header value `name: value` as a number, searched in the head.
pub open spec fn header_num(head: Seq<u8>, name: Seq<u8>) -> Option<int> {
    attr_num(head, name)
}

/// The request a buffer holds. The head ends at the first blank line;
/// the request line is `METHOD SP target SP version`; `CSeq` is
/// required; the body length is `Content-Length`, defaulting to zero;
/// the message is incomplete until the whole body has arrived.
pub open spec fn parse_rtsp_spec(d: Seq<u8>) -> RtspParseSpec {
    match first_match_from(d, crlf2(), 0) {
        None => RtspParseSpec::Incomplete,
        Some(h) => {
            let head = d.subrange(0, h + 2);
            let line = head.subrange(0, line_end_from(head, 0));
            match first_match_from(line, sp1(), 0) {
                None => RtspParseSpec::Malformed,
                Some(s1) => match first_match_from(line, sp1(), s1 + 1) {
                    None => RtspParseSpec::Malformed,
                    Some(s2) => match header_num(head, "CSeq".spec_bytes()) {
                        None => RtspParseSpec::Malformed,
                        Some(cseq) => {
                            let clen = if first_match_from(
                                head,
                                "Content-Length".spec_bytes() + seq![58u8],
                                0,
                            ) is Some {
                                header_num(head, "Content-Length".spec_bytes())
                            } else {
                                Some(0)
                            };
                            match clen {
                                None => RtspParseSpec::Malformed,
                                Some(cl) => if h + 4 + cl <= d.len() {
                                    RtspParseSpec::Req {
                                        method: method_spec(line.subrange(0, s1)),
                                        target: line.subrange(s1 + 1, s2),
                                        cseq: cseq,
                                        body: d.subrange(h + 4, h + 4 + cl),
                                    }
                                } else {
                                    RtspParseSpec::Incomplete
                                },
                            }
                        },
                    },
                },
            }
        },
    }
}

/// Whether an executable outcome is the one the specification names.
pub open spec fn outcome_corresponds(r: RtspParseOutcome, s: RtspParseSpec) -> bool {
    match r {
        RtspParseOutcome::Incomplete => s is Incomplete,
        RtspParseOutcome::Malformed => s is Malformed,
        RtspParseOutcome::Request(q) => s matches RtspParseSpec::Req { method, target, cseq, body }
            && q.method == method && q.target@ == target && q.cseq == cseq && q.body@ == body,
    }
}

/// The first non-space position at or after `i`.
fn skip_spaces(d: &Vec<u8>, i: usize) -> (r: usize)
    requires
        i <= d@.len(),
    ensures
        r == skip_spaces_from(d@, i as int),
        i <= r <= d@.len(),
{
    let n = d.len();
    let mut k: usize = i;
    while k < n && (d[k] == 32 || d[k] == 9)
        invariant
            n == d@.len(),
            i <= k <= n,
            skip_spaces_from(d@, i as int) == skip_spaces_from(d@, k as int),
        decreases n - k,
    {
        k += 1;
    }
    k
}

/// The end of the line starting at or after `i`.
fn line_end(d: &Vec<u8>, i: usize) -> (r: usize)
    requires
        i <= d@.len(),
    ensures
        r == line_end_from(d@, i as int),
        i <= r <= d@.len(),
{
    let n = d.len();
    let mut k: usize = i;
    while k < n && d[k] != 13 && d[k] != 10
        invariant
            n == d@.len(),
            i <= k <= n,
            line_end_from(d@, i as int) == line_end_from(d@, k as int),
        decreases n - k,
    {
        k += 1;
    }
    k
}

/// The end of the value once trailing spaces are dropped.
fn trim_end(d: &Vec<u8>, vs: usize, ve: usize) -> (r: usize)
    requires
        vs <= ve <= d@.len(),
    ensures
        r == trim_spaces_back(d@, vs as int, ve as int),
        vs <= r <= ve,
{
    let mut e: usize = ve;
    while e > vs && (d[e - 1] == 32 || d[e - 1] == 9)
        invariant
            vs <= e <= ve <= d@.len(),
            trim_spaces_back(d@, vs as int, ve as int) == trim_spaces_back(
                d@,
                vs as int,
                e as int,
            ),
        decreases e,
    {
        e -= 1;
    }
    e
}

/// The trimmed value of the first `name:` attribute in `d`.
pub fn get_sdp_attribute(d: &Vec<u8>, name: &Vec<u8>) -> (r: Option<Vec<u8>>)
    ensures
        match r {
            Some(v) => attr_raw(d@, name@) == Some(v@),
            None => attr_raw(d@, name@) is None,
        },
{
    let n = d.len();
    let mut pattern = name.clone();
    pattern.push(58);
    assert(pattern@ =~= name@ + seq![58u8]);
    let i = match find_from(d, &pattern, 0) {
        Some(i) => i,
        None => return None,
    };
    assert(i + name@.len() + 1 <= n);
    let vs = skip_spaces(d, i + name.len() + 1);
    let ve = trim_end(d, vs, line_end(d, vs));
    Some(subvec(d, vs, ve))
}

/// The numeric value of the first `name:` attribute in `d`.
fn get_attr_num(d: &Vec<u8>, name: &Vec<u8>) -> (r: Option<u32>)
    ensures
        match r {
            Some(v) => attr_num(d@, name@) == Some(v as int),
            None => attr_num(d@, name@) is None,
        },
{
    let raw = match get_sdp_attribute(d, name) {
        Some(v) => v,
        None => return None,
    };
    parse_u32_dec(&raw)
}

/// Parse the buffered bytes of one connection.
pub fn parse_rtsp_message(buf: &Vec<u8>) -> (r: RtspParseOutcome)
    ensures
        outcome_corresponds(r, parse_rtsp_spec(buf@)),
{
    let mut crlf2_pat: Vec<u8> = Vec::new();
    crlf2_pat.push(13);
    crlf2_pat.push(10);
    crlf2_pat.push(13);
    crlf2_pat.push(10);
    assert(crlf2_pat@ =~= crlf2());
    let n = buf.len();
    let h = match find_from(buf, &crlf2_pat, 0) {
        Some(h) => h,
        None => return RtspParseOutcome::Incomplete,
    };
    assert(h + 4 <= n);
    let head = subvec(buf, 0, h + 2);
    let line_e = line_end(&head, 0);
    let line = subvec(&head, 0, line_e);
    let mut sp_pat: Vec<u8> = Vec::new();
    sp_pat.push(32);
    assert(sp_pat@ =~= sp1());
    let s1 = match find_from(&line, &sp_pat, 0) {
        Some(s) => s,
        None => return RtspParseOutcome::Malformed,
    };
    let s2 = match find_from(&line, &sp_pat, s1 + 1) {
        Some(s) => s,
        None => return RtspParseOutcome::Malformed,
    };
    let cseq_name = "CSeq".as_bytes_vec();
    let cseq = match get_attr_num(&head, &cseq_name) {
        Some(c) => c,
        None => return RtspParseOutcome::Malformed,
    };
    let cl_name = "Content-Length".as_bytes_vec();
    let mut cl_pat = cl_name.clone();
    cl_pat.push(58);
    assert(cl_pat@ =~= "Content-Length".spec_bytes() + seq![58u8]);
    let content_length: u32 = match find_from(&head, &cl_pat, 0) {
        Some(_) => {
            match get_attr_num(&head, &cl_name) {
                Some(c) => c,
                None => return RtspParseOutcome::Malformed,
            }
        },
        None => 0,
    };
    if n - h - 4 < (content_length as usize) {
        return RtspParseOutcome::Incomplete;
    }
    let body = subvec(buf, h + 4, h + 4 + (content_length as usize));
    let method_tok = subvec(&line, 0, s1);
    let method = classify_method(&method_tok);
    let target = subvec(&line, s1 + 1, s2);
    RtspParseOutcome::Request(RtspRequest { method, target, cseq, body })
}

/// Classify a request-line method token.
fn classify_method(tok: &Vec<u8>) -> (r: RtspMethod)
    ensures
        r == method_spec(tok@),
{
    if bytes_eq(tok, &"OPTIONS".as_bytes_vec()) {
        RtspMethod::Options
    } else if bytes_eq(tok, &"DESCRIBE".as_bytes_vec()) {
        RtspMethod::Describe
    } else if bytes_eq(tok, &"SETUP".as_bytes_vec()) {
        RtspMethod::Setup
    } else if bytes_eq(tok, &"ANNOUNCE".as_bytes_vec()) {
        RtspMethod::Announce
    } else if bytes_eq(tok, &"PLAY".as_bytes_vec()) {
        RtspMethod::Play
    } else {
        RtspMethod::Other
    }
}

/// The reason phrase of a status code.
pub open spec fn reason_spec(status: u16) -> Seq<u8> {
    if status == 200 {
        "OK".spec_bytes()
    } else if status == 400 {
        "Bad Request".spec_bytes()
    } else if status == 500 {
        "Internal Server Error".spec_bytes()
    } else {
        "Unknown".spec_bytes()
    }
}

/// The wire form of the extra headers: `name: value` lines.
pub open spec fn render_headers_spec(hs: Seq<(Vec<u8>, Vec<u8>)>) -> Seq<u8>
    decreases hs.len(),
{
    if hs.len() == 0 {
        Seq::empty()
    } else {
        hs[0].0@ + ": ".spec_bytes() + hs[0].1@ + crlf() + render_headers_spec(hs.drop_first())
    }
}

/// The wire form of a response: status line, `CSeq`, extra headers, a
/// blank line, then the body.
pub open spec fn render_response_spec(r: RtspResponse) -> Seq<u8> {
    "RTSP/1.0 ".spec_bytes() + dec_str(r.status as int) + sp1() + reason_spec(r.status) + crlf()
        + "CSeq: ".spec_bytes() + dec_str(r.cseq as int) + crlf() + render_headers_spec(r.headers@)
        + crlf() + r.body@
}

/// Write a response to its wire form.
pub fn render_rtsp_response(r: &RtspResponse) -> (out: Vec<u8>)
    ensures
        out@ == render_response_spec(*r),
{
    let mut out: Vec<u8> = Vec::new();
    out.extend_from_slice("RTSP/1.0 ".as_bytes());
    let status_digits = u32_to_dec(r.status as u32);
    out.extend_from_slice(status_digits.as_slice());
    out.push(32);
    if r.status == 200 {
        out.extend_from_slice("OK".as_bytes());
    } else if r.status == 400 {
        out.extend_from_slice("Bad Request".as_bytes());
    } else if r.status == 500 {
        out.extend_from_slice("Internal Server Error".as_bytes());
    } else {
        out.extend_from_slice("Unknown".as_bytes());
    }
    out.push(13);
    out.push(10);
    out.extend_from_slice("CSeq: ".as_bytes());
    let cseq_digits = u32_to_dec(r.cseq);
    out.extend_from_slice(cseq_digits.as_slice());
    out.push(13);
    out.push(10);
    let ghost prefix = out@;
    let mut i: usize = 0;
    while i < r.headers.len()
        invariant
            i <= r.headers@.len(),
            out@ == prefix + render_headers_spec(r.headers@.subrange(0, i as int)),
        decreases r.headers@.len() - i,
    {
        out.extend_from_slice(r.headers[i].0.as_slice());
        out.extend_from_slice(": ".as_bytes());
        out.extend_from_slice(r.headers[i].1.as_slice());
        out.push(13);
        out.push(10);
        proof {
            lemma_render_headers_snoc(r.headers@, i as int);
            assert(out@ =~= prefix + render_headers_spec(r.headers@.subrange(0, i + 1 as int)));
        }
        i += 1;
    }
    proof {
        assert(r.headers@.subrange(0, r.headers@.len() as int) =~= r.headers@);
    }
    out.push(13);
    out.push(10);
    out.extend_from_slice(r.body.as_slice());
    proof {
        assert(out@ =~= render_response_spec(*r));
    }
    out
}

/// Rendering the first `i + 1` headers appends one line to rendering
/// the first `i`.
proof fn lemma_render_headers_snoc(hs: Seq<(Vec<u8>, Vec<u8>)>, i: int)
    requires
        0 <= i < hs.len(),
    ensures
        render_headers_spec(hs.subrange(0, i + 1)) == render_headers_spec(hs.subrange(0, i))
            + hs[i].0@ + ": ".spec_bytes() + hs[i].1@ + crlf(),
    decreases i,
{
    if i == 0 {
        assert(hs.subrange(0, 1).drop_first() =~= Seq::empty());
        assert(hs.subrange(0, 0) =~= Seq::<(Vec<u8>, Vec<u8>)>::empty());
        assert(render_headers_spec(hs.subrange(0, 1)) == hs[0].0@ + ": ".spec_bytes() + hs[0].1@
            + crlf() + Seq::<u8>::empty());
        assert(render_headers_spec(hs.subrange(0, 1)) =~= render_headers_spec(hs.subrange(0, 0))
            + hs[0].0@ + ": ".spec_bytes() + hs[0].1@ + crlf());
    } else {
        lemma_render_headers_snoc(hs.drop_first(), i - 1);
        assert(hs.subrange(0, i + 1).drop_first() =~= hs.drop_first().subrange(0, i));
        assert(hs.subrange(0, i).drop_first() =~= hs.drop_first().subrange(0, i - 1));
        assert(render_headers_spec(hs.subrange(0, i + 1)) =~= render_headers_spec(
            hs.subrange(0, i),
        ) + hs[i].0@ + ": ".spec_bytes() + hs[i].1@ + crlf());
    }
}

/// The port a SETUP request asks for: the `streamid=<kind>` query
/// names the stream kind, and the configuration holds its port.
/// The bytes of `streamid=`.
pub open spec fn streamid_pat() -> Seq<u8> {
    seq![115u8, 116u8, 114u8, 101u8, 97u8, 109u8, 105u8, 100u8, 61u8]
}

pub open spec fn setup_port_spec(t: Seq<u8>, ports: StreamPorts) -> Option<u16> {
    match first_match_from(t, streamid_pat(), 0) {
        None => None,
        Some(i) => {
            let vs = i + 9;
            let ve = match first_match_from(t, seq![47u8], vs) {
                Some(j) => j,
                None => t.len() as int,
            };
            let kind = t.subrange(vs, ve);
            if kind == "video".spec_bytes() {
                Some(ports.video)
            } else if kind == "audio".spec_bytes() {
                Some(ports.audio)
            } else if kind == "control".spec_bytes() {
                Some(ports.control)
            } else {
                None
            }
        },
    }
}

/// The stream parameters an ANNOUNCE body carries, when every required
/// attribute is present, numeric where a number is needed, the packet
/// size within `(0, MAX_PACKET_SIZE]` and the bitrate within bounds.
/// The bitrate arrives in kilobits per second and is stored in bits
/// per second.
pub open spec fn announce_contexts(b: Seq<u8>) -> Option<(VideoStreamContext, AudioStreamContext)> {
    let w = attr_num(b, "x-nv-video[0].clientViewportWd".spec_bytes());
    let h = attr_num(b, "x-nv-video[0].clientViewportHt".spec_bytes());
    let f = attr_num(b, "x-nv-video[0].maxFPS".spec_bytes());
    let ps = attr_num(b, "x-nv-video[0].packetSize".spec_bytes());
    let br = attr_num(b, "x-nv-vqos[0].bw.maximumBitrateKbps".spec_bytes());
    let mf = attr_num(b, "x-nv-vqos[0].fec.minRequiredFecPackets".spec_bytes());
    let vq = attr_raw(b, "x-nv-vqos[0].qosTrafficType".spec_bytes());
    let pd = attr_num(b, "x-nv-aqos.packetDuration".spec_bytes());
    let aq = attr_raw(b, "x-nv-aqos.qosTrafficType".spec_bytes());
    if w is Some && h is Some && f is Some && ps is Some && 1 <= ps->Some_0 <= MAX_PACKET_SIZE
        && br is Some && br->Some_0 <= MAX_BITRATE_KBPS && mf is Some && vq is Some && pd is Some
        && aq is Some {
        Some(
            (
                VideoStreamContext {
                    width: w->Some_0 as u32,
                    height: h->Some_0 as u32,
                    fps: f->Some_0 as u32,
                    packet_size: ps->Some_0 as usize,
                    bitrate: (br->Some_0 * 1024) as usize,
                    minimum_fec_packets: mf->Some_0 as u32,
                    qos: vq->Some_0 != "0".spec_bytes(),
                    video_format: 0,
                },
                AudioStreamContext {
                    packet_duration: pd->Some_0 as u32,
                    qos: aq->Some_0 != "0".spec_bytes(),
                },
            ),
        )
    } else {
        None
    }
}

/// What the SETUP reply is: the configured port of the requested
/// stream kind behind the transport and session headers, or 400 when
/// no known stream is named.
pub open spec fn setup_reply_post(
    r: RtspResponse,
    target: Seq<u8>,
    ports: StreamPorts,
    cseq: u32,
) -> bool {
    &&& r.cseq == cseq
    &&& match setup_port_spec(target, ports) {
        Some(p) => {
            &&& r.status == 200
            &&& r.headers@.len() == 2
            &&& r.headers@[0].0@ == "Session".spec_bytes()
            &&& r.headers@[0].1@ == "MoonshineSession;timeout = 90".spec_bytes()
            &&& r.headers@[1].0@ == "Transport".spec_bytes()
            &&& r.headers@[1].1@ == "server_port=".spec_bytes() + dec_str(p as int)
            &&& r.body@.len() == 0
        },
        None => r.status == 400 && r.headers@.len() == 0 && r.body@.len() == 0,
    }
}

/// The negotiator: the configured stream ports, shared by every
/// connection.
pub struct RtspServer {
    pub ports: StreamPorts,
}

impl RtspServer {
    /// A negotiator for the configured ports.
    pub fn new(ports: StreamPorts) -> (r: RtspServer)
        ensures
            r.ports == ports,
    {
        RtspServer { ports }
    }

    /// The fixed session description offered to DESCRIBE: H.264 at a
    /// 90 kHz clock with packetisation mode 1.
    pub fn description(&self) -> (r: Vec<u8>)
        ensures
            r@ == sdp_description(),
    {
        "v=0\r\no=- 0 0 IN IP4 127.0.0.1\r\ns=No Name\r\nt=0 0\r\na=tool:libavformat LIBAVFORMAT_VERSION\r\nm=video 0 RTP/AVP 96\r\nb=AS:2000\r\na=rtpmap:96 H264/90000\r\na=fmtp:96 packetization-mode=1\r\na=control:streamid=0\r\n".as_bytes_vec()
    }

    /// OPTIONS: name the methods this server answers.
    pub fn handle_options_request(&self, cseq: u32) -> (r: RtspResponse)
        ensures
            r.status == 200,
            r.cseq == cseq,
            r.headers@.len() == 1,
            r.headers@[0].0@ == "Public".spec_bytes(),
            r.headers@[0].1@ == "OPTIONS DESCRIBE SETUP PLAY".spec_bytes(),
            r.body@.len() == 0,
    {
        let mut headers: Vec<(Vec<u8>, Vec<u8>)> = Vec::new();
        headers.push(("Public".as_bytes_vec(), "OPTIONS DESCRIBE SETUP PLAY".as_bytes_vec()));
        RtspResponse { status: 200, cseq, headers, body: Vec::new() }
    }

    /// DESCRIBE: answer with the fixed session description.
    pub fn handle_describe_request(&self, cseq: u32) -> (r: RtspResponse)
        ensures
            r.status == 200,
            r.cseq == cseq,
            r.headers@.len() == 0,
            r.body@ == sdp_description(),
    {
        RtspResponse { status: 200, cseq, headers: Vec::new(), body: self.description() }
    }

    /// SETUP: answer with the configured port of the requested stream,
    /// or reject a request that names no known stream.
    pub fn handle_setup_request(&self, request: &RtspRequest) -> (r: RtspResponse)
        ensures
            setup_reply_post(r, request.target@, self.ports, request.cseq),
    {
        let n = request.target.len();
        let mut sid: Vec<u8> = Vec::new();
        sid.push(115);
        sid.push(116);
        sid.push(114);
        sid.push(101);
        sid.push(97);
        sid.push(109);
        sid.push(105);
        sid.push(100);
        sid.push(61);
        assert(sid@ =~= streamid_pat());
        let i = match find_from(&request.target, &sid, 0) {
            Some(i) => i,
            None => return rtsp_response(request.cseq, 400),
        };
        assert(i + 9 <= n);
        let vs = i + 9;
        let mut slash: Vec<u8> = Vec::new();
        slash.push(47);
        assert(slash@ =~= seq![47u8]);
        let ve = match find_from(&request.target, &slash, vs) {
            Some(j) => j,
            None => n,
        };
        let kind = subvec(&request.target, vs, ve);
        let port: u16 = if bytes_eq(&kind, &"video".as_bytes_vec()) {
            self.ports.video
        } else if bytes_eq(&kind, &"audio".as_bytes_vec()) {
            self.ports.audio
        } else if bytes_eq(&kind, &"control".as_bytes_vec()) {
            self.ports.control
        } else {
            return rtsp_response(request.cseq, 400);
        };
        proof {
            assert(setup_port_spec(request.target@, self.ports) == Some(port));
        }
        let mut headers: Vec<(Vec<u8>, Vec<u8>)> = Vec::new();
        headers.push(("Session".as_bytes_vec(), "MoonshineSession;timeout = 90".as_bytes_vec()));
        let mut transport = "server_port=".as_bytes_vec();
        let digits = u32_to_dec(port as u32);
        transport.extend_from_slice(digits.as_slice());
        assert(transport@ =~= "server_port=".spec_bytes() + dec_str(port as int));
        headers.push(("Transport".as_bytes_vec(), transport));
        RtspResponse { status: 200, cseq: request.cseq, headers, body: Vec::new() }
    }

    /// ANNOUNCE: extract the stream parameters from the session
    /// description in the body. Any missing or malformed attribute, a
    /// packet size of zero or above `MAX_PACKET_SIZE`, or an
    /// out-of-range bitrate rejects the request.
    pub fn handle_announce_request(&self, request: &RtspRequest) -> (r: (
        RtspResponse,
        Option<(VideoStreamContext, AudioStreamContext)>,
    ))
        ensures
            r.0.cseq == request.cseq,
            r.1 == announce_contexts(request.body@),
            r.1 is Some ==> r.0.status == 200,
            r.1 is None ==> r.0.status == 400,
    {
        let b = &request.body;
        let width = get_attr_num(b, &"x-nv-video[0].clientViewportWd".as_bytes_vec());
        let height = get_attr_num(b, &"x-nv-video[0].clientViewportHt".as_bytes_vec());
        let fps = get_attr_num(b, &"x-nv-video[0].maxFPS".as_bytes_vec());
        let packet_size = get_attr_num(b, &"x-nv-video[0].packetSize".as_bytes_vec());
        let bitrate_kbps = get_attr_num(b, &"x-nv-vqos[0].bw.maximumBitrateKbps".as_bytes_vec());
        let min_fec = get_attr_num(b, &"x-nv-vqos[0].fec.minRequiredFecPackets".as_bytes_vec());
        let video_qos = get_sdp_attribute(b, &"x-nv-vqos[0].qosTrafficType".as_bytes_vec());
        let duration = get_attr_num(b, &"x-nv-aqos.packetDuration".as_bytes_vec());
        let audio_qos = get_sdp_attribute(b, &"x-nv-aqos.qosTrafficType".as_bytes_vec());
        let (width, height, fps, packet_size, bitrate_kbps, min_fec, duration) = match (
            width,
            height,
            fps,
            packet_size,
            bitrate_kbps,
            min_fec,
            duration,
        ) {
            (Some(w), Some(h), Some(f), Some(p), Some(k), Some(m), Some(d)) => (
                w,
                h,
                f,
                p,
                k,
                m,
                d,
            ),
            _ => {
                return (rtsp_response(request.cseq, 400), None);
            },
        };
        let (video_qos, audio_qos) = match (video_qos, audio_qos) {
            (Some(v), Some(a)) => (v, a),
            _ => {
                return (rtsp_response(request.cseq, 400), None);
            },
        };
        if packet_size == 0 || (packet_size as usize) > MAX_PACKET_SIZE {
            return (rtsp_response(request.cseq, 400), None);
        }
        if bitrate_kbps > MAX_BITRATE_KBPS {
            return (rtsp_response(request.cseq, 400), None);
        }
        let zero = "0".as_bytes_vec();
        let video = VideoStreamContext {
            width,
            height,
            fps,
            packet_size: packet_size as usize,
            bitrate: (bitrate_kbps as usize) * 1024,
            minimum_fec_packets: min_fec,
            qos: !bytes_eq(&video_qos, &zero),
            video_format: 0,
        };
        let audio = AudioStreamContext {
            packet_duration: duration,
            qos: !bytes_eq(&audio_qos, &zero),
        };
        (rtsp_response(request.cseq, 200), Some((video, audio)))
    }

    /// PLAY: acknowledged; the session manager is asked to start.
    pub fn handle_play_request(&self, cseq: u32) -> (r: RtspResponse)
        ensures
            r.status == 200,
            r.cseq == cseq,
            r.headers@.len() == 0,
            r.body@.len() == 0,
    {
        rtsp_response(cseq, 200)
    }

    /// Feed the bytes buffered on one connection to the negotiator:
    /// wait for more, close, or reply and act.
    pub fn handle_message(&self, buf: &Vec<u8>) -> (r: RtspMessageOutcome)
        ensures
            r is Incomplete <==> parse_rtsp_spec(buf@) is Incomplete,
            r is ProtocolError <==> parse_rtsp_spec(buf@) is Malformed,
            r matches RtspMessageOutcome::Reply(resp, act) ==> {
                let s = parse_rtsp_spec(buf@);
                &&& s matches RtspParseSpec::Req { method, target, cseq, body }
                &&& resp.cseq == cseq
                &&& (act is StartSession <==> method == RtspMethod::Play)
                &&& (act is SetStreamContext <==> method == RtspMethod::Announce
                    && announce_contexts(body) is Some)
                &&& (act is SetStreamContext ==> announce_contexts(body) == Some(
                    (act->SetStreamContext_0, act->SetStreamContext_1),
                ))
                &&& (method == RtspMethod::Announce ==> resp.status == (
                if announce_contexts(body) is Some {
                    200int
                } else {
                    400int
                }))
                &&& (method == RtspMethod::Other ==> resp.status == 400)
                &&& (method == RtspMethod::Setup ==> setup_reply_post(
                    resp,
                    target,
                    self.ports,
                    resp.cseq,
                ))
                &&& (method == RtspMethod::Options ==> resp.status == 200 && resp.headers@.len()
                    == 1 && resp.headers@[0].0@ == "Public".spec_bytes() && resp.headers@[0].1@
                    == "OPTIONS DESCRIBE SETUP PLAY".spec_bytes() && resp.body@.len() == 0)
                &&& (method == RtspMethod::Describe ==> resp.status == 200 && resp.body@
                    == sdp_description())
                &&& (method == RtspMethod::Play ==> resp.status == 200 && resp.body@.len() == 0)
            },
    {
        let request = match parse_rtsp_message(buf) {
            RtspParseOutcome::Incomplete => {
                return RtspMessageOutcome::Incomplete;
            },
            RtspParseOutcome::Malformed => {
                return RtspMessageOutcome::ProtocolError;
            },
            RtspParseOutcome::Request(q) => q,
        };
        match request.method {
            RtspMethod::Options => RtspMessageOutcome::Reply(
                self.handle_options_request(request.cseq),
                RtspAction::Nothing,
            ),
            RtspMethod::Describe => RtspMessageOutcome::Reply(
                self.handle_describe_request(request.cseq),
                RtspAction::Nothing,
            ),
            RtspMethod::Setup => RtspMessageOutcome::Reply(
                self.handle_setup_request(&request),
                RtspAction::Nothing,
            ),
            RtspMethod::Announce => {
                let (resp, contexts) = self.handle_announce_request(&request);
                match contexts {
                    Some((video, audio)) => RtspMessageOutcome::Reply(
                        resp,
                        RtspAction::SetStreamContext(video, audio),
                    ),
                    None => RtspMessageOutcome::Reply(resp, RtspAction::Nothing),
                }
            },
            RtspMethod::Play => RtspMessageOutcome::Reply(
                self.handle_play_request(request.cseq),
                RtspAction::StartSession,
            ),
            RtspMethod::Other => RtspMessageOutcome::Reply(
                rtsp_response(request.cseq, 400),
                RtspAction::Nothing,
            ),
        }
    }
}

/// The session description text.
pub open spec fn sdp_description() -> Seq<u8> {
    "v=0\r\no=- 0 0 IN IP4 127.0.0.1\r\ns=No Name\r\nt=0 0\r\na=tool:libavformat LIBAVFORMAT_VERSION\r\nm=video 0 RTP/AVP 96\r\nb=AS:2000\r\na=rtpmap:96 H264/90000\r\na=fmtp:96 packetization-mode=1\r\na=control:streamid=0\r\n".spec_bytes()
}

/// A bare response: a status line echoing the sequence number.
pub fn rtsp_response(cseq: u32, status: u16) -> (r: RtspResponse)
    ensures
        r.status == status,
        r.cseq == cseq,
        r.headers@.len() == 0,
        r.body@.len() == 0,
{
    RtspResponse { status, cseq, headers: Vec::new(), body: Vec::new() }
}

} // verus!
