use moonshine::rtsp::{
    parse_rtsp_message, render_rtsp_response, RtspAction, RtspMessageOutcome, RtspParseOutcome,
    RtspServer, StreamPorts,
};

fn server() -> RtspServer {
    RtspServer::new(StreamPorts { video: 47998, audio: 48000, control: 47999 })
}

fn text(bytes: &[u8]) -> String {
    String::from_utf8(bytes.to_vec()).unwrap()
}

/// OPTIONS is answered with the supported methods.
#[test]
fn options_request() {
    let request = b"OPTIONS rtsp://host RTSP/1.0\r\nCSeq: 1\r\n\r\n".to_vec();
    match server().handle_message(&request) {
        RtspMessageOutcome::Reply(response, RtspAction::Nothing) => {
            assert_eq!(response.status, 200);
            assert_eq!(response.cseq, 1);
            let rendered = text(&render_rtsp_response(&response));
            assert_eq!(
                rendered,
                "RTSP/1.0 200 OK\r\nCSeq: 1\r\nPublic: OPTIONS DESCRIBE SETUP PLAY\r\n\r\n"
            );
        },
        _ => panic!("expected a reply"),
    }
}

/// DESCRIBE is answered with the fixed session description.
#[test]
fn describe_request() {
    let request = b"DESCRIBE rtsp://host RTSP/1.0\r\nCSeq: 2\r\n\r\n".to_vec();
    match server().handle_message(&request) {
        RtspMessageOutcome::Reply(response, RtspAction::Nothing) => {
            assert_eq!(response.status, 200);
            let body = text(&response.body);
            assert!(body.contains("a=rtpmap:96 H264/90000"));
            assert!(body.contains("a=fmtp:96 packetization-mode=1"));
        },
        _ => panic!("expected a reply"),
    }
}

/// SETUP answers the configured port of the requested stream, even for
/// the bare non-URI targets the clients send.
#[test]
fn setup_request_ports() {
    for (kind, port) in [("video", 47998u16), ("audio", 48000), ("control", 47999)] {
        let request = format!(
            "SETUP streamid={}/13/0 RTSP/1.0\r\nCSeq: 3\r\nTransport: unicast\r\n\r\n",
            kind
        );
        match server().handle_message(&request.into_bytes()) {
            RtspMessageOutcome::Reply(response, RtspAction::Nothing) => {
                assert_eq!(response.status, 200);
                let rendered = text(&render_rtsp_response(&response));
                assert!(rendered.contains("Session: MoonshineSession;timeout = 90\r\n"));
                assert!(rendered.contains(&format!("Transport: server_port={}\r\n", port)));
            },
            _ => panic!("expected a reply"),
        }
    }
}

/// SETUP for an unknown stream kind is rejected.
#[test]
fn setup_unknown_stream() {
    let request = b"SETUP streamid=bogus/0 RTSP/1.0\r\nCSeq: 4\r\n\r\n".to_vec();
    match server().handle_message(&request) {
        RtspMessageOutcome::Reply(response, RtspAction::Nothing) => {
            assert_eq!(response.status, 400);
        },
        _ => panic!("expected a reply"),
    }
}

fn announce_body(packet_size: u32) -> String {
    format!(
        "v=0\r\n\
         a=x-nv-video[0].clientViewportWd:1920\r\n\
         a=x-nv-video[0].clientViewportHt:1080\r\n\
         a=x-nv-video[0].maxFPS:60\r\n\
         a=x-nv-video[0].packetSize:{}\r\n\
         a=x-nv-vqos[0].bw.maximumBitrateKbps:20000\r\n\
         a=x-nv-vqos[0].fec.minRequiredFecPackets:0\r\n\
         a=x-nv-vqos[0].qosTrafficType:5\r\n\
         a=x-nv-aqos.packetDuration:5\r\n\
         a=x-nv-aqos.qosTrafficType:0\r\n",
        packet_size
    )
}

fn announce_request(packet_size: u32) -> Vec<u8> {
    let body = announce_body(packet_size);
    let mut request = format!(
        "ANNOUNCE streamid=0 RTSP/1.0\r\nCSeq: 5\r\nContent-Length: {}\r\n\r\n",
        body.len()
    );
    request.push_str(&body);
    request.into_bytes()
}

/// ANNOUNCE extracts the stream parameters; the bitrate arrives in
/// kilobits and is stored in bits per second.
#[test]
fn announce_extracts_contexts() {
    match server().handle_message(&announce_request(1024)) {
        RtspMessageOutcome::Reply(response, RtspAction::SetStreamContext(video, audio)) => {
            assert_eq!(response.status, 200);
            assert_eq!(video.width, 1920);
            assert_eq!(video.height, 1080);
            assert_eq!(video.fps, 60);
            assert_eq!(video.packet_size, 1024);
            assert_eq!(video.bitrate, 20000 * 1024);
            assert_eq!(video.minimum_fec_packets, 0);
            assert!(video.qos);
            assert_eq!(audio.packet_duration, 5);
            assert!(!audio.qos);
        },
        _ => panic!("expected the stream contexts"),
    }
}

/// A packet size of zero or above the safe maximum rejects the
/// ANNOUNCE with status 400.
#[test]
fn announce_packet_size_bounds() {
    for bad in [0u32, 1393, 65000] {
        match server().handle_message(&announce_request(bad)) {
            RtspMessageOutcome::Reply(response, RtspAction::Nothing) => {
                assert_eq!(response.status, 400);
            },
            _ => panic!("expected a rejection"),
        }
    }
    match server().handle_message(&announce_request(1392)) {
        RtspMessageOutcome::Reply(response, _) => assert_eq!(response.status, 200),
        _ => panic!("expected a reply"),
    }
}

/// Attribute values are trimmed at both ends, so trailing blanks on a
/// numeric attribute still parse.
#[test]
fn announce_trims_attribute_values() {
    let body = "v=0\r\n\
         a=x-nv-video[0].clientViewportWd: 1920  \r\n\
         a=x-nv-video[0].clientViewportHt:1080\r\n\
         a=x-nv-video[0].maxFPS:60 \r\n\
         a=x-nv-video[0].packetSize:1024\r\n\
         a=x-nv-vqos[0].bw.maximumBitrateKbps:20000\r\n\
         a=x-nv-vqos[0].fec.minRequiredFecPackets:0\r\n\
         a=x-nv-vqos[0].qosTrafficType:5\r\n\
         a=x-nv-aqos.packetDuration:5\r\n\
         a=x-nv-aqos.qosTrafficType:0\r\n";
    let mut request = format!(
        "ANNOUNCE streamid=0 RTSP/1.0\r\nCSeq: 8\r\nContent-Length: {}\r\n\r\n",
        body.len()
    );
    request.push_str(body);
    match server().handle_message(&request.into_bytes()) {
        RtspMessageOutcome::Reply(response, RtspAction::SetStreamContext(video, _)) => {
            assert_eq!(response.status, 200);
            assert_eq!(video.width, 1920);
            assert_eq!(video.fps, 60);
        },
        _ => panic!("expected the stream contexts"),
    }
}

/// Numeric attributes accept up to ten digits when the value fits
/// 32 bits; an out-of-range value is rejected.
#[test]
fn announce_ten_digit_attribute() {
    let make = |width: &str| {
        let body = format!(
            "v=0\r\n\
             a=x-nv-video[0].clientViewportWd:{}\r\n\
             a=x-nv-video[0].clientViewportHt:1080\r\n\
             a=x-nv-video[0].maxFPS:60\r\n\
             a=x-nv-video[0].packetSize:1024\r\n\
             a=x-nv-vqos[0].bw.maximumBitrateKbps:20000\r\n\
             a=x-nv-vqos[0].fec.minRequiredFecPackets:0\r\n\
             a=x-nv-vqos[0].qosTrafficType:5\r\n\
             a=x-nv-aqos.packetDuration:5\r\n\
             a=x-nv-aqos.qosTrafficType:0\r\n",
            width
        );
        let mut request = format!(
            "ANNOUNCE streamid=0 RTSP/1.0\r\nCSeq: 9\r\nContent-Length: {}\r\n\r\n",
            body.len()
        );
        request.push_str(&body);
        request.into_bytes()
    };
    match server().handle_message(&make("4000000000")) {
        RtspMessageOutcome::Reply(response, RtspAction::SetStreamContext(video, _)) => {
            assert_eq!(response.status, 200);
            assert_eq!(video.width, 4000000000);
        },
        _ => panic!("expected the stream contexts"),
    }
    match server().handle_message(&make("4294967296")) {
        RtspMessageOutcome::Reply(response, RtspAction::Nothing) => {
            assert_eq!(response.status, 400);
        },
        _ => panic!("expected a rejection"),
    }
}

/// An ANNOUNCE with a missing attribute is rejected.
#[test]
fn announce_missing_attribute() {
    let body = "v=0\r\na=x-nv-video[0].clientViewportWd:1920\r\n";
    let mut request = format!(
        "ANNOUNCE streamid=0 RTSP/1.0\r\nCSeq: 6\r\nContent-Length: {}\r\n\r\n",
        body.len()
    );
    request.push_str(body);
    match server().handle_message(&request.into_bytes()) {
        RtspMessageOutcome::Reply(response, RtspAction::Nothing) => {
            assert_eq!(response.status, 400);
        },
        _ => panic!("expected a rejection"),
    }
}

/// PLAY asks for the session to start, tolerating the bare `/` target.
#[test]
fn play_request() {
    let request = b"PLAY / RTSP/1.0\r\nCSeq: 7\r\n\r\n".to_vec();
    match server().handle_message(&request) {
        RtspMessageOutcome::Reply(response, RtspAction::StartSession) => {
            assert_eq!(response.status, 200);
            assert_eq!(response.cseq, 7);
        },
        _ => panic!("expected a start request"),
    }
}

/// A buffer without the blank line, or with a short body, is not yet a
/// message: the reader keeps the buffer and waits for more.
#[test]
fn incomplete_requests() {
    let partial = b"OPTIONS rtsp://host RTSP/1.0\r\nCSeq: 1\r\n".to_vec();
    assert!(matches!(
        parse_rtsp_message(&partial),
        RtspParseOutcome::Incomplete
    ));
    let short_body = b"ANNOUNCE / RTSP/1.0\r\nCSeq: 2\r\nContent-Length: 10\r\n\r\nabc".to_vec();
    assert!(matches!(
        parse_rtsp_message(&short_body),
        RtspParseOutcome::Incomplete
    ));
    assert!(matches!(
        server().handle_message(&partial),
        RtspMessageOutcome::Incomplete
    ));
}

/// A head without a sequence number cannot be answered.
#[test]
fn missing_cseq_is_malformed() {
    let request = b"OPTIONS rtsp://host RTSP/1.0\r\n\r\n".to_vec();
    assert!(matches!(
        parse_rtsp_message(&request),
        RtspParseOutcome::Malformed
    ));
}

/// An unsupported method is answered with status 400.
#[test]
fn unsupported_method() {
    let request = b"TEARDOWN / RTSP/1.0\r\nCSeq: 9\r\n\r\n".to_vec();
    match server().handle_message(&request) {
        RtspMessageOutcome::Reply(response, RtspAction::Nothing) => {
            assert_eq!(response.status, 400);
            assert_eq!(response.cseq, 9);
        },
        _ => panic!("expected a reply"),
    }
}
