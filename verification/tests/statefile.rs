use moonshine::statefile::{parse_state, render_state, StoredClient};

/// Writing the state file and reloading it yields the same clients,
/// field for field.
#[test]
fn state_roundtrip() {
    let clients = vec![
        StoredClient {
            unique_id: b"0123456789ABCDEF".to_vec(),
            certificate: vec![0x30, 0x82, 0x01, 0x00, 0xff],
            key: (0u8..16).collect(),
        },
        StoredClient {
            unique_id: b"another-client".to_vec(),
            certificate: Vec::new(),
            key: vec![9u8; 16],
        },
    ];
    let rendered = render_state(&clients);
    let reloaded = parse_state(&rendered).unwrap();
    assert_eq!(reloaded.len(), clients.len());
    for (a, b) in clients.iter().zip(reloaded.iter()) {
        assert_eq!(a.unique_id, b.unique_id);
        assert_eq!(a.certificate, b.certificate);
        assert_eq!(a.key, b.key);
    }
}

/// The rendered file is the expected text.
#[test]
fn rendered_text() {
    let clients = vec![StoredClient {
        unique_id: b"id1".to_vec(),
        certificate: vec![0xab],
        key: vec![0x01, 0x02],
    }];
    let rendered = String::from_utf8(render_state(&clients)).unwrap();
    assert_eq!(
        rendered,
        "[[clients]]\nunique_id = \"id1\"\ncertificate = \"ab\"\nkey = \"0102\"\n"
    );
}

/// An empty file reloads as no clients; damaged text is refused.
#[test]
fn parse_edge_cases() {
    assert_eq!(parse_state(&Vec::new()).unwrap().len(), 0);
    assert!(parse_state(&b"[[clients]]\nunique_id = \"x".to_vec()).is_none());
    assert!(parse_state(&b"garbage".to_vec()).is_none());
    // An odd-length certificate is no hexadecimal rendering.
    let bad = b"[[clients]]\nunique_id = \"x\"\ncertificate = \"abc\"\nkey = \"01\"\n".to_vec();
    assert!(parse_state(&bad).is_none());
}
