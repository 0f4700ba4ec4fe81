use drift::client::browse::{browse_output, BrowseOutput};
use drift::client::calendar::days_to_date;
use drift::client::handshake::{
    remember_if_established,
    client_handshake_step, ClientHandshake, HandshakeAction, HandshakeEvent, HandshakeFailure,
};
use drift::client::listing::{format_entries, format_permissions, format_size, format_timestamp};
use drift::client::pull::{
    locate_pull_entry, PullLookup,
    acceptance_of, find_entry_named, receive_step, split_remote_path, Acceptance, ReceiveAction,
    ReceiveEvent, ReceiveProgress,
};
use drift::client::{
    browse_reply, transfer_request_reply,
    build_ws_url, plan_incoming_request, route_control, url_uses_tls, ControlRoute, IncomingPlan,
};
use drift::protocol::messages::{ControlMessage, Direction, FileEntry};

#[test]
fn test_build_ws_url() {
    assert_eq!(build_ws_url("192.168.0.2:8000"), "ws://192.168.0.2:8000/ws");
    assert_eq!(
        build_ws_url("ws://192.168.0.2:8000"),
        "ws://192.168.0.2:8000/ws"
    );
    assert_eq!(build_ws_url("wss://example.com"), "wss://example.com/ws");
    assert_eq!(build_ws_url("wss://example.com/"), "wss://example.com/ws");
    assert_eq!(
        build_ws_url("wss://example.com/drift"),
        "wss://example.com/drift/ws"
    );
    assert_eq!(
        build_ws_url("wss://example.com/drift/ws"),
        "wss://example.com/drift/ws"
    );
}

#[test]
fn ws_url_is_stable_and_keeps_tls_choice() {
    for t in ["h:1", "h:1/x/", "ws://h/ws", "wss://h", "wss://h/base///", "ws://a/b/ws/"] {
        let url = build_ws_url(t);
        assert!(url.ends_with("/ws"), "{t}");
        assert_eq!(build_ws_url(&url), url, "{t}");
        assert_eq!(url_uses_tls(&url), t.starts_with("wss://"), "{t}");
    }
}

#[test]
fn ws_url_edge_cases() {
    assert_eq!(build_ws_url("host:1///"), "ws://host:1/ws");
    assert_eq!(build_ws_url("host:1/ws/"), "ws://host:1/ws");
    assert_eq!(build_ws_url(""), "ws:/ws");
    assert_eq!(build_ws_url("wss://h/a/wsx"), "wss://h/a/wsx/ws");
    assert!(url_uses_tls("wss://example.com/ws"));
    assert!(!url_uses_tls("ws://example.com/ws"));
    assert!(!url_uses_tls("https://example.com"));
}

fn size_reference(bytes: u64) -> String {
    if bytes >= 1_073_741_824 {
        format!("{:.1}G", bytes as f64 / 1_073_741_824.0)
    } else if bytes >= 1_048_576 {
        format!("{:.1}M", bytes as f64 / 1_048_576.0)
    } else if bytes >= 1024 {
        format!("{:.1}K", bytes as f64 / 1024.0)
    } else {
        format!("{}B", bytes)
    }
}

#[test]
fn format_size_examples() {
    assert_eq!(format_size(0), "0B");
    assert_eq!(format_size(1023), "1023B");
    assert_eq!(format_size(1024), "1.0K");
    assert_eq!(format_size(1536), "1.5K");
    assert_eq!(format_size(1280), "1.2K");
    assert_eq!(format_size(1_048_576), "1.0M");
    assert_eq!(format_size(1_073_741_824), "1.0G");
    assert_eq!(format_size(u64::MAX), "17179869184.0G");
}

#[test]
fn format_size_matches_float_formatting() {
    let mut samples: Vec<u64> = Vec::new();
    for b in 0..5000u64 {
        samples.push(b);
    }
    for k in 0..64u32 {
        let p = 1u64 << k;
        for d in [0u64, 1, 2, 3, 511, 512, 513] {
            samples.push(p.wrapping_add(d));
            samples.push(p.wrapping_sub(d));
        }
    }
    for unit in [1024u64, 1_048_576, 1_073_741_824] {
        for q in 1..4000u64 {
            let t = q * unit / 10;
            for d in [0u64, 1, unit / 20, unit / 20 + 1] {
                samples.push(t.wrapping_add(d));
                samples.push(t.wrapping_sub(d));
            }
        }
    }
    let mut x: u64 = 0x9e37_79b9_7f4a_7c15;
    for _ in 0..200_000 {
        x ^= x << 13;
        x ^= x >> 7;
        x ^= x << 17;
        samples.push(x);
        samples.push(x >> (x % 64));
    }
    for (top, low) in [(53u32, 0u64), (54, 1), (60, 0x80), (63, 0x400), (63, 0x401), (63, 0x3ff)] {
        samples.push((1u64 << top) | low);
        samples.push(((1u64 << top) - 1) | low);
    }
    for b in samples {
        assert_eq!(format_size(b), size_reference(b), "size {}", b);
    }
}

#[test]
fn format_permissions_examples() {
    assert_eq!(format_permissions(0o755, true), "drwxr-xr-x");
    assert_eq!(format_permissions(0o644, false), "-rw-r--r--");
    assert_eq!(format_permissions(0o100_600, false), "-rw-------");
    assert_eq!(format_permissions(0, false), "----------");
    assert_eq!(format_permissions(0o7777, true), "drwxrwxrwx");
}

fn civil_reference(days: i64) -> (i64, u32, u32) {
    let z = days + 719468;
    let era = if z >= 0 { z } else { z - 146096 } / 146097;
    let doe = (z - era * 146097) as u32;
    let yoe = (doe - doe / 1460 + doe / 36524 - doe / 146096) / 365;
    let y = yoe as i64 + era * 400;
    let doy = doe - (365 * yoe + yoe / 4 - yoe / 100);
    let mp = (5 * doy + 2) / 153;
    let d = doy - (153 * mp + 2) / 5 + 1;
    let m = if mp < 10 { mp + 3 } else { mp - 9 };
    (if m <= 2 { y + 1 } else { y }, m, d)
}

#[test]
fn days_to_date_examples() {
    assert_eq!(days_to_date(0), (1970, 1, 1));
    assert_eq!(days_to_date(-1), (1969, 12, 31));
    assert_eq!(days_to_date(11016), (2000, 2, 29));
    assert_eq!(days_to_date(19675), (2023, 11, 14));
    assert_eq!(days_to_date(-719528), (0, 1, 1));
    assert_eq!(days_to_date(-719529), (-1, 12, 31));
    for d in [i64::MIN, i64::MIN + 1, i64::MAX - 719_468, -(1i64 << 50), 1i64 << 50] {
        assert_eq!(days_to_date(d), civil_reference(d), "day {}", d);
    }
    for d in (-2_000_000i64..2_000_000).step_by(7) {
        assert_eq!(days_to_date(d), civil_reference(d), "day {}", d);
    }
}

#[test]
fn format_timestamp_examples() {
    assert_eq!(format_timestamp(0), "1970-01-01 00:00");
    assert_eq!(format_timestamp(1_700_000_000), "2023-11-14 22:13");
    assert_eq!(format_timestamp(951_782_400), "2000-02-29 00:00");
    assert_eq!(format_timestamp(86_399), "1970-01-01 23:59");
    // Seconds beyond i64::MAX read as negative counts.
    assert_eq!(format_timestamp(u64::MAX), "1970-01-01 00:00");
    assert_eq!(format_timestamp(u64::MAX - 3600), "1970-01-01 -1:00");
    assert_eq!(format_timestamp(u64::MAX - 86_400 * 366), "1968-12-31 00:00");
    assert_eq!(format_timestamp(253_402_300_799), "9999-12-31 23:59");
    assert_eq!(format_timestamp(253_402_300_800), "10000-01-01 00:00");
}

fn entry(name: &str, is_dir: bool, size: u64, modified: u64, permissions: u32) -> FileEntry {
    FileEntry {
        name: name.to_string(),
        is_dir,
        size,
        modified,
        permissions,
    }
}

#[test]
fn listing_lines_align_sizes() {
    let entries = vec![
        entry("src", true, 4096, 0, 0o755),
        entry("a.txt", false, 12, 86_400, 0o644),
    ];
    let lines = format_entries(&entries);
    assert_eq!(lines.len(), 2);
    assert_eq!(lines[0], "drwxr-xr-x  4.0K  1970-01-01 00:00  src/");
    assert_eq!(lines[1], "-rw-r--r--   12B  1970-01-02 00:00  a.txt");
}

#[test]
fn browse_output_cases() {
    let listing = browse_output(&ControlMessage::BrowseResponse {
        request_id: None,
        hostname: "box".to_string(),
        cwd: "/srv".to_string(),
        entries: vec![],
    });
    match listing {
        BrowseOutput::Listing(lines) => assert_eq!(lines, vec!["box:/srv", "  (empty)"]),
        other => panic!("unexpected {:?}", other),
    }
    let filled = browse_output(&ControlMessage::BrowseResponse {
        request_id: None,
        hostname: "box".to_string(),
        cwd: "/srv".to_string(),
        entries: vec![entry("f", false, 5, 0, 0o600)],
    });
    match filled {
        BrowseOutput::Listing(lines) => {
            assert_eq!(lines, vec!["box:/srv", "-rw-------  5B  1970-01-01 00:00  f"])
        }
        other => panic!("unexpected {:?}", other),
    }
    match browse_output(&ControlMessage::Error {
        request_id: None,
        message: "denied".to_string(),
    }) {
        BrowseOutput::Failed(m) => assert_eq!(m, "denied"),
        other => panic!("unexpected {:?}", other),
    }
    assert!(matches!(
        browse_output(&ControlMessage::HandshakeComplete),
        BrowseOutput::Unexpected
    ));
}

#[test]
fn split_remote_path_cases() {
    assert_eq!(
        split_remote_path("foo/bar.txt"),
        ("foo".to_string(), "bar.txt".to_string())
    );
    assert_eq!(
        split_remote_path("bar.txt"),
        (".".to_string(), "bar.txt".to_string())
    );
    assert_eq!(
        split_remote_path("a/b/c"),
        ("a/b".to_string(), "c".to_string())
    );
    assert_eq!(split_remote_path("dir/"), ("dir".to_string(), "".to_string()));
    assert_eq!(split_remote_path("/x"), ("".to_string(), "x".to_string()));
    assert_eq!(
        split_remote_path("ü/ß.txt"),
        ("ü".to_string(), "ß.txt".to_string())
    );
}

#[test]
fn pull_finds_entry_and_waits_for_acceptance() {
    let entries = vec![
        entry("a", false, 1, 0, 0),
        entry("b", true, 2, 0, 0),
        entry("b", false, 3, 0, 0),
    ];
    assert_eq!(find_entry_named(&entries, "b"), Some(1));
    assert_eq!(find_entry_named(&entries, "c"), None);
    let accepted = ControlMessage::TransferAccepted {
        id: 7,
        resume_offsets: vec![],
    };
    assert!(matches!(acceptance_of(7, &accepted), Acceptance::Accepted));
    assert!(matches!(acceptance_of(8, &accepted), Acceptance::KeepWaiting));
    let rejected = ControlMessage::TransferError {
        id: 99,
        error: "no".to_string(),
    };
    match acceptance_of(7, &rejected) {
        Acceptance::Rejected(e) => assert_eq!(e, "no"),
        other => panic!("unexpected {:?}", other),
    }
    assert!(matches!(
        acceptance_of(7, &ControlMessage::Ping { request_id: None }),
        Acceptance::KeepWaiting
    ));
}

#[test]
fn receive_steps_count_and_finish() {
    let start = ReceiveProgress {
        received: 0,
        reported_mib: 0,
    };
    let (p1, a1) = receive_step(
        5,
        start,
        &ReceiveEvent::Data {
            transfer_id: 5,
            chunk_len: 1_048_575,
        },
    );
    assert_eq!(a1, ReceiveAction::Write { report: false });
    assert_eq!(p1.received, 1_048_575);
    let (p2, a2) = receive_step(
        5,
        p1,
        &ReceiveEvent::Data {
            transfer_id: 5,
            chunk_len: 1,
        },
    );
    assert_eq!(a2, ReceiveAction::Write { report: true });
    assert_eq!((p2.received, p2.reported_mib), (1_048_576, 1));
    let (p3, a3) = receive_step(
        5,
        p2,
        &ReceiveEvent::Data {
            transfer_id: 6,
            chunk_len: 10,
        },
    );
    assert_eq!(a3, ReceiveAction::Skip);
    assert_eq!(p3.received, 1_048_576);
    let (_, a4) = receive_step(
        5,
        p3,
        &ReceiveEvent::Control(ControlMessage::TransferComplete {
            id: 5,
            total_bytes: 1_048_576,
        }),
    );
    assert_eq!(
        a4,
        ReceiveAction::Finalize {
            total_bytes: 1_048_576
        }
    );
    let (_, a5) = receive_step(
        5,
        p3,
        &ReceiveEvent::Control(ControlMessage::TransferError {
            id: 5,
            error: "disk full".to_string(),
        }),
    );
    assert_eq!(
        a5,
        ReceiveAction::Fail {
            error: "Transfer error: disk full".to_string()
        }
    );
}

#[test]
fn handshake_plaintext_and_encrypted_paths() {
    let (s, a) = client_handshake_step(
        ClientHandshake::AwaitServerHello,
        true,
        false,
        HandshakeEvent::Message(ControlMessage::PlaintextMode {
            protocol_version: Some(3),
        }),
    );
    assert_eq!(s, ClientHandshake::Finished);
    assert!(matches!(
        a,
        HandshakeAction::AcceptPlaintext {
            peer_version: Some(3)
        }
    ));
    let (_, refused) = client_handshake_step(
        ClientHandshake::AwaitServerHello,
        false,
        false,
        HandshakeEvent::Message(ControlMessage::PlaintextMode {
            protocol_version: None,
        }),
    );
    match refused {
        HandshakeAction::Fail(f) => assert_eq!(
            f.message(),
            "Server is in plaintext mode but client has encryption enabled. Use --no-encryption to connect to this server."
        ),
        other => panic!("unexpected {:?}", other),
    }
    let (s1, a1) = client_handshake_step(
        ClientHandshake::AwaitServerHello,
        false,
        true,
        HandshakeEvent::Message(ControlMessage::KeyExchange {
            public_key: "pk".to_string(),
            protocol_version: Some(2),
        }),
    );
    assert_eq!(
        s1,
        ClientHandshake::AwaitAuthOrComplete {
            peer_version: Some(2)
        }
    );
    assert!(matches!(a1, HandshakeAction::SendKeyExchange { .. }));
    let (s2, a2) = client_handshake_step(
        s1,
        false,
        true,
        HandshakeEvent::Message(ControlMessage::AuthChallenge {
            nonce: "n".to_string(),
        }),
    );
    assert!(matches!(a2, HandshakeAction::SendAuthProof { .. }));
    let (_, a3) = client_handshake_step(
        s2,
        false,
        true,
        HandshakeEvent::Message(ControlMessage::Error {
            request_id: None,
            message: "bad".to_string(),
        }),
    );
    match a3 {
        HandshakeAction::Fail(f) => assert_eq!(f.message(), "Authentication failed: bad"),
        other => panic!("unexpected {:?}", other),
    }
    let (_, a4) = client_handshake_step(
        ClientHandshake::AwaitAuthOrComplete { peer_version: None },
        false,
        false,
        HandshakeEvent::Message(ControlMessage::AuthChallenge {
            nonce: "n".to_string(),
        }),
    );
    assert!(matches!(
        a4,
        HandshakeAction::Fail(HandshakeFailure::PasswordRequired)
    ));
    let (_, a5) = client_handshake_step(
        ClientHandshake::AwaitAuthOrComplete { peer_version: None },
        false,
        true,
        HandshakeEvent::Message(ControlMessage::HandshakeComplete),
    );
    assert!(matches!(
        a5,
        HandshakeAction::Complete {
            peer_version: None,
            warn_unauthenticated: true
        }
    ));
    let (_, a6) = client_handshake_step(
        ClientHandshake::AwaitServerHello,
        true,
        false,
        HandshakeEvent::Message(ControlMessage::KeyExchange {
            public_key: "pk".to_string(),
            protocol_version: None,
        }),
    );
    assert!(matches!(
        a6,
        HandshakeAction::Fail(HandshakeFailure::ServerRequiresEncryption)
    ));
    let (_, a7) = client_handshake_step(
        ClientHandshake::AwaitServerHello,
        false,
        false,
        HandshakeEvent::NoMessage,
    );
    match a7 {
        HandshakeAction::Fail(f) => {
            assert_eq!(f.message(), "Failed to receive server handshake message")
        }
        other => panic!("unexpected {:?}", other),
    }
}

#[test]
fn control_routing_and_incoming_plans() {
    assert_eq!(
        route_control(&ControlMessage::TransferComplete {
            id: 1,
            total_bytes: 9
        }),
        ControlRoute::SignalCompletion {
            id: 1,
            total_bytes: 9
        }
    );
    assert_eq!(
        route_control(&ControlMessage::TransferFinalized { id: 2 }),
        ControlRoute::Finalized { id: 2 }
    );
    assert_eq!(
        route_control(&ControlMessage::Ping { request_id: None }),
        ControlRoute::HandleRequest
    );
    assert_eq!(
        route_control(&ControlMessage::Pong { request_id: None }),
        ControlRoute::DeliverResponse
    );
    match plan_incoming_request(
        &ControlMessage::InfoRequest {
            request_id: Some(4),
        },
        "host",
        "/root",
    ) {
        IncomingPlan::Reply(ControlMessage::InfoResponse {
            request_id,
            hostname,
            root_dir,
        }) => {
            assert_eq!(request_id, Some(4));
            assert_eq!(hostname, "host");
            assert_eq!(root_dir, "/root");
        }
        other => panic!("unexpected {:?}", other),
    }
    assert!(matches!(
        plan_incoming_request(
            &ControlMessage::Ping {
                request_id: Some(3)
            },
            "h",
            "r"
        ),
        IncomingPlan::Reply(ControlMessage::Pong {
            request_id: Some(3)
        })
    ));
    let pull = ControlMessage::TransferRequest {
        id: 11,
        entries: vec![],
        direction: Direction::Pull,
        destination_path: ".".to_string(),
        resume_hints: vec![],
    };
    assert!(matches!(
        plan_incoming_request(&pull, "h", "r"),
        IncomingPlan::ServePull { id: 11 }
    ));
    assert!(matches!(
        plan_incoming_request(&ControlMessage::HandshakeComplete, "h", "r"),
        IncomingPlan::Ignore
    ));
}

#[test]
fn replies_to_remote_requests() {
    for (dir, can_send) in [(Direction::Push, false), (Direction::Push, true), (Direction::Pull, true)] {
        match transfer_request_reply(5, dir, can_send) {
            ControlMessage::TransferAccepted { id, resume_offsets } => {
                assert_eq!(id, 5);
                assert!(resume_offsets.is_empty());
            }
            other => panic!("unexpected {other:?}"),
        }
    }
    match transfer_request_reply(6, Direction::Pull, false) {
        ControlMessage::TransferError { id, error } => {
            assert_eq!(id, 6);
            assert_eq!(error, "No remote connection to send pull data");
        }
        other => panic!("unexpected {other:?}"),
    }
    match browse_reply(Some(9), "host", Ok(("/srv/x".to_string(), vec![entry("f", false, 1, 0, 0)]))) {
        ControlMessage::BrowseResponse {
            request_id,
            hostname,
            cwd,
            entries,
        } => {
            assert_eq!(request_id, Some(9));
            assert_eq!(hostname, "host");
            assert_eq!(cwd, "/srv/x");
            assert_eq!(entries.len(), 1);
        }
        other => panic!("unexpected {other:?}"),
    }
    match browse_reply(None, "host", Err("No such file".to_string())) {
        ControlMessage::Error {
            request_id: None,
            message,
        } => assert_eq!(message, "No such file"),
        other => panic!("unexpected {other:?}"),
    }
}

#[test]
fn pull_entry_lookup() {
    let listing = ControlMessage::BrowseResponse {
        request_id: None,
        hostname: "h".to_string(),
        cwd: "/".to_string(),
        entries: vec![entry("a", false, 1, 0, 0), entry("b", true, 2, 0, 0)],
    };
    assert!(matches!(locate_pull_entry(&listing, "b", "d/b"), PullLookup::Found(1)));
    match locate_pull_entry(&listing, "c", "d/c") {
        PullLookup::Failed(m) => assert_eq!(m, "'d/c' not found on remote"),
        other => panic!("unexpected {other:?}"),
    }
    let error = ControlMessage::Error {
        request_id: None,
        message: "denied".to_string(),
    };
    match locate_pull_entry(&error, "c", "d/c") {
        PullLookup::Failed(m) => assert_eq!(m, "Browse failed: denied"),
        other => panic!("unexpected {other:?}"),
    }
    assert!(matches!(
        locate_pull_entry(&ControlMessage::HandshakeComplete, "c", "c"),
        PullLookup::Unexpected
    ));
}

#[test]
fn credentials_are_remembered_only_after_success() {
    let mut fp = None;
    let mut target = Some("old".to_string());
    let mut password = None;
    let failed = HandshakeAction::Fail(HandshakeFailure::PasswordRequired);
    assert!(!remember_if_established(
        &failed,
        "ab".to_string(),
        "new:1",
        &Some("pw".to_string()),
        &mut fp,
        &mut target,
        &mut password
    ));
    assert_eq!((fp.clone(), target.clone(), password.clone()), (None, Some("old".to_string()), None));
    let ok = HandshakeAction::AcceptPlaintext { peer_version: Some(3) };
    assert!(remember_if_established(
        &ok,
        "plaintext".to_string(),
        "new:1",
        &Some("pw".to_string()),
        &mut fp,
        &mut target,
        &mut password
    ));
    assert_eq!(fp.as_deref(), Some("plaintext"));
    assert_eq!(target.as_deref(), Some("new:1"));
    assert_eq!(password.as_deref(), Some("pw"));
}
