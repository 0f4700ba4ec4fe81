use drift::protocol::codec::{encode_data_frame, encode_data_frame_v2};
use drift::protocol::messages::TransferEntry;
use drift::protocol::messages::{ControlMessage, MIN_REQUEST_ID_VERSION};
use drift::server::browser_transfer::{
    archives_to_clean, lookup_resume_offset, path_starts_with, peer_uses_file_index,
    planned_total_size, pull_outcome, push_outcome, reply_decision, sends_in_parallel,
    transfer_error, validate_path, CompletionWait, PathProbe, PlannedFile, RemoteReply,
    ReplyDecision, plan_entry, chunk_sent, EntryCheck, push_step, PushEvent, PushRun, PushStage,
    PlanFailure, plan_served_entry, frame_for_chunk, send_step, parallel_outcome, transfer_start,
    SendEvent, SendRun, SendStage, StartDecision,
};
use drift::server::pending::{
    connection_lost_error, deliver_pending_response, drain_pending, peer_supports_request_ids,
    register_pending_response, remove_pending_response, PendingTable,
};
use drift::server::{
    forwarded_reply, no_remote_error, route_browser_message, BrowserRoute, ForwardResult,
    abort_remote_connection, clear_remote_if_instance, disconnect_remote, RemoteConnection,
};

fn browse_response(request_id: Option<u128>, cwd: &str) -> ControlMessage {
    ControlMessage::BrowseResponse {
        request_id,
        hostname: "remote".to_string(),
        cwd: cwd.to_string(),
        entries: vec![],
    }
}

#[test]
fn delivers_out_of_order_responses_by_request_id() {
    let mut table: PendingTable<&str> = PendingTable::new();
    let request_a: u128 = 0xa;
    let request_b: u128 = 0xb;
    register_pending_response(&mut table, request_a, "caller a", Some(MIN_REQUEST_ID_VERSION), true);
    register_pending_response(&mut table, request_b, "caller b", Some(MIN_REQUEST_ID_VERSION), true);
    assert!(table.queued_ids().is_empty());

    let got_b = deliver_pending_response(
        &mut table,
        &browse_response(Some(request_b), "/b"),
        Some(MIN_REQUEST_ID_VERSION),
    );
    assert_eq!(got_b, Some("caller b"));
    assert_eq!(table.len(), 1);

    let got_a = deliver_pending_response(
        &mut table,
        &browse_response(Some(request_a), "/a"),
        Some(MIN_REQUEST_ID_VERSION),
    );
    assert_eq!(got_a, Some("caller a"));
    assert!(table.is_empty());
}

#[test]
fn disconnect_remote_fails_pending_requests() {
    let mut pending: PendingTable<&str> = PendingTable::new();
    let request_id: u128 = 77;
    register_pending_response(&mut pending, request_id, "waiting", Some(MIN_REQUEST_ID_VERSION), true);
    let mut remote = Some(RemoteConnection {
        instance_id: 1,
        hostname: "remote".to_string(),
        root_dir: "/".to_string(),
        peer_version: None,
        pending,
        links: "tasks",
    });
    let mut fingerprint = Some("ab:cd".to_string());
    let mut last_target = Some("host:8000".to_string());
    let mut last_password = Some("pw".to_string());

    let teardown = disconnect_remote(
        &mut remote,
        &mut fingerprint,
        &mut last_target,
        &mut last_password,
        false,
    );
    assert!(remote.is_none());
    assert!(fingerprint.is_none());
    assert_eq!(last_target.as_deref(), Some("host:8000"));
    assert_eq!(last_password.as_deref(), Some("pw"));
    assert_eq!(teardown.links, Some("tasks"));
    assert!(matches!(
        teardown.notice,
        ControlMessage::ConnectionStatus { has_remote: false }
    ));
    assert_eq!(teardown.replies.len(), 1);
    let (caller, reply) = &teardown.replies[0];
    assert_eq!(*caller, "waiting");
    match reply {
        ControlMessage::Error {
            request_id: Some(rid),
            message,
        } => {
            assert_eq!(*rid, request_id);
            assert_eq!(message, "Remote connection lost");
        }
        other => panic!("unexpected pending request message: {other:?}"),
    }
}

#[test]
fn aborting_a_connection_answers_every_caller_once() {
    let mut pending: PendingTable<u32> = PendingTable::new();
    register_pending_response(&mut pending, 1, 10, None, true);
    register_pending_response(&mut pending, 2, 20, Some(3), true);
    register_pending_response(&mut pending, 3, 30, None, false);
    let conn = RemoteConnection {
        instance_id: 9,
        hostname: "h".to_string(),
        root_dir: "/".to_string(),
        peer_version: None,
        pending,
        links: 5u8,
    };
    let (links, replies) = abort_remote_connection(conn);
    assert_eq!(links, 5);
    let mut answered: Vec<(u32, u128)> = replies
        .iter()
        .map(|(tx, m)| match m {
            ControlMessage::Error {
                request_id: Some(id),
                message,
            } if message == "Remote connection lost" => (*tx, *id),
            other => panic!("unexpected {other:?}"),
        })
        .collect();
    answered.sort();
    assert_eq!(answered, vec![(10, 1), (20, 2), (30, 3)]);
    assert_eq!(connection_lost_error(4).response_id(), Some(4));
}

#[test]
fn intentional_disconnect_forgets_credentials() {
    let mut remote: Option<RemoteConnection<(), u8>> = None;
    let mut fingerprint = Some("ff".to_string());
    let mut last_target = Some("t".to_string());
    let mut last_password = Some("p".to_string());
    let teardown = disconnect_remote(
        &mut remote,
        &mut fingerprint,
        &mut last_target,
        &mut last_password,
        true,
    );
    assert!(teardown.links.is_none());
    assert!(teardown.replies.is_empty());
    assert!(matches!(
        teardown.notice,
        ControlMessage::ConnectionStatus { has_remote: false }
    ));
    assert!(fingerprint.is_none());
    assert!(last_target.is_none());
    assert!(last_password.is_none());
}

#[test]
fn clear_remote_if_instance_only_clears_matching_connection() {
    let current_id: u128 = 0x1111;
    let stale_id: u128 = 0x2222;
    let mut remote = Some(RemoteConnection {
        instance_id: current_id,
        hostname: "remote".to_string(),
        root_dir: "/".to_string(),
        peer_version: None,
        pending: PendingTable::<u8>::new(),
        links: (),
    });
    assert!(!clear_remote_if_instance(&mut remote, stale_id));
    assert_eq!(remote.as_ref().map(|c| c.instance_id), Some(current_id));
    assert!(clear_remote_if_instance(&mut remote, current_id));
    assert!(remote.is_none());
    assert!(!clear_remote_if_instance(&mut remote, current_id));
}

#[test]
fn delivers_fifo_response_for_legacy_peer_without_request_id() {
    let mut table: PendingTable<&str> = PendingTable::new();
    let request_id: u128 = 5;
    register_pending_response(&mut table, request_id, "legacy caller", Some(2), true);
    assert_eq!(table.queued_ids(), vec![request_id]);
    let got = deliver_pending_response(
        &mut table,
        &ControlMessage::InfoResponse {
            request_id: None,
            hostname: "legacy".to_string(),
            root_dir: "/".to_string(),
        },
        Some(2),
    );
    assert_eq!(got, Some("legacy caller"));
    assert!(table.is_empty());
    assert!(table.queued_ids().is_empty());
}

#[test]
fn legacy_responses_follow_registration_order_and_skip_gone_callers() {
    let mut table: PendingTable<u32> = PendingTable::new();
    register_pending_response(&mut table, 1, 10, None, true);
    register_pending_response(&mut table, 2, 20, None, true);
    register_pending_response(&mut table, 3, 30, None, true);
    register_pending_response(&mut table, 4, 40, None, false);
    assert_eq!(table.queued_ids(), vec![1, 2, 3]);
    assert_eq!(remove_pending_response(&mut table, 2), Some(20));
    assert_eq!(table.queued_ids(), vec![1, 3]);
    assert_eq!(remove_pending_response(&mut table, 2), None);

    let pong = ControlMessage::Pong { request_id: None };
    assert_eq!(deliver_pending_response(&mut table, &pong, None), Some(10));
    assert_eq!(deliver_pending_response(&mut table, &pong, Some(1)), Some(30));
    // The caller registered without the fallback is never reached by an unrouted reply.
    assert_eq!(deliver_pending_response(&mut table, &pong, None), None);
    assert!(table.contains(4));
    assert_eq!(table.len(), 1);
}

#[test]
fn unrouted_replies_are_ignored_for_peers_that_echo_ids() {
    let mut table: PendingTable<u32> = PendingTable::new();
    register_pending_response(&mut table, 9, 90, Some(2), true);
    let pong = ControlMessage::Pong { request_id: None };
    assert_eq!(deliver_pending_response(&mut table, &pong, Some(3)), None);
    assert!(table.contains(9));
    // A reply routed to an unknown id reaches nobody and leaves the table alone.
    let stray = ControlMessage::Pong {
        request_id: Some(1234),
    };
    assert_eq!(deliver_pending_response(&mut table, &stray, Some(2)), None);
    assert_eq!(table.queued_ids(), vec![9]);
    // Transfer replies are routed by their transfer id.
    let accepted = ControlMessage::TransferAccepted {
        id: 9,
        resume_offsets: vec![],
    };
    assert_eq!(deliver_pending_response(&mut table, &accepted, Some(2)), Some(90));
    assert!(table.queued_ids().is_empty());
}

#[test]
fn request_id_support_by_version() {
    assert!(!peer_supports_request_ids(None));
    assert!(!peer_supports_request_ids(Some(1)));
    assert!(!peer_supports_request_ids(Some(2)));
    assert!(peer_supports_request_ids(Some(3)));
    assert!(peer_supports_request_ids(Some(u32::MAX)));
}

#[test]
fn drain_hands_back_every_caller() {
    let mut table: PendingTable<u32> = PendingTable::new();
    register_pending_response(&mut table, 1, 10, None, true);
    register_pending_response(&mut table, 2, 20, Some(3), true);
    register_pending_response(&mut table, 1, 11, None, true);
    let mut drained = drain_pending(&mut table);
    drained.sort();
    assert_eq!(drained, vec![(1, 11), (2, 20)]);
    assert!(table.is_empty());
    assert!(table.queued_ids().is_empty());
}

#[test]
fn path_containment_is_by_component() {
    assert!(path_starts_with("/srv/data/file", "/srv/data"));
    assert!(path_starts_with("/srv/data", "/srv/data/"));
    assert!(path_starts_with("/srv/data/./x", "/srv//data"));
    assert!(!path_starts_with("/srv/database", "/srv/data"));
    assert!(!path_starts_with("/srv", "/srv/data"));
    assert!(!path_starts_with("srv/data", "/srv"));
    assert!(path_starts_with("/anything", "/"));
    assert!(path_starts_with("a/b", "a"));
}

#[test]
fn validate_path_verdicts() {
    let ok_root = || Ok("/srv".to_string());
    assert_eq!(
        validate_path(&PathProbe::Resolved {
            canonical: "/srv/a.txt".to_string(),
            root: ok_root(),
        }),
        Ok("/srv/a.txt".to_string())
    );
    assert_eq!(
        validate_path(&PathProbe::Resolved {
            canonical: "/etc/passwd".to_string(),
            root: ok_root(),
        }),
        Err("Path traversal attempt blocked".to_string())
    );
    assert_eq!(
        validate_path(&PathProbe::Resolved {
            canonical: "/srv/a".to_string(),
            root: Err("gone".to_string()),
        }),
        Err("Invalid root: gone".to_string())
    );
    assert_eq!(
        validate_path(&PathProbe::Unresolved {
            target: "/srv/new/file".to_string(),
            parent: Some(Ok("/srv/new".to_string())),
            root: ok_root(),
        }),
        Ok("/srv/new/file".to_string())
    );
    assert_eq!(
        validate_path(&PathProbe::Unresolved {
            target: "/srv/../x".to_string(),
            parent: Some(Ok("/".to_string())),
            root: ok_root(),
        }),
        Err("Invalid path".to_string())
    );
    assert_eq!(
        validate_path(&PathProbe::Unresolved {
            target: "x".to_string(),
            parent: None,
            root: ok_root(),
        }),
        Err("Invalid path".to_string())
    );
    assert_eq!(
        validate_path(&PathProbe::Unresolved {
            target: "x".to_string(),
            parent: Some(Err("no such dir".to_string())),
            root: ok_root(),
        }),
        Err("Invalid parent: no such dir".to_string())
    );
    assert_eq!(
        validate_path(&PathProbe::Unresolved {
            target: "x".to_string(),
            parent: Some(Ok("/srv".to_string())),
            root: Err("denied".to_string()),
        }),
        Err("Invalid root: denied".to_string())
    );
}

#[test]
fn resume_offsets_take_first_matching_hint() {
    let hints = vec![
        ("a".to_string(), 5u64),
        ("b".to_string(), 7u64),
        ("a".to_string(), 9u64),
    ];
    assert_eq!(lookup_resume_offset(&hints, "a"), 5);
    assert_eq!(lookup_resume_offset(&hints, "b"), 7);
    assert_eq!(lookup_resume_offset(&hints, "c"), 0);
    assert_eq!(lookup_resume_offset(&[], "a"), 0);
}

#[test]
fn parallel_sending_needs_file_index_and_several_files() {
    assert!(!peer_uses_file_index(None));
    assert!(!peer_uses_file_index(Some(1)));
    assert!(peer_uses_file_index(Some(2)));
    assert!(sends_in_parallel(Some(2), 2));
    assert!(!sends_in_parallel(Some(2), 1));
    assert!(!sends_in_parallel(Some(1), 5));
    assert!(!sends_in_parallel(None, 5));
}

fn planned(name: &str, size: u64, cleanup: Option<&str>) -> PlannedFile {
    PlannedFile {
        display_name: name.to_string(),
        path: format!("/srv/{name}"),
        size,
        cleanup: cleanup.map(|c| c.to_string()),
        resume_offset: 0,
    }
}

#[test]
fn planned_files_totals_and_archives() {
    let files = vec![
        planned("a", 10, None),
        planned("dir", 20, Some("/srv/.drift/dir.tar.gz")),
        planned("b", 30, None),
        planned("other", 1, Some("/srv/.drift/other.tar")),
    ];
    assert_eq!(
        archives_to_clean(&files),
        vec!["/srv/.drift/dir.tar.gz".to_string(), "/srv/.drift/other.tar".to_string()]
    );
    assert_eq!(planned_total_size(&files), Some(61));
    assert_eq!(planned_total_size(&[]), Some(0));
    let huge = vec![planned("x", u64::MAX, None), planned("y", 1, None)];
    assert_eq!(planned_total_size(&huge), None);
    let exact = vec![planned("x", u64::MAX - 1, None), planned("y", 1, None)];
    assert_eq!(planned_total_size(&exact), Some(u64::MAX));
}

#[test]
fn transfer_replies_and_outcomes() {
    match transfer_error(3, "boom") {
        ControlMessage::TransferError { id, error } => {
            assert_eq!(id, 3);
            assert_eq!(error, "boom");
        }
        other => panic!("unexpected {other:?}"),
    }
    assert!(matches!(
        reply_decision(&RemoteReply::Message(ControlMessage::TransferAccepted {
            id: 1,
            resume_offsets: vec![]
        })),
        ReplyDecision::Proceed
    ));
    let fail = |r: RemoteReply| match reply_decision(&r) {
        ReplyDecision::Fail {
            error,
            forget_pending,
        } => (error, forget_pending),
        ReplyDecision::Proceed => panic!("unexpected proceed"),
    };
    assert_eq!(
        fail(RemoteReply::Message(ControlMessage::TransferError {
            id: 1,
            error: "nope".to_string()
        })),
        ("nope".to_string(), false)
    );
    assert_eq!(
        fail(RemoteReply::Message(ControlMessage::HandshakeComplete)),
        ("Unexpected response from remote".to_string(), false)
    );
    assert_eq!(
        fail(RemoteReply::ChannelClosed),
        ("Remote response channel closed".to_string(), false)
    );
    assert_eq!(
        fail(RemoteReply::TimedOut),
        ("Remote response timeout".to_string(), true)
    );

    let err = |m: ControlMessage| match m {
        ControlMessage::TransferError { id, error } => (id, error),
        other => panic!("unexpected {other:?}"),
    };
    assert!(matches!(
        pull_outcome(4, &CompletionWait::Done(99)),
        ControlMessage::TransferComplete {
            id: 4,
            total_bytes: 99
        }
    ));
    assert_eq!(
        err(pull_outcome(4, &CompletionWait::TimedOut)),
        (4, "Pull transfer timed out".to_string())
    );
    assert_eq!(
        err(pull_outcome(4, &CompletionWait::ChannelClosed)),
        (4, "Pull transfer channel closed unexpectedly".to_string())
    );
    assert_eq!(
        err(pull_outcome(4, &CompletionWait::Failed("x".to_string()))),
        (4, "x".to_string())
    );
    assert!(matches!(
        push_outcome(6, 1234, &CompletionWait::Done(0)),
        ControlMessage::TransferComplete {
            id: 6,
            total_bytes: 1234
        }
    ));
    assert_eq!(
        err(push_outcome(6, 1, &CompletionWait::TimedOut)),
        (6, "Remote did not confirm transfer within 5 minutes".to_string())
    );
    assert_eq!(
        err(push_outcome(6, 1, &CompletionWait::ChannelClosed)),
        (6, "Remote completion channel closed unexpectedly".to_string())
    );
    assert_eq!(
        err(push_outcome(6, 1, &CompletionWait::Failed("disk".to_string()))),
        (6, "disk".to_string())
    );
}

#[test]
fn removed_caller_receives_nothing() {
    let mut table: PendingTable<u32> = PendingTable::new();
    register_pending_response(&mut table, 1, 10, Some(3), true);
    register_pending_response(&mut table, 2, 20, Some(3), true);
    assert_eq!(remove_pending_response(&mut table, 1), Some(10));
    let reply = ControlMessage::Pong { request_id: Some(1) };
    assert_eq!(deliver_pending_response(&mut table, &reply, Some(3)), None);
    assert!(table.contains(2));
    assert_eq!(table.len(), 1);
}

#[test]
fn entries_are_planned_until_the_first_failure() {
    let mut files: Vec<PlannedFile> = Vec::new();
    assert_eq!(
        outcome(plan_entry(
            &mut files,
            "a.txt",
            12,
            3,
            &EntryCheck::File {
                path: "/srv/a.txt".to_string()
            }
        )),
        Ok(())
    );
    assert_eq!(
        outcome(plan_entry(
            &mut files,
            "photos",
            0,
            0,
            &EntryCheck::Archived(Ok(("/srv/.drift/photos.tar".to_string(), 4096)))
        )),
        Ok(())
    );
    assert_eq!(files.len(), 2);
    assert_eq!(files[0].display_name, "a.txt");
    assert_eq!(files[0].path, "/srv/a.txt");
    assert_eq!((files[0].size, files[0].resume_offset), (12, 3));
    assert!(files[0].cleanup.is_none());
    assert_eq!(files[1].path, "/srv/.drift/photos.tar");
    assert_eq!(files[1].size, 4096);
    assert_eq!(files[1].cleanup.as_deref(), Some("/srv/.drift/photos.tar"));

    assert_eq!(
        outcome(plan_entry(
            &mut files,
            "../etc",
            0,
            0,
            &EntryCheck::InvalidPath("Invalid path".to_string())
        )),
        Err((
            "Invalid path ../etc: Invalid path".to_string(),
            vec!["/srv/.drift/photos.tar".to_string()]
        ))
    );
    assert_eq!(
        outcome(plan_entry(
            &mut files,
            "big",
            0,
            0,
            &EntryCheck::Archived(Err("not a directory".to_string()))
        )),
        Err((
            "Failed to compress big: not a directory".to_string(),
            vec!["/srv/.drift/photos.tar".to_string()]
        ))
    );
    assert_eq!(files.len(), 2);
    assert_eq!(archives_to_clean(&files), vec!["/srv/.drift/photos.tar".to_string()]);
}

#[test]
fn chunks_are_accounted_in_order() {
    let mut total: u64 = 0;
    let (o1, p1) = chunk_sent(8, "f", &mut total, 512, 1000);
    let (o2, p2) = chunk_sent(8, "f", &mut total, 488, 1000);
    assert_eq!((o1, o2, total), (0, 512, 1000));
    match (p1, p2) {
        (
            ControlMessage::TransferProgress {
                id: 8,
                path,
                bytes_done: 512,
                bytes_total: 1000,
            },
            ControlMessage::TransferProgress {
                bytes_done: 1000, ..
            },
        ) => assert_eq!(path, "f"),
        other => panic!("unexpected {other:?}"),
    }
}

fn outcome(r: Result<(), PlanFailure>) -> Result<(), (String, Vec<String>)> {
    r.map_err(|f| (f.error, f.delete))
}

fn two_files() -> Vec<PlannedFile> {
    vec![
        planned("a", 10, None),
        planned("dir", 5, Some("/srv/.drift/dir.tar.gz")),
    ]
}

#[test]
fn push_sends_files_then_waits_for_confirmation() {
    let (mut run, start) = PushRun::start(7, two_files());
    assert!(start.register_waiter);
    assert!(start.to_remote.is_none());
    assert_eq!(run.stage, PushStage::Sending { file: 0 });
    assert_eq!(run.total_size, 15);

    let a = push_step(&mut run, PushEvent::Chunk { len: 10, queued: true });
    match a.to_browser {
        Some(ControlMessage::TransferProgress {
            id: 7,
            path,
            bytes_done: 10,
            bytes_total: 15,
        }) => assert_eq!(path, "a"),
        other => panic!("unexpected {other:?}"),
    }
    assert!(a.delete.is_empty());
    let a = push_step(&mut run, PushEvent::FileDone);
    assert!(a.to_browser.is_none() && a.to_remote.is_none());
    assert_eq!(run.stage, PushStage::Sending { file: 1 });
    push_step(&mut run, PushEvent::Chunk { len: 5, queued: true });
    let a = push_step(&mut run, PushEvent::FileDone);
    assert!(matches!(
        a.to_remote,
        Some(ControlMessage::TransferComplete {
            id: 7,
            total_bytes: 15
        })
    ));
    assert_eq!(run.stage, PushStage::Confirming);
    // Events that do not fit the stage change nothing.
    let a = push_step(&mut run, PushEvent::Chunk { len: 1, queued: true });
    assert!(a.to_browser.is_none());
    assert_eq!(run.total_sent, 15);

    let a = push_step(&mut run, PushEvent::Confirmation(CompletionWait::Done(0)));
    assert!(matches!(
        a.to_browser,
        Some(ControlMessage::TransferComplete {
            id: 7,
            total_bytes: 15
        })
    ));
    assert!(!a.drop_waiter);
    assert_eq!(a.delete, vec!["/srv/.drift/dir.tar.gz".to_string()]);
    assert_eq!(run.stage, PushStage::Ended);
    let a = push_step(&mut run, PushEvent::FileDone);
    assert!(a.to_browser.is_none() && a.delete.is_empty());
}

#[test]
fn push_failures_clean_up_and_drop_the_waiter() {
    let err = |m: Option<ControlMessage>| match m {
        Some(ControlMessage::TransferError { id, error }) => (id, error),
        other => panic!("unexpected {other:?}"),
    };
    let (mut run, _) = PushRun::start(1, two_files());
    push_step(&mut run, PushEvent::FileDone);
    let a = push_step(&mut run, PushEvent::OpenFailed("Permission denied".to_string()));
    assert_eq!(err(a.to_browser), (1, "Failed to open dir: Permission denied".to_string()));
    assert!(a.drop_waiter);
    assert_eq!(a.delete, vec!["/srv/.drift/dir.tar.gz".to_string()]);
    assert_eq!(run.stage, PushStage::Ended);

    let (mut run, _) = PushRun::start(2, two_files());
    let a = push_step(&mut run, PushEvent::Chunk { len: 3, queued: false });
    assert_eq!(err(a.to_browser), (2, "Connection to remote lost".to_string()));
    assert!(a.drop_waiter);
    assert_eq!(a.delete.len(), 1);
    assert_eq!(run.total_sent, 0);

    let (mut run, _) = PushRun::start(3, two_files());
    push_step(&mut run, PushEvent::FileDone);
    push_step(&mut run, PushEvent::FileDone);
    let a = push_step(&mut run, PushEvent::Confirmation(CompletionWait::TimedOut));
    assert_eq!(
        err(a.to_browser),
        (3, "Remote did not confirm transfer within 5 minutes".to_string())
    );
    assert!(a.drop_waiter);
    assert_eq!(a.delete.len(), 1);

    let (run, start) = PushRun::start(4, vec![]);
    assert_eq!(run.stage, PushStage::Confirming);
    assert!(matches!(
        start.to_remote,
        Some(ControlMessage::TransferComplete {
            id: 4,
            total_bytes: 0
        })
    ));
}

#[test]
fn browser_messages_are_routed() {
    let browse = ControlMessage::BrowseRequest {
        request_id: None,
        path: ".".to_string(),
    };
    let info = ControlMessage::InfoRequest { request_id: None };
    let ping = ControlMessage::Ping { request_id: None };
    let transfer = ControlMessage::TransferRequest {
        id: 1,
        entries: vec![],
        direction: drift::protocol::messages::Direction::Push,
        destination_path: ".".to_string(),
        resume_hints: vec![],
    };
    assert_eq!(route_browser_message(&browse, true), BrowserRoute::Forward);
    assert_eq!(route_browser_message(&browse, false), BrowserRoute::NoRemote);
    assert_eq!(route_browser_message(&info, true), BrowserRoute::Local);
    assert_eq!(route_browser_message(&ping, true), BrowserRoute::Forward);
    assert_eq!(route_browser_message(&ping, false), BrowserRoute::Local);
    assert_eq!(route_browser_message(&transfer, false), BrowserRoute::Transfer);
    let text = |m: ControlMessage| match m {
        ControlMessage::Error {
            request_id: None,
            message,
        } => message,
        other => panic!("unexpected {other:?}"),
    };
    assert_eq!(text(no_remote_error()), "No remote connection");
    assert_eq!(text(forwarded_reply(ForwardResult::ConnectionLost)), "Remote connection lost");
    assert_eq!(text(forwarded_reply(ForwardResult::TimedOut)), "Remote timeout");
    assert!(matches!(
        forwarded_reply(ForwardResult::Reply(ControlMessage::Pong { request_id: None })),
        ControlMessage::Pong { request_id: None }
    ));
}

#[test]
fn resume_hints_read_as_a_map() {
    let hints = vec![("x/a".to_string(), 100u64), ("b".to_string(), 0u64)];
    assert_eq!(lookup_resume_offset(&hints, "x/a"), 100);
    assert_eq!(lookup_resume_offset(&hints, "b"), 0);
    assert_eq!(lookup_resume_offset(&hints, "x"), 0);
}

#[test]
fn served_entries_resume_from_hints() {
    let mut files: Vec<PlannedFile> = Vec::new();
    let hints = vec![("a.bin".to_string(), 512u64)];
    let entry = |p: &str, size: u64| TransferEntry {
        relative_path: p.to_string(),
        size,
        is_dir: false,
        permissions: 0o644,
        compression: None,
    };
    let check = |p: &str| EntryCheck::File {
        path: format!("/srv/{p}"),
    };
    assert!(plan_served_entry(&mut files, &entry("a.bin", 1000), &hints, &check("a.bin")).is_ok());
    assert!(plan_served_entry(&mut files, &entry("b.bin", 7), &hints, &check("b.bin")).is_ok());
    assert_eq!((files[0].resume_offset, files[0].size), (512, 1000));
    assert_eq!((files[1].resume_offset, files[1].size), (0, 7));
}

#[test]
fn chunks_are_framed_at_the_bytes_sent() {
    let mut total: u64 = 100;
    let f = frame_for_chunk(9, false, 3, &mut total, b"xy");
    assert_eq!(f, encode_data_frame(9, 100, b"xy"));
    assert_eq!(total, 102);
    let f = frame_for_chunk(9, true, 3, &mut total, b"z");
    assert_eq!(f, encode_data_frame_v2(9, 3, 102, b"z"));
    assert_eq!(total, 103);
}

#[test]
fn served_files_are_framed_then_completed() {
    let (mut run, start) = SendRun::start(5, two_files(), Some(1));
    assert!(!run.use_v2);
    assert!(start.to_remote.is_none());
    let a = send_step(&mut run, SendEvent::Chunk(b"hello".to_vec()));
    assert_eq!(a.frame, Some(encode_data_frame(5, 0, b"hello")));
    send_step(&mut run, SendEvent::FileDone);
    assert_eq!(run.stage, SendStage::Sending { file: 1 });
    let a = send_step(&mut run, SendEvent::Chunk(b"abc".to_vec()));
    assert_eq!(a.frame, Some(encode_data_frame(5, 5, b"abc")));
    let a = send_step(&mut run, SendEvent::FileDone);
    assert!(matches!(
        a.to_remote,
        Some(ControlMessage::TransferComplete {
            id: 5,
            total_bytes: 8
        })
    ));
    assert_eq!(a.delete, vec!["/srv/.drift/dir.tar.gz".to_string()]);
    assert_eq!(run.stage, SendStage::Ended);

    let (mut run, _) = SendRun::start(6, two_files(), Some(2));
    assert!(run.use_v2);
    send_step(&mut run, SendEvent::FileDone);
    let a = send_step(&mut run, SendEvent::Chunk(b"q".to_vec()));
    assert_eq!(a.frame, Some(encode_data_frame_v2(6, 1, 0, b"q")));

    let (run, start) = SendRun::start(7, vec![], None);
    assert_eq!(run.stage, SendStage::Ended);
    assert!(matches!(
        start.to_remote,
        Some(ControlMessage::TransferComplete {
            id: 7,
            total_bytes: 0
        })
    ));
}

#[test]
fn serving_failures_report_and_clean_up() {
    let err = |m: Option<ControlMessage>| match m {
        Some(ControlMessage::TransferError { id, error }) => (id, error),
        other => panic!("unexpected {other:?}"),
    };
    let (mut run, _) = SendRun::start(1, two_files(), None);
    let a = send_step(&mut run, SendEvent::OpenFailed("No such file".to_string()));
    assert_eq!(err(a.to_remote), (1, "Failed to open a: No such file".to_string()));
    assert_eq!(a.delete.len(), 1);
    let a = send_step(&mut run, SendEvent::FileDone);
    assert!(a.to_remote.is_none() && a.delete.is_empty());

    let (mut run, _) = SendRun::start(2, two_files(), None);
    send_step(&mut run, SendEvent::Chunk(vec![0; 4]));
    let a = send_step(&mut run, SendEvent::ChannelClosed);
    assert_eq!(err(a.to_remote), (2, "Connection lost while sending".to_string()));
    assert_eq!(a.delete.len(), 1);

    assert_eq!(
        err(Some(parallel_outcome(3, true, 10))),
        (3, "Connection lost or read error during parallel transfer".to_string())
    );
    assert!(matches!(
        parallel_outcome(3, false, 10),
        ControlMessage::TransferComplete {
            id: 3,
            total_bytes: 10
        }
    ));
}

#[test]
fn browser_transfers_start_or_fail_early() {
    let fail = |d: StartDecision| match d {
        StartDecision::Fail { error, unregister } => (error, unregister),
        StartDecision::AwaitReply => panic!("unexpected wait"),
    };
    assert_eq!(fail(transfer_start(false, &Ok(()), true)), ("No remote connection".to_string(), false));
    assert_eq!(
        fail(transfer_start(true, &Err("disk full".to_string()), true)),
        ("disk full".to_string(), false)
    );
    assert_eq!(
        fail(transfer_start(true, &Ok(()), false)),
        ("Failed to send to remote".to_string(), true)
    );
    assert!(matches!(transfer_start(true, &Ok(()), true), StartDecision::AwaitReply));
}
