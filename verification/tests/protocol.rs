use p2p_file_sync::database::apply_scan;
use p2p_file_sync::frame::Error;
use p2p_file_sync::sync::{announce_folder, connection_plan, send_step, ConnAction, SendAction, SendState};
use p2p_file_sync::types::IpAddr;
use bytes::Bytes;
use p2p_file_sync::connection::parse_frame;
use p2p_file_sync::frame::Cursor;
use p2p_file_sync::sync::{
    announcement, decide_upsert, file_frame, file_request_checked, is_inconsistent, like_pattern,
    receive_step, resolve_path, resolve_peer, ReceiveAction, ReceiveState, Upsert,
};
use p2p_file_sync::types::File;
use p2p_file_sync::{Config, Frame, Peer, WatchedFolder};
use std::path::PathBuf;

fn config() -> Config {
    let mut peer = Peer::new([127, 0, 0, 1]);
    peer.share_folder(1);
    Config {
        paths: vec![WatchedFolder::new_full(1, "/tmp/sync")],
        peers: vec![peer],
    }
}

fn roundtrip(frame: Frame) -> Frame {
    let mut bytes = frame.encode();
    bytes.extend_from_slice(b"trailing");
    let mut cursor = Cursor::new(&bytes);
    Frame::check(&mut cursor).unwrap();
    cursor.set_position(0);
    Frame::parse(&mut cursor).unwrap()
}

#[test]
fn encode_then_parse_gives_back_each_frame() {
    assert!(matches!(roundtrip(Frame::DbSync { folder_id: 0x01020304 }), Frame::DbSync { folder_id: 0x01020304 }));
    assert!(matches!(roundtrip(Frame::Yes), Frame::Yes));
    assert!(matches!(roundtrip(Frame::No), Frame::No));
    assert!(matches!(roundtrip(Frame::Done), Frame::Done));
    match roundtrip(Frame::InitiatorGlobal {
        global_hash: Bytes::from(vec![7u8; 32]),
        global_last_modified: -5,
        global_peer: "10.0.0.2".to_string(),
        path: "dir/ä.txt".to_string(),
    }) {
        Frame::InitiatorGlobal { global_hash, global_last_modified, global_peer, path } => {
            assert_eq!(global_hash, Bytes::from(vec![7u8; 32]));
            assert_eq!(global_last_modified, -5);
            assert_eq!(global_peer, "10.0.0.2");
            assert_eq!(path, "dir/ä.txt");
        }
        _ => panic!("wrong frame"),
    }
    match roundtrip(Frame::RequestFile { folder_id: 9, path: "a/b".to_string() }) {
        Frame::RequestFile { folder_id, path } => {
            assert_eq!(folder_id, 9);
            assert_eq!(path, "a/b");
        }
        _ => panic!("wrong frame"),
    }
    match roundtrip(file_frame(vec![1, 2, 3])) {
        Frame::File { size, data } => {
            assert_eq!(size, 3);
            assert_eq!(data, Bytes::from(vec![1u8, 2, 3]));
        }
        _ => panic!("wrong frame"),
    }
}

#[test]
fn encode_db_sync_exact_bytes() {
    assert_eq!(Frame::DbSync { folder_id: 0x01020304 }.encode(), vec![b'.', 4, 3, 2, 1]);
    assert_eq!(
        Frame::RequestFile { folder_id: 1, path: "x".to_string() }.encode(),
        vec![b'?', 1, 0, 0, 0, b'x', b'\r', b'\n']
    );
}

#[test]
fn check_reports_incomplete_lines() {
    let bytes = b"?\x01\x00\x00\x00path-without-end";
    let mut cursor = Cursor::new(&bytes[..]);
    assert!(matches!(Frame::check(&mut cursor), Err(p2p_file_sync::frame::Error::Incomplete)));
    let empty: &[u8] = &[];
    let mut cursor = Cursor::new(empty);
    assert!(matches!(Frame::check(&mut cursor), Err(p2p_file_sync::frame::Error::Incomplete)));
}

#[test]
fn parse_rejects_invalid_utf8() {
    let bytes = b"?\x01\x00\x00\x00\xff\xfe\r\n";
    let mut cursor = Cursor::new(&bytes[..]);
    assert!(matches!(Frame::parse(&mut cursor), Err(p2p_file_sync::frame::Error::ParseError(_))));
}

#[test]
fn check_rejects_unknown_tags_and_negative_sizes() {
    let unknown = b"x";
    assert!(matches!(Frame::check(&mut Cursor::new(&unknown[..])), Err(Error::Invalid)));
    let negative = b"=\xff\xff\xff\xff\xff\xff\xff\xff";
    assert!(matches!(Frame::check(&mut Cursor::new(&negative[..])), Err(Error::Invalid)));
    let fine = b"=\x01\x00\x00\x00\x00\x00\x00\x00z";
    assert!(Frame::check(&mut Cursor::new(&fine[..])).is_ok());
}

#[test]
fn check_waits_for_a_cut_short_size() {
    let short = b"=\x10\x00";
    assert!(matches!(Frame::check(&mut Cursor::new(&short[..])), Err(Error::Incomplete)));
    assert!(matches!(p2p_file_sync::connection::parse_frame(&short[..]), Ok(None)));
    assert!(matches!(p2p_file_sync::connection::parse_frame(b"x"), Err(Error::Invalid)));
}

#[test]
fn parse_frame_takes_one_frame() {
    let mut bytes = Frame::Yes.encode();
    bytes.extend(Frame::DbSync { folder_id: 2 }.encode());
    match parse_frame(&bytes).unwrap() {
        Some((Frame::Yes, 1)) => {}
        _ => panic!("expected a yes of one byte"),
    }
    match parse_frame(&bytes[1..]).unwrap() {
        Some((Frame::DbSync { folder_id: 2 }, 5)) => {}
        _ => panic!("expected a folder announcement"),
    }
    assert!(parse_frame(&bytes[1..3]).unwrap().is_none());
}

#[test]
fn receive_accepts_only_shared_folders() {
    let config = config();
    let peer = [127, 0, 0, 1].into();
    let other = [127, 0, 0, 2].into();

    let (state, action) = receive_step(&config, peer, ReceiveState::Folders, Frame::DbSync { folder_id: 1 });
    assert_eq!(state, ReceiveState::Files { folder_id: 1 });
    assert!(matches!(action, ReceiveAction::Reply(Frame::Yes)));

    let (state, action) = receive_step(&config, peer, ReceiveState::Folders, Frame::DbSync { folder_id: 2 });
    assert_eq!(state, ReceiveState::Folders);
    assert!(matches!(action, ReceiveAction::Reply(Frame::No)));

    let (state, action) = receive_step(&config, other, ReceiveState::Folders, Frame::DbSync { folder_id: 1 });
    assert_eq!(state, ReceiveState::Folders);
    assert!(matches!(action, ReceiveAction::Reply(Frame::No)));

    let (state, action) = receive_step(
        &config,
        peer,
        ReceiveState::Files { folder_id: 1 },
        Frame::InitiatorGlobal {
            global_hash: Bytes::from(vec![1u8; 32]),
            global_last_modified: 12,
            global_peer: "0".to_string(),
            path: "a.txt".to_string(),
        },
    );
    assert_eq!(state, ReceiveState::Files { folder_id: 1 });
    match action {
        ReceiveAction::Store { folder_id, path, global_last_modified, global_peer, .. } => {
            assert_eq!(folder_id, 1);
            assert_eq!(path, "a.txt");
            assert_eq!(global_last_modified, 12);
            assert_eq!(global_peer, "0");
        }
        _ => panic!("expected a store"),
    }

    let (state, action) = receive_step(&config, peer, ReceiveState::Files { folder_id: 1 }, Frame::Done);
    assert_eq!(state, ReceiveState::Folders);
    assert!(matches!(action, ReceiveAction::Skip));

    let (state, action) = receive_step(&config, peer, ReceiveState::Folders, Frame::Done);
    assert_eq!(state, ReceiveState::Finished);
    assert!(matches!(action, ReceiveAction::Stop));

    let (state, action) = receive_step(&config, peer, ReceiveState::Folders, Frame::Yes);
    assert_eq!(state, ReceiveState::Folders);
    assert!(matches!(action, ReceiveAction::Skip));
}

#[test]
fn newest_state_wins() {
    let existing = Some((vec![1u8, 2], 100i64));
    assert_eq!(decide_upsert(&existing, &[3, 4], 101), Upsert::Update);
    assert_eq!(decide_upsert(&existing, &[3, 4], 100), Upsert::Keep);
    assert_eq!(decide_upsert(&existing, &[3, 4], 99), Upsert::Keep);
    assert_eq!(decide_upsert(&existing, &[1, 2], 200), Upsert::Keep);
    assert_eq!(decide_upsert(&None, &[1, 2], 0), Upsert::Insert);
}

#[test]
fn peer_zero_means_the_sender() {
    assert_eq!(resolve_peer("0".to_string(), "10.0.0.7".to_string()), "10.0.0.7");
    assert_eq!(resolve_peer("10.0.0.9".to_string(), "10.0.0.7".to_string()), "10.0.0.9");
    assert_eq!(resolve_peer("00".to_string(), "10.0.0.7".to_string()), "00");
}

#[test]
fn paths_resolve_inside_folders() {
    let config = config();
    assert_eq!(resolve_path(&config, 1, "a/b.txt"), Some(PathBuf::from("/tmp/sync/a/b.txt")));
    assert_eq!(resolve_path(&config, 2, "a/b.txt"), None);
    assert_eq!(like_pattern(&PathBuf::from("/tmp/sync")), "/tmp/sync%");
}

#[test]
fn announcements_carry_relative_paths() {
    let file = File::new(1, vec![5u8; 32], "/tmp/sync/dir/f.txt".to_string(), 77);
    match announcement(&PathBuf::from("/tmp/sync"), file) {
        Some(Frame::InitiatorGlobal { global_hash, global_last_modified, global_peer, path }) => {
            assert_eq!(global_hash, Bytes::from(vec![5u8; 32]));
            assert_eq!(global_last_modified, 77);
            assert_eq!(global_peer, "0");
            assert_eq!(path, "dir/f.txt");
        }
        _ => panic!("expected an announcement"),
    }
    let outside = File::new(1, vec![5u8; 32], "/elsewhere/f.txt".to_string(), 77);
    assert!(announcement(&PathBuf::from("/tmp/sync"), outside).is_none());
}

#[test]
fn requests_name_the_relative_path() {
    let config = config();
    let file = File::new(1, vec![5u8; 32], "/tmp/sync/dir/f.txt".to_string(), 77);
    match file_request_checked(&config, &file) {
        Some((Frame::RequestFile { folder_id, path }, target)) => {
            assert_eq!(folder_id, 1);
            assert_eq!(path, "dir/f.txt");
            assert_eq!(target, PathBuf::from("/tmp/sync/dir/f.txt"));
        }
        _ => panic!("expected a request"),
    }
    let mut unknown = file.clone();
    unknown.folder_id = 5;
    assert!(file_request_checked(&config, &unknown).is_none());
    let mut negative = file.clone();
    negative.folder_id = -1;
    assert!(file_request_checked(&config, &negative).is_none());
}

#[test]
fn local_state_newer_than_global_is_inconsistent() {
    let mut file = File::new(1, vec![1], "/a".to_string(), 10);
    assert!(!is_inconsistent(&file));
    file.local_last_modified = Some(11);
    assert!(is_inconsistent(&file));
    file.local_last_modified = None;
    assert!(!is_inconsistent(&file));
}

#[test]
fn files_are_sent_only_after_yes() {
    let (state, frame) = announce_folder(7);
    assert!(matches!(frame, Frame::DbSync { folder_id: 7 }));
    let (next, action) = send_step(state, Frame::Yes);
    assert_eq!(next, SendState::Sending { folder_id: 7 });
    assert_eq!(action, SendAction::SendFiles { folder_id: 7 });
    let (same, action) = send_step(next, Frame::Yes);
    assert_eq!(same, next);
    assert_eq!(action, SendAction::NextFile);
    let (same, action) = send_step(next, Frame::Done);
    assert_eq!(same, next);
    assert_eq!(action, SendAction::Unexpected);

    let (state, _) = announce_folder(7);
    assert_eq!(send_step(state, Frame::No), (SendState::Finished, SendAction::Declined));
    assert_eq!(send_step(state, Frame::Done), (SendState::Finished, SendAction::Unexpected));
}

#[test]
fn connection_course_depends_on_the_side() {
    let conf = config();
    let peer = IpAddr::from([127, 0, 0, 1]);
    let shared: Vec<ConnAction> = conf
        .shared_folders([127, 0, 0, 1])
        .unwrap()
        .into_iter()
        .map(|folder_id| ConnAction::SendFolder { folder_id })
        .collect();
    let mut first = shared.clone();
    first.extend([ConnAction::EndOfFolders, ConnAction::ReceiveFolders, ConnAction::NotifySync]);
    assert_eq!(connection_plan(&conf, peer, true), Some(first));
    let mut second = vec![ConnAction::ReceiveFolders];
    second.extend(shared);
    second.extend([ConnAction::EndOfFolders, ConnAction::NotifySync]);
    assert_eq!(connection_plan(&conf, peer, false), Some(second));
    assert_eq!(connection_plan(&conf, IpAddr::from([9, 9, 9, 9]), true), None);
}

#[test]
fn scanning_updates_only_older_states() {
    let file = File {
        folder_id: 1,
        path: "/a/x".to_string(),
        local_hash: Some(vec![1]),
        local_last_modified: Some(10),
        global_hash: vec![2],
        global_last_modified: 20,
        global_peer: "10.0.0.2".to_string(),
    };
    let newer_local = apply_scan(file.clone(), 15, vec![3]);
    assert_eq!(newer_local.local_hash, Some(vec![3]));
    assert_eq!(newer_local.local_last_modified, Some(15));
    assert_eq!(newer_local.global_hash, vec![2]);
    assert_eq!(newer_local.global_peer, "10.0.0.2");

    let newest = apply_scan(file.clone(), 30, vec![4]);
    assert_eq!(newest.local_last_modified, Some(30));
    assert_eq!(newest.global_hash, vec![4]);
    assert_eq!(newest.global_last_modified, 30);
    assert_eq!(newest.global_peer, "0");

    let older = apply_scan(file.clone(), 5, vec![5]);
    assert_eq!(older.local_hash, Some(vec![1]));
    assert_eq!(older.global_last_modified, 20);

    let no_local = File { local_hash: None, local_last_modified: None, ..file };
    let scanned = apply_scan(no_local, 25, vec![6]);
    assert_eq!(scanned.local_last_modified, None);
    assert_eq!(scanned.global_last_modified, 25);
}
