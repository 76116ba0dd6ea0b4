use p2p_file_sync::database::is_newer_than;
use p2p_file_sync::editor::{hex_text, EditFolderState};
use p2p_file_sync::manager::{folder_of_change, peers_sharing};
use p2p_file_sync::scan::hash_data;
use p2p_file_sync::types::{File, IpAddr};
use p2p_file_sync::{Config, Peer, WatchedFolder};
use std::path::PathBuf;
use std::time::{Duration, UNIX_EPOCH};

#[test]
fn newer_than_local_version() {
    // values of the database scenarios: "/old" at 12, "/new" at 100
    assert!(is_newer_than(100, Some(12)));
    assert!(!is_newer_than(100, Some(100)));
    assert!(!is_newer_than(99, Some(100)));
    assert!(!is_newer_than(-1000, Some(12)));
    assert!(is_newer_than(-1000, None));
}

#[test]
fn hash_is_sha256() {
    let empty = hash_data(vec![]);
    assert_eq!(
        empty,
        vec![
            0xe3, 0xb0, 0xc4, 0x42, 0x98, 0xfc, 0x1c, 0x14, 0x9a, 0xfb, 0xf4, 0xc8, 0x99, 0x6f,
            0xb9, 0x24, 0x27, 0xae, 0x41, 0xe4, 0x64, 0x9b, 0x93, 0x4c, 0xa4, 0x95, 0x99, 0x1b,
            0x78, 0x52, 0xb8, 0x55
        ]
    );
    let abc = hash_data(b"abc".to_vec());
    assert_eq!(&abc[..4], &[0xba, 0x78, 0x16, 0xbf]);
    assert_eq!(abc.len(), 32);
}

#[test]
fn new_file_is_owned_locally() {
    let f = File::new(3, vec![1, 2], "/x/y".to_string(), 42);
    assert_eq!(f.folder_id, 3);
    assert_eq!(f.path, "/x/y");
    assert_eq!(f.local_hash, Some(vec![1, 2]));
    assert_eq!(f.local_last_modified, Some(42));
    assert_eq!(f.global_hash, vec![1, 2]);
    assert_eq!(f.global_last_modified, 42);
    assert_eq!(f.global_peer, "0");
}

#[test]
fn unix_times_convert_both_ways() {
    assert_eq!(File::unix_time_as_system(100), UNIX_EPOCH + Duration::from_secs(100));
    assert_eq!(File::unix_time_as_system(-100), UNIX_EPOCH - Duration::from_secs(100));
    assert_eq!(File::system_time_as_unix(UNIX_EPOCH + Duration::from_secs(1234)), 1234);
    assert_eq!(File::system_time_as_unix(UNIX_EPOCH - Duration::from_secs(5)), 0);
    assert_eq!(File::system_time_as_unix(File::unix_time_as_system(987654321)), 987654321);
}

#[test]
fn relative_and_full_paths() {
    assert_eq!(File::get_relative_path("/a/b", "/a/b/c/d.txt"), Some(PathBuf::from("c/d.txt")));
    assert_eq!(File::get_relative_path("/a/b", "/a/bc/d.txt"), None);
    assert_eq!(File::get_full_path("/a/b", "c/d.txt"), PathBuf::from("/a/b/c/d.txt"));
}

#[test]
fn folders_and_their_forms() {
    let folder = WatchedFolder::new_full(0x2a, "/foo");
    assert_eq!(folder.id(), 0x2a);
    assert_eq!(folder.path(), &PathBuf::from("/foo"));
    assert_eq!(folder.display_text(), "      0x2a : /foo");

    let form = EditFolderState::from(folder.clone());
    assert_eq!(form.path_input.text, "/foo");
    assert_eq!(form.path_input.index, 4);
    assert_eq!(form.id_input.text, "0x2a");
    assert_eq!(form.id_input.index, 4);
    let back: WatchedFolder = (&form).try_into().unwrap();
    assert_eq!(back, folder);

    assert_eq!(hex_text(0), "0x0");
    assert_eq!(hex_text(0xffffffff), "0xffffffff");

    let random = WatchedFolder::new("/bar");
    assert_eq!(random.path(), &PathBuf::from("/bar"));
}

#[test]
fn ipv4_from_octets() {
    assert_eq!(IpAddr::from([127, 0, 0, 1]), IpAddr::V4(0x7f000001));
    assert_eq!(Peer::new([10, 1, 2, 3]).ip, IpAddr::V4(0x0a010203));
}

fn two_folder_config() -> Config {
    let mut p1 = Peer::new([127, 0, 0, 1]);
    let mut p2 = Peer::new([192, 168, 0, 1]);
    let p3 = Peer::new([192, 168, 0, 2]);
    p1.share_folder(1);
    p2.share_folder(2);
    p2.share_folder(1);
    Config {
        paths: vec![
            WatchedFolder::new_full(1, "/data/one"),
            WatchedFolder::new_full(2, "/data/two"),
        ],
        peers: vec![p1, p2, p3],
    }
}

#[test]
fn config_queries() {
    let config = two_folder_config();
    assert_eq!(config.paths().len(), 2);
    assert_eq!(config.get_path(2), Some(PathBuf::from("/data/two")));
    assert_eq!(config.get_path(3), None);
    assert!(config.is_shared_with([192, 168, 0, 1].into(), 1));
    assert!(!config.is_shared_with([192, 168, 0, 2].into(), 1));
    assert!(!config.is_shared_with([10, 0, 0, 1].into(), 1));
    assert_eq!(
        config.peer_ips(),
        vec![IpAddr::V4(0x7f000001), IpAddr::V4(0xc0a80001), IpAddr::V4(0xc0a80002)]
    );
    assert_eq!(config.shared_folders([192, 168, 0, 2]), Some(vec![]));
    assert_eq!(config.shared_folders([10, 0, 0, 1]), None);
}

#[test]
fn changed_files_find_their_folder() {
    let config = two_folder_config();
    assert_eq!(folder_of_change(&config, &PathBuf::from("/data/one/x.txt")), Some(1));
    assert_eq!(folder_of_change(&config, &PathBuf::from("/data/three/x.txt")), None);
    let mut nested = two_folder_config();
    nested.add_folder(WatchedFolder::new_full(3, "/data"));
    assert_eq!(folder_of_change(&nested, &PathBuf::from("/data/one/x.txt")), None);

    let sharing = peers_sharing(&config, 1);
    assert_eq!(sharing.len(), 2);
    assert_eq!(sharing[0].ip, IpAddr::V4(0x7f000001));
    assert_eq!(sharing[1].folders, vec![2, 1]);
    assert!(peers_sharing(&config, 7).is_empty());
}

#[test]
fn folders_are_added_updated_and_deleted() {
    let mut config = two_folder_config();
    config.add_folder(WatchedFolder::new_full(3, "foobar"));
    assert_eq!(config.paths.len(), 3);
    assert_eq!(config.paths[2].id(), 3);

    let old = config.update_folder(WatchedFolder::new_full(1, "foobar"));
    assert_eq!(old, Some(WatchedFolder::new_full(1, "/data/one")));
    assert_eq!(config.paths[0].path, PathBuf::from("foobar"));
    assert_eq!(config.paths.len(), 3);
    assert_eq!(config.update_folder(WatchedFolder::new_full(9, "x")), None);

    config.delete_folder(1);
    assert_eq!(config.paths.len(), 2);
    assert_eq!(config.paths[0].id(), 2);
    config.delete_folder(3);
    config.delete_folder(2);
    assert!(config.paths.is_empty());
}

#[test]
fn unix_time_round_trip() {
    assert_eq!(File::system_time_as_unix(File::unix_time_as_system(0)), 0);
    assert_eq!(File::system_time_as_unix(File::unix_time_as_system(-100)), 0);
    assert_eq!(File::system_time_as_unix(File::unix_time_as_system(i64::MAX)), i64::MAX);
}

#[test]
fn peer_text_lists_shared_folders() {
    let mut peer = Peer::new([10, 0, 0, 1]);
    assert_eq!(peer.display_text("10.0.0.1"), "10.0.0.1");
    peer.share_folder(0x2a);
    peer.share_folder(0xdeadbeef);
    assert_eq!(
        peer.display_text("10.0.0.1"),
        "10.0.0.1\n      0x2a\n0xdeadbeef\n"
    );
}

#[test]
fn times_before_the_epoch_are_exact() {
    assert_eq!(File::unix_time_as_system(-1), UNIX_EPOCH - Duration::from_secs(1));
    assert_eq!(File::unix_time_as_system(-3600), UNIX_EPOCH - Duration::from_secs(3600));
    assert_eq!(File::unix_time_as_system(0), UNIX_EPOCH);
}

#[test]
fn folders_can_be_made_from_paths() {
    let f = WatchedFolder::new_path(PathBuf::from("/x"));
    assert_eq!(f.path(), &PathBuf::from("/x"));
}
