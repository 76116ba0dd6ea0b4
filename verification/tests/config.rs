use std::path::PathBuf;

use p2p_file_sync::types::IpAddr;
use p2p_file_sync::{Config, Peer, WatchedFolder};

#[test]
fn test_shared_folders() {
    let mut p1 = Peer::new([127, 0, 0, 1]);
    let mut p2 = Peer::new([192, 168, 0, 1]);

    p1.share_folder(1);
    p1.share_folder(3);
    p2.share_folder(2);

    let conf = Config {
        paths: vec![],
        peers: vec![p1, p2],
    };

    assert_eq!(conf.shared_folders([127, 0, 0, 1]), vec![1, 3].into());
    assert_eq!(conf.shared_folders([192, 168, 0, 1]), vec![2].into());
}

fn config_with(paths: Vec<WatchedFolder>) -> Config {
    Config { paths, peers: vec![] }
}

#[test]
fn path_read_after_add() {
    let mut conf = config_with(vec![WatchedFolder::new_full(1, "/a")]);
    assert_eq!(conf.get_path(2), None);
    conf.add_folder(WatchedFolder::new_full(2, "/b"));
    assert_eq!(conf.get_path(2), Some(PathBuf::from("/b")));
    assert_eq!(conf.get_path(1), Some(PathBuf::from("/a")));
    // An earlier folder with the same identifier stays the one found
    conf.add_folder(WatchedFolder::new_full(1, "/other"));
    assert_eq!(conf.get_path(1), Some(PathBuf::from("/a")));
}

#[test]
fn path_read_after_update() {
    let mut conf = config_with(vec![
        WatchedFolder::new_full(1, "/a"),
        WatchedFolder::new_full(2, "/b"),
    ]);
    let replaced = conf.update_folder(WatchedFolder::new_full(2, "/c"));
    assert_eq!(replaced.map(|f| f.id()), Some(2));
    assert_eq!(conf.get_path(2), Some(PathBuf::from("/c")));
    assert_eq!(conf.get_path(1), Some(PathBuf::from("/a")));
    assert!(conf.update_folder(WatchedFolder::new_full(9, "/z")).is_none());
    assert_eq!(conf.paths.len(), 2);
}

#[test]
fn path_read_after_delete() {
    let mut conf = config_with(vec![
        WatchedFolder::new_full(1, "/a"),
        WatchedFolder::new_full(2, "/b"),
        WatchedFolder::new_full(1, "/c"),
    ]);
    conf.delete_folder(1);
    assert_eq!(conf.get_path(1), None);
    assert_eq!(conf.get_path(2), Some(PathBuf::from("/b")));
    assert_eq!(conf.paths.len(), 1);
}

#[test]
fn sharing_is_read_per_peer() {
    let mut p1 = Peer::new([10, 0, 0, 1]);
    p1.share_folder(4);
    let conf = Config { paths: vec![], peers: vec![p1] };
    assert!(conf.is_shared_with(IpAddr::from([10, 0, 0, 1]), 4));
    assert!(!conf.is_shared_with(IpAddr::from([10, 0, 0, 1]), 5));
    assert!(!conf.is_shared_with(IpAddr::from([10, 0, 0, 2]), 4));
    assert_eq!(conf.shared_folders([10, 0, 0, 2]), None);
}
