//! Decisions taken when a watched file changes.
use vstd::prelude::*;

use std::path::PathBuf;

use crate::config::Config;
use crate::types::{copy_ids, path_bytes, path_has_prefix, path_starts_with, IpAddr, Peer, WatchedFolder};

verus! {

/// The number of folders among the first `n` of `paths` that contain
/// `path`.
pub open spec fn containing_count(paths: Seq<WatchedFolder>, path: Seq<u8>, n: int) -> nat
    decreases n,
{
    if n <= 0 {
        0
    } else {
        containing_count(paths, path, n - 1) + if path_has_prefix(path, paths[n - 1]@.1) {
            1nat
        } else {
            0nat
        }
    }
}

/// The identifier of the last folder among the first `n` of `paths` that
/// contains `path`.
pub open spec fn last_containing(paths: Seq<WatchedFolder>, path: Seq<u8>, n: int) -> Option<u32>
    decreases n,
{
    if n <= 0 {
        None
    } else if path_has_prefix(path, paths[n - 1]@.1) {
        Some(paths[n - 1]@.0)
    } else {
        last_containing(paths, path, n - 1)
    }
}

/// The folder counted as containing a path is one that contains it: when
/// `last_containing` names a folder, some folder among the first `n` has
/// that identifier and a path that is a leading part of `path`; and when
/// exactly one folder contains `path`, it is the one named, and every
/// folder that contains `path` has its identifier.
pub proof fn lemma_change_lies_in_its_folder(paths: Seq<WatchedFolder>, path: Seq<u8>, n: int)
    requires
        0 <= n <= paths.len(),
    ensures
        last_containing(paths, path, n) matches Some(id) ==> exists|i: int|
            0 <= i < n && #[trigger] paths[i]@.0 == id && path_has_prefix(path, paths[i]@.1),
        containing_count(paths, path, n) == 0 <==> last_containing(paths, path, n) is None,
        containing_count(paths, path, n) == 1 ==> (last_containing(paths, path, n) matches Some(id)
            && forall|j: int|
            0 <= j < n && path_has_prefix(path, #[trigger] paths[j]@.1) ==> paths[j]@.0 == id),
    decreases n,
{
    if n > 0 {
        lemma_change_lies_in_its_folder(paths, path, n - 1);
        if path_has_prefix(path, paths[n - 1]@.1) {
            assert(paths[n - 1]@.0 == last_containing(paths, path, n)->0);
            if containing_count(paths, path, n) == 1 {
                assert(containing_count(paths, path, n - 1) == 0);
                assert forall|j: int|
                    0 <= j < n && path_has_prefix(path, #[trigger] paths[j]@.1) implies paths[j]@.0
                    == paths[n - 1]@.0 by {
                    if j < n - 1 {
                        lemma_none_contain(paths, path, n - 1, j);
                    }
                }
            }
        } else {
            if let Some(id) = last_containing(paths, path, n - 1) {
                let i = choose|i: int|
                    0 <= i < n - 1 && #[trigger] paths[i]@.0 == id && path_has_prefix(
                        path,
                        paths[i]@.1,
                    );
                assert(0 <= i < n && paths[i]@.0 == id && path_has_prefix(path, paths[i]@.1));
            }
        }
    }
}

/// No folder among the first `n` contains `path` when none is counted.
proof fn lemma_none_contain(paths: Seq<WatchedFolder>, path: Seq<u8>, n: int, j: int)
    requires
        0 <= j < n <= paths.len(),
        containing_count(paths, path, n) == 0,
    ensures
        !path_has_prefix(path, paths[j]@.1),
    decreases n,
{
    if j < n - 1 {
        lemma_none_contain(paths, path, n - 1, j);
    }
}

/// The folder that a changed `path` belongs to: the one watched folder
/// containing it; `None` when no folder or several folders contain it.
pub fn folder_of_change(config: &Config, path: &PathBuf) -> (r: Option<u32>)
    ensures
        r == if containing_count(config.paths@, path_bytes(*path), config.paths@.len() as int) == 1 {
            last_containing(config.paths@, path_bytes(*path), config.paths@.len() as int)
        } else {
            None
        },
        r matches Some(id) ==> exists|i: int|
            0 <= i < config.paths@.len() && #[trigger] config.paths@[i]@.0 == id
                && path_has_prefix(path_bytes(*path), config.paths@[i]@.1),
{
    let mut count: usize = 0;
    let mut found: Option<u32> = None;
    let mut i: usize = 0;
    while i < config.paths.len()
        invariant
            i <= config.paths@.len(),
            count == containing_count(config.paths@, path_bytes(*path), i as int),
            found == last_containing(config.paths@, path_bytes(*path), i as int),
            count <= i,
        decreases config.paths@.len() - i,
    {
        if path_starts_with(path, config.paths[i].path()) {
            count = count + 1;
            found = Some(config.paths[i].id());
        }
        i = i + 1;
    }
    proof {
        lemma_change_lies_in_its_folder(
            config.paths@,
            path_bytes(*path),
            config.paths@.len() as int,
        );
    }
    if count == 1 {
        found
    } else {
        None
    }
}

/// The address and shared folders of a peer.
pub open spec fn peer_view(p: Peer) -> (IpAddr, Seq<u32>) {
    (p.ip, p.folders@)
}

/// The peers among the first `n` of `peers` that share folder `id`, in
/// order.
pub open spec fn sharing_prefix(peers: Seq<Peer>, id: u32, n: int) -> Seq<(IpAddr, Seq<u32>)>
    decreases n,
{
    if n <= 0 {
        Seq::empty()
    } else if peers[n - 1].folders@.contains(id) {
        sharing_prefix(peers, id, n - 1).push(peer_view(peers[n - 1]))
    } else {
        sharing_prefix(peers, id, n - 1)
    }
}

/// The peers that share folder `folder_id`, in configuration order.
pub fn peers_sharing(config: &Config, folder_id: u32) -> (r: Vec<Peer>)
    ensures
        r@.map_values(|p: Peer| peer_view(p)) == sharing_prefix(
            config.peers@,
            folder_id,
            config.peers@.len() as int,
        ),
{
    let mut res: Vec<Peer> = Vec::new();
    let mut i: usize = 0;
    while i < config.peers.len()
        invariant
            i <= config.peers@.len(),
            res@.map_values(|p: Peer| peer_view(p)) == sharing_prefix(config.peers@, folder_id, i as int),
        decreases config.peers@.len() - i,
    {
        let peer = &config.peers[i];
        if crate::config::contains_id(&peer.folders, folder_id) {
            let ghost before = res@;
            res.push(Peer { ip: peer.ip, folders: copy_ids(&peer.folders) });
            assert(res@.map_values(|p: Peer| peer_view(p)) == before.map_values(|p: Peer| peer_view(p)).push(
                peer_view(config.peers@[i as int]),
            ));
        }
        i = i + 1;
    }
    res
}

} // verus!
