//! Computations behind the queries on tracked files.
use vstd::prelude::*;

use crate::types::{copy_bytes, own_peer, File};

verus! {

/// Whether a version modified at `modified` is newer than the local version
/// recorded as modified at `local_last_modified`; a file tracked only
/// globally, without a local version, always has a newer version.
pub fn is_newer_than(modified: i64, local_last_modified: Option<i64>) -> (b: bool)
    ensures
        b == match local_last_modified {
            Some(t) => modified > t,
            None => true,
        },
{
    if let Some(local_last_modified) = local_last_modified {
        modified > local_last_modified
    } else {
        true
    }
}

} // verus!

verus! {

/// The record of a tracked file after scanning a version modified at
/// `modified` with content hash `hash`: the local state takes that version
/// when it is newer than the local one recorded (a file without a local
/// version keeps none), and the global state takes it, owned by this device,
/// when it is newer than the global one.
pub fn apply_scan(file: File, modified: i64, hash: Vec<u8>) -> (f: File)
    ensures
        f.folder_id == file.folder_id,
        f.path == file.path,
        if (file.local_last_modified matches Some(t) && modified > t) {
            &&& f.local_hash matches Some(h) && h@ == hash@
            &&& f.local_last_modified == Some(modified)
        } else {
            &&& f.local_hash == file.local_hash
            &&& f.local_last_modified == file.local_last_modified
        },
        if modified > file.global_last_modified {
            &&& f.global_hash@ == hash@
            &&& f.global_last_modified == modified
            &&& f.global_peer@ == own_peer()
        } else {
            &&& f.global_hash == file.global_hash
            &&& f.global_last_modified == file.global_last_modified
            &&& f.global_peer == file.global_peer
        },
{
    let mut f = file;
    let newer_local = match f.local_last_modified {
        Some(t) => modified > t,
        None => false,
    };
    if newer_local {
        f.local_hash = Some(copy_bytes(&hash));
        f.local_last_modified = Some(modified);
    }
    if modified > f.global_last_modified {
        let peer = "0".to_owned();
        proof {
            reveal_strlit("0");
        }
        f.global_hash = hash;
        f.global_last_modified = modified;
        f.global_peer = peer;
    }
    f
}

/// Scanning never makes a recorded version older: the local and the
/// global modification times after a scan are at least those before it.
pub proof fn lemma_scan_keeps_newest(before: File, after: File, modified: i64, hash: Seq<u8>)
    requires
        after.local_last_modified == (if (before.local_last_modified matches Some(t) && modified
            > t) {
            Some(modified)
        } else {
            before.local_last_modified
        }),
        after.global_last_modified == (if modified > before.global_last_modified {
            modified
        } else {
            before.global_last_modified
        }),
    ensures
        after.global_last_modified >= before.global_last_modified,
        after.global_last_modified >= modified,
        before.local_last_modified matches Some(t) ==> (after.local_last_modified matches Some(u)
            && u >= t && u >= modified),
{
}

} // verus!
