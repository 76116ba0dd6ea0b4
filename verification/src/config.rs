use vstd::prelude::*;
use vstd::std_specs::convert::IntoSpec;

use std::path::PathBuf;

use crate::types::{path_bytes, IpAddr, Peer, WatchedFolder};

verus! {

/// The folders kept in sync and the peers they are shared with.
#[derive(Debug, PartialEq, Clone)]
pub struct Config {
    pub paths: Vec<WatchedFolder>,
    pub peers: Vec<Peer>,
}

/// The folders shared with the first peer at or after index `i` whose
/// address is `ip`, or `None` when there is no such peer.
pub open spec fn shared_from(peers: Seq<Peer>, ip: IpAddr, i: int) -> Option<Seq<u32>>
    decreases peers.len() - i,
{
    if i < 0 || i >= peers.len() {
        None
    } else if peers[i].ip == ip {
        Some(peers[i].folders@)
    } else {
        shared_from(peers, ip, i + 1)
    }
}

/// The folders shared with the first peer whose address is `ip`.
pub open spec fn shared_with(peers: Seq<Peer>, ip: IpAddr) -> Option<Seq<u32>> {
    shared_from(peers, ip, 0)
}

/// The path bytes of the first folder at or after index `i` whose
/// identifier is `id`.
pub open spec fn path_from(paths: Seq<WatchedFolder>, id: u32, i: int) -> Option<Seq<u8>>
    decreases paths.len() - i,
{
    if i < 0 || i >= paths.len() {
        None
    } else if paths[i]@.0 == id {
        Some(paths[i]@.1)
    } else {
        path_from(paths, id, i + 1)
    }
}

/// The path bytes of the first folder whose identifier is `id`.
pub open spec fn path_of(paths: Seq<WatchedFolder>, id: u32) -> Option<Seq<u8>> {
    path_from(paths, id, 0)
}

impl Config {
    pub fn paths(&self) -> (p: &Vec<WatchedFolder>)
        ensures
            p@ == self.paths@,
    {
        &self.paths
    }

    /// The identifiers of the folders shared with the peer at `ip`, or
    /// `None` when `ip` is no known peer.
    pub fn shared_folders<T: Into<IpAddr>>(&self, ip: T) -> (r: Option<Vec<u32>>)
        ensures
            T::obeys_into_spec() ==> match shared_with(self.peers@, ip.into_spec()) {
                Some(ids) => r matches Some(v) && v@ == ids,
                None => r is None,
            },
    {
        self.folders_shared_with(ip.into())
    }

    pub(crate) fn folders_shared_with(&self, ip: IpAddr) -> (r: Option<Vec<u32>>)
        ensures
            match shared_with(self.peers@, ip) {
                Some(ids) => r matches Some(v) && v@ == ids,
                None => r is None,
            },
    {
        let mut i: usize = 0;
        while i < self.peers.len()
            invariant
                i <= self.peers@.len(),
                shared_with(self.peers@, ip) == shared_from(self.peers@, ip, i as int),
            decreases self.peers@.len() - i,
        {
            if self.peers[i].ip == ip {
                return Some(self.peers[i].folders());
            }
            i = i + 1;
        }
        None
    }

    /// The addresses of all peers, in order.
    pub fn peer_ips(&self) -> (ips: Vec<IpAddr>)
        ensures
            ips@ == self.peers@.map_values(|p: Peer| p.ip),
    {
        let mut res: Vec<IpAddr> = Vec::new();
        let mut i: usize = 0;
        while i < self.peers.len()
            invariant
                i <= self.peers@.len(),
                res@ == self.peers@.subrange(0, i as int).map_values(|p: Peer| p.ip),
            decreases self.peers@.len() - i,
        {
            res.push(self.peers[i].ip);
            i = i + 1;
            assert(self.peers@.subrange(0, i as int).map_values(|p: Peer| p.ip) =~= self.peers@.subrange(
                0,
                (i - 1) as int,
            ).map_values(|p: Peer| p.ip).push(self.peers@[i - 1].ip));
        }
        assert(self.peers@.subrange(0, self.peers@.len() as int) == self.peers@);
        res
    }

    /// The path of the folder `folder_id`, or `None` when no such folder is
    /// watched.
    pub fn get_path(&self, folder_id: u32) -> (r: Option<PathBuf>)
        ensures
            match path_of(self.paths@, folder_id) {
                Some(bytes) => r matches Some(p) && path_bytes(p) == bytes,
                None => r is None,
            },
    {
        let mut i: usize = 0;
        while i < self.paths.len()
            invariant
                i <= self.paths@.len(),
                path_of(self.paths@, folder_id) == path_from(self.paths@, folder_id, i as int),
            decreases self.paths@.len() - i,
        {
            if self.paths[i].id() == folder_id {
                return Some(self.paths[i].path().clone());
            }
            i = i + 1;
        }
        None
    }

    /// Whether the peer at `ip` shares folder `folder_id`.
    pub fn is_shared_with(&self, ip: IpAddr, folder_id: u32) -> (b: bool)
        ensures
            b == (shared_with(self.peers@, ip) matches Some(ids) && ids.contains(folder_id)),
    {
        match self.folders_shared_with(ip) {
            Some(ids) => contains_id(&ids, folder_id),
            None => false,
        }
    }
}

/// Whether `ids` holds `id`.
pub(crate) fn contains_id(ids: &Vec<u32>, id: u32) -> (b: bool)
    ensures
        b == ids@.contains(id),
{
    let mut i: usize = 0;
    while i < ids.len()
        invariant
            i <= ids@.len(),
            forall|k: int| 0 <= k < i ==> ids@[k] != id,
        decreases ids@.len() - i,
    {
        if ids[i] == id {
            return true;
        }
        i = i + 1;
    }
    false
}


} // verus!

verus! {

// ---------------------------------------------------------------------------
// Editing the watched folders
// ---------------------------------------------------------------------------

/// The identifiers and path bytes of `paths`.
pub open spec fn folder_views(paths: Seq<WatchedFolder>) -> Seq<(u32, Seq<u8>)> {
    paths.map_values(|f: WatchedFolder| f@)
}

/// `folders` without those whose identifier is `id`.
pub open spec fn without_folder(folders: Seq<(u32, Seq<u8>)>, id: u32) -> Seq<(u32, Seq<u8>)>
    decreases folders.len(),
{
    if folders.len() == 0 {
        folders
    } else {
        let rest = without_folder(folders.drop_last(), id);
        if folders.last().0 == id {
            rest
        } else {
            rest.push(folders.last())
        }
    }
}

/// The index of the first folder at or after `i` whose identifier is `id`.
pub open spec fn folder_index_from(folders: Seq<(u32, Seq<u8>)>, id: u32, i: int) -> Option<int>
    decreases folders.len() - i,
{
    if i < 0 || i >= folders.len() {
        None
    } else if folders[i].0 == id {
        Some(i)
    } else {
        folder_index_from(folders, id, i + 1)
    }
}

proof fn lemma_without_absent(folders: Seq<(u32, Seq<u8>)>, id: u32)
    requires
        forall|i: int| 0 <= i < folders.len() ==> #[trigger] folders[i].0 != id,
    ensures
        without_folder(folders, id) == folders,
    decreases folders.len(),
{
    if folders.len() > 0 {
        lemma_without_absent(folders.drop_last(), id);
        assert(folders.drop_last().push(folders.last()) == folders);
    }
}

/// Deleting undoes adding: adding a folder whose identifier no watched
/// folder has, then deleting that identifier, gives back the folders.
pub proof fn lemma_delete_undoes_add(folders: Seq<(u32, Seq<u8>)>, folder: (u32, Seq<u8>))
    requires
        forall|i: int| 0 <= i < folders.len() ==> #[trigger] folders[i].0 != folder.0,
    ensures
        without_folder(folders.push(folder), folder.0) == folders,
{
    assert(folders.push(folder).drop_last() == folders);
    lemma_without_absent(folders, folder.0);
}

/// The path bytes of the first of `folders` with identifier `id`.
pub open spec fn view_path(folders: Seq<(u32, Seq<u8>)>, id: u32) -> Option<Seq<u8>> {
    match folder_index_from(folders, id, 0) {
        Some(i) => Some(folders[i].1),
        None => None,
    }
}

/// The index found from `i` is the first at or after `i` holding `id`.
proof fn lemma_first_index(folders: Seq<(u32, Seq<u8>)>, id: u32, i: int)
    requires
        0 <= i,
    ensures
        match folder_index_from(folders, id, i) {
            Some(j) => {
                &&& i <= j < folders.len()
                &&& folders[j].0 == id
                &&& forall|k: int| i <= k < j ==> #[trigger] folders[k].0 != id
            },
            None => forall|k: int| i <= k < folders.len() ==> #[trigger] folders[k].0 != id,
        },
    decreases folders.len() - i,
{
    if i < folders.len() {
        lemma_first_index(folders, id, i + 1);
    }
}

proof fn lemma_path_from_views(paths: Seq<WatchedFolder>, id: u32, i: int)
    requires
        0 <= i <= paths.len(),
    ensures
        path_from(paths, id, i) == match folder_index_from(folder_views(paths), id, i) {
            Some(j) => Some(folder_views(paths)[j].1),
            None => None,
        },
    decreases paths.len() - i,
{
    if i < paths.len() {
        lemma_path_from_views(paths, id, i + 1);
    }
}

proof fn lemma_path_of_views(paths: Seq<WatchedFolder>, id: u32)
    ensures
        path_of(paths, id) == view_path(folder_views(paths), id),
{
    lemma_path_from_views(paths, id, 0);
}

/// Appending a folder hides nothing: the first folder with an identifier
/// stays first, and the appended one is found only for a new identifier.
proof fn lemma_view_path_push(folders: Seq<(u32, Seq<u8>)>, folder: (u32, Seq<u8>), id: u32)
    ensures
        view_path(folders.push(folder), id) == match view_path(folders, id) {
            Some(p) => Some(p),
            None => if folder.0 == id {
                Some(folder.1)
            } else {
                None
            },
        },
{
    let pushed = folders.push(folder);
    lemma_first_index(folders, id, 0);
    lemma_first_index(pushed, id, 0);
    match folder_index_from(folders, id, 0) {
        Some(j) => {
            assert(pushed[j] == folders[j]);
            let jp = folder_index_from(pushed, id, 0)->0;
            if jp < j {
                assert(pushed[jp] == folders[jp]);
            }
        },
        None => {
            if let Some(jp) = folder_index_from(pushed, id, 0) {
                if jp < folders.len() {
                    assert(pushed[jp] == folders[jp]);
                }
            } else {
                assert(pushed[folders.len() as int] == folder);
            }
        },
    }
}

/// Reading after adding: once `folder` is added, the path found for its
/// identifier is its own unless an earlier folder has that identifier, and
/// the path found for any other identifier is unchanged.
pub proof fn lemma_path_after_add(
    before: Seq<WatchedFolder>,
    after: Seq<WatchedFolder>,
    folder: WatchedFolder,
    id: u32,
)
    requires
        folder_views(after) == folder_views(before).push(folder@),
    ensures
        path_of(after, id) == match path_of(before, id) {
            Some(p) => Some(p),
            None => if folder@.0 == id {
                Some(folder@.1)
            } else {
                None
            },
        },
{
    lemma_path_of_views(before, id);
    lemma_path_of_views(after, id);
    lemma_view_path_push(folder_views(before), folder@, id);
}

/// Reading after updating: once the folder with the identifier of `folder`
/// has been given its path, that path is found for the identifier, and the
/// path found for any other identifier is unchanged.
pub proof fn lemma_path_after_update(
    before: Seq<WatchedFolder>,
    after: Seq<WatchedFolder>,
    folder: WatchedFolder,
    i: int,
    id: u32,
)
    requires
        folder_index_from(folder_views(before), folder@.0, 0) == Some(i),
        folder_views(after) == folder_views(before).update(i, folder@),
    ensures
        path_of(after, id) == if id == folder@.0 {
            Some(folder@.1)
        } else {
            path_of(before, id)
        },
{
    let old_views = folder_views(before);
    let new_views = folder_views(after);
    lemma_path_of_views(before, id);
    lemma_path_of_views(after, id);
    lemma_first_index(old_views, folder@.0, 0);
    lemma_first_index(old_views, id, 0);
    lemma_first_index(new_views, id, 0);
    assert(new_views[i] == folder@);
    match folder_index_from(new_views, id, 0) {
        Some(jn) => {
            if jn != i {
                assert(new_views[jn] == old_views[jn]);
            }
            if let Some(jo) = folder_index_from(old_views, id, 0) {
                if jo != i {
                    assert(new_views[jo] == old_views[jo]);
                }
            }
        },
        None => {
            if let Some(jo) = folder_index_from(old_views, id, 0) {
                if jo != i {
                    assert(new_views[jo] == old_views[jo]);
                }
            }
        },
    }
}

proof fn lemma_view_path_without(folders: Seq<(u32, Seq<u8>)>, id: u32, other: u32)
    ensures
        view_path(without_folder(folders, id), id) is None,
        other != id ==> view_path(without_folder(folders, id), other) == view_path(folders, other),
    decreases folders.len(),
{
    if folders.len() == 0 {
        lemma_first_index(folders, id, 0);
        lemma_first_index(folders, other, 0);
    } else {
        let rest = folders.drop_last();
        let last = folders.last();
        lemma_view_path_without(rest, id, other);
        assert(rest.push(last) == folders);
        lemma_view_path_push(rest, last, other);
        if last.0 != id {
            lemma_view_path_push(without_folder(rest, id), last, id);
            lemma_view_path_push(without_folder(rest, id), last, other);
        }
    }
}

/// Reading after deleting: once the folders with identifier `id` are
/// deleted, no path is found for `id`, and the path found for any other
/// identifier is unchanged.
pub proof fn lemma_path_after_delete(
    before: Seq<WatchedFolder>,
    after: Seq<WatchedFolder>,
    id: u32,
    other: u32,
)
    requires
        folder_views(after) == without_folder(folder_views(before), id),
    ensures
        path_of(after, id) is None,
        other != id ==> path_of(after, other) == path_of(before, other),
{
    lemma_path_of_views(before, other);
    lemma_path_of_views(after, other);
    lemma_path_of_views(after, id);
    lemma_view_path_without(folder_views(before), id, other);
}

/// A copy of `folder`.
pub(crate) fn copy_folder(folder: &WatchedFolder) -> (f: WatchedFolder)
    ensures
        f@ == folder@,
{
    WatchedFolder::new_full_path(folder.id(), folder.path().clone())
}

impl Config {
    /// Watches `folder` too, after the folders watched already.
    pub fn add_folder(&mut self, folder: WatchedFolder)
        ensures
            folder_views(final(self).paths@) == folder_views(old(self).paths@).push(folder@),
            final(self).peers == old(self).peers,
    {
        let ghost before = self.paths@;
        self.paths.push(folder);
        assert(folder_views(self.paths@) == folder_views(before).push(folder@));
    }

    /// Stops watching the folders with identifier `id`.
    pub fn delete_folder(&mut self, id: u32)
        ensures
            folder_views(final(self).paths@) == without_folder(folder_views(old(self).paths@), id),
            final(self).peers == old(self).peers,
    {
        let mut kept: Vec<WatchedFolder> = Vec::new();
        let mut i: usize = 0;
        while i < self.paths.len()
            invariant
                i <= self.paths@.len(),
                folder_views(kept@) == without_folder(
                    folder_views(self.paths@).take(i as int),
                    id,
                ),
            decreases self.paths@.len() - i,
        {
            let ghost before = kept@;
            let ghost views = folder_views(self.paths@);
            if self.paths[i].id() != id {
                kept.push(copy_folder(&self.paths[i]));
                assert(folder_views(kept@) == folder_views(before).push(self.paths@[i as int]@));
            }
            assert(views.take(i + 1).drop_last() == views.take(i as int));
            assert(views.take(i + 1).last() == self.paths@[i as int]@);
            i = i + 1;
        }
        assert(folder_views(self.paths@).take(self.paths@.len() as int) == folder_views(
            self.paths@,
        ));
        self.paths = kept;
    }

    /// Gives the first folder with the identifier of `folder` the path of
    /// `folder`, returning the folder replaced; `None`, and nothing
    /// changed, when no folder has that identifier.
    pub fn update_folder(&mut self, folder: WatchedFolder) -> (old_folder: Option<WatchedFolder>)
        ensures
            final(self).peers == old(self).peers,
            match folder_index_from(folder_views(old(self).paths@), folder@.0, 0) {
                Some(i) => {
                    &&& old_folder matches Some(f) && f@ == old(self).paths@[i]@
                    &&& folder_views(final(self).paths@) == folder_views(old(self).paths@).update(
                        i,
                        folder@,
                    )
                },
                None => old_folder is None && final(self).paths@ == old(self).paths@,
            },
    {
        let id = folder.id();
        let mut i: usize = 0;
        while i < self.paths.len()
            invariant
                i <= self.paths@.len(),
                folder_index_from(folder_views(self.paths@), id, 0) == folder_index_from(
                    folder_views(self.paths@),
                    id,
                    i as int,
                ),
                id == folder@.0,
                self.paths@ == old(self).paths@,
                self.peers == old(self).peers,
            decreases self.paths@.len() - i,
        {
            if self.paths[i].id() == id {
                let ghost before = self.paths@;
                let mut replaced = folder;
                self.paths.set_and_swap(i, &mut replaced);
                assert(folder_views(self.paths@) == folder_views(before).update(i as int, folder@));
                return Some(replaced);
            }
            i = i + 1;
        }
        None
    }
}

} // verus!
