//! Decisions taken while two peers exchange their database state and files.
use vstd::prelude::*;

use std::path::PathBuf;

use crate::config::{path_of, shared_with, Config};
use crate::frame::{bytes_content, bytes_from_vec, Frame, FrameView};
use crate::types::{
    joined_path, lossy_text, path_bytes, path_to_string_lossy, stripped_path, File, IpAddr,
};

verus! {

// ---------------------------------------------------------------------------
// Receiving database state
// ---------------------------------------------------------------------------

/// Where a peer receiving database state stands.
#[derive(Debug, Clone, Copy, PartialEq, Eq, Structural)]
pub enum ReceiveState {
    /// Waiting for the next folder announcement.
    Folders,
    /// Receiving the file states of an accepted folder.
    Files { folder_id: u32 },
    /// The sender has announced all its folders.
    Finished,
}

/// What to do after a frame was received.
#[derive(Debug)]
pub enum ReceiveAction {
    /// Send this frame back.
    Reply(Frame),
    /// Record the global state of a file of the folder, then answer `Yes`.
    Store {
        folder_id: u32,
        path: String,
        global_hash: bytes::Bytes,
        global_last_modified: i64,
        global_peer: String,
    },
    /// Nothing to do; an unexpected frame is only reported.
    Skip,
    /// The exchange is over.
    Stop,
}

/// `ids` holds `folder_id`.
pub open spec fn shares(shared: Option<Seq<u32>>, folder_id: u32) -> bool {
    shared matches Some(ids) && ids.contains(folder_id)
}

/// The state after receiving `f` in `state`, when the folders shared with
/// the sender are `shared`.
pub open spec fn receive_next(shared: Option<Seq<u32>>, state: ReceiveState, f: FrameView) -> ReceiveState {
    match state {
        ReceiveState::Folders => match f {
            FrameView::DbSync { folder_id } => if shares(shared, folder_id) {
                ReceiveState::Files { folder_id }
            } else {
                ReceiveState::Folders
            },
            FrameView::Done => ReceiveState::Finished,
            _ => ReceiveState::Folders,
        },
        ReceiveState::Files { folder_id } => match f {
            FrameView::Done => ReceiveState::Folders,
            _ => ReceiveState::Files { folder_id },
        },
        ReceiveState::Finished => ReceiveState::Finished,
    }
}

/// Receiving `f` in `state` records a file state.
pub open spec fn receive_stores(state: ReceiveState, f: FrameView) -> bool {
    state is Files && f is InitiatorGlobal
}

/// Decides how to answer `frame`, received in `state` from the peer at
/// `peer`.
///
/// A folder is accepted only when it is shared with `peer`; file states
/// are recorded for the folder being received.
pub fn receive_step(config: &Config, peer: IpAddr, state: ReceiveState, frame: Frame) -> (r: (
    ReceiveState,
    ReceiveAction,
))
    ensures
        r.0 == receive_next(shared_with(config.peers@, peer), state, frame@),
        match state {
            ReceiveState::Folders => match frame@ {
                FrameView::DbSync { folder_id } => if shares(shared_with(config.peers@, peer), folder_id) {
                    r.1 matches ReceiveAction::Reply(Frame::Yes)
                } else {
                    r.1 matches ReceiveAction::Reply(Frame::No)
                },
                FrameView::Done => r.1 is Stop,
                _ => r.1 is Skip,
            },
            ReceiveState::Files { folder_id } => match frame@ {
                FrameView::InitiatorGlobal { global_hash, global_last_modified, global_peer, path } => {
                    &&& r.1 matches ReceiveAction::Store { folder_id: id, path: p, global_hash: h, global_last_modified: t, global_peer: g }
                    &&& id == folder_id
                    &&& p@ == path
                    &&& bytes_content(h) == global_hash
                    &&& t == global_last_modified
                    &&& g@ == global_peer
                },
                _ => r.1 is Skip,
            },
            ReceiveState::Finished => r.1 is Stop,
        },
{
    match state {
        ReceiveState::Folders => match frame {
            Frame::DbSync { folder_id } => {
                if config.is_shared_with(peer, folder_id) {
                    (ReceiveState::Files { folder_id }, ReceiveAction::Reply(Frame::Yes))
                } else {
                    (ReceiveState::Folders, ReceiveAction::Reply(Frame::No))
                }
            },
            Frame::Done => (ReceiveState::Finished, ReceiveAction::Stop),
            _ => (ReceiveState::Folders, ReceiveAction::Skip),
        },
        ReceiveState::Files { folder_id } => match frame {
            Frame::InitiatorGlobal { global_hash, global_last_modified, global_peer, path } => (
                ReceiveState::Files { folder_id },
                ReceiveAction::Store {
                    folder_id,
                    path,
                    global_hash,
                    global_last_modified,
                    global_peer,
                },
            ),
            Frame::Done => (ReceiveState::Folders, ReceiveAction::Skip),
            _ => (ReceiveState::Files { folder_id }, ReceiveAction::Skip),
        },
        ReceiveState::Finished => (ReceiveState::Finished, ReceiveAction::Stop),
    }
}

/// The state after receiving all of `frames` from `state`.
pub open spec fn receive_run(shared: Option<Seq<u32>>, state: ReceiveState, frames: Seq<FrameView>) -> ReceiveState
    decreases frames.len(),
{
    if frames.len() == 0 {
        state
    } else {
        receive_next(shared, receive_run(shared, state, frames.drop_last()), frames.last())
    }
}

/// Only shared folders are received: starting from the folder
/// announcements, whatever frames arrive, the folder whose file states are
/// being recorded is one shared with the sender.
pub proof fn lemma_receive_only_shared(shared: Option<Seq<u32>>, frames: Seq<FrameView>, f: FrameView)
    ensures
        receive_run(shared, ReceiveState::Folders, frames) matches ReceiveState::Files { folder_id }
            ==> shares(shared, folder_id),
        receive_stores(receive_run(shared, ReceiveState::Folders, frames), f) ==> (receive_run(
            shared,
            ReceiveState::Folders,
            frames,
        ) matches ReceiveState::Files { folder_id } && shares(shared, folder_id)),
    decreases frames.len(),
{
    if frames.len() > 0 {
        lemma_receive_only_shared(shared, frames.drop_last(), f);
    }
}

/// An announced folder is accepted exactly when the sender shares it, and
/// then the file states that follow are recorded for the announced folder
/// itself; a folder not shared is refused and nothing is recorded.
pub proof fn lemma_accepts_the_announced_folder(shared: Option<Seq<u32>>, folder_id: u32)
    ensures
        (shared matches Some(ids) && ids.contains(folder_id)) ==> receive_next(
            shared,
            ReceiveState::Folders,
            FrameView::DbSync { folder_id },
        ) == (ReceiveState::Files { folder_id }),
        !(shared matches Some(ids) && ids.contains(folder_id)) ==> receive_next(
            shared,
            ReceiveState::Folders,
            FrameView::DbSync { folder_id },
        ) == ReceiveState::Folders,
{
}

/// The folder whose file states are being recorded was announced: from the
/// folder announcements, whatever frames arrive, when file states are being
/// recorded for folder `f`, one of the frames announced `f` and the sender
/// shares `f`.
pub proof fn lemma_recorded_folder_was_announced(shared: Option<Seq<u32>>, frames: Seq<FrameView>)
    ensures
        receive_run(shared, ReceiveState::Folders, frames) matches ReceiveState::Files { folder_id: f }
            ==> (exists|k: int|
            0 <= k < frames.len() && #[trigger] frames[k] == (FrameView::DbSync { folder_id: f }))
            && (shared matches Some(ids) && ids.contains(f)),
    decreases frames.len(),
{
    if frames.len() > 0 {
        let rest = frames.drop_last();
        lemma_recorded_folder_was_announced(shared, rest);
        let before = receive_run(shared, ReceiveState::Folders, rest);
        assert(receive_run(shared, ReceiveState::Folders, frames) == receive_next(
            shared,
            before,
            frames.last(),
        ));
        if let ReceiveState::Files { folder_id: f } = receive_run(
            shared,
            ReceiveState::Folders,
            frames,
        ) {
            if let ReceiveState::Files { folder_id: g } = before {
                assert(g == f);
                let k = choose|k: int|
                    0 <= k < rest.len() && #[trigger] rest[k] == (FrameView::DbSync { folder_id: g });
                assert(frames[k] == rest[k]);
            } else {
                assert(frames[frames.len() - 1] == frames.last());
            }
        }
    }
}

} // verus!

verus! {

// ---------------------------------------------------------------------------
// Sending database state
// ---------------------------------------------------------------------------

/// Where a peer sending the database state of one folder stands.
#[derive(Debug, Clone, Copy, PartialEq, Eq, Structural)]
pub enum SendState {
    /// The folder was announced; its acceptance is awaited.
    Announced { folder_id: u32 },
    /// The peer accepted the folder: its file states are being sent, each
    /// after the previous one was answered.
    Sending { folder_id: u32 },
    /// Nothing more is sent for the folder.
    Finished,
}

/// What to do after an answer of the peer.
#[derive(Debug, Clone, Copy, PartialEq, Eq, Structural)]
pub enum SendAction {
    /// Start sending the file states of the accepted folder.
    SendFiles { folder_id: u32 },
    /// Send the next file state.
    NextFile,
    /// The peer does not want the folder.
    Declined,
    /// An unexpected frame arrived; it is only reported.
    Unexpected,
}

/// The state after the answer `reply` in `state`.
pub open spec fn send_next(state: SendState, reply: FrameView) -> SendState {
    match state {
        SendState::Announced { folder_id } => if reply is Yes {
            SendState::Sending { folder_id }
        } else {
            SendState::Finished
        },
        SendState::Sending { folder_id } => SendState::Sending { folder_id },
        SendState::Finished => SendState::Finished,
    }
}

/// The action after the answer `reply` in `state`: an accepted folder has
/// its file states sent, a refused one nothing; while sending, every
/// answer leads to the next file state, an unexpected one being reported.
pub open spec fn send_action(state: SendState, reply: FrameView) -> SendAction {
    match state {
        SendState::Announced { folder_id } => match reply {
            FrameView::Yes => SendAction::SendFiles { folder_id },
            FrameView::No => SendAction::Declined,
            _ => SendAction::Unexpected,
        },
        SendState::Sending { .. } => if reply is Yes {
            SendAction::NextFile
        } else {
            SendAction::Unexpected
        },
        SendState::Finished => SendAction::Unexpected,
    }
}

/// Announces folder `folder_id`: the frame to send and the state in which
/// its acceptance is awaited.
pub fn announce_folder(folder_id: u32) -> (r: (SendState, Frame))
    ensures
        r.0 == (SendState::Announced { folder_id }),
        r.1@ == (FrameView::DbSync { folder_id }),
{
    (SendState::Announced { folder_id }, Frame::DbSync { folder_id })
}

/// Decides what to do after the answer `reply`, received in `state`.
pub fn send_step(state: SendState, reply: Frame) -> (r: (SendState, SendAction))
    ensures
        r.0 == send_next(state, reply@),
        r.1 == send_action(state, reply@),
{
    match state {
        SendState::Announced { folder_id } => match reply {
            Frame::Yes => (SendState::Sending { folder_id }, SendAction::SendFiles { folder_id }),
            Frame::No => (SendState::Finished, SendAction::Declined),
            _ => (SendState::Finished, SendAction::Unexpected),
        },
        SendState::Sending { folder_id } => match reply {
            Frame::Yes => (SendState::Sending { folder_id }, SendAction::NextFile),
            _ => (SendState::Sending { folder_id }, SendAction::Unexpected),
        },
        SendState::Finished => (SendState::Finished, SendAction::Unexpected),
    }
}

/// The state after the answers `replies`, from `state`.
pub open spec fn send_run(state: SendState, replies: Seq<FrameView>) -> SendState
    decreases replies.len(),
{
    if replies.len() == 0 {
        state
    } else {
        send_next(send_run(state, replies.drop_last()), replies.last())
    }
}

/// File states are sent only after acceptance: from the announcement of
/// folder `folder_id`, whatever answers arrive, file states are being sent
/// only for that folder and only when the first answer was `Yes`; and the
/// files start exactly on that answer.
pub proof fn lemma_files_only_after_yes(folder_id: u32, replies: Seq<FrameView>)
    ensures
        send_run(SendState::Announced { folder_id }, replies) matches SendState::Sending { folder_id: f }
            ==> f == folder_id && replies.len() > 0 && replies[0] is Yes,
        send_run(SendState::Announced { folder_id }, replies) is Announced ==> replies.len() == 0,
        replies.len() > 0 ==> (send_action(
            send_run(SendState::Announced { folder_id }, replies.drop_last()),
            replies.last(),
        ) is SendFiles <==> replies.len() == 1 && replies[0] is Yes),
    decreases replies.len(),
{
    if replies.len() > 0 {
        let rest = replies.drop_last();
        lemma_files_only_after_yes(folder_id, rest);
        let before = send_run(SendState::Announced { folder_id }, rest);
        assert(send_run(SendState::Announced { folder_id }, replies) == send_next(
            before,
            replies.last(),
        ));
        if rest.len() > 0 {
            assert(rest[0] == replies[0]);
        } else {
            assert(replies.last() == replies[0]);
        }
    }
}

// ---------------------------------------------------------------------------
// The course of a connection
// ---------------------------------------------------------------------------

/// One part of the exchange over a connection.
#[derive(Debug, Clone, Copy, PartialEq, Eq, Structural)]
pub enum ConnAction {
    /// Send the database state of a folder, then mark its end.
    SendFolder { folder_id: u32 },
    /// Mark the end of the folders sent.
    EndOfFolders,
    /// Receive the folders the peer sends.
    ReceiveFolders,
    /// Start fetching the files whose newest state lies elsewhere.
    NotifySync,
}

/// The course of a connection with a peer that shares the folders
/// `shared` (`None` when no folder is shared and the connection is
/// dropped): the side that connected sends all its folders first and then
/// receives; the other side receives first and then sends.
pub open spec fn connection_plan_view(shared: Option<Seq<u32>>, initiator: bool) -> Option<Seq<ConnAction>> {
    match shared {
        None => None,
        Some(ids) => {
            let sends = ids.map_values(|id: u32| ConnAction::SendFolder { folder_id: id }).push(
                ConnAction::EndOfFolders,
            );
            if initiator {
                Some(sends + seq![ConnAction::ReceiveFolders, ConnAction::NotifySync])
            } else {
                Some(seq![ConnAction::ReceiveFolders] + sends.push(ConnAction::NotifySync))
            }
        },
    }
}

/// The course of a connection with the peer at `peer`, on the side that
/// connected when `initiator`; `None` when no folder is shared with it.
pub fn connection_plan(config: &Config, peer: IpAddr, initiator: bool) -> (r: Option<Vec<ConnAction>>)
    ensures
        match connection_plan_view(shared_with(config.peers@, peer), initiator) {
            Some(plan) => r matches Some(v) && v@ == plan,
            None => r is None,
        },
{
    let ids = match config.folders_shared_with(peer) {
        Some(ids) => ids,
        None => return None,
    };
    let mut plan: Vec<ConnAction> = Vec::new();
    if !initiator {
        plan.push(ConnAction::ReceiveFolders);
    }
    let ghost start = plan@;
    let mut i: usize = 0;
    while i < ids.len()
        invariant
            i <= ids@.len(),
            plan@ == start + ids@.take(i as int).map_values(
                |id: u32| ConnAction::SendFolder { folder_id: id },
            ),
        decreases ids@.len() - i,
    {
        plan.push(ConnAction::SendFolder { folder_id: ids[i] });
        i = i + 1;
        assert(ids@.take(i as int) == ids@.take(i - 1).push(ids@[i - 1]));
        assert(ids@.take(i as int).map_values(|id: u32| ConnAction::SendFolder { folder_id: id })
            == ids@.take(i - 1).map_values(|id: u32| ConnAction::SendFolder { folder_id: id }).push(
            ConnAction::SendFolder { folder_id: ids@[i - 1] },
        ));
    }
    assert(ids@.take(ids@.len() as int) == ids@);
    plan.push(ConnAction::EndOfFolders);
    if initiator {
        plan.push(ConnAction::ReceiveFolders);
    }
    plan.push(ConnAction::NotifySync);
    Some(plan)
}

/// Every shared folder is sent, once and in order: with the folders `ids`
/// shared, the plan sends exactly `ids` one after the other (first thing
/// for the side that connected, after receiving for the other), then marks
/// their end; the side that connected receives after sending; sync follows
/// last. Without a shared folder the connection is dropped.
pub proof fn lemma_plan_sends_every_shared_folder(ids: Seq<u32>, initiator: bool)
    ensures
        connection_plan_view(None, initiator) is None,
        connection_plan_view(Some(ids), initiator) matches Some(plan) && {
            let first: int = if initiator {
                0
            } else {
                1
            };
            &&& plan.len() == ids.len() + 3
            &&& forall|i: int|
                0 <= i < ids.len() ==> plan[first + i] == (ConnAction::SendFolder {
                    folder_id: #[trigger] ids[i],
                })
            &&& forall|j: int|
                0 <= j < plan.len() && #[trigger] plan[j] is SendFolder ==> first <= j < first
                    + ids.len()
            &&& plan[first + ids.len()] == ConnAction::EndOfFolders
            &&& initiator ==> plan[ids.len() as int + 1] == ConnAction::ReceiveFolders
            &&& !initiator ==> plan[0] == ConnAction::ReceiveFolders
            &&& plan[ids.len() as int + 2] == ConnAction::NotifySync
        },
{
    let sends = ids.map_values(|id: u32| ConnAction::SendFolder { folder_id: id }).push(
        ConnAction::EndOfFolders,
    );
    let plan = connection_plan_view(Some(ids), initiator)->0;
    if initiator {
        assert(plan == sends + seq![ConnAction::ReceiveFolders, ConnAction::NotifySync]);
        assert forall|i: int| 0 <= i < ids.len() implies plan[i] == (ConnAction::SendFolder {
            folder_id: #[trigger] ids[i],
        }) by {
            assert(plan[i] == sends[i]);
        }
        assert forall|j: int| 0 <= j < plan.len() && #[trigger] plan[j] is SendFolder implies 0
            <= j < ids.len() by {
            if j >= ids.len() {
                if j == ids.len() {
                    assert(plan[j] == sends[j]);
                }
            }
        }
        assert(plan[ids.len() as int] == sends[ids.len() as int]);
    } else {
        assert(plan == seq![ConnAction::ReceiveFolders] + sends.push(ConnAction::NotifySync));
        assert forall|i: int| 0 <= i < ids.len() implies plan[1 + i] == (ConnAction::SendFolder {
            folder_id: #[trigger] ids[i],
        }) by {
            assert(plan[1 + i] == sends[i]);
        }
        assert forall|j: int| 0 <= j < plan.len() && #[trigger] plan[j] is SendFolder implies 1
            <= j < 1 + ids.len() by {
            if 1 <= j <= ids.len() + 1 {
                assert(plan[j] == sends[j - 1]);
            }
        }
        assert(plan[1 + ids.len() as int] == sends[ids.len() as int]);
    }
}

} // verus!

verus! {

// ---------------------------------------------------------------------------
// Recording a received file state
// ---------------------------------------------------------------------------

/// How a received global file state changes the local database.
#[derive(Debug, Clone, Copy, PartialEq, Eq, Structural)]
pub enum Upsert {
    /// The file is not tracked yet: insert it.
    Insert,
    /// The received state is newer and different: replace the global state.
    Update,
    /// Keep what is recorded.
    Keep,
}

/// The decision for a received state `(hash, modified)` against the
/// recorded `(global_hash, global_last_modified)`, if any.
pub open spec fn upsert_decision(existing: Option<(Seq<u8>, i64)>, hash: Seq<u8>, modified: i64) -> Upsert {
    match existing {
        None => Upsert::Insert,
        Some((h, t)) => if h != hash && t < modified {
            Upsert::Update
        } else {
            Upsert::Keep
        },
    }
}

/// Whether `a` and `b` hold the same bytes.
fn same_bytes(a: &[u8], b: &[u8]) -> (r: bool)
    ensures
        r == (a@ == b@),
{
    if a.len() != b.len() {
        return false;
    }
    let mut i: usize = 0;
    while i < a.len()
        invariant
            a@.len() == b@.len(),
            i <= a@.len(),
            forall|k: int| 0 <= k < i ==> a@[k] == b@[k],
        decreases a@.len() - i,
    {
        if a[i] != b[i] {
            return false;
        }
        i = i + 1;
    }
    assert(a@ == b@);
    true
}

/// Decides how the received state `(global_hash, global_last_modified)`
/// changes the recorded global state `existing` of the same file: a newer,
/// different state replaces it; an untracked file is inserted.
pub fn decide_upsert(existing: &Option<(Vec<u8>, i64)>, global_hash: &[u8], global_last_modified: i64) -> (u: Upsert)
    ensures
        u == upsert_decision(
            match existing {
                Some((h, t)) => Some((h@, *t)),
                None => None,
            },
            global_hash@,
            global_last_modified,
        ),
{
    match existing {
        Some((h, t)) => {
            if !same_bytes(h.as_slice(), global_hash) && *t < global_last_modified {
                Upsert::Update
            } else {
                Upsert::Keep
            }
        },
        None => Upsert::Insert,
    }
}

/// The global state of a file: its hash, when it was modified, and the peer
/// holding it.
pub struct GlobalState {
    pub hash: Seq<u8>,
    pub modified: i64,
    pub peer: Seq<char>,
}

/// What is recorded after receiving `incoming` when `existing` was.
pub open spec fn stored_state(existing: Option<GlobalState>, incoming: GlobalState) -> GlobalState {
    let old = match existing {
        Some(e) => Some((e.hash, e.modified)),
        None => None,
    };
    match upsert_decision(old, incoming.hash, incoming.modified) {
        Upsert::Keep => existing->0,
        _ => incoming,
    }
}

/// The newest file state wins: recording a received state never makes the
/// recorded state older, a newer different state replaces it, and what is
/// recorded is always either the old state or the received one.
pub proof fn lemma_newest_state_wins(existing: GlobalState, incoming: GlobalState)
    ensures
        stored_state(Some(existing), incoming).modified >= existing.modified,
        stored_state(Some(existing), incoming) == existing || stored_state(Some(existing), incoming)
            == incoming,
        incoming.hash != existing.hash && existing.modified < incoming.modified ==> stored_state(
            Some(existing),
            incoming,
        ) == incoming,
        stored_state(None, incoming) == incoming,
{
}

/// Receiving the same state twice changes nothing the second time.
pub proof fn lemma_store_idempotent(existing: Option<GlobalState>, incoming: GlobalState)
    ensures
        stored_state(Some(stored_state(existing, incoming)), incoming) == stored_state(
            existing,
            incoming,
        ),
{
}

/// The peer to record as holder of a received state: the sender itself
/// (`remote`) when it names itself as `0`, the named peer otherwise.
pub fn resolve_peer(global_peer: String, remote: String) -> (p: String)
    ensures
        p@ == if global_peer@ == crate::types::own_peer() {
            remote@
        } else {
            global_peer@
        },
{
    let s = global_peer.as_str();
    if s.unicode_len() == 1 && s.get_char(0) == '0' {
        assert(global_peer@ == crate::types::own_peer());
        remote
    } else {
        assert(global_peer@ != crate::types::own_peer()) by {
            if global_peer@ == crate::types::own_peer() {
                assert(s@[0] == '0');
            }
        }
        global_peer
    }
}

/// The full path of `relative` inside the folder `folder_id`, or `None`
/// when no such folder is watched.
pub fn resolve_path(config: &Config, folder_id: u32, relative: &str) -> (r: Option<PathBuf>)
    ensures
        match path_of(config.paths@, folder_id) {
            Some(base) => r matches Some(p) && path_bytes(p) == joined_path(lossy_text(base), relative@),
            None => r is None,
        },
{
    match config.get_path(folder_id) {
        Some(base) => {
            let base_text = path_to_string_lossy(&base);
            Some(File::get_full_path(base_text.as_str(), relative))
        },
        None => None,
    }
}

} // verus!

verus! {

// ---------------------------------------------------------------------------
// Sending database state
// ---------------------------------------------------------------------------

/// The pattern that selects, in an SQL `LIKE`, every path that starts with
/// the folder `base`.
pub fn like_pattern(base: &PathBuf) -> (s: String)
    ensures
        s@ == lossy_text(path_bytes(*base)).push('%'),
{
    let mut s = path_to_string_lossy(base);
    s.push('%');
    s
}

/// The frame that announces the global state of `file`, with its path
/// relative to the folder `base`; `None` when the file does not lie below
/// `base`.
pub fn announcement(base: &PathBuf, file: File) -> (r: Option<Frame>)
    ensures
        match stripped_path(file.path@, lossy_text(path_bytes(*base))) {
            Some(rel) => r matches Some(f) && f@ == (FrameView::InitiatorGlobal {
                global_hash: file.global_hash@,
                global_last_modified: file.global_last_modified,
                global_peer: file.global_peer@,
                path: lossy_text(rel),
            }),
            None => r is None,
        },
{
    let base_text = path_to_string_lossy(base);
    match File::get_relative_path(base_text.as_str(), file.path.as_str()) {
        Some(relative) => Some(
            Frame::InitiatorGlobal {
                global_hash: bytes_from_vec(file.global_hash),
                global_last_modified: file.global_last_modified,
                global_peer: file.global_peer,
                path: path_to_string_lossy(&relative),
            },
        ),
        None => None,
    }
}

// ---------------------------------------------------------------------------
// Fetching files
// ---------------------------------------------------------------------------

/// The local state of `file` is newer than its global state, which should
/// not happen.
pub fn is_inconsistent(file: &File) -> (b: bool)
    ensures
        b == (file.local_last_modified matches Some(t) && t > file.global_last_modified),
{
    match file.local_last_modified {
        Some(t) => t > file.global_last_modified,
        None => false,
    }
}

/// The request for the content of `file` from the peer holding its global
/// state, and the path to write the content to.
///
/// The file's folder must be watched and its path must lie in the folder.
pub fn file_request(config: &Config, file: &File) -> (r: (Frame, PathBuf))
    requires
        0 <= file.folder_id <= u32::MAX,
        path_of(config.paths@, file.folder_id as u32) is Some,
        stripped_path(file.path@, lossy_text(path_of(config.paths@, file.folder_id as u32)->0))
            is Some,
    ensures
        ({
            let base = lossy_text(path_of(config.paths@, file.folder_id as u32)->0);
            &&& r.0@ == (FrameView::RequestFile {
                folder_id: file.folder_id as u32,
                path: lossy_text(stripped_path(file.path@, base)->0),
            })
            &&& path_bytes(r.1) == joined_path(base, file.path@)
        }),
{
    let folder_id = file.folder_id as u32;
    let base = config.get_path(folder_id).unwrap();
    let base_text = path_to_string_lossy(&base);
    let relative = File::get_relative_path(base_text.as_str(), file.path.as_str()).unwrap();
    let target = File::get_full_path(base_text.as_str(), file.path.as_str());
    (Frame::RequestFile { folder_id, path: path_to_string_lossy(&relative) }, target)
}

/// `file` lies in a watched folder: its folder identifier is one of a
/// watched folder, and its path lies below that folder's path.
pub open spec fn fetchable(config: &Config, file: &File) -> bool {
    &&& 0 <= file.folder_id <= u32::MAX
    &&& path_of(config.paths@, file.folder_id as u32) is Some
    &&& stripped_path(file.path@, lossy_text(path_of(config.paths@, file.folder_id as u32)->0)) is Some
}

/// Every file that [`file_request`] can serve is fetchable: any folder
/// identifier a `u32` holds, of a watched folder, with the file's path below
/// that folder's path.
pub proof fn lemma_requestable_files_are_fetchable(config: &Config, file: &File)
    requires
        0 <= file.folder_id <= u32::MAX,
        path_of(config.paths@, file.folder_id as u32) is Some,
        stripped_path(file.path@, lossy_text(path_of(config.paths@, file.folder_id as u32)->0))
            is Some,
    ensures
        fetchable(config, file),
{
}

/// [`file_request`] where `file` lies in a watched folder, `None` otherwise.
pub fn file_request_checked(config: &Config, file: &File) -> (r: Option<(Frame, PathBuf)>)
    ensures
        r is Some == fetchable(config, file),
        r is Some <==> (0 <= file.folder_id <= u32::MAX && path_of(
            config.paths@,
            file.folder_id as u32,
        ) is Some && stripped_path(
            file.path@,
            lossy_text(path_of(config.paths@, file.folder_id as u32)->0),
        ) is Some),
        r matches Some((frame, target)) ==> ({
            let base = lossy_text(path_of(config.paths@, file.folder_id as u32)->0);
            &&& frame@ == (FrameView::RequestFile {
                folder_id: file.folder_id as u32,
                path: lossy_text(stripped_path(file.path@, base)->0),
            })
            &&& path_bytes(target) == joined_path(base, file.path@)
        }),
{
    if file.folder_id < 0 || file.folder_id > u32::MAX as i64 {
        return None;
    }
    let base = match config.get_path(file.folder_id as u32) {
        Some(base) => base,
        None => return None,
    };
    let base_text = path_to_string_lossy(&base);
    if File::get_relative_path(base_text.as_str(), file.path.as_str()).is_none() {
        return None;
    }
    Some(file_request(config, file))
}

/// The frame that carries `data` as the content of a requested file.
pub fn file_frame(data: Vec<u8>) -> (f: Frame)
    requires
        data@.len() <= i64::MAX,
    ensures
        f@ == (FrameView::File { size: data@.len() as i64, data: data@ }),
        crate::frame::frame_wf(f@),
{
    let size = data.len() as i64;
    Frame::File { size, data: bytes_from_vec(data) }
}

} // verus!
