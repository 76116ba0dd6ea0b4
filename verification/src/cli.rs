//! State of the terminal interface and its navigation.
use vstd::prelude::*;

use crate::config::{copy_folder, folder_index_from, folder_views, without_folder, Config};
use crate::editor::{
    deleted, entered, text_box_number, toggled, CurrentFocus, CurrentMode, EditFolderFocus,
    EditFolderState,
};
use crate::types::{copy_ids, Peer, WatchedFolder};

verus! {

#[verifier::external_type_specification]
#[verifier::external_body]
pub struct ExClient(reqwest::Client);

/// The screen shown.
pub enum CurrentScreen {
    Main,
    Loading,
    Error(String),
    EditFolder(EditFolderState),
    EditPeer(Peer),
    CreateFolder(EditFolderState),
    CreatePeer,
    DeleteFolder(WatchedFolder),
}

/// The terminal interface: what it shows, what is selected, and the
/// configuration fetched from the service.
pub struct App {
    pub current_screen: CurrentScreen,
    pub current_mode: CurrentMode,
    pub current_focus: CurrentFocus,
    pub config: Option<Config>,
    pub selected_folder: Option<usize>,
    pub selected_peer: Option<usize>,
    pub client: reqwest::Client,
    pub address: String,
}

/// The number of folders in `config`, 0 without one.
pub open spec fn folder_count(config: Option<Config>) -> nat {
    match config {
        Some(c) => c.paths@.len(),
        None => 0,
    }
}

/// The number of peers in `config`, 0 without one.
pub open spec fn peer_count(config: Option<Config>) -> nat {
    match config {
        Some(c) => c.peers@.len(),
        None => 0,
    }
}

/// The selection after moving down a list of `n` entries: the next entry,
/// wrapping around, the first without a selection, none in an empty list.
pub open spec fn selection_down(current: Option<usize>, n: nat) -> Option<usize> {
    if n == 0 {
        None
    } else {
        match current {
            Some(c) => Some(((c + 1) % (n as int)) as usize),
            None => Some(0),
        }
    }
}

/// The selection after moving up a list of `n` entries: the previous
/// entry, wrapping around, the last without a selection, none in an empty
/// list.
pub open spec fn selection_up(current: Option<usize>, n: nat) -> Option<usize> {
    if n == 0 {
        None
    } else {
        match current {
            Some(c) => Some(((c + n - 1) % (n as int)) as usize),
            None => Some((n - 1) as usize),
        }
    }
}

/// A selection can be moved in a list of `n` entries without overflow.
pub open spec fn selection_movable(current: Option<usize>, n: nat) -> bool {
    current matches Some(c) ==> c + n <= usize::MAX
}

/// Moving a selection stays in the list, and moving up undoes moving down
/// (and the reverse) for a selection within a list of `n` entries.
pub proof fn lemma_selection_round_trip(c: usize, n: nat)
    requires
        c < n,
        n <= usize::MAX,
    ensures
        selection_down(Some(c), n) matches Some(d) && d < n,
        selection_up(Some(c), n) matches Some(u) && u < n,
        selection_up(selection_down(Some(c), n), n) == Some(c),
        selection_down(selection_up(Some(c), n), n) == Some(c),
{
    let ni = n as int;
    let d = (c + 1) % ni;
    let u = (c + ni - 1) % ni;
    if c + 1 < ni {
        assert(d == c + 1) by (nonlinear_arith)
            requires
                d == (c + 1) % ni,
                0 <= c + 1 < ni,
        ;
    } else {
        assert(d == 0) by (nonlinear_arith)
            requires
                d == (c + 1) % ni,
                c + 1 == ni,
                ni > 0,
        ;
    }
    if c > 0 {
        assert(u == c - 1) by (nonlinear_arith)
            requires
                u == (c + ni - 1) % ni,
                0 < c < ni,
        ;
    } else {
        assert(u == ni - 1) by (nonlinear_arith)
            requires
                u == (c + ni - 1) % ni,
                c == 0,
                ni > 0,
        ;
    }
    assert(((d + ni - 1) % ni) == c) by (nonlinear_arith)
        requires
            (c + 1 < ni && d == c + 1) || (c + 1 == ni && d == 0),
            0 <= c < ni,
    ;
    assert(((u + 1) % ni) == c) by (nonlinear_arith)
        requires
            (c > 0 && u == c - 1) || (c == 0 && u == ni - 1),
            0 <= c < ni,
    ;
}

/// `new` is `old` with the form for the selected folder open: its
/// identifier in hexadecimal and its path as text; `new` is `old` without a
/// selection or a configuration.
pub open spec fn opened_folder_form(old: App, new: App) -> bool {
    &&& match (old.selected_folder, old.config) {
        (Some(i), Some(c)) => new.current_screen matches CurrentScreen::EditFolder(form)
            && form.id_input.text@ == seq!['0', 'x'] + crate::editor::hex_digits(
            c.paths@[i as int]@.0,
        ) && form.path_input.text@ == crate::types::lossy_text(c.paths@[i as int]@.1),
        _ => new.current_screen == old.current_screen,
    }
    &&& new == (App { current_screen: new.current_screen, ..old })
}

/// `new` is `old` showing the selected peer; `new` is `old` without a
/// selection or a configuration.
pub open spec fn opened_peer(old: App, new: App) -> bool {
    &&& match (old.selected_peer, old.config) {
        (Some(i), Some(c)) => new.current_screen matches CurrentScreen::EditPeer(p) && p.ip
            == c.peers@[i as int].ip && p.folders@ == c.peers@[i as int].folders@,
        _ => new.current_screen == old.current_screen,
    }
    &&& new == (App { current_screen: new.current_screen, ..old })
}

/// `new` is `old` with an empty folder form open, its path input focused.
pub open spec fn opened_create_folder(old: App, new: App) -> bool {
    &&& new.current_screen matches CurrentScreen::CreateFolder(form) && form.path_input.text@.len()
        == 0 && form.path_input.index == 0 && form.id_input.text@.len() == 0
        && form.id_input.index == 0 && form.focus is Folder
    &&& new == (App { current_screen: new.current_screen, ..old })
}

impl App {
    /// An interface talking to the service on local port `port` through
    /// `client`, loading its configuration.
    pub fn new(client: reqwest::Client, port: &str) -> (app: App)
        ensures
            app.current_screen is Loading,
            app.current_mode is Normal,
            app.current_focus is Folder,
            app.config is None,
            app.selected_folder is None,
            app.selected_peer is None,
            app.address@ == "http://127.0.0.1:"@ + port@,
    {
        let mut address = String::from_str("http://127.0.0.1:");
        address.append(port);
        App {
            current_screen: CurrentScreen::Loading,
            current_mode: CurrentMode::Normal,
            current_focus: CurrentFocus::Folder,
            config: None,
            selected_folder: None,
            selected_peer: None,
            client,
            address,
        }
    }

    pub fn insert_mode(&mut self)
        ensures
            *final(self) == (App { current_mode: CurrentMode::Insert, ..*old(self) }),
    {
        self.current_mode = CurrentMode::Insert;
    }

    pub fn normal_mode(&mut self)
        ensures
            *final(self) == (App { current_mode: CurrentMode::Normal, ..*old(self) }),
    {
        self.current_mode = CurrentMode::Normal;
    }

    /// Moves the editing focus to the other list.
    pub fn toggle_focus(&mut self)
        ensures
            old(self).current_focus is Folder ==> final(self).current_focus is Peer,
            old(self).current_focus is Peer ==> final(self).current_focus is Folder,
            *final(self) == (App { current_focus: final(self).current_focus, ..*old(self) }),
    {
        match &self.current_focus {
            CurrentFocus::Folder => self.current_focus = CurrentFocus::Peer,
            CurrentFocus::Peer => self.current_focus = CurrentFocus::Folder,
        }
    }

    /// Opens the form for the selected folder; does nothing without a
    /// selection or a configuration.
    pub fn edit_selected_folder(&mut self)
        requires
            old(self).selected_folder matches Some(i) ==> (old(self).config matches Some(c)
                ==> i < c.paths@.len()),
        ensures
            opened_folder_form(*old(self), *final(self)),
    {
        if let Some(selected_folder) = self.selected_folder {
            let folder: WatchedFolder = {
                if let Some(ref config) = self.config {
                    copy_folder(&config.paths[selected_folder])
                } else {
                    return;
                }
            };
            self.current_screen = CurrentScreen::EditFolder(EditFolderState::from(folder));
        }
    }

    /// Opens the selected peer; does nothing without a selection or a
    /// configuration.
    pub fn edit_selected_peer(&mut self)
        requires
            old(self).selected_peer matches Some(i) ==> (old(self).config matches Some(c)
                ==> i < c.peers@.len()),
        ensures
            opened_peer(*old(self), *final(self)),
    {
        if let Some(selected_peer) = self.selected_peer {
            let peer: Peer = {
                if let Some(ref config) = self.config {
                    let p = &config.peers[selected_peer];
                    Peer { ip: p.ip, folders: copy_ids(&p.folders) }
                } else {
                    return;
                }
            };
            self.current_screen = CurrentScreen::EditPeer(peer);
        }
    }

    /// Selects the next folder down the list, wrapping around.
    pub fn select_folder_down(&mut self)
        requires
            folder_count(old(self).config) > 0 ==> old(self).selected_folder != Some(usize::MAX),
        ensures
            *final(self) == (App {
                selected_folder: selection_down(old(self).selected_folder, folder_count(old(self).config)),
                ..*old(self)
            }),
    {
        let n = self.number_folders();
        if n == 0 {
            self.selected_folder = None;
        } else {
            if let Some(current) = self.selected_folder {
                self.selected_folder = Some((current + 1) % n);
            } else {
                self.selected_folder = Some(0);
            }
        }
    }

    /// Selects the next folder up the list, wrapping around.
    pub fn select_folder_up(&mut self)
        requires
            selection_movable(old(self).selected_folder, folder_count(old(self).config)),
        ensures
            *final(self) == (App {
                selected_folder: selection_up(old(self).selected_folder, folder_count(old(self).config)),
                ..*old(self)
            }),
    {
        let n = self.number_folders();
        if n == 0 {
            self.selected_folder = None;
        } else {
            if let Some(current) = self.selected_folder {
                self.selected_folder = Some(((current + n) - 1) % n);
            } else {
                self.selected_folder = Some(n - 1);
            }
        }
    }

    /// Selects the next peer down the list, wrapping around.
    pub fn select_peer_down(&mut self)
        requires
            peer_count(old(self).config) > 0 ==> old(self).selected_peer != Some(usize::MAX),
        ensures
            *final(self) == (App {
                selected_peer: selection_down(old(self).selected_peer, peer_count(old(self).config)),
                ..*old(self)
            }),
    {
        let n = self.number_peers();
        if n == 0 {
            self.selected_peer = None;
        } else {
            if let Some(current) = self.selected_peer {
                self.selected_peer = Some((current + 1) % n);
            } else {
                self.selected_peer = Some(0);
            }
        }
    }

    /// Selects the next peer up the list, wrapping around.
    pub fn select_peer_up(&mut self)
        requires
            selection_movable(old(self).selected_peer, peer_count(old(self).config)),
        ensures
            *final(self) == (App {
                selected_peer: selection_up(old(self).selected_peer, peer_count(old(self).config)),
                ..*old(self)
            }),
    {
        let n = self.number_peers();
        if n == 0 {
            self.selected_peer = None;
        } else {
            if let Some(current) = self.selected_peer {
                self.selected_peer = Some(((current + n) - 1) % n);
            } else {
                self.selected_peer = Some(n - 1);
            }
        }
    }

    /// Opens an empty folder form.
    pub fn open_create_folder(&mut self)
        ensures
            opened_create_folder(*old(self), *final(self)),
    {
        self.current_screen = CurrentScreen::CreateFolder(EditFolderState::default());
    }

    pub fn open_create_peer(&mut self)
        ensures
            final(self).current_screen is CreatePeer,
            *final(self) == (App { current_screen: final(self).current_screen, ..*old(self) }),
    {
        self.current_screen = CurrentScreen::CreatePeer;
    }

    /// Asks to confirm the deletion of the selected folder; does nothing
    /// without a selection or a configuration.
    pub fn open_delete_folder(&mut self)
        requires
            old(self).selected_folder matches Some(i) ==> (old(self).config matches Some(c)
                ==> i < c.paths@.len()),
        ensures
            match (old(self).selected_folder, old(self).config) {
                (Some(i), Some(c)) => final(self).current_screen matches CurrentScreen::DeleteFolder(
                    f,
                ) && f@ == c.paths@[i as int]@,
                _ => final(self).current_screen == old(self).current_screen,
            },
            *final(self) == (App { current_screen: final(self).current_screen, ..*old(self) }),
    {
        if let Some(selected_folder) = self.selected_folder {
            let folder: WatchedFolder = {
                if let Some(ref config) = self.config {
                    copy_folder(&config.paths[selected_folder])
                } else {
                    return;
                }
            };
            self.current_screen = CurrentScreen::DeleteFolder(folder);
        }
    }

    /// Goes back to the main screen.
    pub fn discard(&mut self)
        ensures
            final(self).current_screen is Main,
            *final(self) == (App { current_screen: final(self).current_screen, ..*old(self) }),
    {
        self.current_screen = CurrentScreen::Main;
    }

    fn number_folders(&mut self) -> (n: usize)
        ensures
            n == folder_count(old(self).config),
            *final(self) == *old(self),
    {
        if let Some(ref config) = self.config {
            config.paths.len()
        } else {
            0
        }
    }

    fn number_peers(&mut self) -> (n: usize)
        ensures
            n == peer_count(old(self).config),
            *final(self) == *old(self),
    {
        if let Some(ref config) = self.config {
            config.peers.len()
        } else {
            0
        }
    }
}

/// Why the configuration could not be fetched from the service.
pub enum FetchError {
    /// The service did not answer; the words of the failure.
    Unreachable(String),
    /// The answer was no configuration; the words of the failure.
    Unparsable(String),
}

/// `prefix` followed by `detail`.
fn message(prefix: &str, detail: &str) -> (m: String)
    ensures
        m@ == prefix@ + detail@,
{
    let mut m = String::from_str(prefix);
    m.append(detail);
    m
}

/// The folder that the form `form` describes, or the words shown when its
/// identifier is no number.
fn form_folder(form: &EditFolderState) -> (r: Result<WatchedFolder, String>)
    ensures
        match text_box_number(form.id_input.text@) {
            Some(id) => r matches Ok(f) && f@ == (id, vstd::utf8::encode_utf8(
                form.path_input.text@,
            )),
            None => r matches Err(m) && m@ == "Failed to create valid folder"@,
        },
{
    match WatchedFolder::try_from(form) {
        Ok(f) => Ok(f),
        Err(_) => Err(String::from_str("Failed to create valid folder")),
    }
}

impl App {
    /// Submitting the "Create Folder" form: the folder to send to the
    /// service, everything else unchanged; `None` and an error screen when
    /// that form is not open or its identifier is no number.
    pub fn folder_to_post(&mut self) -> (r: Option<WatchedFolder>)
        ensures
            match old(self).current_screen {
                CurrentScreen::CreateFolder(form) => match text_box_number(form.id_input.text@) {
                    Some(id) => r matches Some(f) && f@ == (id, vstd::utf8::encode_utf8(
                        form.path_input.text@,
                    )) && *final(self) == *old(self),
                    None => r is None && (final(self).current_screen matches CurrentScreen::Error(m)
                        && m@ == "Failed to create valid folder"@),
                },
                _ => r is None && (final(self).current_screen matches CurrentScreen::Error(m) && m@
                    == "Can only create folder through the \"Create Folder\" prompt"@),
            },
            *final(self) == (App { current_screen: final(self).current_screen, ..*old(self) }),
    {
        let outcome = match &self.current_screen {
            CurrentScreen::CreateFolder(form) => form_folder(form),
            _ => Err(String::from_str("Can only create folder through the \"Create Folder\" prompt")),
        };
        match outcome {
            Ok(f) => Some(f),
            Err(m) => {
                self.current_screen = CurrentScreen::Error(m);
                None
            },
        }
    }

    /// The service answered the creation of `folder`: on success the
    /// folder is watched here too and the main screen shows in normal
    /// mode; otherwise an error screen names the failure.
    pub fn folder_posted(&mut self, folder: WatchedFolder, reply: Result<(), String>)
        ensures
            match reply {
                Ok(_) => {
                    &&& final(self).current_screen is Main
                    &&& final(self).current_mode is Normal
                    &&& match old(self).config {
                        Some(c) => final(self).config matches Some(n) && folder_views(n.paths@)
                            == folder_views(c.paths@).push(folder@) && n.peers == c.peers,
                        None => final(self).config is None,
                    }
                },
                Err(e) => {
                    &&& final(self).current_screen matches CurrentScreen::Error(m) && m@
                        == "Server unreachable: "@ + e@
                    &&& final(self).config == old(self).config
                    &&& final(self).current_mode == old(self).current_mode
                },
            },
            *final(self) == (App {
                current_screen: final(self).current_screen,
                current_mode: final(self).current_mode,
                config: final(self).config,
                ..*old(self)
            }),
    {
        match reply {
            Ok(_) => {
                match self.config.take() {
                    Some(mut c) => {
                        c.add_folder(folder);
                        self.config = Some(c);
                    },
                    None => {},
                }
                self.current_screen = CurrentScreen::Main;
                self.current_mode = CurrentMode::Normal;
            },
            Err(e) => {
                self.current_screen = CurrentScreen::Error(
                    message("Server unreachable: ", e.as_str()),
                );
            },
        }
    }

    /// Submitting the "Edit Folder" form: the folder to send to the
    /// service, everything else unchanged; `None` and an error screen when
    /// that form is not open or its identifier is no number.
    pub fn folder_to_put(&mut self) -> (r: Option<WatchedFolder>)
        ensures
            match old(self).current_screen {
                CurrentScreen::EditFolder(form) => match text_box_number(form.id_input.text@) {
                    Some(id) => r matches Some(f) && f@ == (id, vstd::utf8::encode_utf8(
                        form.path_input.text@,
                    )) && *final(self) == *old(self),
                    None => r is None && (final(self).current_screen matches CurrentScreen::Error(m)
                        && m@ == "Failed to create valid folder"@),
                },
                _ => r is None && (final(self).current_screen matches CurrentScreen::Error(m) && m@
                    == "Can only update folder through the \"Edit Folder\" prompt"@),
            },
            *final(self) == (App { current_screen: final(self).current_screen, ..*old(self) }),
    {
        let outcome = match &self.current_screen {
            CurrentScreen::EditFolder(form) => form_folder(form),
            _ => Err(String::from_str("Can only update folder through the \"Edit Folder\" prompt")),
        };
        match outcome {
            Ok(f) => Some(f),
            Err(m) => {
                self.current_screen = CurrentScreen::Error(m);
                None
            },
        }
    }

    /// The service answered the update of `folder`: on success the first
    /// folder here with its identifier takes its path and the main screen
    /// shows in normal mode; otherwise an error screen names the failure.
    pub fn folder_put(&mut self, folder: WatchedFolder, reply: Result<(), String>)
        ensures
            match reply {
                Ok(_) => {
                    &&& final(self).current_screen is Main
                    &&& final(self).current_mode is Normal
                    &&& match old(self).config {
                        Some(c) => final(self).config matches Some(n) && n.peers == c.peers
                            && match folder_index_from(folder_views(c.paths@), folder@.0, 0) {
                            Some(i) => folder_views(n.paths@) == folder_views(c.paths@).update(
                                i,
                                folder@,
                            ),
                            None => n.paths@ == c.paths@,
                        },
                        None => final(self).config is None,
                    }
                },
                Err(e) => {
                    &&& final(self).current_screen matches CurrentScreen::Error(m) && m@
                        == "Server unreachable: "@ + e@
                    &&& final(self).config == old(self).config
                    &&& final(self).current_mode == old(self).current_mode
                },
            },
            *final(self) == (App {
                current_screen: final(self).current_screen,
                current_mode: final(self).current_mode,
                config: final(self).config,
                ..*old(self)
            }),
    {
        match reply {
            Ok(_) => {
                match self.config.take() {
                    Some(mut c) => {
                        let _ = c.update_folder(folder);
                        self.config = Some(c);
                    },
                    None => {},
                }
                self.current_screen = CurrentScreen::Main;
                self.current_mode = CurrentMode::Normal;
            },
            Err(e) => {
                self.current_screen = CurrentScreen::Error(
                    message("Server unreachable: ", e.as_str()),
                );
            },
        }
    }

    /// Confirming the "Delete Folder" prompt: the folder to send to the
    /// service, everything else unchanged; `None` and an error screen when
    /// that prompt is not open.
    pub fn folder_to_delete(&mut self) -> (r: Option<WatchedFolder>)
        ensures
            match old(self).current_screen {
                CurrentScreen::DeleteFolder(folder) => r matches Some(f) && f@ == folder@
                    && *final(self) == *old(self),
                _ => r is None && (final(self).current_screen matches CurrentScreen::Error(m) && m@
                    == "Can only delete folder through the \"Delete Folder\" prompt"@),
            },
            *final(self) == (App { current_screen: final(self).current_screen, ..*old(self) }),
    {
        let outcome = match &self.current_screen {
            CurrentScreen::DeleteFolder(folder) => Ok(copy_folder(folder)),
            _ => Err(String::from_str("Can only delete folder through the \"Delete Folder\" prompt")),
        };
        match outcome {
            Ok(f) => Some(f),
            Err(m) => {
                self.current_screen = CurrentScreen::Error(m);
                None
            },
        }
    }

    /// The service answered the deletion of the folders with identifier
    /// `id`: on success they are no longer watched here and the main screen
    /// shows in normal mode; otherwise an error screen names the failure.
    pub fn folder_deleted(&mut self, id: u32, reply: Result<(), String>)
        ensures
            match reply {
                Ok(_) => {
                    &&& final(self).current_screen is Main
                    &&& final(self).current_mode is Normal
                    &&& match old(self).config {
                        Some(c) => final(self).config matches Some(n) && folder_views(n.paths@)
                            == without_folder(folder_views(c.paths@), id) && n.peers == c.peers,
                        None => final(self).config is None,
                    }
                },
                Err(e) => {
                    &&& final(self).current_screen matches CurrentScreen::Error(m) && m@
                        == "Server unreachable: "@ + e@
                    &&& final(self).config == old(self).config
                    &&& final(self).current_mode == old(self).current_mode
                },
            },
            *final(self) == (App {
                current_screen: final(self).current_screen,
                current_mode: final(self).current_mode,
                config: final(self).config,
                ..*old(self)
            }),
    {
        match reply {
            Ok(_) => {
                match self.config.take() {
                    Some(mut c) => {
                        c.delete_folder(id);
                        self.config = Some(c);
                    },
                    None => {},
                }
                self.current_screen = CurrentScreen::Main;
                self.current_mode = CurrentMode::Normal;
            },
            Err(e) => {
                self.current_screen = CurrentScreen::Error(
                    message("Server unreachable: ", e.as_str()),
                );
            },
        }
    }

    /// The service answered the request for its configuration: on success
    /// it is kept and the main screen shows; otherwise an error screen
    /// names the failure.
    pub fn config_fetched(&mut self, reply: Result<Config, FetchError>)
        ensures
            match reply {
                Ok(c) => final(self).config == Some(c) && final(self).current_screen is Main,
                Err(FetchError::Unparsable(e)) => final(self).current_screen matches CurrentScreen::Error(
                    m,
                ) && m@ == "Could not parse config: "@ + e@ && final(self).config == old(self).config,
                Err(FetchError::Unreachable(e)) => final(self).current_screen matches CurrentScreen::Error(
                    m,
                ) && m@ == "Server unreachable: "@ + e@ && final(self).config == old(self).config,
            },
            *final(self) == (App {
                current_screen: final(self).current_screen,
                config: final(self).config,
                ..*old(self)
            }),
    {
        match reply {
            Ok(c) => {
                self.config = Some(c);
                self.current_screen = CurrentScreen::Main;
            },
            Err(FetchError::Unparsable(e)) => {
                self.current_screen = CurrentScreen::Error(
                    message("Could not parse config: ", e.as_str()),
                );
            },
            Err(FetchError::Unreachable(e)) => {
                self.current_screen = CurrentScreen::Error(
                    message("Server unreachable: ", e.as_str()),
                );
            },
        }
    }
}

} // verus!

verus! {

// ---------------------------------------------------------------------------
// Keys
// ---------------------------------------------------------------------------

/// A key pressed in the terminal interface.
#[derive(Debug, Clone, Copy, PartialEq, Eq, Structural)]
pub enum Key {
    Char(char),
    Esc,
    Enter,
    Tab,
    Backspace,
    /// Any other key, which nothing reacts to.
    Other,
}

/// What the interface does after a key.
#[derive(Debug, Clone, Copy, PartialEq, Eq, Structural)]
pub enum KeyOutcome {
    /// Leave the interface.
    Quit,
    /// Send the folder of the "Create Folder" form to the service.
    Submit,
    /// Go on reading keys.
    Continue,
}

/// The other list.
pub open spec fn other_focus(focus: CurrentFocus) -> CurrentFocus {
    match focus {
        CurrentFocus::Folder => CurrentFocus::Peer,
        CurrentFocus::Peer => CurrentFocus::Folder,
    }
}

/// Keys can be handled in `app` without indexing outside a list or
/// overflowing: a selection lies in its list, and moving it up cannot
/// overflow.
pub open spec fn keys_safe(app: App) -> bool {
    &&& app.selected_folder matches Some(i) ==> (app.config matches Some(c) ==> i < c.paths@.len())
    &&& app.selected_peer matches Some(i) ==> (app.config matches Some(c) ==> i < c.peers@.len())
    &&& selection_movable(app.selected_folder, folder_count(app.config))
    &&& selection_movable(app.selected_peer, peer_count(app.config))
}

/// `new` is `old` with the "Create Folder" form changed to `form_after`.
pub open spec fn form_changed(old: App, new: App, form_after: spec_fn(EditFolderState) -> bool) -> bool {
    &&& new.current_screen matches CurrentScreen::CreateFolder(f) && form_after(f)
    &&& new == (App { current_screen: new.current_screen, ..old })
}

/// The effect of `key` in normal mode, past the keys of the mode itself:
/// navigation on the main screen, closing a screen with Esc, and moving
/// through or submitting the folder form.
pub open spec fn normal_key_effect(old: App, new: App, key: Key, r: KeyOutcome) -> bool {
    match old.current_screen {
        CurrentScreen::Main => r is Continue && if key == Key::Char('j') {
            match old.current_focus {
                CurrentFocus::Folder => new == (App {
                    selected_folder: selection_down(old.selected_folder, folder_count(old.config)),
                    ..old
                }),
                CurrentFocus::Peer => new == (App {
                    selected_peer: selection_down(old.selected_peer, peer_count(old.config)),
                    ..old
                }),
            }
        } else if key == Key::Char('k') {
            match old.current_focus {
                CurrentFocus::Folder => new == (App {
                    selected_folder: selection_up(old.selected_folder, folder_count(old.config)),
                    ..old
                }),
                CurrentFocus::Peer => new == (App {
                    selected_peer: selection_up(old.selected_peer, peer_count(old.config)),
                    ..old
                }),
            }
        } else if key == Key::Enter {
            match old.current_focus {
                CurrentFocus::Folder => opened_folder_form(old, new),
                CurrentFocus::Peer => opened_peer(old, new),
            }
        } else if key == Key::Char('o') {
            match old.current_focus {
                CurrentFocus::Folder => opened_create_folder(old, new),
                CurrentFocus::Peer => new == (App { current_screen: CurrentScreen::CreatePeer, ..old }),
            }
        } else if key == Key::Tab {
            new == (App { current_focus: other_focus(old.current_focus), ..old })
        } else {
            new == old
        },
        CurrentScreen::EditFolder(_) | CurrentScreen::EditPeer(_) | CurrentScreen::CreatePeer => {
            &&& r is Continue
            &&& if key == Key::Esc {
                new == (App { current_screen: CurrentScreen::Main, ..old })
            } else {
                new == old
            }
        },
        CurrentScreen::CreateFolder(form) => if key == Key::Tab || key == Key::Char('j') || key
            == Key::Char('k') {
            r is Continue && form_changed(
                old,
                new,
                |f: EditFolderState|
                    f.path_input == form.path_input && f.id_input == form.id_input && f.focus
                        == toggled(form.focus),
            )
        } else if key == Key::Esc {
            r is Continue && new == (App { current_screen: CurrentScreen::Main, ..old })
        } else if key == Key::Enter {
            r is Submit && new == old
        } else {
            r is Continue && new == old
        },
        _ => r is Continue && new == old,
    }
}

/// The effect of `key` in insert mode, past Esc: typing into the focused
/// input of the folder form, moving to the other input, and submitting
/// from the identifier input.
pub open spec fn insert_key_effect(old: App, new: App, key: Key, r: KeyOutcome) -> bool {
    match old.current_screen {
        CurrentScreen::CreateFolder(form) => match form.focus {
            EditFolderFocus::Folder => r is Continue && match key {
                Key::Char(c) => form_changed(
                    old,
                    new,
                    |f: EditFolderState|
                        entered(form.path_input, f.path_input, c) && f.id_input == form.id_input
                            && f.focus == form.focus,
                ),
                Key::Backspace => form_changed(
                    old,
                    new,
                    |f: EditFolderState|
                        deleted(form.path_input, f.path_input) && f.id_input == form.id_input
                            && f.focus == form.focus,
                ),
                Key::Enter | Key::Tab => form_changed(
                    old,
                    new,
                    |f: EditFolderState|
                        f.path_input == form.path_input && f.id_input == form.id_input && f.focus
                            == toggled(form.focus),
                ),
                _ => new == old,
            },
            EditFolderFocus::Id => match key {
                Key::Char(c) => r is Continue && form_changed(
                    old,
                    new,
                    |f: EditFolderState|
                        entered(form.id_input, f.id_input, c) && f.path_input == form.path_input
                            && f.focus == form.focus,
                ),
                Key::Backspace => r is Continue && form_changed(
                    old,
                    new,
                    |f: EditFolderState|
                        deleted(form.id_input, f.id_input) && f.path_input == form.path_input
                            && f.focus == form.focus,
                ),
                Key::Enter => r is Submit && new == old,
                Key::Tab => r is Continue && form_changed(
                    old,
                    new,
                    |f: EditFolderState|
                        f.path_input == form.path_input && f.id_input == form.id_input && f.focus
                            == toggled(form.focus),
                ),
                _ => r is Continue && new == old,
            },
        },
        _ => r is Continue && new == old,
    }
}

/// The effect of `key` on the interface `old`: in insert mode Esc goes back
/// to normal mode; in normal mode `q` quits and `i` enters insert mode;
/// every other key acts on the screen shown.
pub open spec fn key_effect(old: App, new: App, key: Key, r: KeyOutcome) -> bool {
    match old.current_mode {
        CurrentMode::Insert => if key == Key::Esc {
            r is Continue && new == (App { current_mode: CurrentMode::Normal, ..old })
        } else {
            insert_key_effect(old, new, key, r)
        },
        CurrentMode::Normal => if key == Key::Char('q') {
            r is Quit && new == old
        } else if key == Key::Char('i') {
            r is Continue && new == (App { current_mode: CurrentMode::Insert, ..old })
        } else {
            normal_key_effect(old, new, key, r)
        },
    }
}

/// The selection of the list that has the focus in `app`.
pub open spec fn focused_selection(app: App) -> Option<usize> {
    match app.current_focus {
        CurrentFocus::Folder => app.selected_folder,
        CurrentFocus::Peer => app.selected_peer,
    }
}

/// The number of entries of the list that has the focus in `app`.
pub open spec fn focused_count(app: App) -> nat {
    match app.current_focus {
        CurrentFocus::Folder => folder_count(app.config),
        CurrentFocus::Peer => peer_count(app.config),
    }
}

/// `j` and `k` move through the focused list: in normal mode on the main
/// screen, with entry `c` of the focused list selected, `j` selects the
/// next entry and `k` the previous one, wrapping around at the ends; the
/// other list keeps its selection and nothing but the selection changes.
pub proof fn lemma_keys_move_the_selection(old: App, new: App, key: Key, r: KeyOutcome, c: usize)
    requires
        old.current_mode is Normal,
        old.current_screen is Main,
        focused_selection(old) == Some(c),
        c < focused_count(old),
        key == Key::Char('j') || key == Key::Char('k'),
        key_effect(old, new, key, r),
    ensures
        r is Continue,
        new.current_focus == old.current_focus,
        new.config == old.config,
        key == Key::Char('j') ==> focused_selection(new) == Some(
            if c + 1 < focused_count(old) {
                (c + 1) as usize
            } else {
                0usize
            },
        ),
        key == Key::Char('k') ==> focused_selection(new) == Some(
            if c > 0 {
                (c - 1) as usize
            } else {
                (focused_count(old) - 1) as usize
            },
        ),
        old.current_focus is Folder ==> new == (App { selected_folder: new.selected_folder, ..old }),
        old.current_focus is Peer ==> new == (App { selected_peer: new.selected_peer, ..old }),
{
    let n = focused_count(old) as int;
    if c + 1 < n {
        assert((c + 1) % n == c + 1) by (nonlinear_arith)
            requires
                0 <= c + 1 < n,
        ;
    } else {
        assert((c + 1) % n == 0) by (nonlinear_arith)
            requires
                c + 1 == n,
        ;
    }
    if c > 0 {
        assert((c + n - 1) % n == c - 1) by (nonlinear_arith)
            requires
                0 < c < n,
        ;
    } else {
        assert((c + n - 1) % n == n - 1) by (nonlinear_arith)
            requires
                c == 0,
                n > 0,
        ;
    }
}

/// `k` undoes `j`: in normal mode on the main screen, with an entry of the
/// focused list selected, pressing `j` and then `k` gives back the
/// interface as it was.
pub proof fn lemma_k_undoes_j(old: App, mid: App, new: App, r1: KeyOutcome, r2: KeyOutcome)
    requires
        old.current_mode is Normal,
        old.current_screen is Main,
        focused_selection(old) matches Some(c) && c < focused_count(old),
        focused_count(old) <= usize::MAX,
        key_effect(old, mid, Key::Char('j'), r1),
        key_effect(mid, new, Key::Char('k'), r2),
    ensures
        new == old,
{
    let c = focused_selection(old)->0;
    lemma_selection_round_trip(c, focused_count(old));
}

/// `j` undoes `k`: in normal mode on the main screen, with an entry of the
/// focused list selected, pressing `k` and then `j` gives back the
/// interface as it was.
pub proof fn lemma_j_undoes_k(old: App, mid: App, new: App, r1: KeyOutcome, r2: KeyOutcome)
    requires
        old.current_mode is Normal,
        old.current_screen is Main,
        focused_selection(old) matches Some(c) && c < focused_count(old),
        focused_count(old) <= usize::MAX,
        key_effect(old, mid, Key::Char('k'), r1),
        key_effect(mid, new, Key::Char('j'), r2),
    ensures
        new == old,
{
    let c = focused_selection(old)->0;
    lemma_selection_round_trip(c, focused_count(old));
}

impl App {
    /// Whether keys can be handled without indexing outside a list or
    /// overflowing.
    pub fn keys_are_safe(&self) -> (b: bool)
        ensures
            b == keys_safe(*self),
    {
        match &self.config {
            Some(c) => {
                let folder_ok = match self.selected_folder {
                    Some(i) => i < c.paths.len() && i <= usize::MAX - c.paths.len(),
                    None => true,
                };
                let peer_ok = match self.selected_peer {
                    Some(i) => i < c.peers.len() && i <= usize::MAX - c.peers.len(),
                    None => true,
                };
                folder_ok && peer_ok
            },
            None => true,
        }
    }

    /// Reacts to `key`, and tells whether to quit, to send the folder form,
    /// or to go on.
    pub fn handle_key(&mut self, key: Key) -> (r: KeyOutcome)
        requires
            keys_safe(*old(self)),
        ensures
            key_effect(*old(self), *final(self), key, r),
    {
        match self.current_mode {
            CurrentMode::Insert => {
                if key == Key::Esc {
                    self.normal_mode();
                    return KeyOutcome::Continue;
                }
                self.insert_key(key)
            },
            CurrentMode::Normal => {
                if key == Key::Char('q') {
                    return KeyOutcome::Quit;
                }
                if key == Key::Char('i') {
                    self.insert_mode();
                    return KeyOutcome::Continue;
                }
                self.normal_key(key)
            },
        }
    }

    fn normal_key(&mut self, key: Key) -> (r: KeyOutcome)
        requires
            keys_safe(*old(self)),
        ensures
            normal_key_effect(*old(self), *final(self), key, r),
    {
        match &self.current_screen {
            CurrentScreen::Main => {
                let folder = match self.current_focus {
                    CurrentFocus::Folder => true,
                    CurrentFocus::Peer => false,
                };
                if key == Key::Char('j') {
                    if folder {
                        self.select_folder_down();
                    } else {
                        self.select_peer_down();
                    }
                } else if key == Key::Char('k') {
                    if folder {
                        self.select_folder_up();
                    } else {
                        self.select_peer_up();
                    }
                } else if key == Key::Enter {
                    if folder {
                        self.edit_selected_folder();
                    } else {
                        self.edit_selected_peer();
                    }
                } else if key == Key::Char('o') {
                    if folder {
                        self.open_create_folder();
                    } else {
                        self.open_create_peer();
                    }
                } else if key == Key::Tab {
                    self.toggle_focus();
                }
                KeyOutcome::Continue
            },
            CurrentScreen::EditFolder(_) | CurrentScreen::EditPeer(_) | CurrentScreen::CreatePeer => {
                if key == Key::Esc {
                    self.discard();
                }
                KeyOutcome::Continue
            },
            CurrentScreen::CreateFolder(_) => {
                if key == Key::Tab || key == Key::Char('j') || key == Key::Char('k') {
                    self.change_form(FormEdit::Toggle);
                    KeyOutcome::Continue
                } else if key == Key::Esc {
                    self.discard();
                    KeyOutcome::Continue
                } else if key == Key::Enter {
                    KeyOutcome::Submit
                } else {
                    KeyOutcome::Continue
                }
            },
            _ => KeyOutcome::Continue,
        }
    }

    fn insert_key(&mut self, key: Key) -> (r: KeyOutcome)
        ensures
            insert_key_effect(*old(self), *final(self), key, r),
    {
        let on_id = match &self.current_screen {
            CurrentScreen::CreateFolder(form) => match form.focus {
                EditFolderFocus::Folder => false,
                EditFolderFocus::Id => true,
            },
            _ => return KeyOutcome::Continue,
        };
        match key {
            Key::Char(c) => {
                self.change_form(if on_id { FormEdit::IdChar(c) } else { FormEdit::PathChar(c) });
                KeyOutcome::Continue
            },
            Key::Backspace => {
                self.change_form(if on_id { FormEdit::IdDelete } else { FormEdit::PathDelete });
                KeyOutcome::Continue
            },
            Key::Enter => {
                if on_id {
                    KeyOutcome::Submit
                } else {
                    self.change_form(FormEdit::Toggle);
                    KeyOutcome::Continue
                }
            },
            Key::Tab => {
                self.change_form(FormEdit::Toggle);
                KeyOutcome::Continue
            },
            _ => KeyOutcome::Continue,
        }
    }

    /// Applies `edit` to the open "Create Folder" form.
    fn change_form(&mut self, edit: FormEdit)
        requires
            old(self).current_screen is CreateFolder,
        ensures
            old(self).current_screen matches CurrentScreen::CreateFolder(form) && form_changed(
                *old(self),
                *final(self),
                |f: EditFolderState| form_edited(form, f, edit),
            ),
    {
        let mut screen = CurrentScreen::Main;
        std::mem::swap(&mut screen, &mut self.current_screen);
        match screen {
            CurrentScreen::CreateFolder(mut form) => {
                match edit {
                    FormEdit::PathChar(c) => form.path_input.enter_char(c),
                    FormEdit::PathDelete => form.path_input.delete_char(),
                    FormEdit::IdChar(c) => form.id_input.enter_char(c),
                    FormEdit::IdDelete => form.id_input.delete_char(),
                    FormEdit::Toggle => form.toggle_focus(),
                }
                self.current_screen = CurrentScreen::CreateFolder(form);
            },
            other => {
                self.current_screen = other;
            },
        }
    }
}

/// A change to the folder form.
#[derive(Clone, Copy)]
enum FormEdit {
    PathChar(char),
    PathDelete,
    IdChar(char),
    IdDelete,
    Toggle,
}

/// `after` is `before` changed by `edit`.
spec fn form_edited(before: EditFolderState, after: EditFolderState, edit: FormEdit) -> bool {
    match edit {
        FormEdit::PathChar(c) => entered(before.path_input, after.path_input, c) && after.id_input
            == before.id_input && after.focus == before.focus,
        FormEdit::PathDelete => deleted(before.path_input, after.path_input) && after.id_input
            == before.id_input && after.focus == before.focus,
        FormEdit::IdChar(c) => entered(before.id_input, after.id_input, c) && after.path_input
            == before.path_input && after.focus == before.focus,
        FormEdit::IdDelete => deleted(before.id_input, after.id_input) && after.path_input
            == before.path_input && after.focus == before.focus,
        FormEdit::Toggle => after.path_input == before.path_input && after.id_input
            == before.id_input && after.focus == toggled(before.focus),
    }
}

} // verus!
