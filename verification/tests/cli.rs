use p2p_file_sync::cli::{Key, KeyOutcome};
use p2p_file_sync::cli::{App, CurrentScreen, FetchError};
use p2p_file_sync::editor::{CurrentFocus, CurrentMode, TextBox};
use p2p_file_sync::{Config, Peer, WatchedFolder};

fn app_with_config() -> App {
    let mut app = App::new(reqwest::Client::new(), "3617");
    let mut peer = Peer::new([127, 0, 0, 1]);
    peer.share_folder(2);
    app.config = Some(Config {
        paths: vec![
            WatchedFolder::new_full(1, "/a"),
            WatchedFolder::new_full(2, "/b"),
            WatchedFolder::new_full(3, "/c"),
        ],
        peers: vec![peer],
    });
    app
}

#[test]
fn new_app_is_loading() {
    let app = App::new(reqwest::Client::new(), "4000");
    assert!(matches!(app.current_screen, CurrentScreen::Loading));
    assert!(matches!(app.current_mode, CurrentMode::Normal));
    assert!(matches!(app.current_focus, CurrentFocus::Folder));
    assert!(app.config.is_none());
    assert_eq!(app.address, "http://127.0.0.1:4000");
}

#[test]
fn selection_wraps_around() {
    let mut app = app_with_config();
    app.select_folder_down();
    assert_eq!(app.selected_folder, Some(0));
    app.select_folder_up();
    assert_eq!(app.selected_folder, Some(2));
    app.select_folder_down();
    assert_eq!(app.selected_folder, Some(0));
    app.select_folder_down();
    app.select_folder_up();
    assert_eq!(app.selected_folder, Some(0));

    app.select_peer_up();
    assert_eq!(app.selected_peer, Some(0));
    app.select_peer_down();
    assert_eq!(app.selected_peer, Some(0));

    let mut empty = App::new(reqwest::Client::new(), "1");
    empty.select_folder_down();
    assert_eq!(empty.selected_folder, None);
    empty.select_peer_up();
    assert_eq!(empty.selected_peer, None);
}

#[test]
fn screens_open_for_the_selection() {
    let mut app = app_with_config();
    app.edit_selected_folder();
    assert!(matches!(app.current_screen, CurrentScreen::Loading));
    app.select_folder_down();
    app.select_folder_down();
    app.edit_selected_folder();
    match &app.current_screen {
        CurrentScreen::EditFolder(form) => {
            assert_eq!(form.id_input.text, "0x2");
            assert_eq!(form.path_input.text, "/b");
        }
        _ => panic!("expected the folder form"),
    }
    app.open_delete_folder();
    match &app.current_screen {
        CurrentScreen::DeleteFolder(folder) => assert_eq!(folder.id(), 2),
        _ => panic!("expected the delete prompt"),
    }
    app.select_peer_down();
    app.edit_selected_peer();
    match &app.current_screen {
        CurrentScreen::EditPeer(peer) => assert_eq!(peer.folders, vec![2]),
        _ => panic!("expected the peer"),
    }
    app.open_create_folder();
    assert!(matches!(app.current_screen, CurrentScreen::CreateFolder(_)));
    app.open_create_peer();
    assert!(matches!(app.current_screen, CurrentScreen::CreatePeer));
    app.discard();
    assert!(matches!(app.current_screen, CurrentScreen::Main));
}

#[test]
fn modes_and_focus_toggle() {
    let mut app = app_with_config();
    app.insert_mode();
    assert!(matches!(app.current_mode, CurrentMode::Insert));
    app.normal_mode();
    assert!(matches!(app.current_mode, CurrentMode::Normal));
    app.toggle_focus();
    assert!(matches!(app.current_focus, CurrentFocus::Peer));
    app.toggle_focus();
    assert!(matches!(app.current_focus, CurrentFocus::Folder));
}

#[test]
fn delete_undoes_enter_in_the_middle() {
    let mut textbox = TextBox { text: "héllo".to_string(), index: 2 };
    textbox.enter_char('ü');
    assert_eq!(textbox.text, "héüllo");
    assert_eq!(textbox.index, 3);
    textbox.delete_char();
    assert_eq!(textbox.text, "héllo");
    assert_eq!(textbox.index, 2);
}

#[test]
fn cursor_beyond_text_types_at_the_end() {
    let mut textbox = TextBox { text: "ab".to_string(), index: 7 };
    textbox.enter_char('c');
    assert_eq!(textbox.text, "abc");
    assert_eq!(textbox.index, 3);
    let mut far = TextBox { text: "ab".to_string(), index: 9 };
    far.delete_char();
    assert_eq!(far.text, "ab");
    assert_eq!(far.index, 2);
}

#[test]
fn plus_sign_and_overflow_in_identifiers() {
    let plus = TextBox { text: "+7".to_string(), index: 0 };
    assert_eq!(u32::try_from(&plus).unwrap(), 7);
    let big = TextBox { text: "4294967296".to_string(), index: 0 };
    assert!(u32::try_from(&big).is_err());
    let upper = TextBox { text: "0xFF".to_string(), index: 0 };
    assert_eq!(u32::try_from(&upper).unwrap(), 255);
    let empty = TextBox::default();
    assert!(u32::try_from(&empty).is_err());
}

fn error_text(app: &App) -> String {
    match &app.current_screen {
        CurrentScreen::Error(m) => m.clone(),
        _ => panic!("expected an error screen"),
    }
}

#[test]
fn posting_needs_the_create_form() {
    let mut app = app_with_config();
    assert!(app.folder_to_post().is_none());
    assert_eq!(
        error_text(&app),
        "Can only create folder through the \"Create Folder\" prompt"
    );

    app.open_create_folder();
    match &mut app.current_screen {
        CurrentScreen::CreateFolder(form) => {
            form.path_input.enter_char('/');
            form.path_input.enter_char('d');
            form.id_input.enter_char('x');
        }
        _ => panic!("expected the folder form"),
    }
    assert!(app.folder_to_post().is_none());
    assert_eq!(error_text(&app), "Failed to create valid folder");
}

#[test]
fn posted_folder_is_added() {
    let mut app = app_with_config();
    app.open_create_folder();
    match &mut app.current_screen {
        CurrentScreen::CreateFolder(form) => {
            form.path_input.enter_char('/');
            form.path_input.enter_char('d');
            form.id_input.enter_char('0');
            form.id_input.enter_char('x');
            form.id_input.enter_char('a');
        }
        _ => panic!("expected the folder form"),
    }
    app.insert_mode();
    let folder = app.folder_to_post().expect("a valid form");
    assert_eq!(folder.id(), 10);
    assert!(matches!(app.current_screen, CurrentScreen::CreateFolder(_)));

    app.folder_posted(folder, Ok(()));
    assert!(matches!(app.current_screen, CurrentScreen::Main));
    assert!(matches!(app.current_mode, CurrentMode::Normal));
    let paths = &app.config.as_ref().unwrap().paths;
    assert_eq!(paths.len(), 4);
    assert_eq!(paths[3].id(), 10);
    assert_eq!(paths[3].path().to_str(), Some("/d"));

    app.folder_posted(WatchedFolder::new_full(11, "/e"), Err("refused".to_string()));
    assert_eq!(error_text(&app), "Server unreachable: refused");
    assert_eq!(app.config.as_ref().unwrap().paths.len(), 4);
}

#[test]
fn put_folder_takes_the_new_path() {
    let mut app = app_with_config();
    assert!(app.folder_to_put().is_none());
    assert_eq!(
        error_text(&app),
        "Can only update folder through the \"Edit Folder\" prompt"
    );
    app.select_folder_down();
    app.edit_selected_folder();
    match &mut app.current_screen {
        CurrentScreen::EditFolder(form) => form.path_input.enter_char('x'),
        _ => panic!("expected the folder form"),
    }
    let folder = app.folder_to_put().expect("a valid form");
    assert_eq!(folder.id(), 1);
    app.folder_put(folder, Ok(()));
    let paths = &app.config.as_ref().unwrap().paths;
    assert_eq!(paths.len(), 3);
    assert_eq!(paths[0].path().to_str(), Some("/ax"));
    assert!(matches!(app.current_screen, CurrentScreen::Main));
}

#[test]
fn deleted_folder_is_dropped() {
    let mut app = app_with_config();
    assert!(app.folder_to_delete().is_none());
    assert_eq!(
        error_text(&app),
        "Can only delete folder through the \"Delete Folder\" prompt"
    );
    app.select_folder_up();
    app.open_delete_folder();
    let folder = app.folder_to_delete().expect("the delete prompt");
    assert_eq!(folder.id(), 3);
    app.folder_deleted(folder.id(), Ok(()));
    let ids: Vec<u32> = app.config.as_ref().unwrap().paths.iter().map(|f| f.id()).collect();
    assert_eq!(ids, vec![1, 2]);
    assert!(matches!(app.current_screen, CurrentScreen::Main));
}

#[test]
fn fetched_config_is_kept() {
    let mut app = App::new(reqwest::Client::new(), "3617");
    app.config_fetched(Err(FetchError::Unreachable("no route".to_string())));
    assert_eq!(error_text(&app), "Server unreachable: no route");
    app.config_fetched(Err(FetchError::Unparsable("bad json".to_string())));
    assert_eq!(error_text(&app), "Could not parse config: bad json");
    assert!(app.config.is_none());
    app.config_fetched(Ok(Config { paths: vec![WatchedFolder::new_full(5, "/x")], peers: vec![] }));
    assert!(matches!(app.current_screen, CurrentScreen::Main));
    assert_eq!(app.config.as_ref().unwrap().paths[0].id(), 5);
}

#[test]
fn keys_drive_the_interface() {
    let mut app = app_with_config();
    app.discard();
    assert!(app.keys_are_safe());
    assert_eq!(app.handle_key(Key::Char('j')), KeyOutcome::Continue);
    assert_eq!(app.selected_folder, Some(0));
    app.handle_key(Key::Char('k'));
    assert_eq!(app.selected_folder, Some(2));
    app.handle_key(Key::Tab);
    assert!(matches!(app.current_focus, CurrentFocus::Peer));
    app.handle_key(Key::Char('j'));
    assert_eq!(app.selected_peer, Some(0));
    app.handle_key(Key::Enter);
    assert!(matches!(app.current_screen, CurrentScreen::EditPeer(_)));
    app.handle_key(Key::Esc);
    assert!(matches!(app.current_screen, CurrentScreen::Main));
    app.handle_key(Key::Tab);
    app.handle_key(Key::Char('o'));
    assert!(matches!(app.current_screen, CurrentScreen::CreateFolder(_)));

    // Typing needs insert mode
    app.handle_key(Key::Char('i'));
    assert!(matches!(app.current_mode, CurrentMode::Insert));
    app.handle_key(Key::Char('/'));
    app.handle_key(Key::Char('q'));
    app.handle_key(Key::Char('z'));
    app.handle_key(Key::Backspace);
    app.handle_key(Key::Enter);
    app.handle_key(Key::Char('9'));
    match &app.current_screen {
        CurrentScreen::CreateFolder(form) => {
            assert_eq!(form.path_input.text, "/q");
            assert_eq!(form.id_input.text, "9");
        }
        _ => panic!("expected the folder form"),
    }
    assert_eq!(app.handle_key(Key::Enter), KeyOutcome::Submit);
    app.handle_key(Key::Esc);
    assert!(matches!(app.current_mode, CurrentMode::Normal));
    assert_eq!(app.handle_key(Key::Enter), KeyOutcome::Submit);
    app.handle_key(Key::Esc);
    assert!(matches!(app.current_screen, CurrentScreen::Main));
    assert_eq!(app.handle_key(Key::Char('q')), KeyOutcome::Quit);
}

#[test]
fn selection_outside_the_list_is_unsafe() {
    let mut app = app_with_config();
    app.selected_folder = Some(3);
    assert!(!app.keys_are_safe());
    app.selected_folder = Some(2);
    assert!(app.keys_are_safe());
}
