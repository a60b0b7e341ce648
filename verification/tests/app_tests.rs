use rvn::app::{delete_refusal, SYMLINK_REFUSAL};
use rvn::help::{footer_parts, FooterPart, HINT_SEPARATOR};
use rvn::app::{expired_after, Action, App, CurrentScreen, Key, MsgLevel, VenvMetadata, STATUS_TTL_NANOS};
use rvn::display::{metadata_text, Tone};
use rvn::help::hints;

fn app_with(n: usize) -> App<String> {
    let mut app: App<String> = App::new();
    app.load_venvs((0..n).map(|i| format!("/envs/v{}", i)).collect());
    app
}

#[test]
fn new_app_is_empty() {
    let app: App<String> = App::new();
    assert!(app.venvs.is_empty());
    assert_eq!(app.selected_index, 0);
    assert!(!app.should_quit);
    assert_eq!(app.current_screen, CurrentScreen::Main);
    assert!(app.status.is_none());
    assert_eq!(app.list_selection(), None);
    assert_eq!(app.selected(), None);
}

#[test]
fn next_and_previous_wrap() {
    let mut app = app_with(3);
    app.next();
    assert_eq!(app.selected_index, 1);
    app.next();
    app.next();
    assert_eq!(app.selected_index, 0);
    app.previous();
    assert_eq!(app.selected_index, 2);
    app.previous();
    assert_eq!(app.selected_index, 1);
    assert_eq!(app.selected(), Some(&"/envs/v1".to_string()));
    assert_eq!(app.list_selection(), Some(1));
}

#[test]
fn next_previous_on_empty_list() {
    let mut app = app_with(0);
    app.next();
    app.previous();
    assert_eq!(app.selected_index, 0);
}

#[test]
fn law_next_then_previous_restores() {
    for n in 1..6 {
        for i in 0..n {
            let mut app = app_with(n);
            app.selected_index = i;
            app.next();
            app.previous();
            assert_eq!(app.selected_index, i);
            app.previous();
            app.next();
            assert_eq!(app.selected_index, i);
        }
    }
}

#[test]
fn law_full_cycle_returns() {
    let mut app = app_with(5);
    app.selected_index = 3;
    for _ in 0..5 {
        app.next();
    }
    assert_eq!(app.selected_index, 3);
}

#[test]
fn keys_on_main_screen() {
    let mut app = app_with(2);
    assert_eq!(app.handle_key(Key::Char('j'), false), Action::RefreshSelection);
    assert_eq!(app.selected_index, 1);
    assert_eq!(app.handle_key(Key::Down, false), Action::RefreshSelection);
    assert_eq!(app.selected_index, 0);
    assert_eq!(app.handle_key(Key::Up, false), Action::RefreshSelection);
    assert_eq!(app.selected_index, 1);
    assert_eq!(app.handle_key(Key::Char('k'), false), Action::RefreshSelection);
    assert_eq!(app.selected_index, 0);
    assert_eq!(app.handle_key(Key::Enter, false), Action::Activate(0));
    assert_eq!(app.handle_key(Key::Char('a'), false), Action::Activate(0));
    assert_eq!(app.handle_key(Key::Char('x'), false), Action::Nothing);
    assert!(!app.should_quit);
    assert_eq!(app.handle_key(Key::Char('q'), false), Action::Nothing);
    assert!(app.should_quit);
}

#[test]
fn activation_needs_an_environment() {
    let mut app = app_with(0);
    assert_eq!(app.handle_key(Key::Enter, false), Action::Nothing);
    assert_eq!(app.handle_key(Key::Char('d'), false), Action::Nothing);
    assert_eq!(app.current_screen, CurrentScreen::Main);
}

#[test]
fn ctrl_c_quits_everywhere() {
    let mut app = app_with(1);
    app.handle_key(Key::Char('d'), false);
    assert_eq!(app.current_screen, CurrentScreen::ConfirmDelete);
    assert_eq!(app.handle_key(Key::Char('c'), true), Action::Nothing);
    assert!(app.should_quit);
    let mut plain = app_with(1);
    assert_eq!(plain.handle_key(Key::Char('c'), false), Action::Nothing);
    assert!(!plain.should_quit);
}

#[test]
fn delete_needs_confirmation() {
    let mut app = app_with(3);
    app.handle_key(Key::Down, false);
    assert_eq!(app.handle_key(Key::Char('y'), false), Action::Nothing);
    assert_eq!(app.handle_key(Key::Char('d'), false), Action::Nothing);
    assert_eq!(app.current_screen, CurrentScreen::ConfirmDelete);
    assert_eq!(app.handle_key(Key::Down, false), Action::Nothing);
    assert_eq!(app.selected_index, 1);
    assert_eq!(app.handle_key(Key::Char('Y'), false), Action::Delete(1));
    assert_eq!(app.handle_key(Key::Char('y'), false), Action::Delete(1));
    for cancel in [Key::Char('n'), Key::Char('N'), Key::Esc] {
        app.current_screen = CurrentScreen::ConfirmDelete;
        assert_eq!(app.handle_key(cancel, false), Action::Nothing);
        assert_eq!(app.current_screen, CurrentScreen::Main);
        assert_eq!(app.venvs.len(), 3);
        assert_eq!(app.selected_index, 1);
    }
}

#[test]
fn finish_delete_success_keeps_row() {
    let mut app = app_with(3);
    app.selected_index = 1;
    app.current_screen = CurrentScreen::ConfirmDelete;
    app.finish_delete(Ok(()), "/envs/v1");
    assert_eq!(app.venvs, vec!["/envs/v0".to_string(), "/envs/v2".to_string()]);
    assert_eq!(app.selected_index, 1);
    assert_eq!(app.current_screen, CurrentScreen::Main);
    let status = app.status.as_ref().unwrap();
    assert_eq!(status.text, "Deleted /envs/v1");
    assert!(matches!(status.level, MsgLevel::Info));
}

#[test]
fn finish_delete_last_row_moves_up() {
    let mut app = app_with(2);
    app.selected_index = 1;
    app.finish_delete(Ok(()), "/envs/v1");
    assert_eq!(app.selected_index, 0);
    app.finish_delete(Ok(()), "/envs/v0");
    assert!(app.venvs.is_empty());
    assert_eq!(app.selected_index, 0);
}

#[test]
fn finish_delete_failure_keeps_list() {
    let mut app = app_with(2);
    app.current_screen = CurrentScreen::ConfirmDelete;
    app.finish_delete(Err("refusing to delete a symlink".to_string()), "/envs/v0");
    assert_eq!(app.venvs.len(), 2);
    assert_eq!(app.current_screen, CurrentScreen::Main);
    let status = app.status.as_ref().unwrap();
    assert_eq!(status.text, "Delete failed: refusing to delete a symlink");
    assert!(matches!(status.level, MsgLevel::Error));
}

#[test]
fn status_message_expiry() {
    let mut app = app_with(1);
    app.set_status("hello".to_string(), MsgLevel::Info);
    assert!(!app.status.as_ref().unwrap().is_expired());
    app.clear_expired_status();
    assert!(app.status.is_some());
    app.clear_status_if(true);
    assert!(app.status.is_none());
    assert!(!expired_after(0));
    assert!(!expired_after(STATUS_TTL_NANOS - 1));
    assert!(expired_after(STATUS_TTL_NANOS));
    assert_eq!(STATUS_TTL_NANOS, 4_000_000_000);
}

#[test]
fn status_line_texts() {
    let mut app = app_with(1);
    let line = app.status_line_for(false);
    assert_eq!(line.text, " 1 environment found");
    assert_eq!(line.tone, Tone::Muted);
    let app2 = app_with(12);
    assert_eq!(app2.status_line().text, " 12 environments found");
    assert_eq!(app_with(0).status_line().text, " 0 environments found");
    app.set_status("Deleted /x".to_string(), MsgLevel::Info);
    let line = app.status_line_for(false);
    assert_eq!(line.text, " ✓ Deleted /x");
    assert_eq!(line.tone, Tone::Info);
    assert_eq!(app.status_line().text, " ✓ Deleted /x");
    assert_eq!(app.status_line_for(true).text, " 1 environment found");
    app.set_status("boom".to_string(), MsgLevel::Error);
    let line = app.status_line_for(false);
    assert_eq!(line.text, " ✗ boom");
    assert_eq!(line.tone, Tone::Error);
}

#[test]
fn refresh_and_size() {
    let mut app = app_with(1);
    app.refresh_selection(Some(VenvMetadata::default()));
    assert_eq!(app.current_size.as_deref(), Some("Calculating size..."));
    assert!(app.current_metadata.is_some());
    app.apply_size(false, 2048);
    assert_eq!(app.current_size.as_deref(), Some("Calculating size..."));
    app.apply_size(true, 2048);
    assert_eq!(app.current_size.as_deref(), Some("2.00 KB"));
    let mut empty = app_with(0);
    empty.refresh_selection(Some(VenvMetadata::default()));
    assert!(empty.current_metadata.is_none());
    assert!(empty.current_size.is_none());
    empty.apply_size(true, 10);
    assert!(empty.current_size.is_none());
}

#[test]
fn activation_outcomes() {
    let mut app = app_with(1);
    app.finish_activation(&Ok(None));
    assert!(app.status.is_none());
    assert!(!app.should_quit);
    app.finish_activation(&Ok(Some("Could not start subshell: nope".to_string())));
    assert_eq!(app.status.as_ref().unwrap().text, "Could not start subshell: nope");
    assert!(matches!(app.status.as_ref().unwrap().level, MsgLevel::Error));
    app.finish_activation(&Err("fatal".to_string()));
    assert!(app.should_quit);
}

#[test]
fn details_texts() {
    let mut app = app_with(0);
    assert_eq!(app.details_text(""), "No virtual environments found.");
    app = app_with(1);
    assert_eq!(
        app.details_text("/envs/v0"),
        "Path: /envs/v0\nDisk footprint: Pending...\nFailed to read pyvenv.cfg for this environment target"
    );
    let meta = VenvMetadata {
        version: "3.12.1".to_string(),
        executable: String::new(),
        include_system_packages: "false".to_string(),
        packages: vec!["a == 1".to_string(), "b == 2".to_string()],
    };
    app.refresh_selection(Some(meta));
    assert_eq!(
        app.details_text("/envs/v0"),
        "Path: /envs/v0\nDisk footprint: Calculating size...\nPython Version: 3.12.1\nExecutable: Unknown\nInclude System Site Packages: false\n Installed packages: (2):\n  • a == 1\n  • b == 2"
    );
}

#[test]
fn metadata_text_lists_twenty_packages() {
    let packages: Vec<String> = (0..23).map(|i| format!("p{:02}", i)).collect();
    let meta = VenvMetadata {
        version: String::new(),
        executable: "/usr/bin/python3".to_string(),
        include_system_packages: String::new(),
        packages: packages.clone(),
    };
    let listed: Vec<String> = packages.iter().take(20).map(|p| format!("  • {}", p)).collect();
    let expected = format!(
        "Python Version: Unknown\nExecutable: /usr/bin/python3\nInclude System Site Packages: Unknown\n Installed packages: (23):\n{}\n .. and 3 more",
        listed.join("\n")
    );
    assert_eq!(metadata_text(&Some(meta)), expected);
    let none = VenvMetadata::default();
    assert_eq!(
        metadata_text(&Some(none)),
        "Python Version: Unknown\nExecutable: Unknown\nInclude System Site Packages: Unknown\n Installed packages: (0):\n (No installed libraries found)"
    );
}

#[test]
fn footer_hints() {
    let main = hints(&CurrentScreen::Main);
    let pairs: Vec<(&str, &str)> = main.iter().map(|k| (k.keys, k.desc)).collect();
    assert_eq!(pairs, vec![("↑/↓ or j/k", "Navigate"), ("a/Enter", "Activate"), ("d", "Delete"), ("q", "Quit")]);
    let confirm = hints(&CurrentScreen::ConfirmDelete);
    let pairs: Vec<(&str, &str)> = confirm.iter().map(|k| (k.keys, k.desc)).collect();
    assert_eq!(pairs, vec![("y", "Confirm"), ("n/Esc", "Cancel")]);
}

#[test]
fn next_brings_selection_into_range() {
    let mut app = app_with(3);
    app.selected_index = 7;
    app.next();
    assert_eq!(app.selected_index, 2);
    app.selected_index = 10;
    app.previous();
    assert_eq!(app.selected_index, 9);
}

#[test]
fn symlinks_are_not_deleted() {
    assert_eq!(delete_refusal(true).as_deref(), Some("refusing to delete a symlink"));
    assert_eq!(SYMLINK_REFUSAL, "refusing to delete a symlink");
    assert_eq!(delete_refusal(false), None);
}

#[test]
fn footer_line_parts() {
    let parts = footer_parts(hints(&CurrentScreen::ConfirmDelete));
    let text: String = parts
        .iter()
        .map(|p| match p {
            FooterPart::Separator => HINT_SEPARATOR,
            FooterPart::Keys(k) => k,
            FooterPart::Space => " ",
            FooterPart::Desc(d) => d,
        })
        .collect();
    assert_eq!(text, "y Confirm  ·  n/Esc Cancel");
    assert_eq!(parts.len(), 7);
    assert!(footer_parts(&[]).is_empty());
}
