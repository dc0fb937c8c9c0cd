use habit_tracker::command::CommandOutcome;
use habit_tracker::error::MetadataError;
use habit_tracker::metadata::{Metadata, ACTIVE_APP_SCRIPT, WINDOW_TITLE_SCRIPT};

fn printed(text: &str) -> CommandOutcome {
    CommandOutcome::Ended { success: true, stdout: text.as_bytes().to_vec(), stderr: vec![] }
}

fn failed(complaint: &str) -> CommandOutcome {
    CommandOutcome::Ended { success: false, stdout: vec![], stderr: complaint.as_bytes().to_vec() }
}

#[test]
fn test_get_active_app() {
    let result = Metadata::get_active_app(&CommandOutcome::NotRun("not found".to_string()));
    assert!(result.is_ok() || result.is_err());
}

#[test]
fn test_get_window_title_returns_string() {
    let result = Metadata::get_window_title(&CommandOutcome::NotRun("not found".to_string()));
    assert!(result.len() >= 0);
}

#[test]
fn test_get_window_title_never_panics() {
    let _ = Metadata::get_window_title(&CommandOutcome::NotRun("not found".to_string()));
}

#[test]
fn active_app_is_the_printed_name_without_the_space_around_it() {
    assert_eq!(Metadata::get_active_app(&printed("Safari\n")).unwrap(), "Safari");
    assert_eq!(Metadata::get_active_app(&printed("  VS Code \r\n")).unwrap(), "VS Code");
    assert_eq!(Metadata::get_active_app(&printed("\u{3000}メモ\u{a0}\n")).unwrap(), "メモ");
    assert_eq!(Metadata::get_active_app(&printed("")).unwrap(), "");
    assert_eq!(Metadata::get_active_app(&printed(" \n\t")).unwrap(), "");
}

#[test]
fn active_app_fails_with_the_command() {
    match Metadata::get_active_app(&failed("denied\n")) {
        Err(MetadataError::CommandFailed(text)) => assert_eq!(text, "osascript failed: denied\n"),
        _ => panic!("Expected CommandFailed"),
    }
    match Metadata::get_active_app(&CommandOutcome::NotRun("not found".to_string())) {
        Err(MetadataError::CommandFailed(text)) => assert_eq!(text, "not found"),
        _ => panic!("Expected CommandFailed"),
    }
    let garbled = CommandOutcome::Ended { success: true, stdout: vec![b'a', 0xff], stderr: vec![] };
    assert!(matches!(Metadata::get_active_app(&garbled), Err(MetadataError::Utf8Error(_))));
}

#[test]
fn window_title_is_empty_where_the_command_does_not_succeed() {
    assert_eq!(Metadata::try_get_window_title(&failed("no window")).unwrap(), "");
    assert_eq!(Metadata::try_get_window_title(&printed(" main.rs \n")).unwrap(), "main.rs");
    assert!(matches!(
        Metadata::try_get_window_title(&CommandOutcome::NotRun("x".to_string())),
        Err(MetadataError::CommandFailed(_))
    ));
    let garbled = CommandOutcome::Ended { success: true, stdout: vec![0xc0], stderr: vec![] };
    assert!(matches!(
        Metadata::try_get_window_title(&garbled),
        Err(MetadataError::Utf8Error(_))
    ));
}

#[test]
fn window_title_falls_back_to_empty() {
    assert_eq!(Metadata::get_window_title(&printed("Inbox\n")), "Inbox");
    assert_eq!(Metadata::get_window_title(&failed("no window")), "");
    assert_eq!(Metadata::get_window_title(&CommandOutcome::NotRun("x".to_string())), "");
    let garbled = CommandOutcome::Ended { success: true, stdout: vec![0xff], stderr: vec![] };
    assert_eq!(Metadata::get_window_title(&garbled), "");
}

#[test]
fn scripts_ask_the_system_events() {
    assert!(ACTIVE_APP_SCRIPT.starts_with("tell application \"System Events\""));
    assert!(ACTIVE_APP_SCRIPT.ends_with("get name of first process whose frontmost is true"));
    assert!(WINDOW_TITLE_SCRIPT.contains("front window"));
}
