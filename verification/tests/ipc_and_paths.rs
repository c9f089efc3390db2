use loungy::commands::RootCommands;
use loungy::dispatch::TopLevelCommand;
use loungy::ipc::{
    bind_decision, extract_port_from_path, validate_args, ArgError, BindDecision, SOCKET_PATH,
};
use loungy::paths::{paths, LPaths};
use loungy::platform::{
    get_application_data, get_application_files, get_application_folders,
    get_frontmost_application_data, ClipboardWatcher,
};
use loungy::text::command_leaf;
use loungy::window::{LWindow, LWindowStyle};

#[test]
fn port_extraction_reads_path_tail() {
    assert_eq!(extract_port_from_path("/tmp/loungy/7878"), Some(7878));
    assert_eq!(extract_port_from_path("7878"), Some(7878));
    assert_eq!(extract_port_from_path("+123"), Some(123));
    assert_eq!(extract_port_from_path("/tmp/loungy.sock"), None);
    assert_eq!(extract_port_from_path(""), None);
    assert_eq!(extract_port_from_path("/"), None);
    assert_eq!(extract_port_from_path("/tmp/70000"), None);
    assert_eq!(extract_port_from_path("65535"), Some(65535));
    assert_eq!(extract_port_from_path("65536"), None);
    assert_eq!(extract_port_from_path("007"), Some(7));
    assert_eq!(extract_port_from_path(SOCKET_PATH), None);
}

#[test]
fn bind_decision_follows_the_probe() {
    assert_eq!(bind_decision(true, true), BindDecision::AlreadyRunning);
    assert_eq!(bind_decision(true, false), BindDecision::AlreadyRunning);
    assert_eq!(bind_decision(false, true), BindDecision::RemoveStaleAndBind);
    assert_eq!(bind_decision(false, false), BindDecision::Bind);
}

#[test]
fn validate_args_requires_command_name_exactly_for_command() {
    let snapshot = RootCommands::init().snapshot();
    let err = validate_args(TopLevelCommand::Command, None, &snapshot).unwrap_err();
    assert_eq!(err, ArgError::MissingCommand);
    let err =
        validate_args(TopLevelCommand::Command, Some(String::from("nope")), &snapshot).unwrap_err();
    assert_eq!(err, ArgError::UnknownCommand);
    let p =
        validate_args(TopLevelCommand::Command, Some(String::from("themes")), &snapshot).unwrap();
    assert_eq!(p.command.as_deref(), Some("themes"));
    let p = validate_args(TopLevelCommand::Show, None, &snapshot).unwrap();
    assert!(p.command.is_none());
}

#[test]
fn command_leaf_is_the_third_segment() {
    assert_eq!(command_leaf("loungy::commands::themes").as_deref(), Some("themes"));
    assert_eq!(command_leaf("a::b::c::d").as_deref(), Some("c"));
    assert_eq!(command_leaf("a::b"), None);
    assert_eq!(command_leaf("plain"), None);
    assert_eq!(command_leaf("::::x").as_deref(), Some("x"));
}

#[test]
fn paths_are_built_from_the_username() {
    let p = LPaths::for_user("alice");
    assert_eq!(
        p.path_env,
        "/opt/homebrew/bin:/usr/local/bin:/home/alice/.nix-profile/bin"
    );
    assert_eq!(p.cache, "/home/alice/.cache/loungy");
    assert_eq!(p.config, "/home/alice/.config/loungy");
    assert_eq!(p.data, "/home/alice/.local/share/loungy");
}

#[test]
fn current_user_paths_have_the_expected_shape() {
    let p = paths();
    assert!(p.cache.starts_with("/home/"));
    assert!(p.cache.ends_with("/.cache/loungy"));
    assert!(p.config.ends_with("/.config/loungy"));
    assert!(p.data.ends_with("/.local/share/loungy"));
    assert!(p.path_env.starts_with("/opt/homebrew/bin:/usr/local/bin:/home/"));
}

#[test]
fn clipboard_watcher_switches() {
    let mut w = ClipboardWatcher::init();
    assert!(w.is_enabled());
    w.disabled();
    assert!(!w.is_enabled());
    w.enabled();
    assert!(w.is_enabled());
}

#[test]
fn platform_without_enumeration_reports_nothing() {
    assert!(get_application_data("/usr/share/applications/editor.desktop").is_none());
    assert!(get_application_folders().is_empty());
    assert!(get_application_files().is_empty());
    assert!(get_frontmost_application_data().is_none());
}

#[test]
fn toast_window_style_is_sized_for_the_message() {
    let style = LWindowStyle::toast_for_message(10);
    assert_eq!(style, LWindowStyle::Toast { width: 120, height: 50 });
}

#[test]
fn window_visibility_controller_toggles() {
    let mut w = LWindow::init();
    assert!(w.is_open());
    w.close();
    assert!(!w.is_open());
    w.open();
    assert!(w.is_open());
    w.toggle();
    assert!(!w.is_open());
    w.open();
    w.open();
    assert!(w.is_open());
}
