use loungy::actions::{ActionHandler, KeyOutcome, LAction, LActions};
use loungy::keys::{Keystroke, Modifiers, Shortcut};

fn action(label: &str, shortcut: Option<Shortcut>, id: u64, hide: bool) -> LAction {
    LAction::new(label, shortcut, ActionHandler::Host(id), hide)
}

fn plain_key(key: &str) -> Keystroke {
    Keystroke::new(key, Modifiers::none())
}

#[test]
fn combined_of_empty_lists_is_empty() {
    let a = LActions::new();
    assert_eq!(a.combined().len(), 0);
    assert_eq!(a.menu_entries().len(), 0);
}

#[test]
fn combined_binds_first_entry_to_enter_and_appends_menu_entry() {
    let mut a = LActions::new();
    a.update_local(vec![action("Open", None, 1, false), action("Copy", None, 2, false)]);
    let cmb = a.combined();
    assert_eq!(cmb.len(), 3);
    let first_shortcut = cmb[0].shortcut.as_ref().unwrap().get();
    assert_eq!(first_shortcut.key, "enter");
    assert_eq!(cmb[2].label, "Actions");
    assert!(cmb[2].hide);
    assert!(matches!(cmb[2].handler, ActionHandler::OpenMenu));
}

#[test]
fn menu_entries_exclude_hidden() {
    let mut a = LActions::new();
    a.update_local(vec![
        action("Open", None, 1, false),
        action("Secret", Some(Shortcut::new("s")), 2, true),
        action("Copy", None, 3, false),
    ]);
    let vis = a.menu_entries();
    assert_eq!(vis.len(), 2);
    assert_eq!(vis[0].label, "Open");
    assert_eq!(vis[1].label, "Copy");
}

#[test]
fn resolve_is_deterministic_and_prefers_local() {
    let mut a = LActions::new();
    a.update_global(vec![action("Global", Some(Shortcut::new("x")), 10, false)]);
    a.update_local(vec![
        action("LocalFirst", None, 1, false),
        action("LocalX", Some(Shortcut::new("x")), 2, false),
    ]);
    let k = plain_key("x");
    let r1 = a.check(&k).unwrap();
    let r2 = a.check(&k).unwrap();
    assert_eq!(r1.label, "LocalX");
    assert_eq!(r2.label, "LocalX");
}

#[test]
fn resolve_honors_modifiers() {
    let mut a = LActions::new();
    a.update_local(vec![
        action("First", None, 0, false),
        action("CtrlX", Some(Shortcut::new("x").ctrl()), 1, false),
    ]);
    assert!(a.check(&plain_key("x")).is_none());
    let mut mods = Modifiers::none();
    mods.control = true;
    assert!(a.check(&Keystroke::new("x", mods)).is_some());
}

#[test]
fn held_repeat_does_not_retrigger() {
    let mut a = LActions::new();
    a.update_local(vec![
        action("First", None, 0, false),
        action("Open", Some(Shortcut::new("o")), 1, false),
    ]);
    let out = a.handle_keystroke(&plain_key("o"), true);
    assert!(matches!(out, KeyOutcome::Ignored));
    let out = a.handle_keystroke(&plain_key("o"), false);
    match out {
        KeyOutcome::Invoke(entry) => assert_eq!(entry.label, "Open"),
        other => panic!("expected invoke, got {:?}", other),
    }
}

#[test]
fn unclaimed_tab_cycles_dropdown() {
    let mut a = LActions::new();
    a.set_dropdown(
        "one",
        vec![
            (String::from("one"), String::from("One")),
            (String::from("two"), String::from("Two")),
        ],
    );
    let out = a.handle_keystroke(&plain_key("tab"), false);
    assert!(matches!(out, KeyOutcome::DropdownCycled));
    assert_eq!(a.get_dropdown_value(), "two");
    let out = a.handle_keystroke(&plain_key("tab"), false);
    assert!(matches!(out, KeyOutcome::DropdownCycled));
    assert_eq!(a.get_dropdown_value(), "one");
}

#[test]
fn unclaimed_escape_requests_close() {
    let mut a = LActions::new();
    let out = a.handle_keystroke(&plain_key("escape"), false);
    assert!(matches!(out, KeyOutcome::CloseRequested));
}

#[test]
fn menu_shortcut_toggles_menu() {
    let mut a = LActions::new();
    a.update_local(vec![action("Open", None, 1, false)]);
    let mut mods = Modifiers::none();
    mods.platform = true;
    let cmd_k = Keystroke::new("k", mods);
    let out = a.handle_keystroke(&cmd_k, false);
    assert!(matches!(out, KeyOutcome::MenuToggled));
    assert!(a.show);
    let out = a.handle_keystroke(&cmd_k, false);
    assert!(matches!(out, KeyOutcome::MenuToggled));
    assert!(!a.show);
}

#[test]
fn menu_enter_selects_first_visible_entry() {
    let mut a = LActions::new();
    a.update_local(vec![action("Open", None, 1, false), action("Copy", None, 2, false)]);
    a.show = true;
    let out = a.menu_handle_keystroke(&plain_key("enter"), false);
    match out {
        KeyOutcome::Invoke(entry) => assert_eq!(entry.label, "Open"),
        other => panic!("expected invoke, got {:?}", other),
    }
    assert!(!a.show);
}

#[test]
fn menu_enter_on_empty_menu_just_closes() {
    let mut a = LActions::new();
    a.show = true;
    let out = a.menu_handle_keystroke(&plain_key("enter"), false);
    assert!(matches!(out, KeyOutcome::MenuClosed));
    assert!(!a.show);
}

#[test]
fn menu_escape_closes_without_invoking() {
    let mut a = LActions::new();
    a.update_local(vec![action("Open", None, 1, false)]);
    a.show = true;
    let out = a.menu_handle_keystroke(&plain_key("escape"), false);
    assert!(matches!(out, KeyOutcome::MenuClosed));
    assert!(!a.show);
}

#[test]
fn dropdown_set_value_refuses_unknown() {
    let mut a = LActions::new();
    a.set_dropdown(
        "one",
        vec![
            (String::from("one"), String::from("One")),
            (String::from("two"), String::from("Two")),
        ],
    );
    a.set_dropdown_value("three");
    assert_eq!(a.get_dropdown_value(), "one");
    a.set_dropdown_value("two");
    assert_eq!(a.get_dropdown_value(), "two");
    a.set_dropdown_value("");
    assert_eq!(a.get_dropdown_value(), "");
}

#[test]
fn dropdown_cycle_on_empty_is_noop() {
    let mut a = LActions::new();
    a.dropdown_cycle();
    assert_eq!(a.get_dropdown_value(), "");
}

#[test]
fn clear_local_removes_local_entries() {
    let mut a = LActions::new();
    a.update_global(vec![action("Global", None, 10, false)]);
    a.update_local(vec![action("Local", None, 1, false)]);
    a.clear_local();
    let cmb = a.combined();
    // the global entry plus the synthetic menu entry
    assert_eq!(cmb.len(), 2);
    assert_eq!(cmb[0].label, "Global");
}

#[test]
fn shortcut_builders_set_modifiers() {
    let k = Shortcut::new("p").cmd().shift().get();
    assert!(k.modifiers.platform);
    assert!(k.modifiers.shift);
    assert!(!k.modifiers.control);
    assert!(!k.modifiers.alt);
    assert_eq!(k.key, "p");
    let k = Shortcut::new("q").ctrl().alt().get();
    assert!(k.modifiers.control);
    assert!(k.modifiers.alt);
}
