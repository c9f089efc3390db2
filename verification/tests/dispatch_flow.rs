use loungy::commands::{RootCommands, RootListBuilder};
use loungy::dispatch::{
    ApplyEffect, CommandPayload, ControlState, DispatchError, TopLevelCommand,
};
use loungy::toast::ToastState;
use loungy::wire::{decode_payload, encode_payload};

fn fresh() -> (ControlState, RootCommands) {
    (ControlState::init(&RootListBuilder), RootCommands::init())
}

fn payload(action: TopLevelCommand, command: Option<&str>) -> CommandPayload {
    CommandPayload::new(action, command.map(String::from))
}

const NOW: u64 = 1_000_000;

#[test]
fn show_hide_toggle_drive_visibility() {
    let (mut ctrl, registry) = fresh();
    assert!(!ctrl.window.hidden);
    let eff = ctrl.apply(&registry, &payload(TopLevelCommand::Hide, None), NOW).unwrap();
    assert_eq!(eff, ApplyEffect::ArmHiddenReset);
    assert!(ctrl.window.hidden);
    let eff = ctrl.apply(&registry, &payload(TopLevelCommand::Show, None), NOW).unwrap();
    assert_eq!(eff, ApplyEffect::Continue);
    assert!(!ctrl.window.hidden);
    let eff = ctrl.apply(&registry, &payload(TopLevelCommand::Toggle, None), NOW).unwrap();
    assert_eq!(eff, ApplyEffect::ArmHiddenReset);
    assert!(ctrl.window.hidden);
    let eff = ctrl.apply(&registry, &payload(TopLevelCommand::Toggle, None), NOW).unwrap();
    assert_eq!(eff, ApplyEffect::Continue);
    assert!(!ctrl.window.hidden);
}

#[test]
fn quit_and_pipe_leave_state_alone() {
    let (mut ctrl, registry) = fresh();
    let eff = ctrl.apply(&registry, &payload(TopLevelCommand::Quit, None), NOW).unwrap();
    assert_eq!(eff, ApplyEffect::Quit);
    let eff = ctrl.apply(&registry, &payload(TopLevelCommand::Pipe, None), NOW).unwrap();
    assert_eq!(eff, ApplyEffect::Continue);
    assert_eq!(ctrl.state.inner.stack.len(), 1);
    assert!(!ctrl.window.hidden);
}

#[test]
fn unknown_command_fails_closed_and_changes_nothing() {
    let (mut ctrl, registry) = fresh();
    ctrl.state.inner.stack[0].query = String::from("typed");
    let err = ctrl
        .apply(&registry, &payload(TopLevelCommand::Command, Some("nonexistent")), NOW)
        .unwrap_err();
    assert_eq!(err, DispatchError::CommandNotFound);
    assert_eq!(ctrl.state.inner.stack.len(), 1);
    assert_eq!(ctrl.state.inner.stack[0].query, "typed");
    assert!(!ctrl.window.hidden);
}

#[test]
fn command_without_name_is_refused() {
    let (mut ctrl, registry) = fresh();
    let err = ctrl.apply(&registry, &payload(TopLevelCommand::Command, None), NOW).unwrap_err();
    assert_eq!(err, DispatchError::NoCommandProvided);
    assert_eq!(ctrl.state.inner.stack.len(), 1);
}

#[test]
fn invoking_command_from_root_resets_then_pushes_one_view() {
    let (mut ctrl, registry) = fresh();
    ctrl.state.inner.stack[0].query = String::from("typed");
    let eff = ctrl
        .apply(&registry, &payload(TopLevelCommand::Command, Some("themes")), NOW)
        .unwrap();
    assert_eq!(eff, ApplyEffect::Continue);
    assert_eq!(ctrl.state.inner.stack.len(), 2);
    assert_eq!(ctrl.state.inner.stack[0].query, "");
    assert_eq!(ctrl.state.inner.stack[1].id, "loungy::commands::themes");
    assert!(!ctrl.window.hidden);
}

#[test]
fn invoking_active_command_only_toggles_visibility() {
    let (mut ctrl, registry) = fresh();
    ctrl.apply(&registry, &payload(TopLevelCommand::Command, Some("themes")), NOW).unwrap();
    assert_eq!(ctrl.state.inner.stack.len(), 2);
    // the themes view is active; invoking themes again toggles, depth stays 2
    let eff = ctrl
        .apply(&registry, &payload(TopLevelCommand::Command, Some("themes")), NOW)
        .unwrap();
    assert_eq!(eff, ApplyEffect::ArmHiddenReset);
    assert!(ctrl.window.hidden);
    assert_eq!(ctrl.state.inner.stack.len(), 2);
    let eff = ctrl
        .apply(&registry, &payload(TopLevelCommand::Command, Some("themes")), NOW)
        .unwrap();
    assert_eq!(eff, ApplyEffect::Continue);
    assert!(!ctrl.window.hidden);
    assert_eq!(ctrl.state.inner.stack.len(), 2);
}

#[test]
fn error_effect_command_surfaces_toast_on_root() {
    let (mut ctrl, registry) = fresh();
    let eff = ctrl
        .apply(&registry, &payload(TopLevelCommand::Command, Some("loungy")), NOW)
        .unwrap();
    assert_eq!(eff, ApplyEffect::Continue);
    assert_eq!(ctrl.state.inner.stack.len(), 1);
    match &ctrl.state.inner.stack[0].actions.toast.state {
        ToastState::Error { message, fade_in, .. } => {
            assert_eq!(message, "Preferences not yet implemented");
            assert_eq!(*fade_in, NOW);
        },
        other => panic!("expected error toast, got {:?}", other),
    }
    assert!(!ctrl.window.hidden);
}

#[test]
fn hidden_reset_fires_only_while_hidden() {
    let (mut ctrl, registry) = fresh();
    ctrl.apply(&registry, &payload(TopLevelCommand::Command, Some("themes")), NOW).unwrap();
    ctrl.apply(&registry, &payload(TopLevelCommand::Hide, None), NOW).unwrap();
    assert_eq!(ctrl.state.inner.stack.len(), 2);
    // shown again before the grace period ends: the stale task is a no-op
    ctrl.apply(&registry, &payload(TopLevelCommand::Show, None), NOW).unwrap();
    ctrl.hidden_reset_fire();
    assert_eq!(ctrl.state.inner.stack.len(), 2);
    // hidden through the whole grace period: the task resets to the root
    ctrl.apply(&registry, &payload(TopLevelCommand::Hide, None), NOW).unwrap();
    ctrl.hidden_reset_fire();
    assert_eq!(ctrl.state.inner.stack.len(), 1);
    assert_eq!(ctrl.state.inner.stack[0].id, "loungy::commands::root");
    assert!(ctrl.window.hidden);
}

#[test]
fn end_to_end_over_the_wire() {
    let (mut ctrl, registry) = fresh();
    // start hidden so Show has something to do
    ctrl.apply(&registry, &payload(TopLevelCommand::Hide, None), NOW).unwrap();

    // client sends Show: server goes hidden -> shown, no stack mutation
    let wire = encode_payload(&payload(TopLevelCommand::Show, None));
    let req = decode_payload(&wire).expect("client-encoded request must decode");
    ctrl.apply(&registry, &req, NOW).unwrap();
    assert!(!ctrl.window.hidden);
    assert_eq!(ctrl.state.inner.stack.len(), 1);

    // client sends Command("themes") while the root is active: depth becomes 2
    let wire = encode_payload(&payload(TopLevelCommand::Command, Some("themes")));
    let req = decode_payload(&wire).unwrap();
    ctrl.apply(&registry, &req, NOW).unwrap();
    assert_eq!(ctrl.state.inner.stack.len(), 2);
    assert_eq!(ctrl.state.inner.stack[1].id, "loungy::commands::themes");

    // the same command again while its view is active: visibility toggles,
    // depth stays 2
    let wire = encode_payload(&payload(TopLevelCommand::Command, Some("themes")));
    let req = decode_payload(&wire).unwrap();
    ctrl.apply(&registry, &req, NOW).unwrap();
    assert!(ctrl.window.hidden);
    assert_eq!(ctrl.state.inner.stack.len(), 2);
}
