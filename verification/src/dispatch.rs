//! The dispatch table: how one decoded client request mutates the
//! control-plane state. All mutation happens on the single state owner;
//! a request that fails leaves the state exactly as it was.

use vstd::prelude::*;

use crate::actions::{empty_actions_view, ActionsView, LActions};
use crate::commands::{CommandEffect, EffectView, RootCommands, spec_find_by_leaf};
use crate::navigation::{ItemView, StateItem, StateModel, StateViewBuilder};
use crate::text::str_eq;
use crate::toast::{ToastView, ERROR_TOAST_MS};
use crate::window::LWindow;

verus! {

/// The action a client request carries.
#[derive(Clone, Copy, PartialEq, Eq, Structural, Debug)]
pub enum TopLevelCommand {
    Toggle,
    Show,
    Hide,
    Quit,
    Command,
    Pipe,
}

/// One client request: an action, plus the command name for `Command`.
#[derive(Debug)]
pub struct CommandPayload {
    pub action: TopLevelCommand,
    pub command: Option<String>,
}

/// The mathematical value of a request.
pub ghost struct PayloadView {
    pub action: TopLevelCommand,
    pub command: Option<Seq<char>>,
}

impl View for CommandPayload {
    type V = PayloadView;

    open spec fn view(&self) -> PayloadView {
        PayloadView {
            action: self.action,
            command: match self.command {
                Some(ref c) => Some(c@),
                None => None,
            },
        }
    }
}

impl CommandPayload {
    pub fn new(action: TopLevelCommand, command: Option<String>) -> (p: CommandPayload)
        ensures
            p.action == action,
            p@.command == match command {
                Some(ref c) => Some(c@),
                None => None::<Seq<char>>,
            },
    {
        CommandPayload { action, command }
    }
}

/// Why applying a request failed; the state is untouched in either case.
#[derive(Clone, Copy, PartialEq, Eq, Structural, Debug)]
pub enum DispatchError {
    /// A `Command` action arrived without a command name.
    NoCommandProvided,
    /// The command name matched no registered command's leaf.
    CommandNotFound,
}

/// What the host must do after a request was applied.
#[derive(Clone, Copy, PartialEq, Eq, Structural, Debug)]
pub enum ApplyEffect {
    /// Nothing beyond the state change.
    Continue,
    /// Terminate the process.
    Quit,
    /// The surface just became hidden: arm the deferred stack reset for
    /// `HIDDEN_RESET_GRACE_MS` from now.
    ArmHiddenReset,
}

/// The control-plane state: the navigation stack and the visibility of the
/// surface, owned together by the event loop.
#[derive(Debug)]
pub struct ControlState {
    pub state: StateModel,
    pub window: LWindow,
}

/// The mathematical value of the control-plane state.
pub ghost struct ControlView {
    pub stack: Seq<ItemView>,
    pub hidden: bool,
}

impl View for ControlState {
    type V = ControlView;

    open spec fn view(&self) -> ControlView {
        ControlView { stack: self.state@, hidden: self.window.hidden }
    }
}

/// The root view after a reset: same view, query text cleared.
pub open spec fn reset_root(root: ItemView) -> ItemView {
    ItemView { query: Seq::<char>::empty(), ..root }
}

impl ControlState {
    /// The stack is never empty.
    pub open spec fn inv(&self) -> bool {
        self.state.inv()
    }

    /// A fresh control plane: the root view alone, surface shown.
    pub fn init<V: StateViewBuilder>(root: &V) -> (c: ControlState)
        ensures
            c.inv(),
            c@.stack.len() == 1,
            c@.stack[0] == (ItemView {
                id: root.spec_command(),
                query: Seq::<char>::empty(),
                actions: empty_actions_view(),
                workspace: true,
            }),
            !c@.hidden,
    {
        ControlState { state: StateModel::init(root), window: LWindow::init() }
    }

    /// The deferred reset armed when the surface went hidden: on wake it
    /// re-checks, and resets the stack only if the surface is still hidden.
    pub fn hidden_reset_fire(&mut self)
        requires
            old(self).inv(),
        ensures
            final(self).inv(),
            old(self)@.hidden ==> final(self)@ == (ControlView {
                stack: seq![reset_root(old(self)@.stack[0])],
                hidden: true,
            }),
            !old(self)@.hidden ==> *final(self) == *old(self),
    {
        if self.window.hidden {
            self.state.reset();
            proof {
                assert(self@.stack =~= seq![reset_root(old(self)@.stack[0])]);
            }
        }
    }

    /// Applies one decoded request, per the dispatch table. Failures leave
    /// the state untouched: a `Command` request is resolved against the
    /// registry before any mutation, and an unknown name fails closed.
    ///
    /// Invoking a command whose id is already the active view's id only
    /// toggles visibility; any other command resets the stack to the root,
    /// applies the command's effect (a pushed view carrying the command's
    /// id, or an error toast on the root), and shows the surface.
    pub fn apply(
        &mut self,
        registry: &RootCommands,
        payload: &CommandPayload,
        now_ms: u64,
    ) -> (r: Result<ApplyEffect, DispatchError>)
        requires
            old(self).inv(),
            now_ms + ERROR_TOAST_MS <= u64::MAX,
        ensures
            final(self).inv(),
            match payload@.action {
                TopLevelCommand::Toggle => final(self)@ == (ControlView {
                    hidden: !old(self)@.hidden,
                    ..old(self)@
                }) && r == Ok::<ApplyEffect, DispatchError>(
                    if old(self)@.hidden {
                        ApplyEffect::Continue
                    } else {
                        ApplyEffect::ArmHiddenReset
                    },
                ),
                TopLevelCommand::Show => final(self)@ == (ControlView {
                    hidden: false,
                    ..old(self)@
                }) && r == Ok::<ApplyEffect, DispatchError>(ApplyEffect::Continue),
                TopLevelCommand::Hide => final(self)@ == (ControlView {
                    hidden: true,
                    ..old(self)@
                }) && r == Ok::<ApplyEffect, DispatchError>(ApplyEffect::ArmHiddenReset),
                TopLevelCommand::Quit => *final(self) == *old(self) && r == Ok::<
                    ApplyEffect,
                    DispatchError,
                >(ApplyEffect::Quit),
                TopLevelCommand::Pipe => *final(self) == *old(self) && r == Ok::<
                    ApplyEffect,
                    DispatchError,
                >(ApplyEffect::Continue),
                TopLevelCommand::Command => match payload@.command {
                    None => *final(self) == *old(self) && r == Err::<ApplyEffect, DispatchError>(
                        DispatchError::NoCommandProvided,
                    ),
                    Some(name) => match spec_find_by_leaf(registry@, name) {
                        None => *final(self) == *old(self) && r == Err::<
                            ApplyEffect,
                            DispatchError,
                        >(DispatchError::CommandNotFound),
                        Some(i) => {
                            let cmd = registry@[i];
                            if old(self)@.stack.last().id == cmd.id {
                                final(self)@ == (ControlView {
                                    hidden: !old(self)@.hidden,
                                    ..old(self)@
                                }) && r == Ok::<ApplyEffect, DispatchError>(
                                    if old(self)@.hidden {
                                        ApplyEffect::Continue
                                    } else {
                                        ApplyEffect::ArmHiddenReset
                                    },
                                )
                            } else {
                                let root = reset_root(old(self)@.stack[0]);
                                r == Ok::<ApplyEffect, DispatchError>(ApplyEffect::Continue)
                                    && !final(self)@.hidden && match cmd.effect {
                                    EffectView::PushView => final(self)@.stack == seq![
                                        root,
                                        ItemView {
                                            id: cmd.id,
                                            query: Seq::<char>::empty(),
                                            actions: empty_actions_view(),
                                            workspace: true,
                                        },
                                    ],
                                    EffectView::ToastError(m) => final(self)@.stack == seq![
                                        ItemView {
                                            actions: ActionsView {
                                                toast: ToastView::Error {
                                                    message: m,
                                                    fade_in: now_ms,
                                                    fade_out: Some(
                                                        (now_ms + ERROR_TOAST_MS) as u64,
                                                    ),
                                                },
                                                ..root.actions
                                            },
                                            ..root
                                        },
                                    ],
                                }
                            }
                        },
                    },
                },
            },
    {
        match payload.action {
            TopLevelCommand::Toggle => {
                self.window.toggle();
                if self.window.hidden {
                    Ok(ApplyEffect::ArmHiddenReset)
                } else {
                    Ok(ApplyEffect::Continue)
                }
            },
            TopLevelCommand::Show => {
                self.window.open();
                Ok(ApplyEffect::Continue)
            },
            TopLevelCommand::Hide => {
                self.window.close();
                Ok(ApplyEffect::ArmHiddenReset)
            },
            TopLevelCommand::Quit => Ok(ApplyEffect::Quit),
            TopLevelCommand::Pipe => Ok(ApplyEffect::Continue),
            TopLevelCommand::Command => {
                let name = match &payload.command {
                    Some(c) => c,
                    None => {
                        return Err(DispatchError::NoCommandProvided);
                    },
                };
                let idx = match registry.find_by_leaf(name.as_str()) {
                    Some(i) => i,
                    None => {
                        return Err(DispatchError::CommandNotFound);
                    },
                };
                proof {
                    crate::commands::lemma_find_by_leaf_characterization(registry@, name@);
                }
                let cmd = &registry.commands[idx];
                let is_active = match self.state.active_id() {
                    Some(id) => str_eq(id.as_str(), cmd.id.as_str()),
                    None => false,
                };
                if is_active {
                    self.window.toggle();
                    if self.window.hidden {
                        Ok(ApplyEffect::ArmHiddenReset)
                    } else {
                        Ok(ApplyEffect::Continue)
                    }
                } else {
                    self.state.reset();
                    match &cmd.effect {
                        CommandEffect::PushView => {
                            let item = StateItem {
                                id: cmd.id.clone(),
                                query: String::new(),
                                actions: LActions::new(),
                                workspace: true,
                            };
                            self.state.push_item(item);
                        },
                        CommandEffect::ToastError(m) => {
                            let mut root = self.state.inner.stack.pop().unwrap();
                            root.actions.toast.error(m.as_str(), now_ms);
                            self.state.inner.stack.push(root);
                            proof {
                                assert(self.state@ =~= seq![
                                    ItemView {
                                        actions: ActionsView {
                                            toast: ToastView::Error {
                                                message: m@,
                                                fade_in: now_ms,
                                                fade_out: Some((now_ms + ERROR_TOAST_MS) as u64),
                                            },
                                            ..reset_root(old(self)@.stack[0]).actions
                                        },
                                        ..reset_root(old(self)@.stack[0])
                                    },
                                ]);
                            }
                        },
                    }
                    self.window.open();
                    Ok(ApplyEffect::Continue)
                }
            },
        }
    }
}

} // verus!
