//! Per-view action sets and keystroke resolution.
//!
//! Each view owns an [`LActions`]: a local action list layered over a
//! workspace-wide global list. The combined list is computed fresh on demand;
//! its first entry is implicitly bound to Enter, and a synthetic hidden entry
//! that opens the action menu is appended whenever the list is non-empty.
//! Keystrokes resolve to the first entry in combined order whose shortcut
//! matches, so local entries always win over global ones.

use vstd::prelude::*;

use crate::keys::{KeyView, Keystroke, Modifiers, Shortcut};
use crate::toast::{Toast, ToastView};

verus! {

/// What an action does when invoked. Actions are data: host-defined actions
/// carry an id into the host's handler table, and the one resolver-internal
/// action opens the action menu.
#[derive(Clone, Copy, PartialEq, Eq, Structural, Debug)]
pub enum ActionHandler {
    /// Toggles the action menu of the resolver that owns the entry.
    OpenMenu,
    /// An id into the host's table of action handlers.
    Host(u64),
}

/// One entry of an action list.
#[derive(Debug)]
pub struct LAction {
    pub label: String,
    pub shortcut: Option<Shortcut>,
    pub handler: ActionHandler,
    pub hide: bool,
}

/// The mathematical value of an action entry.
pub ghost struct ActionView {
    pub label: Seq<char>,
    pub shortcut: Option<KeyView>,
    pub handler: ActionHandler,
    pub hide: bool,
}

impl View for LAction {
    type V = ActionView;

    open spec fn view(&self) -> ActionView {
        ActionView {
            label: self.label@,
            shortcut: match self.shortcut {
                Some(s) => Some(s@),
                None => None,
            },
            handler: self.handler,
            hide: self.hide,
        }
    }
}

impl LAction {
    pub fn new(label: &str, shortcut: Option<Shortcut>, handler: ActionHandler, hide: bool) -> (a:
        LAction)
        ensures
            a@ == (ActionView {
                label: label@,
                shortcut: match shortcut {
                    Some(s) => Some(s@),
                    None => None,
                },
                handler,
                hide,
            }),
    {
        LAction { label: String::from_str(label), shortcut, handler, hide }
    }

    pub fn duplicate(&self) -> (a: LAction)
        ensures
            a@ == self@,
    {
        LAction {
            label: self.label.clone(),
            shortcut: match &self.shortcut {
                Some(s) => Some(s.duplicate()),
                None => None,
            },
            handler: self.handler,
            hide: self.hide,
        }
    }
}

/// The views of a sequence of action entries.
pub open spec fn action_views(s: Seq<LAction>) -> Seq<ActionView> {
    s.map_values(|a: LAction| a@)
}

/// A per-view selector cycled with Tab: a current value plus the
/// `(value, label)` pairs offered.
#[derive(Debug)]
pub struct Dropdown {
    pub value: String,
    pub items: Vec<(String, String)>,
}

/// The mathematical value of a dropdown.
pub ghost struct DropdownView {
    pub value: Seq<char>,
    pub items: Seq<(Seq<char>, Seq<char>)>,
}

impl View for Dropdown {
    type V = DropdownView;

    open spec fn view(&self) -> DropdownView {
        DropdownView {
            value: self.value@,
            items: self.items@.map_values(|p: (String, String)| (p.0@, p.1@)),
        }
    }
}

/// The first index whose item value equals `v`, if any.
pub open spec fn find_item(items: Seq<(Seq<char>, Seq<char>)>, v: Seq<char>) -> Option<int>
    decreases items.len(),
{
    if items.len() == 0 {
        None
    } else if items[0].0 == v {
        Some(0)
    } else {
        match find_item(items.drop_first(), v) {
            Some(i) => Some(i + 1),
            None => None,
        }
    }
}

/// What `find_item` returns: the first matching index, or nothing anywhere.
pub proof fn lemma_find_item_characterization(items: Seq<(Seq<char>, Seq<char>)>, v: Seq<char>)
    ensures
        match find_item(items, v) {
            Some(i) => 0 <= i < items.len() && items[i].0 == v && forall|j: int|
                0 <= j < i ==> items[j].0 != v,
            None => forall|j: int| 0 <= j < items.len() ==> items[j].0 != v,
        },
    decreases items.len(),
{
    if items.len() > 0 && items[0].0 != v {
        let rest = items.drop_first();
        lemma_find_item_characterization(rest, v);
        assert(forall|j: int| 0 <= j < rest.len() ==> rest[j] == items[j + 1]);
        match find_item(rest, v) {
            Some(i) => {
                assert(rest[i] == items[i + 1]);
                assert forall|j: int| 0 <= j < i + 1 implies items[j].0 != v by {
                    if j > 0 {
                        assert(rest[j - 1] == items[j]);
                    }
                }
            },
            None => {
                assert forall|j: int| 0 <= j < items.len() implies items[j].0 != v by {
                    if j > 0 {
                        assert(rest[j - 1] == items[j]);
                    }
                }
            },
        }
    }
}

/// Tab cycles the dropdown to the item after the current one, wrapping
/// around; an absent current value counts as position zero; an empty
/// dropdown is left alone.
pub open spec fn spec_cycle(d: DropdownView) -> DropdownView {
    if d.items.len() == 0 {
        d
    } else {
        let i = match find_item(d.items, d.value) {
            Some(i) => i,
            None => 0,
        };
        DropdownView { value: d.items[(i + 1) % (d.items.len() as int)].0, ..d }
    }
}

/// Setting the dropdown to a value it does not offer is refused; setting it
/// to the empty value always clears it.
pub open spec fn spec_set_value(d: DropdownView, v: Seq<char>) -> DropdownView {
    if v.len() == 0 {
        DropdownView { value: v, ..d }
    } else if find_item(d.items, v) is Some {
        DropdownView { value: v, ..d }
    } else {
        d
    }
}

impl Dropdown {
    pub fn empty() -> (d: Dropdown)
        ensures
            d@.value == Seq::<char>::empty(),
            d@.items == Seq::<(Seq<char>, Seq<char>)>::empty(),
    {
        Dropdown { value: String::new(), items: Vec::new() }
    }

    /// The first index holding `v`, matching `find_item` on the view.
    fn position_of(&self, v: &str) -> (r: Option<usize>)
        ensures
            match r {
                Some(i) => find_item(self@.items, v@) == Some(i as int),
                None => find_item(self@.items, v@) is None,
            },
    {
        let n = self.items.len();
        let mut i: usize = 0;
        while i < n
            invariant
                n == self.items.len(),
                0 <= i <= n,
                forall|j: int| 0 <= j < i ==> self@.items[j].0 != v@,
            decreases n - i,
        {
            if crate::text::str_eq(self.items[i].0.as_str(), v) {
                proof {
                    assert(self@.items[i as int].0 == self.items@[i as int].0@);
                    lemma_find_item_characterization(self@.items, v@);
                }
                return Some(i);
            }
            i = i + 1;
        }
        proof {
            lemma_find_item_characterization(self@.items, v@);
        }
        None
    }

    pub fn set_value(&mut self, v: &str)
        ensures
            final(self)@ == spec_set_value(old(self)@, v@),
    {
        if v.is_empty() {
            self.value = String::from_str(v);
        } else if self.position_of(v).is_some() {
            self.value = String::from_str(v);
        }
    }

    pub fn cycle(&mut self)
        ensures
            final(self)@ == spec_cycle(old(self)@),
    {
        if self.items.len() == 0 {
            return ;
        }
        let i = match self.position_of(self.value.as_str()) {
            Some(i) => i,
            None => 0,
        };
        proof {
            lemma_find_item_characterization(self@.items, self@.value);
        }
        let next = (i + 1) % self.items.len();
        self.value = self.items[next].0.clone();
    }
}

/// The keystroke the first combined entry is implicitly bound to.
pub open spec fn enter_key() -> KeyView {
    KeyView { modifiers: Modifiers::spec_none(), key: "enter"@ }
}

/// The keystroke bound to the synthetic entry that opens the action menu.
pub open spec fn menu_open_key() -> KeyView {
    KeyView {
        modifiers: Modifiers { control: false, alt: false, shift: false, platform: true },
        key: "k"@,
    }
}

/// Tab with no modifiers cycles the dropdown when no action claims it.
pub open spec fn tab_key() -> KeyView {
    KeyView { modifiers: Modifiers::spec_none(), key: "tab"@ }
}

/// Escape with no modifiers closes the surface (or the menu) when unclaimed.
pub open spec fn escape_key() -> KeyView {
    KeyView { modifiers: Modifiers::spec_none(), key: "escape"@ }
}

/// The synthetic entry appended to a non-empty combined list: it participates
/// in shortcut matching but is hidden from the visible menu.
pub open spec fn menu_entry() -> ActionView {
    ActionView {
        label: "Actions"@,
        shortcut: Some(menu_open_key()),
        handler: ActionHandler::OpenMenu,
        hide: true,
    }
}

/// The combined action list: local entries first, then global ones. When
/// non-empty, the first entry is rebound to Enter and the synthetic menu
/// entry is appended; an empty list stays empty, so the menu entry never
/// stands alone.
pub open spec fn spec_combined(local: Seq<ActionView>, global: Seq<ActionView>) -> Seq<ActionView> {
    let base = local + global;
    if base.len() == 0 {
        base
    } else {
        base.update(0, ActionView { shortcut: Some(enter_key()), ..base[0] }).push(menu_entry())
    }
}

/// The first index whose shortcut is bound to exactly `k`, if any.
pub open spec fn first_match(entries: Seq<ActionView>, k: KeyView) -> Option<int>
    decreases entries.len(),
{
    if entries.len() == 0 {
        None
    } else if entries[0].shortcut == Some(k) {
        Some(0)
    } else {
        match first_match(entries.drop_first(), k) {
            Some(i) => Some(i + 1),
            None => None,
        }
    }
}

/// What `first_match` returns: the first matching index, or nothing anywhere.
pub proof fn lemma_first_match_characterization(entries: Seq<ActionView>, k: KeyView)
    ensures
        match first_match(entries, k) {
            Some(i) => 0 <= i < entries.len() && entries[i].shortcut == Some(k) && forall|j: int|
                0 <= j < i ==> entries[j].shortcut != Some(k),
            None => forall|j: int| 0 <= j < entries.len() ==> entries[j].shortcut != Some(k),
        },
    decreases entries.len(),
{
    if entries.len() > 0 && entries[0].shortcut != Some(k) {
        let rest = entries.drop_first();
        lemma_first_match_characterization(rest, k);
        assert(forall|j: int| 0 <= j < rest.len() ==> rest[j] == entries[j + 1]);
        match first_match(rest, k) {
            Some(i) => {
                assert(rest[i] == entries[i + 1]);
                assert forall|j: int| 0 <= j < i + 1 implies entries[j].shortcut != Some(k) by {
                    if j > 0 {
                        assert(rest[j - 1] == entries[j]);
                    }
                }
            },
            None => {
                assert forall|j: int| 0 <= j < entries.len() implies entries[j].shortcut != Some(
                    k,
                ) by {
                    if j > 0 {
                        assert(rest[j - 1] == entries[j]);
                    }
                }
            },
        }
    }
}

/// The mathematical value of an action set.
pub ghost struct ActionsView {
    pub global: Seq<ActionView>,
    pub local: Seq<ActionView>,
    pub show: bool,
    pub dropdown: DropdownView,
    pub toast: ToastView,
}

/// The combined list an action set resolves against.
pub open spec fn combined_of(v: ActionsView) -> Seq<ActionView> {
    spec_combined(v.local, v.global)
}

/// The entries the action menu lists: the combined list without hidden ones.
pub open spec fn visible_entries(v: ActionsView) -> Seq<ActionView> {
    combined_of(v).filter(|a: ActionView| !a.hide)
}

/// What resolving keystroke `k` against action set `v` may return: the entry
/// at the first matching position of the combined list, or nothing when no
/// entry matches. This pins the result, so resolution is a function of the
/// list and the keystroke.
pub open spec fn resolve_post(v: ActionsView, k: KeyView, r: Option<ActionView>) -> bool {
    let cmb = combined_of(v);
    match r {
        Some(a) => first_match(cmb, k) matches Some(i) && a == cmb[i],
        None => first_match(cmb, k) is None,
    }
}

/// The action set of one view: a local list layered over the global list,
/// plus the menu flag, the Tab dropdown and the toast slot.
#[derive(Debug)]
pub struct LActions {
    pub global: Vec<LAction>,
    pub local: Vec<LAction>,
    pub show: bool,
    pub dropdown: Dropdown,
    pub toast: Toast,
}

impl View for LActions {
    type V = ActionsView;

    open spec fn view(&self) -> ActionsView {
        ActionsView {
            global: action_views(self.global@),
            local: action_views(self.local@),
            show: self.show,
            dropdown: self.dropdown@,
            toast: self.toast@,
        }
    }
}

/// What a keystroke handed to an action set came to.
#[derive(Debug)]
pub enum KeyOutcome {
    /// A held-key repeat that would have re-triggered an action; dropped.
    Ignored,
    /// The entry the host must invoke.
    Invoke(LAction),
    /// The synthetic menu entry matched; the menu flag was toggled.
    MenuToggled,
    /// Unclaimed Tab; the dropdown was cycled.
    DropdownCycled,
    /// Unclaimed Escape outside the menu; the host should hide the surface.
    CloseRequested,
    /// Escape inside the menu, or Enter on an empty menu; the menu was closed.
    MenuClosed,
    /// Nothing claimed the keystroke.
    Unhandled,
}

/// A fresh action set: no entries, menu closed, empty dropdown, idle toast.
pub open spec fn empty_actions_view() -> ActionsView {
    ActionsView {
        global: Seq::<ActionView>::empty(),
        local: Seq::<ActionView>::empty(),
        show: false,
        dropdown: DropdownView {
            value: Seq::<char>::empty(),
            items: Seq::<(Seq<char>, Seq<char>)>::empty(),
        },
        toast: ToastView::Idle,
    }
}

impl LActions {
    pub fn new() -> (a: LActions)
        ensures
            a@ == empty_actions_view(),
    {
        let a = LActions {
            global: Vec::new(),
            local: Vec::new(),
            show: false,
            dropdown: Dropdown::empty(),
            toast: Toast::init(),
        };
        proof {
            assert(action_views(a.global@) =~= Seq::<ActionView>::empty());
            assert(action_views(a.local@) =~= Seq::<ActionView>::empty());
        }
        a
    }

    /// Replaces the workspace-wide action list.
    pub fn update_global(&mut self, actions: Vec<LAction>)
        ensures
            final(self)@ == (ActionsView { global: action_views(actions@), ..old(self)@ }),
    {
        self.global = actions;
    }

    /// Replaces the view-specific action list.
    pub fn update_local(&mut self, actions: Vec<LAction>)
        ensures
            final(self)@ == (ActionsView { local: action_views(actions@), ..old(self)@ }),
    {
        self.local = actions;
    }

    /// Clears the view-specific action list.
    pub fn clear_local(&mut self)
        ensures
            final(self)@ == (ActionsView { local: Seq::<ActionView>::empty(), ..old(self)@ }),
    {
        self.local = Vec::new();
        proof {
            assert(action_views(self.local@) =~= Seq::<ActionView>::empty());
        }
    }

    /// The combined list, computed fresh: local before global, first entry
    /// rebound to Enter, synthetic menu entry appended when non-empty.
    pub fn combined(&self) -> (r: Vec<LAction>)
        ensures
            action_views(r@) == combined_of(self@),
    {
        let ghost base = self@.local + self@.global;
        let mut out: Vec<LAction> = Vec::new();
        let mut i: usize = 0;
        while i < self.local.len()
            invariant
                0 <= i <= self.local.len(),
                out@.len() == i,
                forall|j: int| 0 <= j < i ==> #[trigger] out@[j]@ == self@.local[j],
            decreases self.local.len() - i,
        {
            out.push(self.local[i].duplicate());
            i = i + 1;
        }
        let mut j: usize = 0;
        while j < self.global.len()
            invariant
                0 <= j <= self.global.len(),
                out@.len() == self.local@.len() + j,
                forall|t: int| 0 <= t < self.local@.len() ==> #[trigger] out@[t]@ == self@.local[t],
                forall|t: int| 0 <= t < j ==> #[trigger] out@[self.local@.len() + t]@
                    == self@.global[t],
            decreases self.global.len() - j,
        {
            out.push(self.global[j].duplicate());
            j = j + 1;
        }
        proof {
            assert forall|t: int| 0 <= t < out@.len() implies action_views(out@)[t] == base[t] by {
                assert(action_views(out@)[t] == out@[t]@);
                if t < self.local@.len() {
                    assert(out@[t]@ == self@.local[t]);
                } else {
                    assert(out@[self.local@.len() + (t - self.local@.len())]@ == self@.global[t
                        - self.local@.len()]);
                }
            }
            assert(action_views(out@) =~= base);
        }
        if out.len() > 0 {
            let mut head = out[0].duplicate();
            head.shortcut = Some(Shortcut::new("enter"));
            out[0] = head;
            out.push(
                LAction::new("Actions", Some(Shortcut::new("k").cmd()), ActionHandler::OpenMenu, true),
            );
            proof {
                assert(action_views(out@) =~= base.update(
                    0,
                    ActionView { shortcut: Some(enter_key()), ..base[0] },
                ).push(menu_entry()));
            }
        }
        out
    }

    /// Resolves a keystroke against the combined list: the first entry whose
    /// shortcut is the keystroke wins, so repeated calls on an unchanged set
    /// return the same entry.
    pub fn check(&self, keystroke: &Keystroke) -> (r: Option<LAction>)
        ensures
            resolve_post(
                self@,
                keystroke@,
                match r {
                    Some(a) => Some(a@),
                    None => None,
                },
            ),
    {
        let cmb = self.combined();
        let n = cmb.len();
        let mut i: usize = 0;
        while i < n
            invariant
                n == cmb.len(),
                0 <= i <= n,
                action_views(cmb@) == combined_of(self@),
                forall|j: int| 0 <= j < i ==> #[trigger] action_views(cmb@)[j].shortcut != Some(
                    keystroke@,
                ),
            decreases n - i,
        {
            let hit = match &cmb[i].shortcut {
                Some(sc) => sc.inner.matches(keystroke),
                None => false,
            };
            if hit {
                proof {
                    assert(action_views(cmb@)[i as int] == cmb@[i as int]@);
                    assert(action_views(cmb@)[i as int].shortcut == Some(keystroke@));
                    lemma_first_match_characterization(combined_of(self@), keystroke@);
                }
                return Some(cmb[i].duplicate());
            }
            i = i + 1;
        }
        proof {
            lemma_first_match_characterization(combined_of(self@), keystroke@);
        }
        None
    }
}

/// One step of `Seq::filter`.
proof fn lemma_filter_push<A>(s: Seq<A>, x: A, pred: spec_fn(A) -> bool)
    ensures
        s.push(x).filter(pred) == if pred(x) {
            s.filter(pred).push(x)
        } else {
            s.filter(pred)
        },
{
    reveal(Seq::filter);
    assert(s.push(x).drop_last() =~= s);
    assert(s.push(x).last() == x);
}

impl LActions {
    /// The list the action menu shows: combined order, hidden entries left
    /// out. Opening the menu snapshots this.
    pub fn menu_entries(&self) -> (r: Vec<LAction>)
        ensures
            action_views(r@) == visible_entries(self@),
    {
        let cmb = self.combined();
        let n = cmb.len();
        let mut out: Vec<LAction> = Vec::new();
        let mut i: usize = 0;
        while i < n
            invariant
                n == cmb.len(),
                0 <= i <= n,
                action_views(cmb@) == combined_of(self@),
                action_views(out@) == action_views(cmb@).take(i as int).filter(
                    |a: ActionView| !a.hide,
                ),
            decreases n - i,
        {
            proof {
                let cv = action_views(cmb@);
                assert(cv.take(i + 1) =~= cv.take(i as int).push(cv[i as int]));
                lemma_filter_push(cv.take(i as int), cv[i as int], |a: ActionView| !a.hide);
                assert(cv[i as int] == cmb@[i as int]@);
            }
            if !cmb[i].hide {
                out.push(cmb[i].duplicate());
                proof {
                    let cv = action_views(cmb@);
                    assert(action_views(out@) =~= cv.take(i as int).filter(
                        |a: ActionView| !a.hide,
                    ).push(cv[i as int]));
                }
            }
            i = i + 1;
        }
        proof {
            assert(action_views(cmb@).take(n as int) =~= action_views(cmb@));
        }
        out
    }

    /// Handles one keystroke aimed at the active view. A matching entry wins
    /// and is handed back for the host to invoke, except that a held-key
    /// repeat never re-triggers an action and the synthetic menu entry is
    /// applied here. Unclaimed Tab cycles the dropdown; unclaimed Escape
    /// asks the host to hide the surface; anything else is left alone.
    pub fn handle_keystroke(&mut self, keystroke: &Keystroke, is_held: bool) -> (out: KeyOutcome)
        ensures
            ({
                let cmb = combined_of(old(self)@);
                match first_match(cmb, keystroke@) {
                    Some(i) => {
                        if is_held {
                            out is Ignored && *final(self) == *old(self)
                        } else {
                            match cmb[i].handler {
                                ActionHandler::OpenMenu => out is MenuToggled && final(self)@
                                    == (ActionsView { show: !old(self)@.show, ..old(self)@ }),
                                ActionHandler::Host(_) => (out matches KeyOutcome::Invoke(a)
                                    && a@ == cmb[i]) && *final(self) == *old(self),
                            }
                        }
                    },
                    None => {
                        if !is_held && keystroke@ == tab_key() {
                            out is DropdownCycled && final(self)@ == (ActionsView {
                                dropdown: spec_cycle(old(self)@.dropdown),
                                ..old(self)@
                            })
                        } else if keystroke@ == escape_key() {
                            out is CloseRequested && *final(self) == *old(self)
                        } else {
                            out is Unhandled && *final(self) == *old(self)
                        }
                    },
                }
            }),
    {
        let resolved = self.check(keystroke);
        match resolved {
            Some(action) => {
                if is_held {
                    KeyOutcome::Ignored
                } else {
                    match action.handler {
                        ActionHandler::OpenMenu => {
                            self.show = !self.show;
                            KeyOutcome::MenuToggled
                        },
                        ActionHandler::Host(_) => KeyOutcome::Invoke(action),
                    }
                }
            },
            None => {
                if !is_held && keystroke.matches(&Keystroke::new("tab", Modifiers::none())) {
                    self.dropdown.cycle();
                    KeyOutcome::DropdownCycled
                } else if keystroke.matches(&Keystroke::new("escape", Modifiers::none())) {
                    KeyOutcome::CloseRequested
                } else {
                    KeyOutcome::Unhandled
                }
            },
        }
    }

    /// Handles one keystroke while the action menu is open. Enter closes the
    /// menu and default-selects the first visible entry; a matching shortcut
    /// wins as outside the menu; Escape closes the menu without invoking
    /// anything.
    pub fn menu_handle_keystroke(&mut self, keystroke: &Keystroke, is_held: bool) -> (out:
        KeyOutcome)
        ensures
            ({
                let cmb = combined_of(old(self)@);
                let vis = visible_entries(old(self)@);
                if keystroke@ == enter_key() {
                    if vis.len() > 0 {
                        (out matches KeyOutcome::Invoke(a) && a@ == vis[0]) && final(self)@
                            == (ActionsView { show: false, ..old(self)@ })
                    } else {
                        out is MenuClosed && final(self)@ == (ActionsView {
                            show: false,
                            ..old(self)@
                        })
                    }
                } else {
                    match first_match(cmb, keystroke@) {
                        Some(i) => {
                            if is_held {
                                out is Ignored && *final(self) == *old(self)
                            } else {
                                match cmb[i].handler {
                                    ActionHandler::OpenMenu => out is MenuToggled && final(self)@
                                        == (ActionsView { show: !old(self)@.show, ..old(self)@ }),
                                    ActionHandler::Host(_) => (out matches KeyOutcome::Invoke(a)
                                        && a@ == cmb[i]) && *final(self) == *old(self),
                                }
                            }
                        },
                        None => {
                            if keystroke@ == escape_key() {
                                out is MenuClosed && final(self)@ == (ActionsView {
                                    show: false,
                                    ..old(self)@
                                })
                            } else {
                                out is Unhandled && *final(self) == *old(self)
                            }
                        },
                    }
                }
            }),
    {
        if keystroke.matches(&Keystroke::new("enter", Modifiers::none())) {
            let entries = self.menu_entries();
            self.show = false;
            if entries.len() > 0 {
                let first = entries[0].duplicate();
                return KeyOutcome::Invoke(first);
            }
            return KeyOutcome::MenuClosed;
        }
        let resolved = self.check(keystroke);
        match resolved {
            Some(action) => {
                if is_held {
                    KeyOutcome::Ignored
                } else {
                    match action.handler {
                        ActionHandler::OpenMenu => {
                            self.show = !self.show;
                            KeyOutcome::MenuToggled
                        },
                        ActionHandler::Host(_) => KeyOutcome::Invoke(action),
                    }
                }
            },
            None => {
                if keystroke.matches(&Keystroke::new("escape", Modifiers::none())) {
                    self.show = false;
                    KeyOutcome::MenuClosed
                } else {
                    KeyOutcome::Unhandled
                }
            },
        }
    }

    /// Sets the dropdown, refusing values the dropdown does not offer.
    pub fn set_dropdown_value(&mut self, value: &str)
        ensures
            final(self)@ == (ActionsView {
                dropdown: spec_set_value(old(self)@.dropdown, value@),
                ..old(self)@
            }),
    {
        self.dropdown.set_value(value);
    }

    /// Cycles the dropdown to its next item, wrapping around.
    pub fn dropdown_cycle(&mut self)
        ensures
            final(self)@ == (ActionsView {
                dropdown: spec_cycle(old(self)@.dropdown),
                ..old(self)@
            }),
    {
        self.dropdown.cycle();
    }

    /// The dropdown's current value.
    pub fn get_dropdown_value(&self) -> (r: String)
        ensures
            r@ == self@.dropdown.value,
    {
        self.dropdown.value.clone()
    }

    /// Replaces the dropdown's items, then applies `value` under the same
    /// rule as `set_dropdown_value`.
    pub fn set_dropdown(&mut self, value: &str, items: Vec<(String, String)>)
        ensures
            ({
                let with_items = DropdownView {
                    items: items@.map_values(|p: (String, String)| (p.0@, p.1@)),
                    ..old(self)@.dropdown
                };
                final(self)@ == (ActionsView {
                    dropdown: spec_set_value(with_items, value@),
                    ..old(self)@
                })
            }),
    {
        self.dropdown.items = items;
        self.dropdown.set_value(value);
    }
}

/// Resolution is deterministic: any two results that resolving the same
/// keystroke against the same action set admits are equal.
pub proof fn lemma_resolve_deterministic(
    v: ActionsView,
    k: KeyView,
    r1: Option<ActionView>,
    r2: Option<ActionView>,
)
    requires
        resolve_post(v, k, r1),
        resolve_post(v, k, r2),
    ensures
        r1 == r2,
{
}

/// Local entries take precedence: when any entry at a local position of the
/// combined list is bound to the keystroke, resolution picks a local
/// position, never a global one.
pub proof fn lemma_resolve_local_precedence(v: ActionsView, k: KeyView, i: int)
    requires
        0 <= i < v.local.len(),
        combined_of(v)[i].shortcut == Some(k),
    ensures
        first_match(combined_of(v), k) matches Some(j) && j <= i && j < v.local.len(),
{
    let cmb = combined_of(v);
    lemma_first_match_characterization(cmb, k);
}

} // verus!
