//! The navigation stack: an always-non-empty sequence of views, the bottom
//! one the root. Every operation leaves the stack non-empty: `pop` on a
//! stack of one is a no-op, and `reset` truncates to the root alone and
//! clears its query text.

use vstd::prelude::*;

use crate::actions::{empty_actions_view, ActionsView, LActions};

verus! {

/// A thing with a stable command id, structured `namespace::group::leaf`.
pub trait CommandTrait {
    /// The id as a mathematical value.
    spec fn spec_command(&self) -> Seq<char>;

    /// The id itself.
    fn command(&self) -> (s: String)
        ensures
            s@ == self.spec_command(),
    ;
}

/// A builder whose built view carries the builder's command id. The view
/// body itself belongs to the rendering layer; the stack tracks only the
/// id, the query text and the action set.
pub trait StateViewBuilder: CommandTrait {

}

/// One position of the navigation stack: a view id, the view's own query
/// text, and its action set.
#[derive(Debug)]
pub struct StateItem {
    pub id: String,
    pub query: String,
    pub actions: LActions,
    pub workspace: bool,
}

/// The mathematical value of a stack position.
pub ghost struct ItemView {
    pub id: Seq<char>,
    pub query: Seq<char>,
    pub actions: ActionsView,
    pub workspace: bool,
}

impl View for StateItem {
    type V = ItemView;

    open spec fn view(&self) -> ItemView {
        ItemView { id: self.id@, query: self.query@, actions: self.actions@, workspace: self.workspace }
    }
}

/// The views of a sequence of stack positions.
pub open spec fn item_views(s: Seq<StateItem>) -> Seq<ItemView> {
    s.map_values(|it: StateItem| it@)
}

impl StateItem {
    /// A fresh view instance for a builder: the builder's command id, an
    /// empty query and a fresh action set.
    pub fn init<V: StateViewBuilder>(view: &V, workspace: bool) -> (item: StateItem)
        ensures
            item@ == (ItemView {
                id: view.spec_command(),
                query: Seq::<char>::empty(),
                actions: empty_actions_view(),
                workspace,
            }),
    {
        StateItem { id: view.command(), query: String::new(), actions: LActions::new(), workspace }
    }
}

/// The stack itself.
#[derive(Debug)]
pub struct State {
    pub stack: Vec<StateItem>,
}

impl View for State {
    type V = Seq<ItemView>;

    open spec fn view(&self) -> Seq<ItemView> {
        item_views(self.stack@)
    }
}

/// The single owner of the navigation stack. All mutation goes through its
/// methods, and each of them keeps the stack non-empty, so at any point
/// after construction the stack holds at least the root view.
#[derive(Debug)]
pub struct StateModel {
    pub inner: State,
}

impl View for StateModel {
    type V = Seq<ItemView>;

    open spec fn view(&self) -> Seq<ItemView> {
        self.inner@
    }
}

impl StateModel {
    /// The stack invariant: never empty. Established by `init` and
    /// preserved by every method.
    pub open spec fn inv(&self) -> bool {
        self@.len() >= 1
    }

    /// A stack holding only the root view built from `root`.
    pub fn init<V: StateViewBuilder>(root: &V) -> (m: StateModel)
        ensures
            m.inv(),
            m@.len() == 1,
            m@[0] == (ItemView {
                id: root.spec_command(),
                query: Seq::<char>::empty(),
                actions: empty_actions_view(),
                workspace: true,
            }),
    {
        let item = StateItem::init(root, true);
        let mut stack: Vec<StateItem> = Vec::new();
        stack.push(item);
        let m = StateModel { inner: State { stack } };
        proof {
            assert(m@ =~= seq![m.inner.stack@[0]@]);
        }
        m
    }

    /// Appends a fresh view built from `view`.
    pub fn push<V: StateViewBuilder>(&mut self, view: &V)
        ensures
            final(self)@ == old(self)@.push(
                ItemView {
                    id: view.spec_command(),
                    query: Seq::<char>::empty(),
                    actions: empty_actions_view(),
                    workspace: true,
                },
            ),
            old(self).inv() ==> final(self).inv(),
    {
        let item = StateItem::init(view, true);
        self.push_item(item);
    }

    /// Appends an already-built view instance.
    pub fn push_item(&mut self, item: StateItem)
        ensures
            final(self)@ == old(self)@.push(item@),
            old(self).inv() ==> final(self).inv(),
    {
        let ghost pre = self.inner.stack@;
        self.inner.stack.push(item);
        proof {
            assert(self@ =~= old(self)@.push(item@));
        }
    }

    /// Removes the top view, unless only the root is left: on a stack of
    /// one this is a no-op, so the root is never popped.
    pub fn pop(&mut self)
        ensures
            old(self)@.len() > 1 ==> final(self)@ == old(self)@.drop_last(),
            old(self)@.len() <= 1 ==> *final(self) == *old(self),
            old(self).inv() ==> final(self).inv(),
    {
        if self.inner.stack.len() > 1 {
            let _ = self.inner.stack.pop();
            proof {
                assert(self@ =~= old(self)@.drop_last());
            }
        }
    }

    /// `pop` then `push`: replaces the top view (or stacks over a lone
    /// root). The pop completes before the push begins.
    pub fn replace<V: StateViewBuilder>(&mut self, view: &V)
        ensures
            ({
                let item = ItemView {
                    id: view.spec_command(),
                    query: Seq::<char>::empty(),
                    actions: empty_actions_view(),
                    workspace: true,
                };
                &&& old(self)@.len() > 1 ==> final(self)@ == old(self)@.drop_last().push(item)
                &&& old(self)@.len() <= 1 ==> final(self)@ == old(self)@.push(item)
            }),
            old(self).inv() ==> final(self).inv(),
    {
        self.pop();
        self.push(view);
    }

    /// Truncates to the root alone and clears the root's query text; the
    /// root view itself is kept.
    pub fn reset(&mut self)
        requires
            old(self).inv(),
        ensures
            final(self).inv(),
            final(self)@.len() == 1,
            final(self)@[0] == (ItemView { query: Seq::<char>::empty(), ..old(self)@[0] }),
    {
        self.inner.stack.truncate(1);
        let mut root = self.inner.stack.pop().unwrap();
        root.query = String::new();
        self.inner.stack.push(root);
        proof {
            assert(self@ =~= seq![ItemView { query: Seq::<char>::empty(), ..old(self)@[0] }]);
        }
    }

    /// The id of the currently active view: the top of the stack.
    pub fn active_id(&self) -> (r: Option<&String>)
        ensures
            match r {
                Some(s) => self@.len() >= 1 && s@ == self@.last().id,
                None => self@.len() == 0,
            },
    {
        match self.inner.stack.as_slice().last() {
            Some(item) => Some(&item.id),
            None => None,
        }
    }
}

} // verus!
