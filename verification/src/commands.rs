//! The command registry: the named actions a client can invoke, and the
//! builders of the root and theme views.
//!
//! Command ids are structured `namespace::group::leaf`; the leaf is the
//! user-facing invocation name and must be unique among leaves. Lookup by
//! leaf scans the registry in order and fails closed on an unknown name.

use vstd::prelude::*;

use crate::keys::{KeyView, Shortcut};
use crate::navigation::{CommandTrait, StateViewBuilder};
use crate::text::{command_leaf, leaf_of, str_eq};

verus! {

/// What invoking a command does to the control-plane state, as data.
#[derive(Debug)]
pub enum CommandEffect {
    /// Pushes a fresh view carrying the command's id.
    PushView,
    /// Surfaces an error toast on the active view.
    ToastError(String),
}

/// The mathematical value of a command effect.
pub ghost enum EffectView {
    PushView,
    ToastError(Seq<char>),
}

impl View for CommandEffect {
    type V = EffectView;

    open spec fn view(&self) -> EffectView {
        match self {
            CommandEffect::PushView => EffectView::PushView,
            CommandEffect::ToastError(m) => EffectView::ToastError(m@),
        }
    }
}

/// One registered command: display metadata plus its effect.
#[derive(Debug)]
pub struct RootCommand {
    pub id: String,
    pub title: String,
    pub subtitle: String,
    pub keywords: Vec<String>,
    pub shortcut: Option<Shortcut>,
    pub effect: CommandEffect,
}

/// The mathematical value of a registered command.
pub ghost struct CommandView {
    pub id: Seq<char>,
    pub title: Seq<char>,
    pub subtitle: Seq<char>,
    pub keywords: Seq<Seq<char>>,
    pub shortcut: Option<KeyView>,
    pub effect: EffectView,
}

impl View for RootCommand {
    type V = CommandView;

    open spec fn view(&self) -> CommandView {
        CommandView {
            id: self.id@,
            title: self.title@,
            subtitle: self.subtitle@,
            keywords: self.keywords@.map_values(|k: String| k@),
            shortcut: match self.shortcut {
                Some(s) => Some(s@),
                None => None,
            },
            effect: self.effect@,
        }
    }
}

impl RootCommand {
    pub fn new(
        id: &str,
        title: &str,
        subtitle: &str,
        keywords: Vec<String>,
        shortcut: Option<Shortcut>,
        effect: CommandEffect,
    ) -> (c: RootCommand)
        ensures
            c@ == (CommandView {
                id: id@,
                title: title@,
                subtitle: subtitle@,
                keywords: keywords@.map_values(|k: String| k@),
                shortcut: match shortcut {
                    Some(s) => Some(s@),
                    None => None,
                },
                effect: effect@,
            }),
    {
        RootCommand {
            id: String::from_str(id),
            title: String::from_str(title),
            subtitle: String::from_str(subtitle),
            keywords,
            shortcut,
            effect,
        }
    }
}

/// The views of a sequence of commands.
pub open spec fn command_views(s: Seq<RootCommand>) -> Seq<CommandView> {
    s.map_values(|c: RootCommand| c@)
}

/// The first registry index whose command id has leaf `c`, if any.
pub open spec fn spec_find_by_leaf(cmds: Seq<CommandView>, c: Seq<char>) -> Option<int>
    decreases cmds.len(),
{
    if cmds.len() == 0 {
        None
    } else if leaf_of(cmds[0].id) == Some(c) {
        Some(0)
    } else {
        match spec_find_by_leaf(cmds.drop_first(), c) {
            Some(i) => Some(i + 1),
            None => None,
        }
    }
}

/// What `spec_find_by_leaf` returns: the first match, or nothing anywhere.
pub proof fn lemma_find_by_leaf_characterization(cmds: Seq<CommandView>, c: Seq<char>)
    ensures
        match spec_find_by_leaf(cmds, c) {
            Some(i) => 0 <= i < cmds.len() && leaf_of(cmds[i].id) == Some(c) && forall|j: int|
                0 <= j < i ==> leaf_of(cmds[j].id) != Some(c),
            None => forall|j: int| 0 <= j < cmds.len() ==> leaf_of(cmds[j].id) != Some(c),
        },
    decreases cmds.len(),
{
    if cmds.len() > 0 && leaf_of(cmds[0].id) != Some(c) {
        let rest = cmds.drop_first();
        lemma_find_by_leaf_characterization(rest, c);
        assert(forall|j: int| 0 <= j < rest.len() ==> rest[j] == cmds[j + 1]);
        match spec_find_by_leaf(rest, c) {
            Some(i) => {
                assert(rest[i] == cmds[i + 1]);
                assert forall|j: int| 0 <= j < i + 1 implies leaf_of(cmds[j].id) != Some(c) by {
                    if j > 0 {
                        assert(rest[j - 1] == cmds[j]);
                    }
                }
            },
            None => {
                assert forall|j: int| 0 <= j < cmds.len() implies leaf_of(cmds[j].id) != Some(
                    c,
                ) by {
                    if j > 0 {
                        assert(rest[j - 1] == cmds[j]);
                    }
                }
            },
        }
    }
}

/// The process-wide command registry, immutable after construction.
#[derive(Debug)]
pub struct RootCommands {
    pub commands: Vec<RootCommand>,
}

impl View for RootCommands {
    type V = Seq<CommandView>;

    open spec fn view(&self) -> Seq<CommandView> {
        command_views(self.commands@)
    }
}

/// The registry ids really carry their user-facing invocation names as
/// leaves, and the two leaves differ, so lookup by leaf is unambiguous.
pub proof fn lemma_registry_leaves()
    ensures
        leaf_of("loungy::commands::loungy"@) == Some("loungy"@),
        leaf_of("loungy::commands::themes"@) == Some("themes"@),
        "loungy"@ != "themes"@,
{
    reveal_strlit("loungy::commands::loungy");
    reveal_strlit("loungy::commands::themes");
    reveal_strlit("loungy");
    reveal_strlit("themes");
    reveal_with_fuel(crate::text::first_sep_from, 32);
    let a = "loungy::commands::loungy"@;
    let b = "loungy::commands::themes"@;
    assert(crate::text::first_sep_from(a, 0) == 6);
    assert(crate::text::first_sep_from(a, 8) == 16);
    assert(crate::text::first_sep_from(a, 18) == 24);
    assert(a.subrange(18, 24) =~= "loungy"@);
    assert(crate::text::first_sep_from(b, 0) == 6);
    assert(crate::text::first_sep_from(b, 8) == 16);
    assert(crate::text::first_sep_from(b, 18) == 24);
    assert(b.subrange(18, 24) =~= "themes"@);
    assert("loungy"@[0] == 'l');
    assert("themes"@[0] == 't');
}

impl RootCommands {
    /// The registry of this application: the preferences command and the
    /// theme search command.
    pub fn init() -> (r: RootCommands)
        ensures
            r@.len() == 2,
            r@[0] == LoungyCommandBuilder.spec_root_command(),
            r@[1] == ThemeCommandBuilder.spec_root_command(),
            leaf_of(r@[0].id) == Some("loungy"@),
            leaf_of(r@[1].id) == Some("themes"@),
    {
        proof {
            lemma_registry_leaves();
        }
        let mut commands: Vec<RootCommand> = Vec::new();
        commands.push(LoungyCommandBuilder.build());
        commands.push(ThemeCommandBuilder.build());
        RootCommands { commands }
    }

    /// The first registered command whose id has leaf `name`, fail-closed.
    pub fn find_by_leaf(&self, name: &str) -> (r: Option<usize>)
        ensures
            match r {
                Some(i) => spec_find_by_leaf(self@, name@) == Some(i as int),
                None => spec_find_by_leaf(self@, name@) is None,
            },
    {
        let n = self.commands.len();
        let mut i: usize = 0;
        while i < n
            invariant
                n == self.commands.len(),
                0 <= i <= n,
                forall|j: int| 0 <= j < i ==> leaf_of(self@[j].id) != Some(name@),
            decreases n - i,
        {
            let hit = match command_leaf(self.commands[i].id.as_str()) {
                Some(l) => str_eq(l.as_str(), name),
                None => false,
            };
            if hit {
                proof {
                    assert(self@[i as int] == self.commands@[i as int]@);
                    lemma_find_by_leaf_characterization(self@, name@);
                }
                return Some(i);
            }
            i = i + 1;
        }
        proof {
            lemma_find_by_leaf_characterization(self@, name@);
        }
        None
    }
}

/// One entry of the registry snapshot sent to a client: id and display
/// metadata only.
#[derive(Debug)]
pub struct SnapshotEntry {
    pub id: String,
    pub title: String,
    pub subtitle: String,
}

/// The mathematical value of a snapshot entry.
pub ghost struct SnapshotEntryView {
    pub id: Seq<char>,
    pub title: Seq<char>,
    pub subtitle: Seq<char>,
}

impl View for SnapshotEntry {
    type V = SnapshotEntryView;

    open spec fn view(&self) -> SnapshotEntryView {
        SnapshotEntryView { id: self.id@, title: self.title@, subtitle: self.subtitle@ }
    }
}

/// The views of a sequence of snapshot entries.
pub open spec fn snapshot_views(s: Seq<SnapshotEntry>) -> Seq<SnapshotEntryView> {
    s.map_values(|e: SnapshotEntry| e@)
}

/// The snapshot a registry projects to.
pub open spec fn spec_snapshot(cmds: Seq<CommandView>) -> Seq<SnapshotEntryView> {
    cmds.map_values(
        |c: CommandView| SnapshotEntryView { id: c.id, title: c.title, subtitle: c.subtitle },
    )
}

impl RootCommands {
    /// The serializable projection sent once per connection.
    pub fn snapshot(&self) -> (r: Vec<SnapshotEntry>)
        ensures
            snapshot_views(r@) == spec_snapshot(self@),
    {
        let n = self.commands.len();
        let mut out: Vec<SnapshotEntry> = Vec::new();
        let mut i: usize = 0;
        while i < n
            invariant
                n == self.commands.len(),
                0 <= i <= n,
                out@.len() == i,
                forall|j: int| 0 <= j < i ==> #[trigger] out@[j]@ == (SnapshotEntryView {
                    id: self@[j].id,
                    title: self@[j].title,
                    subtitle: self@[j].subtitle,
                }),
            decreases n - i,
        {
            let c = &self.commands[i];
            out.push(
                SnapshotEntry {
                    id: c.id.clone(),
                    title: c.title.clone(),
                    subtitle: c.subtitle.clone(),
                },
            );
            i = i + 1;
        }
        proof {
            assert(snapshot_views(out@) =~= spec_snapshot(self@));
        }
        out
    }
}

/// Builds the root list view: the searchable list of applications and
/// registered commands.
#[derive(Clone, Copy, Debug)]
pub struct RootListBuilder;

impl CommandTrait for RootListBuilder {
    open spec fn spec_command(&self) -> Seq<char> {
        "loungy::commands::root"@
    }

    fn command(&self) -> (s: String) {
        String::from_str("loungy::commands::root")
    }
}

impl StateViewBuilder for RootListBuilder {

}

/// A trait for things that register a command.
pub trait RootCommandBuilder {
    /// The command as a mathematical value.
    spec fn spec_root_command(&self) -> CommandView;

    /// The command itself.
    fn build(&self) -> (c: RootCommand)
        ensures
            c@ == self.spec_root_command(),
    ;
}

/// Registers the preferences command; preferences are not implemented, so
/// invoking it surfaces an error toast.
#[derive(Clone, Copy, Debug)]
pub struct LoungyCommandBuilder;

impl CommandTrait for LoungyCommandBuilder {
    open spec fn spec_command(&self) -> Seq<char> {
        "loungy::commands::loungy"@
    }

    fn command(&self) -> (s: String) {
        String::from_str("loungy::commands::loungy")
    }
}

impl RootCommandBuilder for LoungyCommandBuilder {
    open spec fn spec_root_command(&self) -> CommandView {
        CommandView {
            id: "loungy::commands::loungy"@,
            title: "Loungy"@,
            subtitle: "Preferences"@,
            keywords: seq!["Settings"@],
            shortcut: None,
            effect: EffectView::ToastError("Preferences not yet implemented"@),
        }
    }

    fn build(&self) -> (c: RootCommand) {
        let mut keywords: Vec<String> = Vec::new();
        keywords.push(String::from_str("Settings"));
        let c = RootCommand::new(
            "loungy::commands::loungy",
            "Loungy",
            "Preferences",
            keywords,
            None,
            CommandEffect::ToastError(String::from_str("Preferences not yet implemented")),
        );
        proof {
            assert(c@.keywords =~= seq!["Settings"@]);
        }
        c
    }
}

/// Builds the theme search view.
#[derive(Clone, Copy, Debug)]
pub struct ThemeListBuilder;

impl CommandTrait for ThemeListBuilder {
    open spec fn spec_command(&self) -> Seq<char> {
        "loungy::commands::themes"@
    }

    fn command(&self) -> (s: String) {
        String::from_str("loungy::commands::themes")
    }
}

impl StateViewBuilder for ThemeListBuilder {

}

/// Registers the theme search command; invoking it pushes the theme list
/// view, which carries the same id.
#[derive(Clone, Copy, Debug)]
pub struct ThemeCommandBuilder;

impl CommandTrait for ThemeCommandBuilder {
    open spec fn spec_command(&self) -> Seq<char> {
        "loungy::commands::themes"@
    }

    fn command(&self) -> (s: String) {
        String::from_str("loungy::commands::themes")
    }
}

impl RootCommandBuilder for ThemeCommandBuilder {
    open spec fn spec_root_command(&self) -> CommandView {
        CommandView {
            id: "loungy::commands::themes"@,
            title: "Search Themes"@,
            subtitle: "Customization"@,
            keywords: seq!["Appearance"@],
            shortcut: None,
            effect: EffectView::PushView,
        }
    }

    fn build(&self) -> (c: RootCommand) {
        let mut keywords: Vec<String> = Vec::new();
        keywords.push(String::from_str("Appearance"));
        let c = RootCommand::new(
            "loungy::commands::themes",
            "Search Themes",
            "Customization",
            keywords,
            None,
            CommandEffect::PushView,
        );
        proof {
            assert(c@.keywords =~= seq!["Appearance"@]);
        }
        c
    }
}

} // verus!
