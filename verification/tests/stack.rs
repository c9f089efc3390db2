use loungy::commands::{RootListBuilder, ThemeListBuilder};
use loungy::navigation::{StateItem, StateModel};

#[test]
fn stack_starts_at_root() {
    let m = StateModel::init(&RootListBuilder);
    assert_eq!(m.inner.stack.len(), 1);
    assert_eq!(m.inner.stack[0].id, "loungy::commands::root");
    assert_eq!(m.inner.stack[0].query, "");
    assert!(m.inner.stack[0].workspace);
}

#[test]
fn push_and_pop_keep_stack_non_empty() {
    let mut m = StateModel::init(&RootListBuilder);
    m.push(&ThemeListBuilder);
    assert_eq!(m.inner.stack.len(), 2);
    m.pop();
    assert_eq!(m.inner.stack.len(), 1);
    m.pop();
    m.pop();
    assert_eq!(m.inner.stack.len(), 1);
}

#[test]
fn pop_on_stack_of_one_is_noop() {
    let mut m = StateModel::init(&RootListBuilder);
    m.inner.stack[0].query = String::from("half-typed");
    m.pop();
    assert_eq!(m.inner.stack.len(), 1);
    assert_eq!(m.inner.stack[0].id, "loungy::commands::root");
    assert_eq!(m.inner.stack[0].query, "half-typed");
}

#[test]
fn reset_truncates_to_root_and_clears_query() {
    let mut m = StateModel::init(&RootListBuilder);
    m.inner.stack[0].query = String::from("old query");
    m.push(&ThemeListBuilder);
    m.push(&ThemeListBuilder);
    assert_eq!(m.inner.stack.len(), 3);
    m.reset();
    assert_eq!(m.inner.stack.len(), 1);
    assert_eq!(m.inner.stack[0].id, "loungy::commands::root");
    assert_eq!(m.inner.stack[0].query, "");
}

#[test]
fn replace_swaps_top_view() {
    let mut m = StateModel::init(&RootListBuilder);
    m.push(&ThemeListBuilder);
    m.replace(&ThemeListBuilder);
    assert_eq!(m.inner.stack.len(), 2);
    assert_eq!(m.inner.stack[1].id, "loungy::commands::themes");
}

#[test]
fn push_item_appends_given_item() {
    let mut m = StateModel::init(&RootListBuilder);
    let item = StateItem::init(&ThemeListBuilder, false);
    assert!(!item.workspace);
    m.push_item(item);
    assert_eq!(m.inner.stack.len(), 2);
    assert_eq!(m.inner.stack[1].id, "loungy::commands::themes");
    assert!(!m.inner.stack[1].workspace);
}

#[test]
fn active_id_is_top_of_stack() {
    let mut m = StateModel::init(&RootListBuilder);
    assert_eq!(m.active_id().unwrap(), "loungy::commands::root");
    m.push(&ThemeListBuilder);
    assert_eq!(m.active_id().unwrap(), "loungy::commands::themes");
}
