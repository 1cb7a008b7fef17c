use robrix::navigator::{ExpandIcon, SpaceNavigator, SubspaceDisplayInfo};

fn info(id: &str, name: &str, children: u64) -> SubspaceDisplayInfo {
    SubspaceDisplayInfo { room_id: id.to_string(), display_name: name.to_string(), children_count: children }
}

fn rows(n: &SpaceNavigator) -> Vec<(String, usize)> {
    n.tree_entries().iter().map(|e| (e.room_id.clone(), e.level)).collect()
}

fn s(x: &str) -> String {
    x.to_string()
}

fn with_top() -> SpaceNavigator {
    let mut n = SpaceNavigator::new();
    n.handle_space_tab_selected(&s("!top"), &s("Top"));
    let taken = n.handle_updated_children(s("!top"), vec![info("!a", "A", 2), info("!b", "B", 0)]);
    assert!(taken);
    n
}

#[test]
fn new_navigator_is_hidden_and_empty() {
    let n = SpaceNavigator::new();
    assert!(!n.is_visible());
    assert!(n.tree_entries().is_empty());
    assert!(n.is_top_selected());
}

#[test]
fn selecting_space_without_cache_stays_hidden() {
    let mut n = SpaceNavigator::new();
    n.handle_space_tab_selected(&s("!top"), &s("Top"));
    assert_eq!(n.top_space_name(), "Top");
    assert!(!n.is_visible());
    assert!(n.tree_entries().is_empty());
}

#[test]
fn children_of_top_space_show_at_level_zero() {
    let n = with_top();
    assert!(n.is_visible());
    assert_eq!(rows(&n), vec![(s("!a"), 0), (s("!b"), 0)]);
}

#[test]
fn children_of_unrelated_space_are_ignored() {
    let mut n = with_top();
    let r = n.handle_updated_children(s("!x"), vec![info("!y", "Y", 0)]);
    assert!(!r);
    assert_eq!(rows(&n), vec![(s("!a"), 0), (s("!b"), 0)]);
}

#[test]
fn children_without_top_space_are_ignored() {
    let mut n = SpaceNavigator::new();
    let r = n.handle_updated_children(s("!top"), vec![info("!a", "A", 0)]);
    assert!(!r);
    assert!(!n.is_visible());
}

#[test]
fn click_expands_and_asks_to_load() {
    let mut n = with_top();
    let r = n.handle_navigator_entry_click(&s("!a"));
    assert!(r);
    assert!(!n.is_top_selected());
    assert!(n.entry_presentation(0).selected);
    assert_eq!(n.entry_presentation(0).icon, ExpandIcon::Expanded);
    assert_eq!(rows(&n), vec![(s("!a"), 0), (s("!b"), 0)]);
}

#[test]
fn loaded_children_of_expanded_space_appear_below_it() {
    let mut n = with_top();
    assert!(n.handle_navigator_entry_click(&s("!a")));
    let r = n.handle_updated_children(s("!a"), vec![info("!a1", "A1", 0), info("!a2", "A2", 1)]);
    assert!(r);
    assert_eq!(rows(&n), vec![(s("!a"), 0), (s("!a1"), 1), (s("!a2"), 1), (s("!b"), 0)]);
}

#[test]
fn click_twice_collapses_again() {
    let mut n = with_top();
    assert!(n.handle_navigator_entry_click(&s("!a")));
    assert!(n.handle_updated_children(s("!a"), vec![info("!a1", "A1", 0)]));
    assert_eq!(rows(&n).len(), 3);
    // collapsing a cached space asks for no load
    assert!(!n.handle_navigator_entry_click(&s("!a")));
    assert_eq!(rows(&n), vec![(s("!a"), 0), (s("!b"), 0)]);
    assert_eq!(n.entry_presentation(0).icon, ExpandIcon::Collapsed);
    // expanding a cached space asks for no load either
    assert!(!n.handle_navigator_entry_click(&s("!a")));
    assert_eq!(rows(&n).len(), 3);
}

#[test]
fn expanded_space_below_itself_is_a_cycle() {
    let mut n = with_top();
    assert!(n.handle_navigator_entry_click(&s("!a")));
    assert!(n.handle_updated_children(s("!a"), vec![info("!a2", "A2", 1)]));
    assert!(n.handle_navigator_entry_click(&s("!a2")));
    // "!a" below "!a2" below "!a", both expanded: the tree would never end
    assert!(!n.update_keeps_tree_finite(&s("!a2"), &vec![info("!a", "A", 1)]));
    // children that do not lead back are fine
    assert!(n.update_keeps_tree_finite(&s("!a2"), &vec![info("!z", "Z", 0)]));
    // children of an unrelated space never matter
    assert!(n.update_keeps_tree_finite(&s("!x"), &vec![info("!a", "A", 1)]));
    assert_eq!(rows(&n), vec![(s("!a"), 0), (s("!a2"), 1), (s("!b"), 0)]);
}

#[test]
fn presentation_texts() {
    let mut n = SpaceNavigator::new();
    n.handle_space_tab_selected(&s("!top"), &s("Top"));
    assert!(n
        .handle_updated_children(s("!top"), vec![info("!a", "A", 2), info("!b", "B", 0), info("!c", "C", 1)])
        );
    let a = n.entry_presentation(0);
    assert_eq!(a.info_text, "2 children");
    assert_eq!(a.icon, ExpandIcon::Collapsed);
    let b = n.entry_presentation(1);
    assert_eq!(b.info_text, "");
    assert_eq!(b.icon, ExpandIcon::NoChildren);
    assert!(!b.selected);
    assert_eq!(n.entry_presentation(2).info_text, "1 child");
}

#[test]
fn cached_children_count_as_children() {
    let mut n = with_top();
    // "!b" claims no children, but once its cache entry has one it shows a marker.
    assert!(n.handle_navigator_entry_click(&s("!b")));
    assert!(n.handle_updated_children(s("!b"), vec![info("!b1", "B1", 0)]));
    assert_eq!(n.entry_presentation(1).icon, ExpandIcon::Expanded);
    assert!(!n.handle_navigator_entry_click(&s("!b")));
    assert_eq!(n.entry_presentation(1).icon, ExpandIcon::Collapsed);
}

#[test]
fn reselecting_same_space_changes_nothing() {
    let mut n = with_top();
    assert!(n.handle_navigator_entry_click(&s("!a")));
    n.handle_space_tab_selected(&s("!top"), &s("Other name"));
    assert_eq!(n.top_space_name(), "Top");
    assert!(n.entry_presentation(0).selected);
}

#[test]
fn selecting_another_space_resets_expansion_and_selection() {
    let mut n = with_top();
    assert!(n.handle_navigator_entry_click(&s("!a")));
    n.handle_space_tab_selected(&s("!a"), &s("A"));
    assert_eq!(n.top_space_name(), "A");
    assert!(n.is_top_selected());
    assert!(n.tree_entries().is_empty());
    assert!(!n.is_visible());
}

#[test]
fn other_tab_hides_everything() {
    let mut n = with_top();
    n.handle_other_tab_selected();
    assert!(!n.is_visible());
    assert!(n.tree_entries().is_empty());
    assert_eq!(n.top_space_name(), "");
    // the cache survives: coming back shows the children at once
    n.handle_space_tab_selected(&s("!top"), &s("Top"));
    assert!(n.is_visible());
    assert_eq!(rows(&n).len(), 2);
}

#[test]
fn top_entry_tap_selects_top_space() {
    let mut n = with_top();
    assert!(n.handle_navigator_entry_click(&s("!b")));
    assert!(!n.is_top_selected());
    n.select_top_space();
    assert!(n.is_top_selected());
}

#[test]
fn updated_children_replace_cached_ones() {
    let mut n = with_top();
    assert!(n.handle_updated_children(s("!top"), vec![info("!c", "C", 0)]));
    assert_eq!(rows(&n), vec![(s("!c"), 0)]);
    assert!(n.handle_updated_children(s("!top"), vec![]));
    assert!(!n.is_visible());
}

#[test]
fn click_that_closes_a_cycle_is_detected() {
    let mut n = with_top();
    assert!(n.handle_navigator_entry_click(&s("!a")));
    assert!(n.handle_updated_children(s("!a"), vec![info("!top", "Top", 2)]));
    // "!top" below "!a": expanding it would repeat the tree without end
    assert!(!n.click_keeps_tree_finite(&s("!top")));
    assert!(n.click_keeps_tree_finite(&s("!b")));
    assert!(n.click_keeps_tree_finite(&s("!a")));
}

#[test]
fn visibility_follows_cached_subspaces() {
    let mut n = SpaceNavigator::new();
    n.handle_space_tab_selected(&s("!top"), &s("Top"));
    assert!(!n.is_visible());
    assert!(n.handle_updated_children(s("!top"), vec![info("!a", "A", 0)]));
    assert!(n.is_visible());
    assert!(n.handle_navigator_entry_click(&s("!a")));
    assert!(n.is_visible());
    n.select_top_space();
    assert!(n.is_visible());
    assert!(n.handle_updated_children(s("!top"), vec![]));
    assert!(!n.is_visible());
}
