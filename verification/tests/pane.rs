use discordinator::pane::{split_area, Pane, PaneManager, PaneNode, Rect, SessionNode};
use discordinator::types::{Direction, PaneId, ScrollState, SplitDirection};

fn make_positions(pairs: &[(PaneId, Rect)]) -> Vec<(PaneId, Rect)> {
    pairs.to_vec()
}

fn lookup(positions: &[(PaneId, Rect)], id: PaneId) -> Rect {
    positions.iter().find(|(p, _)| *p == id).map(|(_, r)| *r).unwrap()
}

/// The root split's share for its first child, as a fraction.
fn root_ratio(root: &PaneNode) -> Option<f32> {
    match root {
        PaneNode::Split { ratio, .. } => Some(*ratio as f32 / 100.0),
        _ => None,
    }
}

#[test]
fn new_pane_manager_has_single_pane() {
    let pm = PaneManager::new();
    assert_eq!(pm.pane_count(), 1);
    assert_eq!(pm.focused_pane_id, PaneId(0));
    assert!(pm.focused_pane().is_some());
}

#[test]
fn split_horizontal_creates_two_panes() {
    let mut pm = PaneManager::new();
    let new_id = pm.split(SplitDirection::Horizontal);
    assert_eq!(pm.pane_count(), 2);
    assert!(pm.root.contains(PaneId(0)));
    assert!(pm.root.contains(new_id));
}

#[test]
fn split_vertical_creates_two_panes() {
    let mut pm = PaneManager::new();
    let new_id = pm.split(SplitDirection::Vertical);
    assert_eq!(pm.pane_count(), 2);
    assert!(pm.root.contains(PaneId(0)));
    assert!(pm.root.contains(new_id));
}

#[test]
fn multiple_splits() {
    let mut pm = PaneManager::new();
    pm.split(SplitDirection::Horizontal);
    assert_eq!(pm.pane_count(), 2);
    pm.split(SplitDirection::Vertical);
    assert_eq!(pm.pane_count(), 3);
    pm.focus_next();
    pm.split(SplitDirection::Horizontal);
    assert_eq!(pm.pane_count(), 4);
}

#[test]
fn close_pane_reduces_count() {
    let mut pm = PaneManager::new();
    pm.split(SplitDirection::Horizontal);
    assert_eq!(pm.pane_count(), 2);
    assert!(pm.close_focused());
    assert_eq!(pm.pane_count(), 1);
}

#[test]
fn cannot_close_last_pane() {
    let mut pm = PaneManager::new();
    assert!(!pm.close_focused());
    assert_eq!(pm.pane_count(), 1);
}

#[test]
fn close_updates_focus() {
    let mut pm = PaneManager::new();
    let id1 = pm.split(SplitDirection::Horizontal);
    pm.focused_pane_id = id1;
    assert!(pm.close_focused());
    assert_eq!(pm.focused_pane_id, PaneId(0));
    assert!(pm.focused_pane().is_some());
}

#[test]
fn focus_next_cycles() {
    let mut pm = PaneManager::new();
    pm.split(SplitDirection::Horizontal);
    pm.focus_next();
    pm.split(SplitDirection::Horizontal);
    let leaves = pm.all_pane_ids();
    assert_eq!(leaves.len(), 3);
    pm.focused_pane_id = leaves[0];
    pm.focus_next();
    assert_eq!(pm.focused_pane_id, leaves[1]);
    pm.focus_next();
    assert_eq!(pm.focused_pane_id, leaves[2]);
    pm.focus_next();
    assert_eq!(pm.focused_pane_id, leaves[0]);
}

#[test]
fn focus_prev_cycles() {
    let mut pm = PaneManager::new();
    pm.split(SplitDirection::Horizontal);
    let leaves = pm.all_pane_ids();
    pm.focused_pane_id = leaves[0];
    pm.focus_prev();
    assert_eq!(pm.focused_pane_id, leaves[1]);
    pm.focus_prev();
    assert_eq!(pm.focused_pane_id, leaves[0]);
}

#[test]
fn focus_next_single_pane_noop() {
    let mut pm = PaneManager::new();
    let id = pm.focused_pane_id;
    pm.focus_next();
    assert_eq!(pm.focused_pane_id, id);
}

#[test]
fn find_pane_by_id() {
    let mut pm = PaneManager::new();
    let new_id = pm.split(SplitDirection::Vertical);
    assert!(pm.root.find(PaneId(0)).is_some());
    assert!(pm.root.find(new_id).is_some());
    assert!(pm.root.find(PaneId(999)).is_none());
}

#[test]
fn find_mut_pane() {
    let mut pm = PaneManager::new();
    pm.split(SplitDirection::Horizontal);
    let pane = pm.root.find_mut(PaneId(0)).unwrap();
    pane.channel_id = Some(42);
    let pane = pm.root.find(PaneId(0)).unwrap();
    assert_eq!(pane.channel_id, Some(42));
}

#[test]
fn leaves_in_order() {
    let mut pm = PaneManager::new();
    let id1 = pm.split(SplitDirection::Horizontal);
    pm.focused_pane_id = id1;
    let id2 = pm.split(SplitDirection::Vertical);
    let leaves = pm.root.leaves_in_order();
    assert_eq!(leaves.len(), 3);
    assert_eq!(leaves[0], PaneId(0));
    assert!(leaves.contains(&id1));
    assert!(leaves.contains(&id2));
}

#[test]
fn split_creates_default_ratio() {
    let mut pm = PaneManager::new();
    pm.split(SplitDirection::Horizontal);
    let ratio = root_ratio(&pm.root).expect("Expected Split node");
    assert!((ratio - 0.5).abs() < f32::EPSILON);
}

#[test]
fn resize_adjusts_ratio() {
    let mut pm = PaneManager::new();
    pm.split(SplitDirection::Horizontal);
    // Ratios move in hundredths: 0.1 is 10.
    let result = pm.root.resize(PaneId(0), 10);
    assert!(result);
    let ratio = root_ratio(&pm.root).expect("Expected Split node");
    assert!((ratio - 0.6).abs() < f32::EPSILON);
}

#[test]
fn resize_clamps_to_bounds() {
    let mut pm = PaneManager::new();
    pm.split(SplitDirection::Horizontal);
    pm.root.resize(PaneId(0), 50); // 0.5 + 0.5 = 1.0 → clamped to 0.9
    let ratio = root_ratio(&pm.root).unwrap();
    assert!((ratio - 0.9).abs() < f32::EPSILON);
    pm.root.resize(PaneId(0), -90); // 0.9 - 0.9 = 0.0 → clamped to 0.1
    let ratio = root_ratio(&pm.root).unwrap();
    assert!((ratio - 0.1).abs() < f32::EPSILON);
}

#[test]
fn toggle_zoom() {
    let mut pm = PaneManager::new();
    assert!(pm.zoom_state.is_none());
    pm.toggle_zoom();
    assert_eq!(pm.zoom_state, Some(PaneId(0)));
    pm.toggle_zoom();
    assert!(pm.zoom_state.is_none());
}

#[test]
fn close_zoomed_pane_clears_zoom() {
    let mut pm = PaneManager::new();
    let new_id = pm.split(SplitDirection::Horizontal);
    pm.focused_pane_id = new_id;
    pm.toggle_zoom();
    assert_eq!(pm.zoom_state, Some(new_id));
    pm.close_focused();
    assert!(pm.zoom_state.is_none());
}

#[test]
fn pane_new_has_default_state() {
    let pane = Pane::new(PaneId(42));
    assert_eq!(pane.id, PaneId(42));
    assert!(pane.channel_id.is_none());
    assert!(pane.guild_id.is_none());
    assert_eq!(pane.scroll, ScrollState::Following);
    assert!(pane.input.content.is_empty());
}

#[test]
fn focused_pane_mut_modifies() {
    let mut pm = PaneManager::new();
    {
        let pane = pm.focused_pane_mut().unwrap();
        pane.channel_id = Some(100);
    }
    assert_eq!(pm.focused_pane().unwrap().channel_id, Some(100));
}

#[test]
fn deep_tree_operations() {
    let mut pm = PaneManager::new();
    let id1 = pm.split(SplitDirection::Horizontal);
    pm.focused_pane_id = id1;
    let id2 = pm.split(SplitDirection::Vertical);
    pm.focused_pane_id = id2;
    let id3 = pm.split(SplitDirection::Horizontal);
    pm.focused_pane_id = id3;
    let _id4 = pm.split(SplitDirection::Vertical);
    assert_eq!(pm.pane_count(), 5);
    pm.focused_pane_id = id2;
    assert!(pm.close_focused());
    assert_eq!(pm.pane_count(), 4);
    assert!(!pm.root.contains(id2));
}

#[test]
fn all_pane_ids_returns_all_leaves() {
    let mut pm = PaneManager::new();
    let id1 = pm.split(SplitDirection::Horizontal);
    pm.focused_pane_id = id1;
    let id2 = pm.split(SplitDirection::Vertical);
    let ids = pm.all_pane_ids();
    assert_eq!(ids.len(), 3);
    assert!(ids.contains(&PaneId(0)));
    assert!(ids.contains(&id1));
    assert!(ids.contains(&id2));
}

#[test]
fn leaf_count_matches_leaves() {
    let mut pm = PaneManager::new();
    assert_eq!(pm.root.leaf_count(), 1);
    pm.split(SplitDirection::Horizontal);
    assert_eq!(pm.root.leaf_count(), 2);
    pm.focus_next();
    pm.split(SplitDirection::Vertical);
    assert_eq!(pm.root.leaf_count(), 3);
}

#[test]
fn pane_manager_default() {
    let pm = PaneManager::default();
    assert_eq!(pm.pane_count(), 1);
    assert_eq!(pm.focused_pane_id, PaneId(0));
}

#[test]
fn focus_direction_right() {
    let mut pm = PaneManager::new();
    let id1 = pm.split(SplitDirection::Vertical);
    let positions = make_positions(&[
        (PaneId(0), Rect::new(0, 0, 40, 24)),
        (id1, Rect::new(40, 0, 40, 24)),
    ]);
    pm.focused_pane_id = PaneId(0);
    assert!(pm.focus_direction(Direction::Right, &positions));
    assert_eq!(pm.focused_pane_id, id1);
}

#[test]
fn focus_direction_left() {
    let mut pm = PaneManager::new();
    let id1 = pm.split(SplitDirection::Vertical);
    let positions = make_positions(&[
        (PaneId(0), Rect::new(0, 0, 40, 24)),
        (id1, Rect::new(40, 0, 40, 24)),
    ]);
    pm.focused_pane_id = id1;
    assert!(pm.focus_direction(Direction::Left, &positions));
    assert_eq!(pm.focused_pane_id, PaneId(0));
}

#[test]
fn focus_direction_down() {
    let mut pm = PaneManager::new();
    let id1 = pm.split(SplitDirection::Horizontal);
    let positions = make_positions(&[
        (PaneId(0), Rect::new(0, 0, 80, 12)),
        (id1, Rect::new(0, 12, 80, 12)),
    ]);
    pm.focused_pane_id = PaneId(0);
    assert!(pm.focus_direction(Direction::Down, &positions));
    assert_eq!(pm.focused_pane_id, id1);
}

#[test]
fn focus_direction_up() {
    let mut pm = PaneManager::new();
    let id1 = pm.split(SplitDirection::Horizontal);
    let positions = make_positions(&[
        (PaneId(0), Rect::new(0, 0, 80, 12)),
        (id1, Rect::new(0, 12, 80, 12)),
    ]);
    pm.focused_pane_id = id1;
    assert!(pm.focus_direction(Direction::Up, &positions));
    assert_eq!(pm.focused_pane_id, PaneId(0));
}

#[test]
fn focus_direction_no_pane_in_direction() {
    let mut pm = PaneManager::new();
    let id1 = pm.split(SplitDirection::Vertical);
    let positions = make_positions(&[
        (PaneId(0), Rect::new(0, 0, 40, 24)),
        (id1, Rect::new(40, 0, 40, 24)),
    ]);
    pm.focused_pane_id = PaneId(0);
    assert!(!pm.focus_direction(Direction::Left, &positions));
    assert_eq!(pm.focused_pane_id, PaneId(0));
}

#[test]
fn focus_direction_picks_closest() {
    let mut pm = PaneManager::new();
    let id1 = pm.split(SplitDirection::Vertical);
    pm.focused_pane_id = id1;
    let id2 = pm.split(SplitDirection::Horizontal);
    let positions = make_positions(&[
        (PaneId(0), Rect::new(0, 0, 40, 24)),
        (id1, Rect::new(40, 0, 40, 12)),
        (id2, Rect::new(40, 12, 40, 12)),
    ]);
    pm.focused_pane_id = PaneId(0);
    assert!(pm.focus_direction(Direction::Right, &positions));
}

#[test]
fn can_split_horizontal_sufficient_space() {
    let pm = PaneManager::new();
    let positions = make_positions(&[(PaneId(0), Rect::new(0, 0, 80, 24))]);
    assert!(pm.can_split(SplitDirection::Horizontal, &positions));
}

#[test]
fn can_split_vertical_sufficient_space() {
    let pm = PaneManager::new();
    let positions = make_positions(&[(PaneId(0), Rect::new(0, 0, 80, 24))]);
    assert!(pm.can_split(SplitDirection::Vertical, &positions));
}

#[test]
fn cannot_split_horizontal_too_short() {
    let pm = PaneManager::new();
    let positions = make_positions(&[(PaneId(0), Rect::new(0, 0, 80, 6))]);
    assert!(!pm.can_split(SplitDirection::Horizontal, &positions));
}

#[test]
fn cannot_split_vertical_too_narrow() {
    let pm = PaneManager::new();
    let positions = make_positions(&[(PaneId(0), Rect::new(0, 0, 18, 24))]);
    assert!(!pm.can_split(SplitDirection::Vertical, &positions));
}

#[test]
fn can_split_horizontal_exact_minimum() {
    let pm = PaneManager::new();
    let positions = make_positions(&[(PaneId(0), Rect::new(0, 0, 10, 8))]);
    assert!(pm.can_split(SplitDirection::Horizontal, &positions));
}

#[test]
fn can_split_vertical_exact_minimum() {
    let pm = PaneManager::new();
    let positions = make_positions(&[(PaneId(0), Rect::new(0, 0, 20, 4))]);
    assert!(pm.can_split(SplitDirection::Vertical, &positions));
}

#[test]
fn try_split_returns_none_if_too_small() {
    let mut pm = PaneManager::new();
    let positions = make_positions(&[(PaneId(0), Rect::new(0, 0, 10, 6))]);
    assert!(pm.try_split(SplitDirection::Horizontal, &positions).is_none());
    assert_eq!(pm.pane_count(), 1);
}

#[test]
fn try_split_returns_some_if_sufficient() {
    let mut pm = PaneManager::new();
    let positions = make_positions(&[(PaneId(0), Rect::new(0, 0, 80, 24))]);
    let result = pm.try_split(SplitDirection::Vertical, &positions);
    assert!(result.is_some());
    assert_eq!(pm.pane_count(), 2);
}

#[test]
fn resize_focused_right_increases_ratio() {
    let mut pm = PaneManager::new();
    pm.split(SplitDirection::Vertical);
    assert!(pm.resize_focused(Direction::Right, 1));
    assert!(root_ratio(&pm.root).unwrap() > 0.5);
}

#[test]
fn resize_focused_left_decreases_ratio() {
    let mut pm = PaneManager::new();
    pm.split(SplitDirection::Vertical);
    assert!(pm.resize_focused(Direction::Left, 1));
    assert!(root_ratio(&pm.root).unwrap() < 0.5);
}

#[test]
fn compute_positions_single_pane() {
    let pm = PaneManager::new();
    let area = Rect::new(0, 0, 80, 24);
    let positions = pm.compute_positions(area);
    assert_eq!(positions.len(), 1);
    assert_eq!(lookup(&positions, PaneId(0)), area);
}

#[test]
fn compute_positions_vertical_split() {
    let mut pm = PaneManager::new();
    let id1 = pm.split(SplitDirection::Vertical);
    let positions = pm.compute_positions(Rect::new(0, 0, 80, 24));
    assert_eq!(positions.len(), 2);
    assert_eq!(lookup(&positions, PaneId(0)), Rect::new(0, 0, 40, 24));
    assert_eq!(lookup(&positions, id1), Rect::new(40, 0, 40, 24));
}

#[test]
fn compute_positions_horizontal_split() {
    let mut pm = PaneManager::new();
    let id1 = pm.split(SplitDirection::Horizontal);
    let positions = pm.compute_positions(Rect::new(0, 0, 80, 24));
    assert_eq!(positions.len(), 2);
    assert_eq!(lookup(&positions, PaneId(0)), Rect::new(0, 0, 80, 12));
    assert_eq!(lookup(&positions, id1), Rect::new(0, 12, 80, 12));
}

#[test]
fn compute_positions_nested_splits() {
    let mut pm = PaneManager::new();
    let id1 = pm.split(SplitDirection::Vertical);
    pm.focused_pane_id = id1;
    let id2 = pm.split(SplitDirection::Horizontal);
    let positions = pm.compute_positions(Rect::new(0, 0, 80, 24));
    assert_eq!(positions.len(), 3);
    assert_eq!(lookup(&positions, PaneId(0)), Rect::new(0, 0, 40, 24));
    assert_eq!(lookup(&positions, id1), Rect::new(40, 0, 40, 12));
    assert_eq!(lookup(&positions, id2), Rect::new(40, 12, 40, 12));
}

#[test]
fn split_area_vertical() {
    let area = Rect::new(0, 0, 100, 50);
    let (first, second) = split_area(area, SplitDirection::Vertical, 50);
    assert_eq!(first, Rect::new(0, 0, 50, 50));
    assert_eq!(second, Rect::new(50, 0, 50, 50));
}

#[test]
fn split_area_horizontal() {
    let area = Rect::new(0, 0, 100, 50);
    let (first, second) = split_area(area, SplitDirection::Horizontal, 50);
    assert_eq!(first, Rect::new(0, 0, 100, 25));
    assert_eq!(second, Rect::new(0, 25, 100, 25));
}

#[test]
fn split_area_unequal_ratio() {
    let area = Rect::new(0, 0, 100, 50);
    let (first, second) = split_area(area, SplitDirection::Vertical, 30);
    assert_eq!(first.width, 30);
    assert_eq!(second.width, 70);
    assert_eq!(first.width + second.width, area.width);
}

#[test]
fn close_first_pane_keeps_second() {
    let mut pm = PaneManager::new();
    let id1 = pm.split(SplitDirection::Horizontal);
    pm.focused_pane_id = PaneId(0);
    assert!(pm.close_focused());
    assert_eq!(pm.pane_count(), 1);
    assert!(pm.root.contains(id1));
    assert!(!pm.root.contains(PaneId(0)));
    assert_eq!(pm.focused_pane_id, id1);
}

#[test]
fn session_roundtrip_single_pane() {
    let pm = PaneManager::new();
    let restored = PaneManager::from_session(&pm.to_session());
    assert_eq!(restored.pane_count(), 1);
    assert_eq!(restored.focused_pane_id, PaneId(0));
}

#[test]
fn session_roundtrip_multiple_panes() {
    let mut pm = PaneManager::new();
    let id1 = pm.split(SplitDirection::Vertical);
    pm.focused_pane_id = id1;
    let _id2 = pm.split(SplitDirection::Horizontal);
    pm.root.find_mut(PaneId(0)).unwrap().channel_id = Some(100);
    pm.root.find_mut(PaneId(0)).unwrap().guild_id = Some(1);
    pm.root.find_mut(id1).unwrap().channel_id = Some(200);

    let restored = PaneManager::from_session(&pm.to_session());
    assert_eq!(restored.pane_count(), 3);
    assert_eq!(restored.focused_pane_id, id1);
    let p0 = restored.root.find(PaneId(0)).unwrap();
    assert_eq!(p0.channel_id, Some(100));
    assert_eq!(p0.guild_id, Some(1));
    let p1 = restored.root.find(id1).unwrap();
    assert_eq!(p1.channel_id, Some(200));
}

#[test]
fn session_roundtrip_preserves_ratios() {
    let mut pm = PaneManager::new();
    pm.split(SplitDirection::Vertical);
    pm.root.resize(PaneId(0), 20); // ratio = 0.7
    let restored = PaneManager::from_session(&pm.to_session());
    let ratio = root_ratio(&restored.root).expect("Expected Split node");
    assert!((ratio - 0.7).abs() < 0.01);
}

#[test]
fn session_roundtrip_preserves_next_id() {
    let mut pm = PaneManager::new();
    pm.split(SplitDirection::Vertical);
    pm.split(SplitDirection::Horizontal);
    let mut restored = PaneManager::from_session(&pm.to_session());
    let new_id = restored.split(SplitDirection::Vertical);
    assert_eq!(new_id, PaneId(3));
}

#[test]
fn session_zoom_not_persisted() {
    let mut pm = PaneManager::new();
    pm.split(SplitDirection::Vertical);
    pm.toggle_zoom();
    assert!(pm.zoom_state.is_some());
    let restored = PaneManager::from_session(&pm.to_session());
    assert!(restored.zoom_state.is_none());
}

#[test]
fn session_with_invalid_focused_pane_recovers() {
    let pm = PaneManager::new();
    let mut layout = pm.to_session();
    layout.focused_pane_id = PaneId(999);
    let restored = PaneManager::from_session(&layout);
    assert_eq!(restored.focused_pane_id, PaneId(0));
}

#[test]
fn session_ids_of_zero_are_refused() {
    let mut pm = PaneManager::new();
    pm.split(SplitDirection::Vertical);
    pm.root.find_mut(PaneId(0)).unwrap().channel_id = Some(42);
    assert!(pm.to_session().root.has_valid_ids());
    pm.root.find_mut(PaneId(1)).unwrap().guild_id = Some(0);
    assert!(!pm.to_session().root.has_valid_ids());
}

#[test]
fn session_layout_records_structure() {
    let mut pm = PaneManager::new();
    pm.split(SplitDirection::Vertical);
    pm.root.find_mut(PaneId(0)).unwrap().channel_id = Some(42);
    let layout = pm.to_session();
    assert_eq!(layout.focused_pane_id, PaneId(0));
    assert_eq!(layout.next_id, 2);
    match &layout.root {
        SessionNode::Split { direction, ratio, first, .. } => {
            assert_eq!(*direction, SplitDirection::Vertical);
            assert_eq!(*ratio, 50);
            match first.as_ref() {
                SessionNode::Leaf(p) => assert_eq!(p.channel_id, Some(42)),
                other => panic!("expected a leaf, got {other:?}"),
            }
        }
        other => panic!("expected a split, got {other:?}"),
    }
}

#[test]
fn assign_channel_to_focused_pane() {
    let mut pm = PaneManager::new();
    pm.assign_channel(100, Some(1));
    let pane = pm.focused_pane().unwrap();
    assert_eq!(pane.channel_id, Some(100));
    assert_eq!(pane.guild_id, Some(1));
    assert_eq!(pane.scroll, ScrollState::Following);
}

#[test]
fn assign_channel_resets_scroll() {
    let mut pm = PaneManager::new();
    pm.focused_pane_mut().unwrap().scroll = ScrollState::Manual { offset: 10 };
    pm.assign_channel(200, None);
    assert_eq!(pm.focused_pane().unwrap().scroll, ScrollState::Following);
}

#[test]
fn assign_channel_to_specific_pane() {
    let mut pm = PaneManager::new();
    let id1 = pm.split(SplitDirection::Vertical);
    pm.assign_channel(100, Some(1));
    pm.focused_pane_id = id1;
    pm.assign_channel(200, Some(2));
    assert_eq!(pm.root.find(PaneId(0)).unwrap().channel_id, Some(100));
    assert_eq!(pm.root.find(id1).unwrap().channel_id, Some(200));
}

#[test]
fn panes_viewing_channel_single_match() {
    let mut pm = PaneManager::new();
    let _id1 = pm.split(SplitDirection::Vertical);
    pm.root.find_mut(PaneId(0)).unwrap().channel_id = Some(100);
    assert_eq!(pm.root.panes_viewing_channel(100), vec![PaneId(0)]);
}

#[test]
fn panes_viewing_channel_multiple_matches() {
    let mut pm = PaneManager::new();
    let id1 = pm.split(SplitDirection::Vertical);
    pm.root.find_mut(PaneId(0)).unwrap().channel_id = Some(100);
    pm.root.find_mut(id1).unwrap().channel_id = Some(100);
    let viewers = pm.root.panes_viewing_channel(100);
    assert_eq!(viewers.len(), 2);
    assert!(viewers.contains(&PaneId(0)));
    assert!(viewers.contains(&id1));
}

#[test]
fn panes_viewing_channel_no_match() {
    let pm = PaneManager::new();
    assert!(pm.root.panes_viewing_channel(999).is_empty());
}

#[test]
fn panes_viewing_channel_different_channels() {
    let mut pm = PaneManager::new();
    let id1 = pm.split(SplitDirection::Vertical);
    pm.root.find_mut(PaneId(0)).unwrap().channel_id = Some(100);
    pm.root.find_mut(id1).unwrap().channel_id = Some(200);
    assert_eq!(pm.root.panes_viewing_channel(100), vec![PaneId(0)]);
    assert_eq!(pm.root.panes_viewing_channel(200), vec![id1]);
}

#[test]
fn close_zoomed_pane_clears_zoom_explicit() {
    let mut pm = PaneManager::new();
    let id1 = pm.split(SplitDirection::Horizontal);
    let _id2 = pm.split(SplitDirection::Horizontal);
    pm.focused_pane_id = id1;
    pm.toggle_zoom();
    assert_eq!(pm.zoom_state, Some(id1));
    pm.close_focused();
    assert!(pm.zoom_state.is_none(), "Zoom should be cleared when the zoomed pane is closed");
    assert_ne!(pm.focused_pane_id, id1, "Focus should move away from closed pane");
}

#[test]
fn focus_direction_picks_nearest_among_multiple_right() {
    let mut pm = PaneManager::new();
    let id1 = pm.split(SplitDirection::Vertical);
    pm.focused_pane_id = id1;
    let id2 = pm.split(SplitDirection::Horizontal);
    let positions = make_positions(&[
        (PaneId(0), Rect::new(0, 0, 40, 24)),
        (id1, Rect::new(40, 0, 40, 8)),
        (id2, Rect::new(40, 8, 40, 16)),
    ]);
    pm.focused_pane_id = PaneId(0);
    assert!(pm.focus_direction(Direction::Right, &positions));
    assert_eq!(pm.focused_pane_id, id2, "Should pick closest pane (P2)");
}

#[test]
fn focus_direction_picks_nearest_among_multiple_down() {
    let mut pm = PaneManager::new();
    let id1 = pm.split(SplitDirection::Horizontal);
    pm.focused_pane_id = id1;
    let id2 = pm.split(SplitDirection::Vertical);
    let positions = make_positions(&[
        (PaneId(0), Rect::new(0, 0, 80, 12)),
        (id1, Rect::new(0, 12, 30, 12)),
        (id2, Rect::new(30, 12, 50, 12)),
    ]);
    pm.focused_pane_id = PaneId(0);
    assert!(pm.focus_direction(Direction::Down, &positions));
    assert_eq!(pm.focused_pane_id, id2, "Should pick closest pane (P2)");
}

#[test]
fn focus_direction_strict_inequality_rejects_same_axis() {
    let mut pm = PaneManager::new();
    let id1 = pm.split(SplitDirection::Vertical);
    let positions = make_positions(&[
        (PaneId(0), Rect::new(0, 0, 40, 24)),
        (id1, Rect::new(40, 0, 40, 24)),
    ]);
    pm.focused_pane_id = PaneId(0);
    assert!(!pm.focus_direction(Direction::Up, &positions));
    assert!(!pm.focus_direction(Direction::Down, &positions));
}

#[test]
fn focus_direction_4_pane_grid() {
    let mut pm = PaneManager::new();
    let id1 = pm.split(SplitDirection::Vertical);
    pm.focused_pane_id = PaneId(0);
    let id2 = pm.split(SplitDirection::Horizontal);
    pm.focused_pane_id = id1;
    let id3 = pm.split(SplitDirection::Horizontal);
    let positions = make_positions(&[
        (PaneId(0), Rect::new(0, 0, 40, 12)),
        (id1, Rect::new(40, 0, 40, 12)),
        (id2, Rect::new(0, 12, 40, 12)),
        (id3, Rect::new(40, 12, 40, 12)),
    ]);
    pm.focused_pane_id = PaneId(0);
    assert!(pm.focus_direction(Direction::Right, &positions));
    assert_eq!(pm.focused_pane_id, id1);
    pm.focused_pane_id = PaneId(0);
    assert!(pm.focus_direction(Direction::Down, &positions));
    assert_eq!(pm.focused_pane_id, id2);
    pm.focused_pane_id = id3;
    assert!(pm.focus_direction(Direction::Left, &positions));
    assert_eq!(pm.focused_pane_id, id2);
    pm.focused_pane_id = id3;
    assert!(pm.focus_direction(Direction::Up, &positions));
    assert_eq!(pm.focused_pane_id, id1);
}

#[test]
fn focus_direction_returns_false_for_missing_position() {
    let mut pm = PaneManager::new();
    let positions: Vec<(PaneId, Rect)> = Vec::new();
    assert!(!pm.focus_direction(Direction::Right, &positions));
}

#[test]
fn focus_direction_down_distance_formula() {
    let mut pm = PaneManager::new();
    let id1 = pm.split(SplitDirection::Horizontal);
    pm.focused_pane_id = id1;
    let id2 = pm.split(SplitDirection::Vertical);
    let positions = make_positions(&[
        (PaneId(0), Rect::new(30, 0, 20, 20)),
        (id1, Rect::new(40, 10, 20, 10)),
        (id2, Rect::new(32, 15, 20, 10)),
    ]);
    pm.focused_pane_id = PaneId(0);
    assert!(pm.focus_direction(Direction::Down, &positions));
    assert_eq!(pm.focused_pane_id, id1, "P1 should win (distance 10 < 11)");
}

#[test]
fn focus_direction_down_catches_div_to_mod() {
    let mut pm = PaneManager::new();
    let id1 = pm.split(SplitDirection::Horizontal);
    pm.focused_pane_id = id1;
    let id2 = pm.split(SplitDirection::Vertical);
    let positions = make_positions(&[
        (PaneId(0), Rect::new(30, 0, 20, 20)),
        (id1, Rect::new(40, 6, 20, 20)),
        (id2, Rect::new(33, 9, 20, 20)),
    ]);
    pm.focused_pane_id = PaneId(0);
    assert!(pm.focus_direction(Direction::Down, &positions));
    assert_eq!(pm.focused_pane_id, id2, "P2 should win with correct /2 formula");
}

#[test]
fn focus_direction_up_catches_sub_to_add() {
    let mut pm = PaneManager::new();
    let id1 = pm.split(SplitDirection::Horizontal);
    pm.focused_pane_id = id1;
    let id2 = pm.split(SplitDirection::Vertical);
    let positions = make_positions(&[
        (PaneId(0), Rect::new(30, 30, 20, 20)),
        (id1, Rect::new(30, 20, 20, 20)),
        (id2, Rect::new(30, 0, 20, 20)),
    ]);
    pm.focused_pane_id = PaneId(0);
    assert!(pm.focus_direction(Direction::Up, &positions));
    assert_eq!(pm.focused_pane_id, id1, "P1 should win (closer to center)");
}

#[test]
fn focus_direction_right_distance_formula() {
    let mut pm = PaneManager::new();
    let id1 = pm.split(SplitDirection::Vertical);
    pm.focused_pane_id = id1;
    let id2 = pm.split(SplitDirection::Horizontal);
    let positions = make_positions(&[
        (PaneId(0), Rect::new(0, 30, 20, 20)),
        (id1, Rect::new(5, 40, 20, 20)),
        (id2, Rect::new(10, 32, 20, 20)),
    ]);
    pm.focused_pane_id = PaneId(0);
    assert!(pm.focus_direction(Direction::Right, &positions));
    assert_eq!(pm.focused_pane_id, id1, "P1 should win (distance 10 < 11)");
}

#[test]
fn focus_direction_left_catches_sub_to_add() {
    let mut pm = PaneManager::new();
    let id1 = pm.split(SplitDirection::Vertical);
    pm.focused_pane_id = id1;
    let id2 = pm.split(SplitDirection::Horizontal);
    let positions = make_positions(&[
        (PaneId(0), Rect::new(30, 30, 20, 20)),
        (id1, Rect::new(20, 30, 20, 20)),
        (id2, Rect::new(0, 30, 20, 20)),
    ]);
    pm.focused_pane_id = PaneId(0);
    assert!(pm.focus_direction(Direction::Left, &positions));
    assert_eq!(pm.focused_pane_id, id1, "P1 should win (closer to center)");
}

#[test]
fn focus_direction_right_catches_div_to_mod() {
    let mut pm = PaneManager::new();
    let id1 = pm.split(SplitDirection::Vertical);
    pm.focused_pane_id = id1;
    let id2 = pm.split(SplitDirection::Horizontal);
    let positions = make_positions(&[
        (PaneId(0), Rect::new(0, 30, 20, 20)),
        (id1, Rect::new(6, 40, 20, 20)),
        (id2, Rect::new(9, 33, 20, 20)),
    ]);
    pm.focused_pane_id = PaneId(0);
    assert!(pm.focus_direction(Direction::Right, &positions));
    assert_eq!(pm.focused_pane_id, id2, "P2 should win with correct /2 formula");
}

#[test]
fn focus_direction_tie_uses_strict_less_than() {
    let mut pm = PaneManager::new();
    let id1 = pm.split(SplitDirection::Vertical);
    pm.focused_pane_id = id1;
    let id2 = pm.split(SplitDirection::Horizontal);
    let positions = make_positions(&[
        (PaneId(0), Rect::new(0, 0, 20, 40)),
        (id1, Rect::new(20, 0, 20, 20)),
        (id2, Rect::new(20, 20, 20, 20)),
    ]);
    pm.focused_pane_id = PaneId(0);
    assert!(pm.focus_direction(Direction::Right, &positions));
    assert!(pm.focused_pane_id == id1 || pm.focused_pane_id == id2);
}

#[test]
fn focus_direction_tie_keeps_first_listed() {
    let mut pm = PaneManager::new();
    let id1 = pm.split(SplitDirection::Vertical);
    pm.focused_pane_id = id1;
    let id2 = pm.split(SplitDirection::Horizontal);
    let positions = make_positions(&[
        (PaneId(0), Rect::new(0, 0, 20, 40)),
        (id2, Rect::new(20, 20, 20, 20)),
        (id1, Rect::new(20, 0, 20, 20)),
    ]);
    pm.focused_pane_id = PaneId(0);
    assert!(pm.focus_direction(Direction::Right, &positions));
    assert_eq!(pm.focused_pane_id, id2);
}

#[test]
fn resize_zero_delta_returns_false() {
    let mut pm = PaneManager::new();
    pm.split(SplitDirection::Horizontal);
    let result = pm.root.resize(PaneId(0), 0);
    assert!(!result, "Zero delta should return false (no change)");
    let ratio = root_ratio(&pm.root).unwrap();
    assert!((ratio - 0.5).abs() < f32::EPSILON);
}

#[test]
fn resize_nonexistent_pane_returns_false() {
    let mut pm = PaneManager::new();
    pm.split(SplitDirection::Horizontal);
    assert!(!pm.root.resize(PaneId(999), 10));
}

#[test]
fn resize_focused_uses_correct_delta_multiplier() {
    let mut pm = PaneManager::new();
    pm.split(SplitDirection::Vertical);
    assert!(pm.resize_focused(Direction::Right, 1));
    let ratio = root_ratio(&pm.root).unwrap();
    assert!((ratio - 0.55).abs() < 0.001, "Ratio should be ~0.55, got {ratio}");
    assert!(pm.resize_focused(Direction::Right, 2));
    let ratio = root_ratio(&pm.root).unwrap();
    assert!((ratio - 0.65).abs() < 0.001, "Ratio should be ~0.65, got {ratio}");
}

#[test]
fn close_focused_preserves_index_position() {
    let mut pm = PaneManager::new();
    let id1 = pm.split(SplitDirection::Horizontal);
    pm.focused_pane_id = id1;
    let id2 = pm.split(SplitDirection::Horizontal);
    let leaves = pm.all_pane_ids();
    assert_eq!(leaves.len(), 3);
    pm.focused_pane_id = id1;
    assert!(pm.close_focused());
    let new_leaves = pm.all_pane_ids();
    assert_eq!(new_leaves.len(), 2);
    let focus_idx = new_leaves.iter().position(|&id| id == pm.focused_pane_id).unwrap();
    assert_eq!(focus_idx, 1);
    assert_eq!(pm.focused_pane_id, id2);
}

#[test]
fn close_last_in_order_wraps_focus() {
    let mut pm = PaneManager::new();
    let _id1 = pm.split(SplitDirection::Horizontal);
    pm.focus_next();
    let id2 = pm.split(SplitDirection::Horizontal);
    pm.focused_pane_id = id2;
    assert!(pm.close_focused());
    let leaves = pm.all_pane_ids();
    assert!(leaves.contains(&pm.focused_pane_id));
}

#[test]
fn close_non_zoomed_pane_keeps_zoom() {
    let mut pm = PaneManager::new();
    let id1 = pm.split(SplitDirection::Horizontal);
    pm.focused_pane_id = PaneId(0);
    pm.toggle_zoom();
    assert_eq!(pm.zoom_state, Some(PaneId(0)));
    pm.focused_pane_id = id1;
    pm.close_focused();
    assert_eq!(pm.zoom_state, Some(PaneId(0)));
}

fn build_pm(ops: &[SplitDirection]) -> PaneManager {
    let mut pm = PaneManager::new();
    for (i, &dir) in ops.iter().enumerate() {
        if i % 2 == 1 {
            pm.focus_next();
        }
        pm.split(dir);
    }
    pm
}

fn op_sequences() -> Vec<Vec<SplitDirection>> {
    let mut out = vec![vec![]];
    for n in 1..=6usize {
        for bits in 0..(1u32 << n) {
            out.push(
                (0..n)
                    .map(|k| if bits & (1 << k) != 0 { SplitDirection::Vertical } else { SplitDirection::Horizontal })
                    .collect(),
            );
        }
    }
    out
}

#[test]
fn structural_properties_over_many_layouts() {
    for ops in op_sequences() {
        let mut pm = build_pm(&ops);
        let leaves = pm.root.leaves_in_order();
        assert_eq!(leaves.len(), pm.root.leaf_count());
        let mut seen = std::collections::HashSet::new();
        for id in &leaves {
            assert!(seen.insert(*id));
            assert!(pm.root.find(*id).is_some());
        }
        for probe in 0..20 {
            assert_eq!(pm.root.contains(PaneId(probe)), pm.root.find(PaneId(probe)).is_some());
        }
        // focus_next cycles back after as many steps as there are panes.
        let start = pm.focused_pane_id;
        for _ in 0..pm.pane_count() {
            pm.focus_next();
        }
        assert_eq!(pm.focused_pane_id, start);
        pm.focus_next();
        pm.focus_prev();
        assert_eq!(pm.focused_pane_id, start);
        // Positions cover every pane and stay inside the area.
        let area = Rect::new(5, 3, 200, 100);
        let positions = pm.compute_positions(area);
        assert_eq!(positions.len(), pm.pane_count());
        for (_, r) in &positions {
            assert!(r.x >= area.x && r.y >= area.y);
            assert!(r.x + r.width <= area.x + area.width);
            assert!(r.y + r.height <= area.y + area.height);
        }
        // The session layout gives the same panes back.
        let restored = PaneManager::from_session(&pm.to_session());
        assert_eq!(restored.all_pane_ids(), pm.all_pane_ids());
        assert_eq!(restored.focused_pane_id, pm.focused_pane_id);
        // Splitting adds one pane and keeps the others.
        let before = pm.all_pane_ids();
        pm.split(SplitDirection::Vertical);
        assert_eq!(pm.pane_count(), before.len() + 1);
        for id in &before {
            assert!(pm.root.contains(*id));
        }
        // Closing never drops the last pane.
        while pm.close_focused() {}
        assert_eq!(pm.pane_count(), 1);
    }
}

#[test]
fn split_area_conserves_dimensions() {
    for (x, y, w, h) in [(0u16, 0u16, 1u16, 1u16), (3, 7, 199, 101), (99, 0, 37, 2)] {
        for ratio in [0u32, 1, 33, 50, 99, 100] {
            let area = Rect::new(x, y, w, h);
            let (a, b) = split_area(area, SplitDirection::Vertical, ratio);
            assert_eq!(a.width + b.width, area.width);
            assert_eq!((a.x, a.y, b.y), (area.x, area.y, area.y));
            assert_eq!(b.x, a.x + a.width);
            let (a, b) = split_area(area, SplitDirection::Horizontal, ratio);
            assert_eq!(a.height + b.height, area.height);
            assert_eq!((a.x, a.y, b.x), (area.x, area.y, area.x));
            assert_eq!(b.y, a.y + a.height);
        }
    }
}

#[test]
fn resize_keeps_ratio_in_bounds() {
    for delta in [-200, -91, -41, -1, 0, 1, 39, 41, 200] {
        let mut pm = PaneManager::new();
        pm.split(SplitDirection::Vertical);
        pm.root.resize(PaneId(0), delta);
        let ratio = root_ratio(&pm.root).unwrap();
        assert!((0.1..=0.9).contains(&ratio), "ratio {ratio} out of bounds for {delta}");
    }
}
