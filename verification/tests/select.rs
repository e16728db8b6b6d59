use fluxcope::select::{
    SelectCommit, SelectFilterMode, SelectItem, SelectItemRole, SelectKey, SelectOutcome, SelectState,
};

fn items() -> Vec<SelectItem> {
    vec![
        SelectItem::value(0, "dev".to_string()),
        SelectItem::value(1, "qa".to_string()),
        SelectItem::value(2, "prod".to_string()),
    ]
}

#[test]
fn open_focuses_selected_item() {
    let items = items();
    let mut state = SelectState::new();

    state.open_with_selected(&items, Some(2), 4);

    assert!(state.is_open());
    assert_eq!(state.focused_filtered_index(), 2);
    assert_eq!(state.focused_item_index(&items), Some(2));
}

#[test]
fn filtering_resets_focus_to_first_match() {
    let items = items();
    let mut state = SelectState::new();
    state.open_with_selected(&items, Some(2), 4);

    state.handle_key(SelectKey::Char('d'), &items, 4);

    assert_eq!(state.filter(), "d");
    assert_eq!(state.focused_filtered_index(), 0);
    assert_eq!(state.focused_item_index(&items), Some(0));
}

#[test]
fn commit_returns_item_id_and_role() {
    let items = items();
    let mut state = SelectState::new();
    state.open_with_selected(&items, Some(0), 4);
    state.handle_key(SelectKey::Down, &items, 4);

    let outcome = state.handle_key(SelectKey::Enter, &items, 4);

    assert_eq!(outcome, SelectOutcome::Committed(SelectCommit { id: 1, role: SelectItemRole::Value }));
    assert!(state.is_open());
}

#[test]
fn action_items_can_stay_visible_when_filtered() {
    let items = vec![
        SelectItem::value(0, "dev".to_string()),
        SelectItem {
            id: 1,
            label: "Add new".to_string(),
            role: SelectItemRole::Action,
            filter_mode: SelectFilterMode::AlwaysVisible,
        },
    ];
    let mut state = SelectState::new();
    state.open_with_selected(&items, Some(0), 4);

    state.handle_key(SelectKey::Char('z'), &items, 4);

    assert_eq!(state.resolve_items(&items).item_index(0), Some(1));
    assert_eq!(state.resolve_items(&items).len(), 1);
}

#[test]
fn filter_matching_ignores_case_and_backspace_restores_all_items() {
    let items = items();
    let mut state = SelectState::new();
    state.open_with_selected(&items, None, 4);
    state.handle_key(SelectKey::Char('Q'), &items, 4);
    assert_eq!(state.resolve_items(&items).len(), 1);
    assert_eq!(state.focused_item_index(&items), Some(1));
    assert_eq!(state.filter_prefix(), "Q");
    state.handle_key(SelectKey::Left, &items, 4);
    assert_eq!(state.filter_prefix(), "");
    state.handle_key(SelectKey::Right, &items, 4);
    state.handle_key(SelectKey::Backspace, &items, 4);
    assert_eq!(state.filter(), "");
    assert_eq!(state.resolve_items(&items).len(), 3);
}

#[test]
fn escape_closes_and_paging_keeps_the_focus_visible() {
    let items: Vec<SelectItem> = (0..10).map(|i| SelectItem::value(i, format!("item {i}"))).collect();
    let mut state = SelectState::new();
    assert_eq!(state.handle_key(SelectKey::Down, &items, 3), SelectOutcome::Idle);
    assert_eq!(state.handle_key(SelectKey::Enter, &items, 3), SelectOutcome::Opened);
    state.handle_key(SelectKey::PageDown, &items, 3);
    assert_eq!(state.focused_filtered_index(), 3);
    assert_eq!(state.scroll_offset(), 1);
    state.handle_key(SelectKey::PageDown, &items, 3);
    state.handle_key(SelectKey::PageDown, &items, 3);
    state.handle_key(SelectKey::PageDown, &items, 3);
    assert_eq!(state.focused_filtered_index(), 9);
    assert_eq!(state.scroll_offset(), 7);
    assert_eq!(state.handle_key(SelectKey::Esc, &items, 3), SelectOutcome::Closed);
    assert!(!state.is_open());
    assert_eq!(state.focused_filtered_index(), 0);
}

fn many_items() -> Vec<SelectItem> {
    (0..6).map(|i| SelectItem::value(i, format!("item {i}"))).collect()
}

#[test]
fn scrolling_keeps_the_focus_on_a_shown_row() {
    let items = many_items();
    let mut state = SelectState::new();
    state.open_with_selected(&items, Some(0), 2);
    assert_eq!((state.scroll_offset(), state.focused_filtered_index()), (0, 0));

    state.scroll_down(&items, 2);
    assert_eq!((state.scroll_offset(), state.focused_filtered_index()), (1, 1));
    for _ in 0..10 {
        state.scroll_down(&items, 2);
    }
    assert_eq!((state.scroll_offset(), state.focused_filtered_index()), (4, 4));

    state.handle_key(SelectKey::Down, &items, 2);
    assert_eq!(state.focused_filtered_index(), 5);
    state.scroll_up(&items, 2);
    assert_eq!((state.scroll_offset(), state.focused_filtered_index()), (3, 4));
    for _ in 0..10 {
        state.scroll_up(&items, 2);
    }
    assert_eq!((state.scroll_offset(), state.focused_filtered_index()), (0, 1));
}

#[test]
fn committing_a_shown_position_picks_the_item_shown_there() {
    let items = items();
    let mut state = SelectState::new();
    state.open_with_selected(&items, None, 4);
    state.handle_key(SelectKey::Char('d'), &items, 4);
    assert_eq!(state.commit_filtered_index(&items, 0), Some(SelectCommit { id: 0, role: SelectItemRole::Value }));
    assert_eq!(state.commit_filtered_index(&items, 1), Some(SelectCommit { id: 2, role: SelectItemRole::Value }));
    assert_eq!(state.commit_filtered_index(&items, 2), None);
}

#[test]
fn typing_a_character_and_deleting_it_restores_the_filter() {
    let items = items();
    let mut state = SelectState::new();
    state.open_with_selected(&items, Some(2), 4);
    state.handle_key(SelectKey::Char('d'), &items, 4);
    state.handle_key(SelectKey::Char('q'), &items, 4);
    assert_eq!(state.filter(), "dq");
    state.handle_key(SelectKey::Backspace, &items, 4);
    assert_eq!(state.filter(), "d");
    assert_eq!(state.filter_prefix(), "d");
    assert_eq!((state.focused_filtered_index(), state.scroll_offset()), (0, 0));
}

#[test]
fn insert_then_backspace_restores_the_filter_even_on_a_closed_list() {
    let items = items();
    let mut state = SelectState::new();
    state.insert_char('x', &items);
    assert_eq!(state.filter(), "x");
    state.backspace(&items);
    assert_eq!(state.filter(), "");
    assert_eq!((state.focused_filtered_index(), state.scroll_offset()), (0, 0));
    state.backspace(&items);
    assert_eq!(state.filter(), "");
    assert!(!state.is_open());
}
