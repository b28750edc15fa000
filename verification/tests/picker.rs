use llama_setup::list_picker::{
    handle_key, initial_state, key_needs_rows, visible_rows, Key, PickerOutcome, PickerState,
};

fn state(selected: usize, offset: usize) -> PickerState {
    PickerState { selected, offset }
}

#[test]
fn rows_left_for_the_list() {
    assert_eq!(visible_rows(24), 22);
    assert_eq!(visible_rows(3), 1);
    assert_eq!(visible_rows(2), 1);
    assert_eq!(visible_rows(0), 1);
    assert_eq!(visible_rows(u16::MAX), 65533);
}

#[test]
fn up_and_down_move_by_one_and_stop_at_the_ends() {
    assert_eq!(initial_state(), state(0, 0));
    assert_eq!(handle_key(state(0, 0), Key::Up, 5, 3), PickerOutcome::Continue(state(0, 0)));
    assert_eq!(handle_key(state(4, 2), Key::Down, 5, 3), PickerOutcome::Continue(state(4, 2)));
    assert_eq!(handle_key(state(1, 0), Key::Down, 5, 3), PickerOutcome::Continue(state(2, 0)));
    // moving below the window scrolls it
    assert_eq!(handle_key(state(2, 0), Key::Down, 5, 3), PickerOutcome::Continue(state(3, 1)));
    // moving above the window scrolls it back
    assert_eq!(handle_key(state(1, 1), Key::Up, 5, 3), PickerOutcome::Continue(state(0, 0)));
}

#[test]
fn page_keys_move_by_a_window() {
    assert_eq!(handle_key(state(0, 0), Key::PageDown, 10, 3), PickerOutcome::Continue(state(3, 1)));
    assert_eq!(handle_key(state(8, 6), Key::PageDown, 10, 3), PickerOutcome::Continue(state(9, 7)));
    assert_eq!(handle_key(state(9, 7), Key::PageUp, 10, 3), PickerOutcome::Continue(state(6, 4)));
    assert_eq!(handle_key(state(2, 1), Key::PageUp, 10, 3), PickerOutcome::Continue(state(0, 0)));
}

#[test]
fn enter_chooses_and_escape_cancels() {
    assert_eq!(handle_key(state(3, 1), Key::Enter, 5, 3), PickerOutcome::Chosen(3));
    assert_eq!(handle_key(state(3, 1), Key::Esc, 5, 3), PickerOutcome::Cancelled);
    assert_eq!(handle_key(state(3, 1), Key::Other, 5, 3), PickerOutcome::Continue(state(3, 1)));
}

#[test]
fn only_moving_keys_need_the_window_size() {
    assert!(key_needs_rows(Key::Down));
    assert!(key_needs_rows(Key::PageUp));
    assert!(key_needs_rows(Key::PageDown));
    assert!(!key_needs_rows(Key::Up));
    assert!(!key_needs_rows(Key::Enter));
    assert!(!key_needs_rows(Key::Other));
}

#[test]
fn selection_stays_in_view_over_a_run_of_keys() {
    let keys = [Key::Down, Key::Down, Key::Down, Key::PageDown, Key::Up, Key::PageUp, Key::Down, Key::PageDown, Key::PageDown];
    let (n, rows) = (7usize, 2usize);
    let mut s = initial_state();
    for k in keys {
        match handle_key(s, k, n, rows) {
            PickerOutcome::Continue(t) => {
                assert!(t.offset <= t.selected && t.selected < n && t.selected < t.offset + rows);
                s = t;
            }
            other => panic!("unexpected {other:?}"),
        }
    }
    assert_eq!(s, state(6, 5));
}
