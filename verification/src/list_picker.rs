//! Keyboard navigation of a scrolling list: which entry is selected and
//! which entry is drawn at the top of the window.
use vstd::prelude::*;

verus! {

/// The keys the picker reacts to; every other key is `Other`.
#[derive(Clone, Copy, Debug, PartialEq, Eq, Structural)]
pub enum Key {
    Up,
    Down,
    PageUp,
    PageDown,
    Enter,
    Esc,
    Other,
}

/// The selected entry and the first entry drawn.
#[derive(Clone, Copy, Debug, PartialEq, Eq, Structural)]
pub struct PickerState {
    pub selected: usize,
    pub offset: usize,
}

/// What a key press leads to.
#[derive(Clone, Copy, Debug, PartialEq, Eq, Structural)]
pub enum PickerOutcome {
    /// Keep going with this state.
    Continue(PickerState),
    /// The entry at this index was chosen.
    Chosen(usize),
    /// The user left without choosing.
    Cancelled,
}

/// The state when the picker opens: the first entry, at the top.
pub fn initial_state() -> (r: PickerState)
    ensures
        r == (PickerState { selected: 0, offset: 0 }),
{
    PickerState { selected: 0, offset: 0 }
}

/// The number of list rows that fit in a terminal of `terminal_rows` rows:
/// two rows are kept for the frame, and at least one row is shown.
pub fn visible_rows(terminal_rows: u16) -> (r: usize)
    ensures
        r == if terminal_rows >= 3 {
            terminal_rows - 2
        } else {
            1
        },
{
    let rows = if terminal_rows >= 2 {
        terminal_rows - 2
    } else {
        0
    };
    if rows >= 1 {
        rows as usize
    } else {
        1
    }
}

/// Whether handling `key` needs the number of visible rows.
pub fn key_needs_rows(key: Key) -> (r: bool)
    ensures
        r == (key == Key::Down || key == Key::PageUp || key == Key::PageDown),
{
    match key {
        Key::Down | Key::PageUp | Key::PageDown => true,
        _ => false,
    }
}

pub open spec fn sat_sub(a: int, b: int) -> int {
    if a >= b {
        a - b
    } else {
        0
    }
}

/// The effect of `key` on `s` in a list of `n` entries with `rows` visible rows.
pub open spec fn picker_step(s: PickerState, key: Key, n: usize, rows: usize) -> PickerOutcome {
    match key {
        Key::Up => {
            let sel = sat_sub(s.selected as int, 1);
            let off = if sel < s.offset { sel } else { s.offset as int };
            PickerOutcome::Continue(PickerState { selected: sel as usize, offset: off as usize })
        },
        Key::Down => {
            let sel = if s.selected + 1 < n { s.selected + 1 } else { s.selected as int };
            let off = if sel >= s.offset + rows { sel + 1 - rows } else { s.offset as int };
            PickerOutcome::Continue(PickerState { selected: sel as usize, offset: off as usize })
        },
        Key::PageUp => {
            let sel = sat_sub(s.selected as int, rows as int);
            let off0 = sat_sub(s.offset as int, rows as int);
            let off = if sel < off0 { sel } else { off0 };
            PickerOutcome::Continue(PickerState { selected: sel as usize, offset: off as usize })
        },
        Key::PageDown => {
            let sel = if s.selected + rows < n - 1 { s.selected + rows } else { n - 1 };
            let off = if sel >= s.offset + rows { sel + 1 - rows } else { s.offset as int };
            PickerOutcome::Continue(PickerState { selected: sel as usize, offset: off as usize })
        },
        Key::Enter => PickerOutcome::Chosen(s.selected),
        Key::Esc => PickerOutcome::Cancelled,
        Key::Other => PickerOutcome::Continue(s),
    }
}

/// Handles `key` in a list of `item_count` entries of which `rows` are
/// visible: Up and Down move by one, PageUp and PageDown by a window (never
/// past either end), and the window follows the selection; Enter chooses the
/// selected entry and Esc cancels.
pub fn handle_key(state: PickerState, key: Key, item_count: usize, rows: usize) -> (r: PickerOutcome)
    requires
        state.selected < item_count,
        state.selected + rows <= usize::MAX,
        state.offset + rows <= usize::MAX,
    ensures
        r == picker_step(state, key, item_count, rows),
{
    let selected = state.selected;
    let offset = state.offset;
    match key {
        Key::Up => {
            let sel = if selected >= 1 {
                selected - 1
            } else {
                0
            };
            let off = if sel < offset {
                sel
            } else {
                offset
            };
            PickerOutcome::Continue(PickerState { selected: sel, offset: off })
        },
        Key::Down => {
            let sel = if selected + 1 < item_count {
                selected + 1
            } else {
                selected
            };
            let off = if sel >= offset + rows {
                sel + 1 - rows
            } else {
                offset
            };
            PickerOutcome::Continue(PickerState { selected: sel, offset: off })
        },
        Key::PageUp => {
            let sel = if selected >= rows {
                selected - rows
            } else {
                0
            };
            let off0 = if offset >= rows {
                offset - rows
            } else {
                0
            };
            let off = if sel < off0 {
                sel
            } else {
                off0
            };
            PickerOutcome::Continue(PickerState { selected: sel, offset: off })
        },
        Key::PageDown => {
            let last = item_count - 1;
            let sel = if selected + rows < last {
                selected + rows
            } else {
                last
            };
            let off = if sel >= offset + rows {
                sel + 1 - rows
            } else {
                offset
            };
            PickerOutcome::Continue(PickerState { selected: sel, offset: off })
        },
        Key::Enter => PickerOutcome::Chosen(selected),
        Key::Esc => PickerOutcome::Cancelled,
        Key::Other => PickerOutcome::Continue(state),
    }
}

/// The picker's invariant: the selection is an entry of the list and is
/// drawn, i.e. lies in the window of `rows` rows that starts at the offset.
pub open spec fn shows_selection(s: PickerState, n: int, rows: int) -> bool {
    s.offset <= s.selected < n && s.selected < s.offset + rows
}

/// Law: with at least one visible row, every key keeps the selection inside
/// the list and inside the drawn window, and a chosen index is an entry.
pub proof fn lemma_selection_stays_visible(s: PickerState, key: Key, n: usize, rows: usize)
    requires
        shows_selection(s, n as int, rows as int),
        rows >= 1,
        s.selected + rows <= usize::MAX,
        s.offset + rows <= usize::MAX,
    ensures
        picker_step(s, key, n, rows) matches PickerOutcome::Continue(t) ==> shows_selection(
            t,
            n as int,
            rows as int,
        ),
        picker_step(s, key, n, rows) matches PickerOutcome::Chosen(i) ==> 0 <= i < n,
{
}

/// Law: whatever came before, after Down or PageDown the selection is drawn,
/// and after Up or PageUp the window does not start below the selection.
pub proof fn lemma_window_follows_selection(s: PickerState, key: Key, n: usize, rows: usize)
    requires
        s.selected < n,
        rows >= 1,
        s.offset + rows <= usize::MAX,
        s.selected + rows <= usize::MAX,
    ensures
        picker_step(s, key, n, rows) matches PickerOutcome::Continue(t) ==> t.selected < n,
        (key == Key::Down || key == Key::PageDown) ==> (picker_step(s, key, n, rows) matches PickerOutcome::Continue(t) && t.selected < t.offset + rows),
        (key == Key::Up || key == Key::PageUp) ==> (picker_step(s, key, n, rows) matches PickerOutcome::Continue(t) && t.offset <= t.selected),
{
}

/// Law: how far each key moves the selection in a list of `n` entries with
/// `rows` visible rows: Up and Down by one, PageUp and PageDown by `rows`,
/// never past the first or the last entry; Enter chooses the selected entry,
/// Esc cancels, and any other key changes nothing.
pub proof fn lemma_keys_move_selection(s: PickerState, n: usize, rows: usize)
    requires
        s.selected < n,
    ensures
        picker_step(s, Key::Up, n, rows) matches PickerOutcome::Continue(t) && t.selected == (if s.selected
            > 0 {
            s.selected - 1
        } else {
            0
        }),
        picker_step(s, Key::Down, n, rows) matches PickerOutcome::Continue(t) && t.selected == (if s.selected
            + 1 < n {
            s.selected + 1
        } else {
            n - 1
        }),
        picker_step(s, Key::PageUp, n, rows) matches PickerOutcome::Continue(t) && t.selected == (
        if s.selected >= rows {
            s.selected - rows
        } else {
            0
        }),
        picker_step(s, Key::PageDown, n, rows) matches PickerOutcome::Continue(t) && t.selected == (
        if s.selected + rows < n {
            s.selected + rows
        } else {
            n - 1
        }),
        picker_step(s, Key::Enter, n, rows) == PickerOutcome::Chosen(s.selected),
        picker_step(s, Key::Esc, n, rows) == PickerOutcome::Cancelled,
        picker_step(s, Key::Other, n, rows) == PickerOutcome::Continue(s),
{
}

/// Law: Up and Down scroll only as far as needed: the window stays put while
/// the new selection is in it, and otherwise moves just enough to show the
/// selection on its top (Up) or bottom (Down) row.
pub proof fn lemma_single_steps_scroll_minimally(s: PickerState, n: usize, rows: usize)
    requires
        s.selected < n,
        rows >= 1,
        s.offset + rows <= usize::MAX,
    ensures
        picker_step(s, Key::Up, n, rows) matches PickerOutcome::Continue(t) && (if s.offset
            <= t.selected {
            t.offset == s.offset
        } else {
            t.offset == t.selected
        }),
        picker_step(s, Key::Down, n, rows) matches PickerOutcome::Continue(t) && (if t.selected
            < s.offset + rows {
            t.offset == s.offset
        } else {
            t.offset + rows == t.selected + 1
        }),
{
}

} // verus!
