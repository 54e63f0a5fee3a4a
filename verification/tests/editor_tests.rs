use bsh::editor::{history_display, Editor};
use bsh::history::HistoryState;

fn alloc_history_state(capacity: usize, full: usize) -> Editor {
    assert!(full <= capacity);
    let mut state = Editor::with_capacity(capacity);
    for i in 0..full {
        state.add_history_entry(&format!("cmd{}", i));
    }
    state
}

#[test]
fn editor_init_with_capacity() {
    let capacity = 10;
    let state = Editor::with_capacity(capacity);
    assert!(state.history().is_empty());
    assert_eq!(state.history_count, 0);
    assert_eq!(state.history_capacity, capacity);
}

#[test]
fn editor_clear() {
    let capacity = 10;
    let mut state = alloc_history_state(capacity, 5);
    state.clear_history();
    assert!(state.history().is_empty());
    assert_eq!(state.history_count, 0);
    assert_eq!(state.history_capacity, capacity);
}

#[test]
fn add_history_entry_duplicate() {
    let mut state = Editor::with_capacity(2);

    let item = "dup";
    state.add_history_entry(item);
    assert_eq!(state.history().len(), 1);

    state.add_history_entry(item);
    assert_eq!(state.history().len(), 1);
}

#[test]
fn add_history_entry_rollover() {
    let mut state = alloc_history_state(10, 10);
    state.add_history_entry("extra");
    assert_eq!(state.history_count, 11);
}

#[test]
fn editor_expand_empty_command() {
    let mut buf = String::new();
    let state = alloc_history_state(1, 1);
    assert!(state.expand_history(&mut buf).is_ok());
    assert!(buf.is_empty());
}

#[test]
fn editor_expand_empty_history() {
    let state = alloc_history_state(0, 0);

    let mut buf = String::new();
    assert!(state.expand_history(&mut buf).is_ok());
    assert!(buf.is_empty());

    let first_cmd = "!1";
    let mut buf = first_cmd.to_string();
    assert!(state.expand_history(&mut buf).is_err());
    assert_eq!(buf.as_str(), first_cmd);

    let last_cmd = "!-1";
    let mut buf = String::from(last_cmd);
    assert!(state.expand_history(&mut buf).is_err());
    assert_eq!(buf, last_cmd);
}

#[test]
fn editor_expand_positive_nth_command() {
    let (cap, full) = (10, 10);
    let state = alloc_history_state(cap, full);
    for i in 0..full {
        let mut buf = format!("!{}", i + 1);
        assert!(state.expand_history(&mut buf).is_ok());
        assert_eq!(buf, format!("cmd{}", i));
    }
}

#[test]
fn editor_expand_negative_nth_command() {
    let (cap, full) = (10, 10);
    let state = alloc_history_state(cap, full);
    for i in 0..full {
        let mut buf = format!("!-{}", i + 1);
        assert!(state.expand_history(&mut buf).is_ok());
        assert_eq!(buf, format!("cmd{}", full - i - 1));
    }
}

#[test]
fn editor_expand_string() {
    let state = alloc_history_state(10, 10);

    let mut buf = String::from("!c");
    assert!(state.expand_history(&mut buf).is_ok());
    assert_eq!(buf, "cmd9");

    buf = String::from("!cmd1");
    assert!(state.expand_history(&mut buf).is_ok());
    assert_eq!(buf, "cmd1");
}

#[test]
fn event_not_found_message() {
    let state = alloc_history_state(10, 3);
    let mut buf = String::from("!zzz");
    let err = state.expand_history(&mut buf).unwrap_err();
    assert_eq!(err.message(), "!zzz: event not found");
    assert_eq!(buf, "!zzz");
    let mut buf = String::from("!0");
    assert!(state.expand_history(&mut buf).is_err());
}

#[test]
fn entries_are_numbered_by_absolute_position() {
    let mut state = Editor::with_capacity(3);
    for i in 0..5 {
        state.add_history_entry(&format!("cmd{}", i));
    }
    assert_eq!(state.get_history_entry(1), None);
    assert_eq!(state.get_history_entry(2).map(|s| s.as_str()), Some("cmd2"));
    assert_eq!(state.get_history_entry(4).map(|s| s.as_str()), Some("cmd4"));
    assert_eq!(state.get_history_entry(5), None);
    let listed = state.enumerate_history_entries();
    assert_eq!(
        listed,
        vec![(2, "cmd2".to_string()), (3, "cmd3".to_string()), (4, "cmd4".to_string())]
    );
    assert_eq!(state.display(), "\t3\tcmd2\n\t4\tcmd3\n\t5\tcmd4\n");
    assert_eq!(history_display(&state, 0), "");
    let state = alloc_history_state(10, 5);
    assert_eq!(history_display(&state, 2), "\t4\tcmd3\n\t5\tcmd4");
    assert_eq!(history_display(&state, 9), state.display().trim_end().to_string());
}

#[test]
fn lines_starting_with_space_are_not_kept() {
    let mut state = Editor::with_capacity(3);
    state.add_history_entry(" secret");
    state.add_history_entry("");
    assert_eq!(state.history_count, 0);
    assert!(state.history().is_empty());
}

#[test]
fn shrinking_keeps_newest_entries() {
    let mut state = alloc_history_state(10, 5);
    state.set_history_max_size(2);
    assert_eq!(state.history().len(), 2);
    assert_eq!(state.history().get(0).map(|s| s.as_str()), Some("cmd3"));
    assert_eq!(state.history_capacity, 2);
    assert_eq!(state.get_history_count(), 5);
}

fn alloc_old_history_state(capacity: usize, full: usize) -> HistoryState {
    assert!(full <= capacity);
    let mut state = HistoryState::with_capacity(capacity);
    for i in 0..full {
        state.push(&format!("cmd{}", i));
    }
    state
}

#[test]
fn history_init_with_capacity() {
    let capacity = 10;
    let state = HistoryState::with_capacity(capacity);
    assert!(state.internal.is_empty());
    assert_eq!(state.count, 0);
    assert_eq!(state.capacity, capacity);
}

#[test]
fn history_clear() {
    let capacity = 10;
    let mut state = alloc_old_history_state(capacity, 5);
    state.clear();
    assert!(state.internal.is_empty());
    assert_eq!(state.count, 0);
    assert_eq!(state.capacity, capacity);
}

#[test]
fn push_duplicate() {
    let mut state = HistoryState::with_capacity(2);

    let item = "dup";
    state.push(item);
    assert_eq!(state.internal.len(), 1);

    state.push(item);
    assert_eq!(state.internal.len(), 1);
}

#[test]
fn push_rollover() {
    let mut state = alloc_old_history_state(10, 10);
    state.push("extra");
    assert_eq!(state.count, 11);
}

#[test]
fn history_expand_empty_command() {
    let mut buf = String::new();
    let state = alloc_old_history_state(1, 1);
    assert!(state.expand(&mut buf).is_ok());
    assert!(buf.is_empty());
}

#[test]
fn history_expand_empty_history() {
    let state = alloc_old_history_state(0, 0);

    let mut buf = String::new();
    assert!(state.expand(&mut buf).is_ok());
    assert!(buf.is_empty());

    let first_cmd = "!1";
    let mut buf = first_cmd.to_string();
    assert!(state.expand(&mut buf).is_err());
    assert_eq!(buf.as_str(), first_cmd);

    let last_cmd = "!-1";
    let mut buf = String::from(last_cmd);
    assert!(state.expand(&mut buf).is_err());
    assert_eq!(buf, last_cmd);
}

#[test]
fn history_expand_positive_nth_command() {
    let (cap, full) = (10, 10);
    let state = alloc_old_history_state(cap, full);
    for i in 0..full {
        let mut buf = format!("!{}", i + 1);
        assert!(state.expand(&mut buf).is_ok());
        assert_eq!(buf, format!("cmd{}", i));
    }
}

#[test]
fn history_expand_negative_nth_command() {
    let (cap, full) = (10, 10);
    let state = alloc_old_history_state(cap, full);
    for i in 0..full {
        let mut buf = format!("!-{}", i + 1);
        assert!(state.expand(&mut buf).is_ok());
        assert_eq!(buf, format!("cmd{}", full - i - 1));
    }
}

#[test]
fn history_expand_string() {
    let state = alloc_old_history_state(10, 10);

    let mut buf = String::from("!c");
    assert!(state.expand(&mut buf).is_ok());
    assert_eq!(buf, "cmd9");

    buf = String::from("!cmd1");
    assert!(state.expand(&mut buf).is_ok());
    assert_eq!(buf, "cmd1");
}

#[test]
fn history_event_stops_at_a_space() {
    let state = alloc_old_history_state(10, 3);
    let mut buf = String::from("!2 and more");
    assert!(state.expand(&mut buf).is_ok());
    assert_eq!(buf, "cmd1");
    let mut buf = String::from("! 2");
    assert!(state.expand(&mut buf).is_ok());
    assert_eq!(buf, "! 2");
    assert_eq!(state.display(), "\t1\tcmd0\n\t2\tcmd1\n\t3\tcmd2\n");
}

#[test]
fn history_lists_last_entries_after_rollover() {
    let mut state = Editor::with_capacity(10);
    for i in 0..10 {
        state.add_history_entry(&format!("cmd{}", i));
    }
    state.add_history_entry("extra");
    assert_eq!(state.get_history_count(), 11);
    let expected: Vec<String> = (1..10)
        .map(|i| format!("\t{}\tcmd{}", i + 1, i))
        .chain(std::iter::once("\t11\textra".to_string()))
        .collect();
    assert_eq!(history_display(&state, 10), expected.join("\n"));
    assert_eq!(history_display(&state, 2), "\t10\tcmd9\n\t11\textra");
    assert_eq!(history_display(&state, 50), expected.join("\n"));
}

#[test]
fn bare_event_is_not_found() {
    let state = alloc_old_history_state(3, 2);
    let mut buf = String::from("!");
    let err = state.expand(&mut buf).unwrap_err();
    assert_eq!(err.message(), "!: event not found");
    assert_eq!(buf, "!");
    let mut buf = String::from("! cmd0");
    assert!(state.expand(&mut buf).is_ok());
    assert_eq!(buf, "! cmd0");
}
