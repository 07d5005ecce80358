use poke::action::Action;
use poke::app::{App, Field, Focus, TableState};

fn typed(app: &mut App, s: &str) {
    for c in s.chars() {
        app.update(Action::AddChar(c));
    }
}

fn submit_timer(app: &mut App, name: &str, start: &str, end: &str, interval: &str) {
    app.update(Action::FocusForm);
    typed(app, name);
    app.update(Action::FormMoveDown);
    typed(app, start);
    app.update(Action::FormMoveDown);
    typed(app, end);
    app.update(Action::FormMoveDown);
    typed(app, interval);
    app.update(Action::SubmitForm);
}

#[test]
fn new_app_selects_the_first_row() {
    let app = App::new();
    assert!(app.timers.is_empty());
    assert_eq!(app.table_state.selected(), Some(0));
    assert_eq!(app.current_focus, Focus::List);
    assert!(!app.should_quit);
}

#[test]
fn mock_app_has_two_timers() {
    let app = App::mock();
    assert_eq!(app.timers.len(), 2);
    assert_eq!(app.timers[0].name, "tea");
    assert_eq!(app.timers[0].start, 13 * 3600);
    assert_eq!(app.timers[0].end, 18 * 3600);
    assert_eq!(app.timers[0].interval, 30 * 60);
    assert!(app.timers[0].enabled);
    assert_eq!(app.timers[1].name, "stretch");
    assert_eq!(app.timers[1].start, 9 * 3600);
    assert_eq!(app.timers[1].end, 17 * 3600);
    assert_eq!(app.timers[1].interval, 3600);
    assert!(!app.timers[1].enabled);
}

#[test]
fn quit() {
    let mut app = App::new();
    app.update(Action::Quit);
    assert!(app.should_quit);
    app.update(Action::FocusForm);
    assert!(app.should_quit);
}

#[test]
fn focus_changes_selection() {
    let mut app = App::mock();
    app.update(Action::FocusForm);
    assert_eq!(app.current_focus, Focus::Form);
    assert_eq!(app.table_state.selected(), None);
    app.form_state.errors = vec![Field::Name];
    app.update(Action::FocusList);
    assert_eq!(app.current_focus, Focus::List);
    assert_eq!(app.table_state.selected(), Some(0));
    assert!(app.form_state.errors.is_empty());
}

#[test]
fn moving_the_selection() {
    let mut app = App::mock();
    app.update(Action::TableMoveDown);
    assert_eq!(app.table_state.selected(), Some(1));
    app.update(Action::TableMoveUp);
    app.update(Action::TableMoveUp);
    assert_eq!(app.table_state.selected(), Some(0));
    app.update(Action::FocusForm);
    app.update(Action::TableMoveUp);
    assert_eq!(app.table_state.selected(), Some(usize::MAX));
    app.update(Action::TableMoveDown);
    assert_eq!(app.table_state.selected(), Some(usize::MAX));
    app.update(Action::FocusForm);
    app.update(Action::TableMoveDown);
    assert_eq!(app.table_state.selected(), Some(0));
}

#[test]
fn selecting_nothing_scrolls_to_the_top() {
    let mut t = TableState::new().with_selected(Some(4));
    t.offset = 3;
    t.select(Some(2));
    assert_eq!(t.offset, 3);
    t.select(None);
    assert_eq!(t.offset, 0);
    assert_eq!(t.selected(), None);
}

#[test]
fn toggle_flips_the_selected_timer() {
    let mut app = App::mock();
    app.update(Action::TableMoveDown);
    app.update(Action::ToggleTimer);
    assert!(app.timers[1].enabled);
    assert!(app.timers[0].enabled);
    app.update(Action::ToggleTimer);
    assert!(!app.timers[1].enabled);
}

#[test]
fn toggle_out_of_range_does_nothing() {
    let mut app = App::mock();
    app.table_state.select(Some(7));
    app.update(Action::ToggleTimer);
    assert!(app.timers[0].enabled);
    assert!(!app.timers[1].enabled);
    app.table_state.select(None);
    app.update(Action::ToggleTimer);
    app.update(Action::DeleteTimer);
    assert_eq!(app.timers.len(), 2);
}

#[test]
fn delete_keeps_the_index_when_a_timer_follows() {
    let mut app = App::mock();
    app.update(Action::DeleteTimer);
    assert_eq!(app.timers.len(), 1);
    assert_eq!(app.timers[0].name, "stretch");
    assert_eq!(app.table_state.selected(), Some(0));
}

#[test]
fn delete_of_the_last_row_selects_the_new_last() {
    let mut app = App::mock();
    app.update(Action::TableMoveDown);
    app.update(Action::DeleteTimer);
    assert_eq!(app.timers.len(), 1);
    assert_eq!(app.timers[0].name, "tea");
    assert_eq!(app.table_state.selected(), Some(0));
}

#[test]
fn delete_of_the_only_timer_selects_nothing() {
    let mut app = App::mock();
    app.update(Action::DeleteTimer);
    app.update(Action::DeleteTimer);
    assert!(app.timers.is_empty());
    assert_eq!(app.table_state.selected(), None);
    app.update(Action::DeleteTimer);
    assert!(app.timers.is_empty());
}

#[test]
fn submitting_a_valid_form_adds_the_timer_on_top() {
    let mut app = App::mock();
    submit_timer(&mut app, "water", "08:00", "20:00", "1h30m");
    assert_eq!(app.timers.len(), 3);
    assert_eq!(app.timers[0].name, "water");
    assert_eq!(app.timers[0].interval, 5400);
    assert_eq!(app.timers[1].name, "tea");
    assert_eq!(app.current_focus, Focus::List);
    assert_eq!(app.table_state.selected(), Some(0));
    assert_eq!(app.form_state.name, "");
    assert_eq!(app.form_state.focused, Field::Name);
}

#[test]
fn submitting_an_invalid_form_records_the_errors() {
    let mut app = App::new();
    submit_timer(&mut app, "x", "10:00", "09:00", "5m");
    assert!(app.timers.is_empty());
    assert_eq!(app.current_focus, Focus::Form);
    assert_eq!(app.form_state.errors, vec![Field::End]);
    assert_eq!(app.form_state.end, "09:00");
    app.update(Action::RemoveChar);
    assert_eq!(app.form_state.interval, "5");
    assert_eq!(app.form_state.errors, vec![Field::End]);
    app.update(Action::FormMoveUp);
    app.update(Action::RemoveChar);
    assert!(app.form_state.errors.is_empty());
    assert_eq!(app.form_state.end, "09:0");
}

#[test]
fn form_fields_stop_at_their_width() {
    let mut app = App::new();
    app.update(Action::FocusForm);
    app.update(Action::FormMoveUp);
    typed(&mut app, "12345678");
    assert_eq!(app.form_state.interval, "123456");
}
