use poke::app::{Field, FormState, HOUR_LEN, INTERVAL_LEN, NAME_LEN};

fn filled(name: &str, start: &str, end: &str, interval: &str) -> FormState {
    let mut f = FormState::new();
    f.name = name.to_string();
    f.start = start.to_string();
    f.end = end.to_string();
    f.interval = interval.to_string();
    f
}

#[test]
fn new_form_is_empty() {
    let f = FormState::new();
    assert_eq!(f.name, "");
    assert_eq!(f.start, "");
    assert_eq!(f.end, "");
    assert_eq!(f.interval, "");
    assert_eq!(f.focused, Field::Name);
    assert!(f.errors.is_empty());
}

#[test]
fn max_lengths() {
    assert_eq!(Field::Name.max_len(), NAME_LEN as usize);
    assert_eq!(Field::Start.max_len(), HOUR_LEN as usize);
    assert_eq!(Field::End.max_len(), 5);
    assert_eq!(Field::Interval.max_len(), INTERVAL_LEN as usize);
    assert_eq!(Field::Name.max_len(), 21);
    assert_eq!(Field::Interval.max_len(), 6);
}

#[test]
fn focus_cycles_in_screen_order() {
    let mut f = FormState::new();
    let mut seen = vec![f.focused];
    for _ in 0..4 {
        f.focus_next();
        seen.push(f.focused);
    }
    assert_eq!(seen, vec![Field::Name, Field::Start, Field::End, Field::Interval, Field::Name]);
    f.focus_prev();
    assert_eq!(f.focused, Field::Interval);
    f.focus_prev();
    assert_eq!(f.focused, Field::End);
}

#[test]
fn typing_goes_into_the_focused_field() {
    let mut f = FormState::new();
    f.type_char('t');
    f.type_char('é');
    f.focus_next();
    f.type_char('9');
    assert_eq!(f.name, "té");
    assert_eq!(f.start, "9");
    assert_eq!(f.end, "");
}

#[test]
fn typing_stops_at_the_width_in_characters() {
    let mut f = FormState::new();
    f.focused = Field::Start;
    for c in "09:000".chars() {
        f.type_char(c);
    }
    assert_eq!(f.start, "09:00");
    f.focused = Field::Name;
    for _ in 0..30 {
        f.type_char('ü');
    }
    assert_eq!(f.name.chars().count(), 21);
}

#[test]
fn editing_clears_only_the_edited_fields_errors() {
    let mut f = FormState::new();
    f.errors = vec![Field::Name, Field::End, Field::Name];
    f.type_char('a');
    assert_eq!(f.errors, vec![Field::End]);
    f.focused = Field::End;
    f.delete_char();
    assert!(f.errors.is_empty());
}

#[test]
fn backspace_removes_the_last_character() {
    let mut f = filled("tea", "", "", "");
    f.delete_char();
    assert_eq!(f.name, "te");
    f.focused = Field::Start;
    f.delete_char();
    assert_eq!(f.start, "");
    let mut g = FormState::new();
    g.type_char('x');
    g.delete_char();
    assert_eq!(g.name, "");
}

#[test]
fn valid_form_gives_a_timer() {
    let t = filled("  tea ", "13:00", "18:00", "30m").to_timer().unwrap();
    assert_eq!(t.name, "tea");
    assert_eq!(t.start, 13 * 3600);
    assert_eq!(t.end, 18 * 3600);
    assert_eq!(t.interval, 1800);
    assert!(t.enabled);
}

#[test]
fn empty_form_reports_every_field() {
    let errors = FormState::new().to_timer().unwrap_err();
    assert_eq!(errors, vec![Field::Name, Field::Start, Field::End, Field::Interval]);
}

#[test]
fn blank_name_is_invalid() {
    let errors = filled(" \t", "09:00", "10:00", "25m").to_timer().unwrap_err();
    assert_eq!(errors, vec![Field::Name]);
}

#[test]
fn end_not_after_start_is_invalid() {
    assert_eq!(filled("a", "10:00", "10:00", "1h").to_timer().unwrap_err(), vec![Field::End]);
    assert_eq!(filled("a", "10:00", "09:59", "1h").to_timer().unwrap_err(), vec![Field::End]);
}

#[test]
fn bad_start_and_interval_are_both_reported() {
    let errors = filled("a", "25:00", "10:00", "30").to_timer().unwrap_err();
    assert_eq!(errors, vec![Field::Start, Field::Interval]);
}
