use poke::app::App;
use poke::paths::{config_path, file_in, lock_path, poke_dir, poke_dir_in, timers_path};
use std::path::PathBuf;
use poke::screen::{
    day_part, enabled_mark, field_look, interval_hours_minutes, plural, recap_counts,
    terminal_fits, DayPart, FieldLook,
};

#[test]
fn plurals() {
    assert_eq!(plural(0), "s");
    assert_eq!(plural(1), "");
    assert_eq!(plural(2), "s");
}

#[test]
fn recap_of_the_sample() {
    let app = App::mock();
    assert_eq!(recap_counts(&app.timers), (1, 1));
    assert_eq!(recap_counts(&Vec::new()), (0, 0));
}

#[test]
fn day_parts() {
    assert_eq!(day_part(4), DayPart::Night);
    assert_eq!(day_part(5), DayPart::Sunrise);
    assert_eq!(day_part(11), DayPart::Sunrise);
    assert_eq!(day_part(12), DayPart::Day);
    assert_eq!(day_part(17), DayPart::Day);
    assert_eq!(day_part(18), DayPart::Sunset);
    assert_eq!(day_part(21), DayPart::Sunset);
    assert_eq!(day_part(22), DayPart::Night);
    assert_eq!(day_part(0), DayPart::Night);
}

#[test]
fn field_looks() {
    assert_eq!(field_look(true, true, false), FieldLook::Plain);
    assert_eq!(field_look(true, true, true), FieldLook::Invalid);
    assert_eq!(field_look(true, false, true), FieldLook::Focused);
    assert_eq!(field_look(false, false, true), FieldLook::Underlined);
}

#[test]
fn interval_labels() {
    assert_eq!(interval_hours_minutes(5400), (1, 30));
    assert_eq!(interval_hours_minutes(300), (0, 5));
    assert_eq!(interval_hours_minutes(90061), (25, 1));
}

#[test]
fn marks() {
    assert_eq!(enabled_mark(true), " ■");
    assert_eq!(enabled_mark(false), " □");
}

#[test]
fn terminal_size() {
    assert!(terminal_fits(80, 20));
    assert!(!terminal_fits(79, 40));
    assert!(!terminal_fits(200, 19));
}

#[test]
fn file_paths() {
    if let Some(dir) = poke_dir() {
        assert!(dir.ends_with("poke"));
        assert_eq!(config_path().unwrap(), dir.join("config.toml"));
        assert_eq!(timers_path().unwrap(), dir.join("timers.toml"));
        assert_eq!(lock_path().unwrap(), dir.join("daemon.lock"));
        let path = config_path().unwrap();
        let components: Vec<_> = path.components().collect();
        let n = components.len();
        assert_eq!(components[n - 2].as_os_str(), "poke");
        assert_eq!(components[n - 1].as_os_str(), "config.toml");
    }
}

#[test]
fn paths_from_a_given_directory() {
    assert_eq!(poke_dir_in(None), None);
    assert_eq!(poke_dir_in(Some(PathBuf::from("/home/u/.config"))), Some(PathBuf::from("/home/u/.config/poke")));
    assert_eq!(file_in(None, "config.toml"), None);
    assert_eq!(
        file_in(Some(PathBuf::from("/x/poke")), "timers.toml"),
        Some(PathBuf::from("/x/poke/timers.toml"))
    );
}
