use poke::timer::{clock_time, interval_in_range, parse_clock_time, parse_interval};

#[test]
fn interval_minutes() {
    assert_eq!(parse_interval("30m"), Some(1800));
    assert_eq!(parse_interval("25m"), Some(1500));
}

#[test]
fn interval_hours_and_minutes() {
    assert_eq!(parse_interval("1h30m"), Some(5400));
    assert_eq!(parse_interval("2h"), Some(7200));
    assert_eq!(parse_interval("1h0m"), Some(3600));
    assert_eq!(parse_interval("0h45m"), Some(2700));
}

#[test]
fn interval_surrounding_whitespace_is_ignored() {
    assert_eq!(parse_interval("  1h \t"), Some(3600));
    assert_eq!(parse_interval("\u{3000}30m\n"), Some(1800));
}

#[test]
fn interval_signs_and_leading_zeros() {
    assert_eq!(parse_interval("+1h+5m"), Some(3900));
    assert_eq!(parse_interval("0030m"), Some(1800));
    assert_eq!(parse_interval("-5m"), None);
}

#[test]
fn interval_rejects_malformed() {
    for s in ["", "   ", "30", "h", "m", "1h 30m", "1h30", "1m30", "1x", "1hm", "h30m", "1h30mm", "1H", "30M", "1.5h"] {
        assert_eq!(parse_interval(s), None, "parsing {:?}", s);
    }
}

#[test]
fn interval_of_zero_is_rejected() {
    assert_eq!(parse_interval("0m"), None);
    assert_eq!(parse_interval("0h"), None);
    assert_eq!(parse_interval("0h0m"), None);
}

#[test]
fn interval_range_check() {
    assert!(interval_in_range("99999h"));
    assert!(interval_in_range("nonsense"));
    assert!(interval_in_range("5124095576030431h"));
    assert!(!interval_in_range("5124095576030432h"));
    assert!(!interval_in_range("99999999999999999h"));
    assert!(!interval_in_range("5124095576030431h1m"));
    assert!(interval_in_range("307445734561825860m"));
    assert!(!interval_in_range("307445734561825861m"));
    assert_eq!(parse_interval("5124095576030431h"), Some(5124095576030431 * 3600));
}

#[test]
fn clock_times() {
    assert_eq!(parse_clock_time("07:15"), Some(7 * 3600 + 15 * 60));
    assert_eq!(parse_clock_time("7:15"), Some(7 * 3600 + 15 * 60));
    assert_eq!(parse_clock_time("00:00"), Some(0));
    assert_eq!(parse_clock_time("23:59"), Some(23 * 3600 + 59 * 60));
    assert_eq!(parse_clock_time("9:5"), Some(9 * 3600 + 5 * 60));
    assert_eq!(parse_clock_time(" 09:05"), Some(9 * 3600 + 5 * 60));
    assert_eq!(parse_clock_time("09: 05"), Some(9 * 3600 + 5 * 60));
}

#[test]
fn clock_times_rejected() {
    for s in ["", "24:00", "17:60", "09 :05", "0905", "09:05 ", "123:45", "09:005", "9", ":30", "ab:cd", "09-05", "-1:00"] {
        assert_eq!(parse_clock_time(s), None, "parsing {:?}", s);
    }
}

/// The time-of-day grammar that the contract of `parse_clock_time` states,
/// written out independently of chrono.
fn stated_clock_time(s: &str) -> Option<u32> {
    let chars: Vec<char> = s.chars().collect();
    let mut i = 0;
    while i < chars.len() && chars[i].is_whitespace() {
        i += 1;
    }
    let lead = |from: usize| -> usize {
        let mut n = 0;
        while n < 2 && from + n < chars.len() && chars[from + n].is_ascii_digit() {
            n += 1;
        }
        n
    };
    let value = |from: usize, n: usize| -> u32 {
        chars[from..from + n].iter().fold(0, |v, c| v * 10 + c.to_digit(10).unwrap())
    };
    let n1 = lead(i);
    if n1 == 0 || i + n1 >= chars.len() || chars[i + n1] != ':' {
        return None;
    }
    let h = value(i, n1);
    let mut j = i + n1 + 1;
    while j < chars.len() && chars[j].is_whitespace() {
        j += 1;
    }
    let n2 = lead(j);
    if n2 == 0 || j + n2 != chars.len() {
        return None;
    }
    let m = value(j, n2);
    if h > 23 || m > 59 {
        return None;
    }
    Some(h * 3600 + m * 60)
}

#[test]
fn clock_time_agrees_with_stated_grammar() {
    let alphabet = ['0', '1', '2', '5', '9', ':', ' ', '\u{3000}', 'a'];
    let mut strings = vec![String::new()];
    for _ in 0..5 {
        let mut next = Vec::new();
        for s in &strings {
            for c in alphabet {
                let mut t = s.clone();
                t.push(c);
                next.push(t);
            }
        }
        for s in &next {
            assert_eq!(parse_clock_time(s), stated_clock_time(s), "parsing {:?}", s);
        }
        strings = next;
    }
}

#[test]
fn clock_time_from_hour_and_minute() {
    assert_eq!(clock_time(13, 0), Some(46800));
    assert_eq!(clock_time(0, 59), Some(3540));
    assert_eq!(clock_time(24, 0), None);
    assert_eq!(clock_time(23, 60), None);
}
