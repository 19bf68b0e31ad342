use clippy_core::time::{format_utc, format_utc_now};

#[test]
fn epoch_start() {
    assert_eq!(format_utc(0), "1970-01-01 00:00:00");
}

#[test]
fn leap_day_noon() {
    // 2024-02-29 12:00:00 UTC
    assert_eq!(format_utc(1709208000), "2024-02-29 12:00:00");
}

#[test]
fn leap_year_rules() {
    // 2000-02-29 exists: 2000 is divisible by 400.
    assert_eq!(format_utc(951782400), "2000-02-29 00:00:00");
    // 2100 is not a leap year: the day after 2100-02-28 is March 1st.
    assert_eq!(format_utc(4107542400), "2100-03-01 00:00:00");
    // Last second of a year.
    assert_eq!(format_utc(1704067199), "2023-12-31 23:59:59");
}

#[test]
fn always_nineteen_characters() {
    for secs in [0u64, 1, 59, 60, 86399, 86400, 951782400, 1709208000, 4102444800] {
        assert_eq!(format_utc(secs).len(), 19);
    }
}

#[test]
fn five_digit_years_widen_the_format() {
    // The fixed 19-character width holds exactly as long as the year has
    // four digits; the first second of year 10000 takes twenty.
    let s = format_utc(253402300800);
    assert_eq!(s, "10000-01-01 00:00:00");
    assert_eq!(s.len(), 20);
    assert_eq!(format_utc(253402300799), "9999-12-31 23:59:59");
}

fn is_timestamp_shape(s: &str) -> bool {
    let b = s.as_bytes();
    if b.len() != 19 {
        return false;
    }
    for (i, c) in b.iter().enumerate() {
        match i {
            4 | 7 => {
                if *c != b'-' {
                    return false;
                }
            }
            10 => {
                if *c != b' ' {
                    return false;
                }
            }
            13 | 16 => {
                if *c != b':' {
                    return false;
                }
            }
            _ => {
                if !c.is_ascii_digit() {
                    return false;
                }
            }
        }
    }
    true
}

#[test]
fn now_has_fixed_format() {
    let s = format_utc_now();
    assert!(is_timestamp_shape(&s), "unexpected shape: {}", s);
}
