use jrny_save::{get_symbol, get_symbol_part, get_symbol_with_parts, symbol_part_ids, Murals, Symbol, Timestamp};

#[test]
fn ticks_and_milliseconds() {
    let t = Timestamp::from_ticks(133_350_274_658_930_000);
    assert_eq!(t.unix_millis(), 1_690_553_865_893);
    assert_eq!(t.to_ticks(), 133_350_274_658_930_000);

    let t = Timestamp::from_ticks(133_350_274_658_939_999);
    assert_eq!(t.unix_millis(), 1_690_553_865_893);
    assert_eq!(t.to_ticks(), 133_350_274_658_930_000);

    let t = Timestamp::from_ticks(0);
    assert_eq!(t.unix_millis(), -11_644_473_600_000);

    let t = Timestamp::from_ticks(-15_000);
    assert_eq!(t.unix_millis(), -11_644_473_600_001);
    assert_eq!(t.to_ticks(), -10_000);

    let t = Timestamp::from_ticks(i64::MIN);
    assert_eq!(Timestamp::from_ticks(t.to_ticks()).unix_millis(), t.unix_millis());
    let t = Timestamp::from_ticks(i64::MAX);
    assert_eq!(Timestamp::from_ticks(t.to_ticks()).unix_millis(), t.unix_millis());
}

#[test]
fn timestamp_calendar() {
    let t = Timestamp::from_unix_millis(0).unwrap();
    let utc = t.to_utc();
    assert_eq!((utc.year, utc.month, utc.day, utc.hour), (1970, 1, 1, 0));

    let t = Timestamp::from_ticks(0).to_utc();
    assert_eq!((t.year, t.month, t.day), (1601, 1, 1));

    let t = Timestamp::from_unix_millis(-1).unwrap().to_utc();
    assert_eq!((t.year, t.month, t.day, t.hour, t.minute, t.second, t.millisecond), (1969, 12, 31, 23, 59, 59, 999));

    assert!(Timestamp::from_unix_millis(i64::MAX).is_none());
}

#[test]
fn mural_bits() {
    let murals = Murals::new(0b10_0000_0000);
    assert_eq!(murals.has_found(6, 1), Some(true));
    assert_eq!(murals.has_found(6, 0), Some(false));
    let murals = Murals::new(0b1);
    assert_eq!(murals.has_found(0, 0), Some(true));
    assert_eq!(murals.has_found(1, 0), Some(false));
}

fn table() -> String {
    let mut parts = Vec::new();
    for p in 0..17u8 {
        let c = (b'a' + p) as char;
        let rows: Vec<String> = (0..3).map(|r| format!("{}{}{}{}{}{}", c, r, c, r, c, r)).collect();
        parts.push(rows.join("\n"));
    }
    parts.join("\n\n")
}

#[test]
fn symbol_parts() {
    assert_eq!(symbol_part_ids(0), Some((0, 1, 3, 2)));
    assert_eq!(symbol_part_ids(19), Some((6, 6, 11, 10)));
    assert_eq!(symbol_part_ids(21), None);

    let parts = table();
    assert_eq!(get_symbol_part(&parts, 1), "b0b0b0\nb1b1b1\nb2b2b2");
    assert_eq!(get_symbol_part(&parts, 16), "q0q0q0\nq1q1q1\nq2q2q2");
}

#[test]
fn symbol_pictures() {
    let parts = table();
    let expected = [
        "a0a0a0  b0b0b0",
        "a1a1a1  b1b1b1",
        "a2a2a2  b2b2b2",
        "              ",
        "d0d0d0  c0c0c0",
        "d1d1d1  c1c1c1",
        "d2d2d2  c2c2c2",
    ]
    .join("\n");
    assert_eq!(get_symbol(&parts, 0), Some(expected.clone()));
    assert_eq!(Symbol::new(0).unwrap().picture(&parts), Some(expected));
    assert_eq!(get_symbol(&parts, 21), None);
    assert_eq!(get_symbol_with_parts(&parts, 17, 0, 0, 0), None);
    assert_eq!(get_symbol_with_parts("short", 0, 0, 0, 0), None);
}
