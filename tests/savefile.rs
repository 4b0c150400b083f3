use chrono::NaiveDate;
use jrny_save::{DecodeError, Error, RobeColor, RobeError, Savefile, FIXED_SIZE};

const NAMES: [&str; 8] = [
    "Wanderer",
    "Rythulian",
    "Seeker",
    "Pilgrim",
    "Nomad",
    "Drifter",
    "Machine",
    "Sage",
];
const SYMBOLS: [u32; 8] = [6, 19, 3, 0, 11, 21, 20, 9];
const LAST_PLAYED_TICKS: i64 = 133_350_274_658_930_000;

fn put(b: &mut [u8], at: usize, bytes: &[u8]) {
    b[at..at + bytes.len()].copy_from_slice(bytes);
}

/// A save file holding the journey that the checks below expect.
fn image() -> Vec<u8> {
    let mut b = vec![0u8; FIXED_SIZE];
    for (i, byte) in b.iter_mut().enumerate() {
        *byte = (i % 251) as u8;
    }
    put(&mut b, 8, &3u32.to_le_bytes());
    put(&mut b, 12, &7u32.to_le_bytes());
    put(&mut b, 16, &27u32.to_le_bytes());
    put(&mut b, 24, &1u64.to_le_bytes());
    put(&mut b, 32, &107u32.to_le_bytes());
    put(&mut b, 36, &21u32.to_le_bytes());
    put(&mut b, 40, &428u16.to_le_bytes());
    put(&mut b, 64, &LAST_PLAYED_TICKS.to_le_bytes());
    put(&mut b, 76, &21u64.to_le_bytes());
    let glyph_flags = [5u8, 1, 9, 7, 13, 10];
    for (level, flags) in glyph_flags.iter().enumerate() {
        b[84 + 344 * level] = *flags;
    }
    let section = 4552;
    for i in 0..16 {
        put(&mut b, section + 60 * i, &[0u8; 60]);
    }
    for (i, (name, symbol)) in NAMES.iter().zip(SYMBOLS.iter()).enumerate() {
        let at = section + 60 * i;
        put(&mut b, at, name.as_bytes());
        put(&mut b, at + 52, &[0xAA, 0xBB, 0xCC, i as u8]);
        put(&mut b, at + 56, &symbol.to_le_bytes());
    }
    put(&mut b, 5512, &6u32.to_le_bytes());
    put(&mut b, 6540, &21u32.to_le_bytes());
    for (i, name) in NAMES.iter().enumerate() {
        let mut record = [0u8; 32];
        record[..name.len()].copy_from_slice(name.as_bytes());
        record[24..28].copy_from_slice(&(1000 + i as u32).to_le_bytes());
        record[28..32].copy_from_slice(&[0x01, 0x00, 0x10, 0x01]);
        b.extend_from_slice(&record);
    }
    for i in 0..64u8 {
        b.push(i.wrapping_mul(3));
    }
    b
}

fn savefile() -> Savefile {
    Savefile::decode(&image()).expect("parsing failed")
}

#[test]
fn general_info() {
    let savefile = savefile();

    assert_eq!(savefile.robe.value(), 3);
    assert_eq!(savefile.robe.color(), RobeColor::Red);
    assert_eq!(savefile.robe.tier(), 4);

    assert_eq!(savefile.symbol.id(), 7);
    assert_eq!(savefile.scarf_length.length(), 27);
    assert_eq!(savefile.current_level.id(), 1);
    assert_eq!(savefile.current_level.name(), "Broken Bridge");
    assert_eq!(savefile.total_collected_symbols, 107);
    assert_eq!(savefile.collected_symbols, 21);
    assert_eq!(savefile.journey_count, 21);
    assert_eq!(savefile.companions_met, 6);
    assert_eq!(savefile.total_companions_met, 21);
}

#[test]
fn last_played() {
    let savefile = savefile();

    let expected = NaiveDate::from_ymd_opt(2023, 07, 28).unwrap();
    let expected = expected.and_hms_milli_opt(14, 17, 45, 893).unwrap();

    let millis = savefile.last_played.unix_millis();
    let actual = chrono::DateTime::from_timestamp_millis(millis).unwrap().naive_utc();
    assert_eq!(actual, expected);

    let utc = savefile.last_played.to_utc();
    assert_eq!(
        (utc.year, utc.month, utc.day, utc.hour, utc.minute, utc.second, utc.millisecond),
        (2023, 7, 28, 14, 17, 45, 893)
    );
}

#[test]
fn companion_info() {
    let savefile = savefile();

    assert_eq!(savefile.companions.count(), 8);
    assert_eq!(savefile.companion_symbols.count(), 8);

    for (a, b) in savefile
        .companions
        .iter()
        .zip(savefile.companion_symbols.iter())
    {
        assert_eq!(a.name, b.name);
    }

    let companion = savefile
        .companion_symbols
        .iter()
        .find(|x| x.name == "Wanderer")
        .unwrap();
    assert_eq!(companion.symbol, 6);
    let companion = savefile
        .companion_symbols
        .iter()
        .find(|x| x.name == "Rythulian")
        .unwrap();
    assert_eq!(companion.symbol, 19);
    let companion = savefile
        .companion_symbols
        .iter()
        .find(|x| x.name == "Machine")
        .unwrap();
    assert_eq!(companion.symbol, 20);
}

#[test]
fn companion_order() {
    let savefile = savefile();

    let current = savefile.current_companions().iter().collect::<Vec<_>>();
    let past = savefile.past_companions().iter().collect::<Vec<_>>();

    assert_eq!(current.len(), 6);
    assert_eq!(past.len(), 2);

    assert_eq!(current[0].name, "Wanderer".to_string());
    assert_eq!(current[1].name, "Rythulian".to_string());
    assert_eq!(past[0].name, "Machine".to_string());
}

#[test]
fn glyph_status() {
    let savefile = savefile();

    const FOUND: [&[bool]; 6] = [
        &[true, false, true],
        &[true, false, false],
        &[true, false, false, true],
        &[true, true, true],
        &[true, false, true, true],
        &[false, true, false, true],
    ];

    for (level_idx, level_found) in FOUND.into_iter().enumerate() {
        for (glyph_idx, has_found) in level_found.into_iter().enumerate() {
            assert_eq!(
                savefile.glyphs.has_collected(level_idx, glyph_idx),
                Some(*has_found),
                "level {}, glyph {} is incorrect",
                level_idx,
                glyph_idx
            );
        }
    }

    assert_eq!(savefile.glyphs.has_collected(0, 69), None);
}

#[test]
fn murals() {
    let savefile = savefile();

    const FOUND: [&[bool]; 7] = [
        &[false],
        &[false],
        &[true, true],
        &[false, true],
        &[false],
        &[true],
        &[true, false],
    ];

    for (level_idx, level_found) in FOUND.into_iter().enumerate() {
        for (mural_idx, has_found) in level_found.into_iter().enumerate() {
            assert_eq!(
                savefile.murals.has_found(level_idx, mural_idx),
                Some(*has_found),
                "level {}, mural {} is incorrect",
                level_idx,
                mural_idx
            )
        }
    }

    assert_eq!(savefile.murals.has_found(69, 420), None);
}

#[test]
fn test_change_robe_color() {
    let mut savefile = savefile();

    // lowest tier
    savefile.robe = jrny_save::Robe::new(0).unwrap();

    savefile.robe.set_color(RobeColor::White);
    assert_eq!(savefile.robe.color(), RobeColor::White);

    savefile.robe.set_color(RobeColor::Red);
    assert_eq!(savefile.robe.color(), RobeColor::Red);

    // highest tier
    savefile.robe = jrny_save::Robe::new(3).unwrap();

    savefile.robe.set_color(RobeColor::White);
    assert_eq!(savefile.robe.color(), RobeColor::White);

    savefile.robe.set_color(RobeColor::Red);
    assert_eq!(savefile.robe.color(), RobeColor::Red);
}

#[test]
fn change_robe_tier() {
    let mut savefile = savefile();

    let _ = savefile.robe.set_tier(1);
    assert_eq!(savefile.robe.tier(), 1);
    assert_eq!(savefile.robe.color(), RobeColor::Red);

    let _ = savefile.robe.set_tier(4);
    assert_eq!(savefile.robe.tier(), 4);
    assert_eq!(savefile.robe.color(), RobeColor::Red);

    savefile.robe.set_color(RobeColor::White);

    let _ = savefile.robe.set_tier(2);
    assert_eq!(savefile.robe.tier(), 2);
    assert_eq!(savefile.robe.color(), RobeColor::White);

    let _ = savefile.robe.set_tier(1);
    assert_eq!(savefile.robe.tier(), 2);
    assert_eq!(savefile.robe.color(), RobeColor::White);

    let _ = savefile.robe.set_tier(4);
    assert_eq!(savefile.robe.tier(), 4);
    assert_eq!(savefile.robe.color(), RobeColor::White);
}

#[test]
fn encode_reproduces_the_image() {
    let bytes = image();
    let savefile = Savefile::decode(&bytes).unwrap();
    assert_eq!(savefile.encode(), bytes);
}

#[test]
fn decode_of_encode_gives_the_same_fields() {
    let first = savefile();
    let second = Savefile::decode(&first.encode()).unwrap();
    assert_eq!(second.robe.value(), first.robe.value());
    assert_eq!(second.symbol.id(), first.symbol.id());
    assert_eq!(second.last_played.unix_millis(), first.last_played.unix_millis());
    assert_eq!(second.companions.count(), first.companions.count());
    assert_eq!(second.companion_symbols.count(), first.companion_symbols.count());
    assert_eq!(second.murals.flags(), first.murals.flags());
    assert_eq!(second.encode(), first.encode());
}

#[test]
fn edits_survive_encoding() {
    let mut savefile = savefile();
    savefile.scarf_length.set_length(12).unwrap();
    savefile.current_level.set_by_name("Tower").unwrap();
    savefile.robe.set_color(RobeColor::White);
    savefile.journey_count = 99;
    let again = Savefile::decode(&savefile.encode()).unwrap();
    assert_eq!(again.scarf_length.length(), 12);
    assert_eq!(again.current_level.id(), 5);
    assert_eq!(again.robe.value(), 6);
    assert_eq!(again.journey_count, 99);
}

#[test]
fn symbol_section_padding_is_zeroed() {
    let mut bytes = image();
    // bytes after the empty-name record are padding, not data
    bytes[4552 + 60 * 8 + 10] = 0x77;
    let savefile = Savefile::decode(&bytes).unwrap();
    let encoded = savefile.encode();
    assert_eq!(encoded[4552 + 60 * 8 + 10], 0);
    assert_eq!(encoded.len(), bytes.len());
}

#[test]
fn full_symbol_section() {
    let mut bytes = image();
    for i in 8..16 {
        let at = 4552 + 60 * i;
        bytes[at..at + 60].copy_from_slice(&[0u8; 60]);
        bytes[at] = b'A' + i as u8;
    }
    let savefile = Savefile::decode(&bytes).unwrap();
    assert_eq!(savefile.companion_symbols.count(), 16);
    assert_eq!(savefile.encode(), bytes);
}

#[test]
fn no_companions() {
    let mut bytes = image();
    bytes.truncate(FIXED_SIZE);
    bytes.extend_from_slice(&[0u8; 40]);
    let savefile = Savefile::decode(&bytes).unwrap();
    assert_eq!(savefile.companions.count(), 0);
    assert_eq!(savefile.current_companions().len(), 0);
    assert_eq!(savefile.past_companions().len(), 0);
    assert_eq!(savefile.encode(), bytes);
}

fn decode_error(bytes: &[u8]) -> DecodeError {
    Savefile::decode(bytes).err().expect("decoding should fail")
}

#[test]
fn decode_errors() {
    assert_eq!(decode_error(&image()[..FIXED_SIZE - 1]), DecodeError::Truncated);

    let mut b = image();
    b.truncate(FIXED_SIZE + 32 * 8 + 10);
    assert_eq!(decode_error(&b), DecodeError::Truncated);

    let mut b = image();
    put(&mut b, 8, &8u32.to_le_bytes());
    assert_eq!(decode_error(&b), DecodeError::RobeOutOfRange(8));

    let mut b = image();
    put(&mut b, 12, &21u32.to_le_bytes());
    assert_eq!(decode_error(&b), DecodeError::SymbolOutOfRange(21));

    let mut b = image();
    put(&mut b, 16, &31u32.to_le_bytes());
    assert_eq!(decode_error(&b), DecodeError::ScarfTooLong(31));

    let mut b = image();
    put(&mut b, 24, &12u64.to_le_bytes());
    assert_eq!(decode_error(&b), DecodeError::LevelOutOfRange(12));

    let mut b = image();
    put(&mut b, 36, &22u32.to_le_bytes());
    assert_eq!(decode_error(&b), DecodeError::CollectedSymbolsOutOfRange(22));

    let mut b = image();
    put(&mut b, 4552 + 56, &22u32.to_le_bytes());
    assert_eq!(decode_error(&b), DecodeError::CompanionSymbolOutOfRange(22));

    let mut b = image();
    put(&mut b, FIXED_SIZE + 24, &0u32.to_le_bytes());
    assert_eq!(decode_error(&b), DecodeError::ZeroSteamId);
}

#[test]
fn names_that_are_not_utf8() {
    let mut b = image();
    put(&mut b, 4552, &[0xFF, 0xFE]);
    put(&mut b, FIXED_SIZE + 32, &[0xC3]);
    let savefile = Savefile::decode(&b).unwrap();
    let first_symbol = savefile.companion_symbols.iter().next().unwrap();
    assert_eq!(first_symbol.name, "\u{FFFD}\u{FFFD}nderer");
    let second = savefile.companions.iter().nth(1).unwrap();
    assert_eq!(second.name, "\u{FFFD}ythulian");
    assert_eq!(savefile.encode(), b);
}

#[test]
fn first_error_wins() {
    let mut b = image();
    put(&mut b, 8, &9u32.to_le_bytes());
    put(&mut b, 16, &40u32.to_le_bytes());
    assert_eq!(decode_error(&b), DecodeError::RobeOutOfRange(9));
}

#[test]
fn companion_accounts() {
    let savefile = savefile();
    let first = savefile.companions.iter().next().unwrap();
    assert_eq!(first.steam_id, 1000);
    assert_eq!(first.steam_id_v3(), "[U:1:1000]");
    assert_eq!(
        first.steam_url(),
        "https://steamcommunity.com/profiles/%5BU%3A1%3A1000%5D"
    );
}

#[test]
fn all_glyphs_and_murals() {
    let savefile = savefile();
    let glyphs = savefile.glyphs.all();
    assert_eq!(glyphs.len(), 6);
    assert_eq!(glyphs[2], (2, vec![true, false, false, true]));
    assert_eq!(glyphs[5], (5, vec![false, true, false, true]));
    assert_eq!(savefile.glyphs.count(), 6);
    assert_eq!(savefile.glyphs.has_collected(6, 0), None);
    assert_eq!(savefile.glyphs.has_collected(0, 8), Some(false));
    assert_eq!(savefile.glyphs.has_collected(0, 9), None);

    let murals = savefile.murals.all();
    assert_eq!(murals.len(), 7);
    assert_eq!(murals[3], (3, vec![false, true]));
    assert_eq!(murals[6], (6, vec![true, false]));
    assert_eq!(savefile.murals.has_found(7, 0), None);
    assert_eq!(savefile.murals.has_found(0, 1), None);
    assert_eq!(savefile.murals.has_found(6, 1), Some(false));
}

#[test]
fn stats_values_step() {
    let mut savefile = savefile();

    savefile.next_stats_value(0);
    assert_eq!(savefile.journey_count, 22);
    savefile.previous_stats_value(0);
    savefile.previous_stats_value(0);
    assert_eq!(savefile.journey_count, 20);

    savefile.next_stats_value(3);
    assert_eq!(savefile.current_level.id(), 2);
    savefile.previous_stats_value(3);
    savefile.previous_stats_value(3);
    savefile.previous_stats_value(3);
    assert_eq!(savefile.current_level.id(), 11);

    savefile.next_stats_value(5);
    savefile.next_stats_value(5);
    savefile.next_stats_value(5);
    savefile.next_stats_value(5);
    assert_eq!(savefile.scarf_length.length(), 30);

    savefile.next_stats_value(6);
    assert_eq!(savefile.symbol.id(), 8);

    savefile.next_stats_value(7);
    assert_eq!(savefile.robe.value(), 6);
    assert_eq!(savefile.robe.color(), RobeColor::White);
    savefile.next_stats_value(8);
    assert_eq!(savefile.robe.value(), 6);
    savefile.previous_stats_value(8);
    savefile.previous_stats_value(8);
    savefile.previous_stats_value(8);
    assert_eq!(savefile.robe.tier(), 2);

    let before = savefile.encode();
    savefile.next_stats_value(9);
    savefile.next_stats_value(42);
    assert_eq!(savefile.encode(), before);
}

#[test]
fn stats_values_typed() {
    let mut savefile = savefile();

    assert_eq!(savefile.set_stats_value(0, "42"), Ok(()));
    assert_eq!(savefile.journey_count, 42);
    assert_eq!(savefile.set_stats_value(1, "abc"), Err(Error::InvalidNumber));
    assert_eq!(savefile.set_stats_value(1, ""), Err(Error::InvalidNumber));
    assert_eq!(savefile.set_stats_value(1, "4294967296"), Err(Error::InvalidNumber));
    assert_eq!(savefile.total_companions_met, 21);
    assert_eq!(savefile.set_stats_value(2, "+108"), Ok(()));
    assert_eq!(savefile.total_collected_symbols, 108);
    assert_eq!(savefile.set_stats_value(3, "Tower"), Ok(()));
    assert_eq!(savefile.current_level.id(), 5);
    assert_eq!(savefile.set_stats_value(3, "Nowhere"), Err(Error::LevelNameNotFound));
    assert_eq!(savefile.set_stats_value(4, "7"), Ok(()));
    assert_eq!(savefile.companions_met, 7);
    assert_eq!(savefile.set_stats_value(5, "31"), Err(Error::ScarfTooLong));
    assert_eq!(savefile.set_stats_value(5, "12"), Ok(()));
    assert_eq!(savefile.scarf_length.length(), 12);
    assert_eq!(savefile.set_stats_value(6, "21"), Err(Error::SymbolIdOutOfRange));
    assert_eq!(savefile.set_stats_value(6, "20"), Ok(()));
    assert_eq!(savefile.symbol.id(), 20);
    assert_eq!(
        savefile.set_stats_value(7, "blue"),
        Err(Error::RobeChange(RobeError::InvalidColor))
    );
    assert_eq!(savefile.set_stats_value(7, "white"), Ok(()));
    assert_eq!(savefile.robe.color(), RobeColor::White);
    assert_eq!(
        savefile.set_stats_value(8, "1"),
        Err(Error::RobeChange(RobeError::WhiteTierMinimum))
    );
    assert_eq!(savefile.set_stats_value(8, "3"), Ok(()));
    assert_eq!(savefile.robe.value(), 5);
    assert_eq!(savefile.set_stats_value(9, "anything"), Ok(()));
}
