use jrny_save::{
    level_name_of, move_section, select_row_in_range, Direction, Error, Level, Mode, Scarf,
    Section, Symbol,
};

#[test]
fn scarf_steps_at_every_length() {
    for length in 0..=30u32 {
        let mut scarf = Scarf::new(length).unwrap();
        let grown = scarf.increase_length();
        if length < 30 {
            assert_eq!(grown, Ok(()));
            assert_eq!(scarf.length(), length + 1);
        } else {
            assert_eq!(grown, Err(Error::ScarfMaxLength));
            assert_eq!(scarf.length(), 30);
        }

        let mut scarf = Scarf::new(length).unwrap();
        let shrunk = scarf.decrease_length();
        if length > 0 {
            assert_eq!(shrunk, Ok(()));
            assert_eq!(scarf.length(), length - 1);
        } else {
            assert_eq!(shrunk, Err(Error::ScarfMinLength));
            assert_eq!(scarf.length(), 0);
        }
    }
}

#[test]
fn scarf_set_length() {
    let mut scarf = Scarf::new(5).unwrap();
    assert_eq!(scarf.set_length(31), Err(Error::ScarfTooLong));
    assert_eq!(scarf.length(), 5);
    assert_eq!(scarf.set_length(30), Ok(()));
    assert_eq!(scarf.length(), 30);
    assert!(Scarf::new(31).is_none());
}

#[test]
fn level_by_id_and_name() {
    let mut level = Level::new(0).unwrap();
    assert_eq!(level.set_by_id(12), Err(Error::LevelIdOutOfRange));
    assert_eq!(level.id(), 0);
    assert_eq!(level.set_by_id(11), Ok(()));
    assert_eq!(level.name(), "Level Chris");

    assert_eq!(level.set_by_name("Broken Bridge"), Ok(()));
    assert_eq!(level.id(), 1);
    assert_eq!(level.set_by_name("Nowhere"), Err(Error::LevelNameNotFound));
    assert_eq!(level.id(), 1);
    assert_eq!(level.set_by_name("Snow"), Ok(()));
    assert_eq!(level.id(), 6);

    assert_eq!(level_name_of(3), Some("Sunken City"));
    assert_eq!(level_name_of(12), None);
}

#[test]
fn level_wraps() {
    let last = Level::new(11).unwrap();
    assert_eq!(last.wrapping_next().id(), 0);
    assert_eq!(last.wrapping_previous().id(), 10);
    let first = Level::new(0).unwrap();
    assert_eq!(first.wrapping_previous().id(), 11);
    assert_eq!(first.wrapping_next().id(), 1);
}

#[test]
fn symbol_by_id_and_wrapping() {
    let mut symbol = Symbol::new(7).unwrap();
    assert_eq!(symbol.set_by_id(21), Err(Error::SymbolIdOutOfRange));
    assert_eq!(symbol.id(), 7);
    assert_eq!(symbol.set_by_id(20), Ok(()));
    assert_eq!(symbol.wrapping_next().id(), 0);
    assert_eq!(symbol.wrapping_previous().id(), 19);
    assert_eq!(Symbol::new(0).unwrap().wrapping_previous().id(), 20);
    assert!(Symbol::new(21).is_none());
}

#[test]
fn editor_modes() {
    assert!(Mode::Edit.is_editing());
    assert!(Mode::Insert.is_editing());
    assert!(!Mode::Normal.is_editing());
    assert!(!Mode::SelectFile.is_editing());
    assert_eq!(Mode::default(), Mode::Normal);
}

#[test]
fn editor_sections() {
    assert_eq!(move_section(Section::General, Direction::Down), Section::Glyphs);
    assert_eq!(move_section(Section::Murals, Direction::Down), Section::General);
    assert_eq!(move_section(Section::General, Direction::Up), Section::Murals);
    assert_eq!(move_section(Section::Glyphs, Direction::Left), Section::Companions);
    assert_eq!(move_section(Section::Companions, Direction::Right), Section::General);
    assert_eq!(move_section(Section::Companions, Direction::Up), Section::Companions);
}

#[test]
fn editor_rows() {
    assert_eq!(select_row_in_range(Some(0), Direction::Up, 0, 9), Some(0));
    assert_eq!(select_row_in_range(Some(3), Direction::Up, 0, 9), Some(2));
    assert_eq!(select_row_in_range(Some(9), Direction::Down, 0, 9), Some(9));
    assert_eq!(select_row_in_range(Some(3), Direction::Down, 0, 9), Some(4));
    assert_eq!(select_row_in_range(None, Direction::Down, 0, 9), None);
    assert_eq!(select_row_in_range(Some(3), Direction::Left, 0, 9), Some(3));
}
