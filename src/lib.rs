mod bytes;
mod companion;
mod editor;
mod glyphs;
mod level;
mod murals;
mod robe;
mod savefile;
mod scarf;
mod symbol;
mod text;
mod timestamp;

pub use crate::companion::{
    companion_bytes, companion_list_bytes, decimal, lemma_companion_list_round_trip, marker,
    parse_companion, parse_companion_list, parse_symbol_entries, parse_symbol_entry,
    parse_symbol_section, steam_id_text, symbol_entry_bytes, symbol_list_bytes,
    symbol_section_bytes, url_encoded, valid_companion, valid_symbol_entry, CompanionSymbols,
    CompanionWithId, CompanionWithSymbol, Companions,
};
pub use crate::editor::{move_section, section_after, select_row_in_range, Direction, Message, Mode, Section};
pub use crate::glyphs::{glyph_bit, glyph_count, Glyphs, LevelGlyphs};
pub use crate::level::{level_name, name_of as level_name_of, Level, MAX_LEVEL_ID};
pub use crate::murals::{flag_bit, mural_count, mural_start, Murals};
pub use crate::robe::{
    color_of, lemma_color_round_trip, lemma_white_tier_minimum, recolored, retiered, tier_of,
    Color, Color as RobeColor, Error as RobeError, Robe, MAX_ROBE_VALUE,
};
pub use crate::savefile::{
    current_count, edited, lemma_decode_encode, lemma_parse_well_formed,
    lemma_savefile_round_trip, parse_savefile, savefile_bytes, stepped, well_formed, Savefile,
    SavefileView, FIXED_SIZE, STATS_ROWS,
};
pub use crate::scarf::{lemma_length_steps, lengthened, shortened, Scarf, MAX_LENGTH as MAX_SCARF_LENGTH};
pub use crate::symbol::{
    get_symbol, get_symbol_part, get_symbol_with_parts, part_ids, symbol_art, symbol_part_ids,
    Symbol, MAX_SYMBOL_ID,
};
pub use crate::text::{field_bytes, fits, lossy_text, numeral_value, padded, str_equal};
pub use crate::timestamp::{
    lemma_ticks_round_trip, millis_to_ticks, ticks_to_millis, utc_of, Timestamp, UtcDateTime,
};

use vstd::prelude::*;

verus! {

/// Errors reported by the validated fields of a save file.
#[derive(Debug, Clone, Copy, PartialEq, Eq)]
pub enum Error {
    /// The level id is above 11.
    LevelIdOutOfRange,
    /// No level has the given name.
    LevelNameNotFound,
    /// The scarf cannot grow any longer.
    ScarfMaxLength,
    /// The scarf cannot shrink any further.
    ScarfMinLength,
    /// The scarf would be longer than 30.
    ScarfTooLong,
    /// The symbol id is above 20.
    SymbolIdOutOfRange,
    /// The robe refused a change.
    RobeChange(RobeError),
    /// The bytes are not a save file.
    DeserializationFailed(DecodeError),
    /// A value typed into the editor is not a number that fits its field.
    InvalidNumber,
}

/// Why a byte sequence is not a save file.
#[derive(Debug, Clone, Copy, PartialEq, Eq)]
pub enum DecodeError {
    /// The bytes end before the layout does.
    Truncated,
    /// The robe value is above 7.
    RobeOutOfRange(u32),
    /// The symbol id is above 20.
    SymbolOutOfRange(u32),
    /// The scarf is longer than 30.
    ScarfTooLong(u32),
    /// The level id is above 11.
    LevelOutOfRange(u64),
    /// More than 21 symbols are counted as collected.
    CollectedSymbolsOutOfRange(u32),
    /// A companion's symbol id is above 21.
    CompanionSymbolOutOfRange(u32),
    /// A companion's account id is zero.
    ZeroSteamId,
}

} // verus!
