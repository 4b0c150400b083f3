use vstd::prelude::*;

use crate::bytes::{copy_bytes, le_bytes, le_value, lemma_le_round_trip, lemma_le_value_bound, lemma_pow256_values, push_bytes, push_le, read_le};
use crate::companion::{companion_list_bytes, lemma_companion_list_end, lemma_companion_list_round_trip, lemma_symbol_entries_valid, lemma_symbol_section_round_trip, marker, parse_companion_list, parse_symbol_section, symbol_section_bytes, valid_companion, valid_symbol_entry, CompanionSymbols, CompanionWithId, Companions, ID_ENTRY_SIZE, ID_RECORD_SIZE, MAX_SYMBOL_ENTRIES, SYMBOL_SECTION_SIZE};
use crate::glyphs::{glyphs_bytes, lemma_glyphs_round_trip, parse_glyphs, Glyphs, GLYPHS_SIZE, GLYPH_LEVELS, GLYPH_RESERVED};
use crate::level::{Level, MAX_LEVEL_ID};
use crate::murals::Murals;
use crate::robe::{Robe, MAX_ROBE_VALUE};
use crate::scarf::{Scarf, MAX_LENGTH};
use crate::symbol::{Symbol, MAX_SYMBOL_ID};
use crate::timestamp::{lemma_ticks_round_trip, millis_to_ticks, ticks_to_millis, Timestamp, MAX_MILLIS, MIN_MILLIS};
use crate::level::{lemma_level_named_bound, level_named};
use crate::robe::{color_of, lemma_color_round_trip, recolored, retiered, tier_of, Color, Error as RobeError};
use crate::scarf::{lengthened, shortened};
use crate::text::{numeral_value, parse_u64, str_equal};
use crate::{DecodeError, Error};

verus! {

/// Most symbols a journey counts as collected.
pub const MAX_COLLECTED_SYMBOLS: u32 = 21;

/// Bytes of the layout before the list of companions.
pub const FIXED_SIZE: usize = 6568;

const ROBE_AT: usize = 8;

const SYMBOL_AT: usize = 12;

const SCARF_AT: usize = 16;

const RESERVED1_AT: usize = 20;

const LEVEL_AT: usize = 24;

const TOTAL_SYMBOLS_AT: usize = 32;

const SYMBOLS_AT: usize = 36;

const MURALS_AT: usize = 40;

const RESERVED2_AT: usize = 42;

const LAST_PLAYED_AT: usize = 64;

const RESERVED3_AT: usize = 72;

const JOURNEYS_AT: usize = 76;

const GLYPHS_AT: usize = 84;

const RESERVED4_AT: usize = 2148;

const COMPANION_SYMBOLS_AT: usize = 4552;

const COMPANIONS_MET_AT: usize = 5512;

const RESERVED6_AT: usize = 5516;

const TOTAL_COMPANIONS_AT: usize = 6540;

const RESERVED7_AT: usize = 6544;

/// Everything a save file holds, as plain values: the modeled fields and the reserved byte runs
/// kept as they were read.
pub struct SavefileView {
    pub reserved0: Seq<u8>,
    pub robe: u32,
    pub symbol: u32,
    pub scarf_length: u32,
    pub reserved1: Seq<u8>,
    pub current_level: u64,
    pub total_collected_symbols: u32,
    pub collected_symbols: u32,
    pub murals: u16,
    pub reserved2: Seq<u8>,
    pub last_played: int,
    pub reserved3: Seq<u8>,
    pub journey_count: u64,
    pub glyphs: Seq<(u8, Seq<u8>)>,
    pub reserved4: Seq<u8>,
    pub companion_symbols: Seq<(Seq<u8>, Seq<u8>, u32)>,
    pub companions_met: u32,
    pub reserved6: Seq<u8>,
    pub total_companions_met: u32,
    pub reserved7: Seq<u8>,
    pub companions: Seq<(Seq<u8>, u32)>,
    pub remainder: Seq<u8>,
}

/// The little-endian unsigned integer in the `n` bytes at `at`.
pub open spec fn field(b: Seq<u8>, at: int, n: int) -> nat {
    le_value(b.subrange(at, at + n))
}

/// A 64-bit pattern read as a two's complement integer.
pub open spec fn signed64(u: nat) -> int {
    if u >= 0x8000_0000_0000_0000 {
        u - 0x1_0000_0000_0000_0000
    } else {
        u as int
    }
}

/// The 64-bit two's complement pattern of an integer.
pub open spec fn unsigned64(t: int) -> nat {
    if t < 0 {
        (t + 0x1_0000_0000_0000_0000) as nat
    } else {
        t as nat
    }
}

/// Reads a save file: the fixed layout of the first 6568 bytes, checked field by field in
/// order, then the list of companions, then whatever follows, kept as it is.
pub open spec fn parse_savefile(b: Seq<u8>) -> Result<SavefileView, DecodeError> {
    if b.len() < FIXED_SIZE {
        Err(DecodeError::Truncated)
    } else if field(b, 8, 4) > MAX_ROBE_VALUE {
        Err(DecodeError::RobeOutOfRange(field(b, 8, 4) as u32))
    } else if field(b, 12, 4) > MAX_SYMBOL_ID {
        Err(DecodeError::SymbolOutOfRange(field(b, 12, 4) as u32))
    } else if field(b, 16, 4) > MAX_LENGTH {
        Err(DecodeError::ScarfTooLong(field(b, 16, 4) as u32))
    } else if field(b, 24, 8) > MAX_LEVEL_ID {
        Err(DecodeError::LevelOutOfRange(field(b, 24, 8) as u64))
    } else if field(b, 36, 4) > MAX_COLLECTED_SYMBOLS {
        Err(DecodeError::CollectedSymbolsOutOfRange(field(b, 36, 4) as u32))
    } else {
        match parse_symbol_section(b.subrange(4552, 5512)) {
            Err(e) => Err(e),
            Ok(companion_symbols) => match parse_companion_list(b.subrange(6568, b.len() as int)) {
                Err(e) => Err(e),
                Ok((companions, used)) => Ok(
                    SavefileView {
                        reserved0: b.subrange(0, 8),
                        robe: field(b, 8, 4) as u32,
                        symbol: field(b, 12, 4) as u32,
                        scarf_length: field(b, 16, 4) as u32,
                        reserved1: b.subrange(20, 24),
                        current_level: field(b, 24, 8) as u64,
                        total_collected_symbols: field(b, 32, 4) as u32,
                        collected_symbols: field(b, 36, 4) as u32,
                        murals: field(b, 40, 2) as u16,
                        reserved2: b.subrange(42, 64),
                        last_played: ticks_to_millis(signed64(field(b, 64, 8))),
                        reserved3: b.subrange(72, 76),
                        journey_count: field(b, 76, 8) as u64,
                        glyphs: parse_glyphs(b.subrange(84, 2148)),
                        reserved4: b.subrange(2148, 4552),
                        companion_symbols,
                        companions_met: field(b, 5512, 4) as u32,
                        reserved6: b.subrange(5516, 6540),
                        total_companions_met: field(b, 6540, 4) as u32,
                        reserved7: b.subrange(6544, 6568),
                        companions,
                        remainder: b.subrange(6568 + used as int, b.len() as int),
                    },
                ),
            },
        }
    }
}

/// The first 84 bytes of a save file.
pub open spec fn head_bytes(v: SavefileView) -> Seq<u8> {
    v.reserved0 + le_bytes(v.robe as nat, 4) + le_bytes(v.symbol as nat, 4) + le_bytes(
        v.scarf_length as nat,
        4,
    ) + v.reserved1 + le_bytes(v.current_level as nat, 8) + le_bytes(v.total_collected_symbols as nat, 4)
        + le_bytes(v.collected_symbols as nat, 4) + le_bytes(v.murals as nat, 2) + v.reserved2
        + le_bytes(unsigned64(millis_to_ticks(v.last_played)), 8) + v.reserved3 + le_bytes(
        v.journey_count as nat,
        8,
    )
}

/// The bytes from the glyphs up to the list of companions.
pub open spec fn body_bytes(v: SavefileView) -> Seq<u8> {
    glyphs_bytes(v.glyphs) + v.reserved4 + symbol_section_bytes(v.companion_symbols) + le_bytes(
        v.companions_met as nat,
        4,
    ) + v.reserved6 + le_bytes(v.total_companions_met as nat, 4) + v.reserved7
}

/// The bytes of a save file.
pub open spec fn savefile_bytes(v: SavefileView) -> Seq<u8> {
    head_bytes(v) + body_bytes(v) + (companion_list_bytes(v.companions) + v.remainder)
}

/// What every save file that reads successfully satisfies: each field within its range, each
/// reserved run of its size, and bytes after the companions that do not continue their list.
pub open spec fn well_formed(v: SavefileView) -> bool {
    &&& v.reserved0.len() == 8
    &&& v.robe <= MAX_ROBE_VALUE
    &&& v.symbol <= MAX_SYMBOL_ID
    &&& v.scarf_length <= MAX_LENGTH
    &&& v.reserved1.len() == 4
    &&& v.current_level <= MAX_LEVEL_ID
    &&& v.collected_symbols <= MAX_COLLECTED_SYMBOLS
    &&& v.reserved2.len() == 22
    &&& MIN_MILLIS <= v.last_played <= MAX_MILLIS
    &&& v.reserved3.len() == 4
    &&& v.glyphs.len() == GLYPH_LEVELS
    &&& forall|l: int| 0 <= l < v.glyphs.len() ==> (#[trigger] v.glyphs[l]).1.len() == GLYPH_RESERVED
    &&& v.reserved4.len() == 2404
    &&& v.companion_symbols.len() <= MAX_SYMBOL_ENTRIES
    &&& forall|i: int| 0 <= i < v.companion_symbols.len() ==> valid_symbol_entry(#[trigger] v.companion_symbols[i])
    &&& v.reserved6.len() == 1024
    &&& v.reserved7.len() == 24
    &&& forall|i: int| 0 <= i < v.companions.len() ==> valid_companion(#[trigger] v.companions[i])
    &&& v.remainder.len() >= ID_ENTRY_SIZE
    &&& v.remainder.subrange(ID_RECORD_SIZE as int, ID_ENTRY_SIZE as int) != marker()
}

proof fn lemma_companion_list_bytes_len(cs: Seq<(Seq<u8>, u32)>)
    requires
        forall|i: int| 0 <= i < cs.len() ==> valid_companion(#[trigger] cs[i]),
    ensures
        companion_list_bytes(cs).len() == ID_ENTRY_SIZE * cs.len(),
    decreases cs.len(),
{
    if cs.len() > 0 {
        let tail = cs.drop_first();
        assert forall|i: int| 0 <= i < tail.len() implies valid_companion(#[trigger] tail[i]) by {
            assert(tail[i] == cs[i + 1]);
        }
        lemma_companion_list_bytes_len(tail);
        reveal(valid_companion);
        crate::text::lemma_padded_round_trip(cs[0].0, 24);
        lemma_pow256_values();
        lemma_le_round_trip(cs[0].1 as nat, 4);
    }
}

proof fn lemma_div_bound(a: int)
    requires
        0 <= a <= 0x8000_0000_0000_0000,
    ensures
        a / 10000 <= 922_337_203_685_477,
        a / 10000 >= 0,
{
    vstd::arithmetic::div_mod::lemma_fundamental_div_mod(a, 10000);
    vstd::arithmetic::div_mod::lemma_mod_bound(a, 10000);
}

/// Every save file that reads successfully is well formed.
pub proof fn lemma_parse_well_formed(b: Seq<u8>)
    requires
        parse_savefile(b) is Ok,
    ensures
        well_formed(parse_savefile(b)->Ok_0),
{
    let v = parse_savefile(b)->Ok_0;
    let t = b.subrange(6568, b.len() as int);
    lemma_companion_list_end(t);
    let used = parse_companion_list(t)->Ok_0.1;
    assert(v.remainder =~= t.subrange(used as int, t.len() as int));
    lemma_symbol_entries_valid(b.subrange(4552, 5512), MAX_SYMBOL_ENTRIES as nat);
    lemma_le_value_bound(b.subrange(64, 72));
    lemma_pow256_values();
    let u = field(b, 64, 8);
    let ticks = signed64(u);
    if ticks >= 0 {
        lemma_div_bound(ticks);
    } else {
        lemma_div_bound(-ticks);
    }
    assert forall|l: int| 0 <= l < v.glyphs.len() implies (#[trigger] v.glyphs[l]).1.len() == GLYPH_RESERVED by {
    }
}

/// The bytes of a well-formed save file read back as that save file.
#[verifier::rlimit(80)]
pub proof fn lemma_savefile_round_trip(v: SavefileView)
    requires
        well_formed(v),
    ensures
        parse_savefile(savefile_bytes(v)) == Ok::<SavefileView, DecodeError>(v),
{
    let h = head_bytes(v);
    let m = body_bytes(v);
    let t = companion_list_bytes(v.companions) + v.remainder;
    let s = savefile_bytes(v);
    lemma_pow256_values();
    lemma_glyphs_round_trip(v.glyphs);
    lemma_symbol_section_round_trip(v.companion_symbols);
    lemma_companion_list_bytes_len(v.companions);
    lemma_companion_list_round_trip(v.companions, v.remainder);
    lemma_le_round_trip(v.robe as nat, 4);
    lemma_le_round_trip(v.symbol as nat, 4);
    lemma_le_round_trip(v.scarf_length as nat, 4);
    lemma_le_round_trip(v.current_level as nat, 8);
    lemma_le_round_trip(v.total_collected_symbols as nat, 4);
    lemma_le_round_trip(v.collected_symbols as nat, 4);
    lemma_le_round_trip(v.murals as nat, 2);
    let ticks = millis_to_ticks(v.last_played);
    lemma_ticks_round_trip(v.last_played, 0);
    lemma_le_round_trip(unsigned64(ticks), 8);
    lemma_le_round_trip(v.journey_count as nat, 8);
    lemma_le_round_trip(v.companions_met as nat, 4);
    lemma_le_round_trip(v.total_companions_met as nat, 4);
    assert(h.len() == 84);
    assert(m.len() == 6484);
    assert(s.subrange(0, 84) =~= h);
    assert(s.subrange(84, 6568) =~= m);
    assert(s.subrange(6568, s.len() as int) =~= t);
    assert(s.subrange(0, 8) =~= v.reserved0);
    assert(s.subrange(8, 12) =~= le_bytes(v.robe as nat, 4));
    assert(s.subrange(12, 16) =~= le_bytes(v.symbol as nat, 4));
    assert(s.subrange(16, 20) =~= le_bytes(v.scarf_length as nat, 4));
    assert(s.subrange(20, 24) =~= v.reserved1);
    assert(s.subrange(24, 32) =~= le_bytes(v.current_level as nat, 8));
    assert(s.subrange(32, 36) =~= le_bytes(v.total_collected_symbols as nat, 4));
    assert(s.subrange(36, 40) =~= le_bytes(v.collected_symbols as nat, 4));
    assert(s.subrange(40, 42) =~= le_bytes(v.murals as nat, 2));
    assert(s.subrange(42, 64) =~= v.reserved2);
    assert(s.subrange(64, 72) =~= le_bytes(unsigned64(ticks), 8));
    assert(s.subrange(72, 76) =~= v.reserved3);
    assert(s.subrange(76, 84) =~= le_bytes(v.journey_count as nat, 8));
    assert(s.subrange(84, 2148) =~= glyphs_bytes(v.glyphs));
    assert(s.subrange(2148, 4552) =~= v.reserved4);
    assert(s.subrange(4552, 5512) =~= symbol_section_bytes(v.companion_symbols));
    assert(s.subrange(5512, 5516) =~= le_bytes(v.companions_met as nat, 4));
    assert(s.subrange(5516, 6540) =~= v.reserved6);
    assert(s.subrange(6540, 6544) =~= le_bytes(v.total_companions_met as nat, 4));
    assert(s.subrange(6544, 6568) =~= v.reserved7);
    let used = ID_ENTRY_SIZE * v.companions.len();
    assert(s.subrange(6568 + used, s.len() as int) =~= v.remainder);
    assert(signed64(unsigned64(ticks)) == ticks);
    let w = parse_savefile(s)->Ok_0;
    assert(parse_savefile(s) is Ok);
    assert(w.reserved0 == v.reserved0);
    assert(w.glyphs == v.glyphs);
    assert(w.last_played == v.last_played);
    assert(w.remainder == v.remainder);
    assert(w == v);
}

/// Decoding the encoding of a save file that was decoded gives that same save file back.
pub proof fn lemma_decode_encode(b: Seq<u8>)
    requires
        parse_savefile(b) is Ok,
    ensures
        parse_savefile(savefile_bytes(parse_savefile(b)->Ok_0)) == parse_savefile(b),
{
    lemma_parse_well_formed(b);
    lemma_savefile_round_trip(parse_savefile(b)->Ok_0);
}

/// How many companions travel with the player now: `companions_met`, but no more than the list
/// holds.
pub open spec fn current_count(v: SavefileView) -> int {
    if v.companions_met as int <= v.companions.len() {
        v.companions_met as int
    } else {
        v.companions.len() as int
    }
}

/// A save file: the fields the game's progress is made of, and the reserved byte runs between
/// them, kept unread so that writing the file back preserves them.
#[derive(Debug)]
pub struct Savefile {
    reserved0: Vec<u8>,
    pub robe: Robe,
    pub symbol: Symbol,
    pub scarf_length: Scarf,
    reserved1: Vec<u8>,
    pub current_level: Level,
    pub total_collected_symbols: u32,
    pub collected_symbols: u32,
    pub murals: Murals,
    reserved2: Vec<u8>,
    pub last_played: Timestamp,
    reserved3: Vec<u8>,
    pub journey_count: u64,
    pub glyphs: Glyphs,
    reserved4: Vec<u8>,
    pub companion_symbols: CompanionSymbols,
    pub companions_met: u32,
    reserved6: Vec<u8>,
    pub total_companions_met: u32,
    reserved7: Vec<u8>,
    pub companions: Companions,
    remainder: Vec<u8>,
}

impl View for Savefile {
    type V = SavefileView;

    closed spec fn view(&self) -> SavefileView {
        SavefileView {
            reserved0: self.reserved0@,
            robe: self.robe@,
            symbol: self.symbol@,
            scarf_length: self.scarf_length@,
            reserved1: self.reserved1@,
            current_level: self.current_level@,
            total_collected_symbols: self.total_collected_symbols,
            collected_symbols: self.collected_symbols,
            murals: self.murals@,
            reserved2: self.reserved2@,
            last_played: self.last_played@,
            reserved3: self.reserved3@,
            journey_count: self.journey_count,
            glyphs: self.glyphs@,
            reserved4: self.reserved4@,
            companion_symbols: self.companion_symbols@,
            companions_met: self.companions_met,
            reserved6: self.reserved6@,
            total_companions_met: self.total_companions_met,
            reserved7: self.reserved7@,
            companions: self.companions@,
            remainder: self.remainder@,
        }
    }
}

fn read_u32(b: &[u8], at: usize) -> (r: u32)
    requires
        at + 4 <= b@.len(),
    ensures
        r as nat == field(b@, at as int, 4),
{
    let v = read_le(b, at, 4);
    proof {
        lemma_le_value_bound(b@.subrange(at as int, at + 4));
        lemma_pow256_values();
    }
    v as u32
}

impl Savefile {
    /// Reads a save file from its bytes.
    pub fn decode(bytes: &[u8]) -> (r: Result<Savefile, DecodeError>)
        ensures
            match parse_savefile(bytes@) {
                Ok(v) => r matches Ok(s) && s@ == v && well_formed(s@),
                Err(e) => r matches Err(e2) && e2 == e,
            },
    {
        let b = bytes;
        if b.len() < FIXED_SIZE {
            return Err(DecodeError::Truncated);
        }
        let robe_value = read_u32(b, ROBE_AT);
        let robe = match Robe::new(robe_value) {
            Some(r) => r,
            None => return Err(DecodeError::RobeOutOfRange(robe_value)),
        };
        let symbol_id = read_u32(b, SYMBOL_AT);
        let symbol = match Symbol::new(symbol_id) {
            Some(s) => s,
            None => return Err(DecodeError::SymbolOutOfRange(symbol_id)),
        };
        let length = read_u32(b, SCARF_AT);
        let scarf_length = match Scarf::new(length) {
            Some(s) => s,
            None => return Err(DecodeError::ScarfTooLong(length)),
        };
        let level_id = read_le(b, LEVEL_AT, 8);
        let current_level = match Level::new(level_id) {
            Some(l) => l,
            None => return Err(DecodeError::LevelOutOfRange(level_id)),
        };
        let total_collected_symbols = read_u32(b, TOTAL_SYMBOLS_AT);
        let collected_symbols = read_u32(b, SYMBOLS_AT);
        if collected_symbols > MAX_COLLECTED_SYMBOLS {
            return Err(DecodeError::CollectedSymbolsOutOfRange(collected_symbols));
        }
        let companion_symbols = match CompanionSymbols::read(b, COMPANION_SYMBOLS_AT) {
            Ok(c) => c,
            Err(e) => return Err(e),
        };
        let (companions, end) = match Companions::read(b, FIXED_SIZE) {
            Ok(c) => c,
            Err(e) => return Err(e),
        };
        proof {
            lemma_companion_list_end(b@.subrange(FIXED_SIZE as int, b@.len() as int));
        }
        let murals_flags = read_le(b, MURALS_AT, 2);
        let raw_ticks = read_le(b, LAST_PLAYED_AT, 8);
        proof {
            lemma_le_value_bound(b@.subrange(MURALS_AT as int, MURALS_AT + 2));
            lemma_le_value_bound(b@.subrange(LAST_PLAYED_AT as int, LAST_PLAYED_AT + 8));
            lemma_pow256_values();
        }
        let ticks: i64 = if raw_ticks >= 0x8000_0000_0000_0000 {
            ((raw_ticks - 0x8000_0000_0000_0000) as i64) + i64::MIN
        } else {
            raw_ticks as i64
        };
        let journey_count = read_le(b, JOURNEYS_AT, 8);
        let companions_met = read_u32(b, COMPANIONS_MET_AT);
        let total_companions_met = read_u32(b, TOTAL_COMPANIONS_AT);
        let r = Savefile {
            reserved0: copy_bytes(b, 0, 8),
            robe,
            symbol,
            scarf_length,
            reserved1: copy_bytes(b, RESERVED1_AT, 4),
            current_level,
            total_collected_symbols,
            collected_symbols,
            murals: Murals::new(murals_flags as u16),
            reserved2: copy_bytes(b, RESERVED2_AT, 22),
            last_played: Timestamp::from_ticks(ticks),
            reserved3: copy_bytes(b, RESERVED3_AT, 4),
            journey_count,
            glyphs: Glyphs::read(b, GLYPHS_AT),
            reserved4: copy_bytes(b, RESERVED4_AT, 2404),
            companion_symbols,
            companions_met,
            reserved6: copy_bytes(b, RESERVED6_AT, 1024),
            total_companions_met,
            reserved7: copy_bytes(b, RESERVED7_AT, 24),
            companions,
            remainder: copy_bytes(b, end, b.len() - end),
        };
        proof {
            let v = parse_savefile(b@)->Ok_0;
            assert(r@.reserved0 == v.reserved0);
            assert(r@.glyphs == v.glyphs);
            assert(r@.last_played == v.last_played);
            assert(r@.remainder == v.remainder);
            assert(r@ == v);
            lemma_parse_well_formed(b@);
        }
        Ok(r)
    }

    /// The bytes of this save file.
    pub fn encode(&self) -> (r: Vec<u8>)
        ensures
            r@ == savefile_bytes(self@),
            well_formed(self@) ==> parse_savefile(r@) == Ok::<SavefileView, DecodeError>(self@),
    {
        let mut out: Vec<u8> = Vec::new();
        push_bytes(&mut out, self.reserved0.as_slice());
        push_le(&mut out, self.robe.value() as u64, 4);
        push_le(&mut out, self.symbol.id() as u64, 4);
        push_le(&mut out, self.scarf_length.length() as u64, 4);
        push_bytes(&mut out, self.reserved1.as_slice());
        push_le(&mut out, self.current_level.id(), 8);
        push_le(&mut out, self.total_collected_symbols as u64, 4);
        push_le(&mut out, self.collected_symbols as u64, 4);
        push_le(&mut out, self.murals.flags() as u64, 2);
        push_bytes(&mut out, self.reserved2.as_slice());
        let ticks = self.last_played.to_ticks();
        let raw_ticks: u64 = if ticks < 0 {
            ((ticks - i64::MIN) as u64) + 0x8000_0000_0000_0000
        } else {
            ticks as u64
        };
        push_le(&mut out, raw_ticks, 8);
        push_bytes(&mut out, self.reserved3.as_slice());
        push_le(&mut out, self.journey_count, 8);
        let ghost head = out@;
        self.glyphs.write(&mut out);
        push_bytes(&mut out, self.reserved4.as_slice());
        self.companion_symbols.write(&mut out);
        push_le(&mut out, self.companions_met as u64, 4);
        push_bytes(&mut out, self.reserved6.as_slice());
        push_le(&mut out, self.total_companions_met as u64, 4);
        push_bytes(&mut out, self.reserved7.as_slice());
        let ghost body_end = out@;
        self.companions.write(&mut out);
        push_bytes(&mut out, self.remainder.as_slice());
        proof {
            let v = self@;
            assert(head =~= head_bytes(v));
            assert(body_end =~= head_bytes(v) + body_bytes(v));
            assert(out@ =~= savefile_bytes(v));
            if well_formed(v) {
                lemma_savefile_round_trip(v);
            }
        }
        out
    }

    /// The companions the traveler journeys with now: the first `companions_met` of the list.
    pub fn current_companions(&self) -> (r: &[CompanionWithId])
        ensures
            r@.map_values(|c: CompanionWithId| c@) == self@.companions.subrange(0, current_count(self@)),
    {
        let n = self.companions.count();
        let met = self.companions_met as usize;
        let end = if met <= n { met } else { n };
        proof {
            self.companions.lemma_entries();
        }
        let r = self.companions.range(0, end);
        proof {
            assert(r@.map_values(|c: CompanionWithId| c@) =~= self@.companions.subrange(0, current_count(self@)));
        }
        r
    }

    /// The companions who have left: the list from position `companions_met` on.
    pub fn past_companions(&self) -> (r: &[CompanionWithId])
        ensures
            r@.map_values(|c: CompanionWithId| c@) == self@.companions.subrange(
                current_count(self@),
                self@.companions.len() as int,
            ),
    {
        let n = self.companions.count();
        let met = self.companions_met as usize;
        let start = if met <= n { met } else { n };
        proof {
            self.companions.lemma_entries();
        }
        let r = self.companions.range(start, n);
        proof {
            assert(r@.map_values(|c: CompanionWithId| c@) =~= self@.companions.subrange(
                current_count(self@),
                self@.companions.len() as int,
            ));
        }
        r
    }
}

/// Number of rows of the general section of the editor: journeys completed, total companions
/// met, total symbols collected, current level, companions met, scarf length, symbol, robe
/// color, robe tier and last played.
pub const STATS_ROWS: usize = 10;

/// `x + 1`, staying at the largest value.
pub open spec fn up32(x: u32) -> u32 {
    if x == u32::MAX {
        x
    } else {
        (x + 1) as u32
    }
}

/// `x - 1`, staying at zero.
pub open spec fn down32(x: u32) -> u32 {
    if x == 0 {
        x
    } else {
        (x - 1) as u32
    }
}

/// The other robe color.
pub open spec fn other_color(c: Color) -> Color {
    if c == Color::Red {
        Color::White
    } else {
        Color::Red
    }
}

/// The save file after moving the value in row `row` of the general section one step forward
/// or back: counters by one (staying within their range), level and symbol around their
/// cycles, the scarf and the robe tier by one where they can, the robe to the other color.
pub open spec fn stepped(v: SavefileView, row: int, forward: bool) -> SavefileView {
    if row == 0 {
        SavefileView {
            journey_count: if forward {
                if v.journey_count == u64::MAX { v.journey_count } else { (v.journey_count + 1) as u64 }
            } else {
                if v.journey_count == 0 { 0 } else { (v.journey_count - 1) as u64 }
            },
            ..v
        }
    } else if row == 1 {
        SavefileView {
            total_companions_met: if forward { up32(v.total_companions_met) } else { down32(v.total_companions_met) },
            ..v
        }
    } else if row == 2 {
        SavefileView {
            total_collected_symbols: if forward {
                up32(v.total_collected_symbols)
            } else {
                down32(v.total_collected_symbols)
            },
            ..v
        }
    } else if row == 3 {
        SavefileView {
            current_level: if forward {
                if v.current_level == MAX_LEVEL_ID { 0 } else { (v.current_level + 1) as u64 }
            } else {
                if v.current_level == 0 { MAX_LEVEL_ID } else { (v.current_level - 1) as u64 }
            },
            ..v
        }
    } else if row == 4 {
        SavefileView {
            companions_met: if forward { up32(v.companions_met) } else { down32(v.companions_met) },
            ..v
        }
    } else if row == 5 {
        SavefileView {
            scarf_length: match (if forward { lengthened(v.scarf_length) } else { shortened(v.scarf_length) }) {
                Ok(n) => n,
                Err(_) => v.scarf_length,
            },
            ..v
        }
    } else if row == 6 {
        SavefileView {
            symbol: if forward {
                if v.symbol == MAX_SYMBOL_ID { 0 } else { (v.symbol + 1) as u32 }
            } else {
                if v.symbol == 0 { MAX_SYMBOL_ID } else { (v.symbol - 1) as u32 }
            },
            ..v
        }
    } else if row == 7 {
        SavefileView { robe: recolored(v.robe, other_color(color_of(v.robe))), ..v }
    } else if row == 8 {
        SavefileView {
            robe: match retiered(v.robe, if forward { tier_of(v.robe) + 1 } else { tier_of(v.robe) - 1 }) {
                Ok(n) => n,
                Err(_) => v.robe,
            },
            ..v
        }
    } else {
        v
    }
}

/// The robe color named by `text`, in either capitalization.
pub open spec fn color_named(text: Seq<char>) -> Option<Color> {
    if text == "Red"@ || text == "red"@ {
        Some(Color::Red)
    } else if text == "White"@ || text == "white"@ {
        Some(Color::White)
    } else {
        None
    }
}

/// The number `text` holds, if it is a numeral whose value is at most `max`.
pub open spec fn number_in(text: Seq<char>, max: nat) -> Option<nat> {
    match numeral_value(text) {
        Some(n) => if n <= max {
            Some(n)
        } else {
            None
        },
        None => None,
    }
}

/// The save file after typing `text` into row `row` of the general section, or why the text
/// does not fit that row.
pub open spec fn edited(v: SavefileView, row: int, text: Seq<char>) -> Result<SavefileView, Error> {
    if row == 0 {
        match number_in(text, u64::MAX as nat) {
            Some(n) => Ok(SavefileView { journey_count: n as u64, ..v }),
            None => Err(Error::InvalidNumber),
        }
    } else if row == 1 {
        match number_in(text, u32::MAX as nat) {
            Some(n) => Ok(SavefileView { total_companions_met: n as u32, ..v }),
            None => Err(Error::InvalidNumber),
        }
    } else if row == 2 {
        match number_in(text, u32::MAX as nat) {
            Some(n) => Ok(SavefileView { total_collected_symbols: n as u32, ..v }),
            None => Err(Error::InvalidNumber),
        }
    } else if row == 3 {
        match level_named(text) {
            Some(id) => Ok(SavefileView { current_level: id, ..v }),
            None => Err(Error::LevelNameNotFound),
        }
    } else if row == 4 {
        match number_in(text, u32::MAX as nat) {
            Some(n) => Ok(SavefileView { companions_met: n as u32, ..v }),
            None => Err(Error::InvalidNumber),
        }
    } else if row == 5 {
        match number_in(text, u32::MAX as nat) {
            Some(n) => if n <= MAX_LENGTH {
                Ok(SavefileView { scarf_length: n as u32, ..v })
            } else {
                Err(Error::ScarfTooLong)
            },
            None => Err(Error::InvalidNumber),
        }
    } else if row == 6 {
        match number_in(text, u32::MAX as nat) {
            Some(n) => if n <= MAX_SYMBOL_ID {
                Ok(SavefileView { symbol: n as u32, ..v })
            } else {
                Err(Error::SymbolIdOutOfRange)
            },
            None => Err(Error::InvalidNumber),
        }
    } else if row == 7 {
        match color_named(text) {
            Some(c) => Ok(SavefileView { robe: recolored(v.robe, c), ..v }),
            None => Err(Error::RobeChange(RobeError::InvalidColor)),
        }
    } else if row == 8 {
        match number_in(text, u32::MAX as nat) {
            Some(n) => match retiered(v.robe, n as int) {
                Ok(value) => Ok(SavefileView { robe: value, ..v }),
                Err(e) => Err(Error::RobeChange(e)),
            },
            None => Err(Error::InvalidNumber),
        }
    } else {
        Ok(v)
    }
}

/// Stepping a value of the general section keeps a save file well formed.
pub proof fn lemma_stepped_well_formed(v: SavefileView, row: int, forward: bool)
    requires
        well_formed(v),
    ensures
        well_formed(stepped(v, row, forward)),
{
    lemma_color_round_trip(v.robe);
}

/// Typing a value into the general section keeps a save file well formed.
pub proof fn lemma_edited_well_formed(v: SavefileView, row: int, text: Seq<char>)
    requires
        well_formed(v),
        edited(v, row, text) is Ok,
    ensures
        well_formed(edited(v, row, text)->Ok_0),
{
    lemma_color_round_trip(v.robe);
    lemma_level_named_bound(text, 0);
}

fn parse_number(text: &str, max: u64) -> (r: Option<u64>)
    ensures
        r == (match number_in(text@, max as nat) {
            Some(n) => Some(n as u64),
            None => None::<u64>,
        }),
{
    match parse_u64(text) {
        Some(n) => if n <= max {
            Some(n)
        } else {
            None
        },
        None => None,
    }
}

impl Savefile {
    /// Moves the value in row `row` of the editor's general section one step forward.
    pub fn next_stats_value(&mut self, row: usize)
        ensures
            final(self)@ == stepped(old(self)@, row as int, true),
            well_formed(old(self)@) ==> well_formed(final(self)@),
    {
        self.step_stats_value(row, true);
        proof {
            if well_formed(old(self)@) {
                lemma_stepped_well_formed(old(self)@, row as int, true);
            }
        }
    }

    /// Moves the value in row `row` of the editor's general section one step back.
    pub fn previous_stats_value(&mut self, row: usize)
        ensures
            final(self)@ == stepped(old(self)@, row as int, false),
            well_formed(old(self)@) ==> well_formed(final(self)@),
    {
        self.step_stats_value(row, false);
        proof {
            if well_formed(old(self)@) {
                lemma_stepped_well_formed(old(self)@, row as int, false);
            }
        }
    }

    fn step_stats_value(&mut self, row: usize, forward: bool)
        ensures
            final(self)@ == stepped(old(self)@, row as int, forward),
    {
        if row == 0 {
            if forward {
                if self.journey_count < u64::MAX {
                    self.journey_count = self.journey_count + 1;
                }
            } else if self.journey_count > 0 {
                self.journey_count = self.journey_count - 1;
            }
        } else if row == 1 {
            if forward {
                if self.total_companions_met < u32::MAX {
                    self.total_companions_met = self.total_companions_met + 1;
                }
            } else if self.total_companions_met > 0 {
                self.total_companions_met = self.total_companions_met - 1;
            }
        } else if row == 2 {
            if forward {
                if self.total_collected_symbols < u32::MAX {
                    self.total_collected_symbols = self.total_collected_symbols + 1;
                }
            } else if self.total_collected_symbols > 0 {
                self.total_collected_symbols = self.total_collected_symbols - 1;
            }
        } else if row == 3 {
            if forward {
                self.current_level = self.current_level.wrapping_next();
            } else {
                self.current_level = self.current_level.wrapping_previous();
            }
        } else if row == 4 {
            if forward {
                if self.companions_met < u32::MAX {
                    self.companions_met = self.companions_met + 1;
                }
            } else if self.companions_met > 0 {
                self.companions_met = self.companions_met - 1;
            }
        } else if row == 5 {
            if forward {
                let _ = self.scarf_length.increase_length();
            } else {
                let _ = self.scarf_length.decrease_length();
            }
        } else if row == 6 {
            if forward {
                self.symbol = self.symbol.wrapping_next();
            } else {
                self.symbol = self.symbol.wrapping_previous();
            }
        } else if row == 7 {
            self.robe.swap_colors();
        } else if row == 8 {
            if forward {
                self.robe.increase_tier();
            } else {
                self.robe.decrease_tier();
            }
        }
    }

    /// Sets the value in row `row` of the editor's general section from the text typed for it;
    /// fails, leaving the save file as it was, when the text does not fit that row.
    pub fn set_stats_value(&mut self, row: usize, text: &str) -> (r: Result<(), Error>)
        ensures
            match edited(old(self)@, row as int, text@) {
                Ok(v) => r is Ok && final(self)@ == v,
                Err(e) => r == Err::<(), Error>(e) && final(self)@ == old(self)@,
            },
            well_formed(old(self)@) ==> well_formed(final(self)@),
    {
        let r = self.edit_stats_value(row, text);
        proof {
            if well_formed(old(self)@) && edited(old(self)@, row as int, text@) is Ok {
                lemma_edited_well_formed(old(self)@, row as int, text@);
            }
        }
        r
    }

    fn edit_stats_value(&mut self, row: usize, text: &str) -> (r: Result<(), Error>)
        ensures
            match edited(old(self)@, row as int, text@) {
                Ok(v) => r is Ok && final(self)@ == v,
                Err(e) => r == Err::<(), Error>(e) && final(self)@ == old(self)@,
            },
    {
        if row == 0 {
            match parse_number(text, u64::MAX) {
                Some(n) => self.journey_count = n,
                None => return Err(Error::InvalidNumber),
            }
        } else if row == 1 || row == 2 || row == 4 {
            let n = match parse_number(text, u32::MAX as u64) {
                Some(n) => n as u32,
                None => return Err(Error::InvalidNumber),
            };
            if row == 1 {
                self.total_companions_met = n;
            } else if row == 2 {
                self.total_collected_symbols = n;
            } else {
                self.companions_met = n;
            }
        } else if row == 3 {
            return self.current_level.set_by_name(text);
        } else if row == 5 {
            let n = match parse_number(text, u32::MAX as u64) {
                Some(n) => n as u32,
                None => return Err(Error::InvalidNumber),
            };
            return self.scarf_length.set_length(n);
        } else if row == 6 {
            let n = match parse_number(text, u32::MAX as u64) {
                Some(n) => n as u32,
                None => return Err(Error::InvalidNumber),
            };
            return self.symbol.set_by_id(n);
        } else if row == 7 {
            let color = if str_equal(text, "Red") || str_equal(text, "red") {
                Color::Red
            } else if str_equal(text, "White") || str_equal(text, "white") {
                Color::White
            } else {
                return Err(Error::RobeChange(RobeError::InvalidColor));
            };
            self.robe.set_color(color);
        } else if row == 8 {
            let n = match parse_number(text, u32::MAX as u64) {
                Some(n) => n as u32,
                None => return Err(Error::InvalidNumber),
            };
            match self.robe.set_tier(n) {
                Ok(()) => {},
                Err(e) => return Err(Error::RobeChange(e)),
            }
        }
        Ok(())
    }
}

} // verus!
