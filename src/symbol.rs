use vstd::prelude::*;

use crate::Error;
use substring::Substring;
use vstd::string::{StrSliceExecFns, StringExecFns};

verus! {

/// The highest symbol id.
pub const MAX_SYMBOL_ID: u32 = 20;

/// The traveler's symbol, one of 21, by id.
#[derive(Debug, Clone, Copy)]
pub struct Symbol {
    id: u32,
}

impl View for Symbol {
    type V = u32;

    closed spec fn view(&self) -> u32 {
        self.id
    }
}

impl Symbol {
    #[verifier::type_invariant]
    spec fn inv(self) -> bool {
        self.id <= MAX_SYMBOL_ID
    }

    /// The symbol with the given id, if there is one.
    pub fn new(id: u32) -> (r: Option<Symbol>)
        ensures
            r is Some <==> id <= MAX_SYMBOL_ID,
            r matches Some(s) ==> s@ == id,
    {
        if id > MAX_SYMBOL_ID {
            None
        } else {
            Some(Symbol { id })
        }
    }

    /// The symbol's id.
    pub fn id(&self) -> (r: u32)
        ensures
            r == self@,
            r <= MAX_SYMBOL_ID,
    {
        proof {
            use_type_invariant(self);
        }
        self.id
    }

    /// Switches to the symbol with the given id; fails, leaving the symbol as it was, past the
    /// last id.
    pub fn set_by_id(&mut self, id: u32) -> (r: Result<(), Error>)
        ensures
            id <= MAX_SYMBOL_ID ==> r is Ok && final(self)@ == id,
            id > MAX_SYMBOL_ID ==> r == Err::<(), Error>(Error::SymbolIdOutOfRange) && final(self)@ == old(self)@,
    {
        if id > MAX_SYMBOL_ID {
            return Err(Error::SymbolIdOutOfRange);
        }
        self.id = id;
        Ok(())
    }

    /// The next symbol, wrapping from the last one to the first.
    pub fn wrapping_next(&self) -> (r: Symbol)
        ensures
            r@ == (if self@ == MAX_SYMBOL_ID { 0 } else { self@ + 1 }),
    {
        proof {
            use_type_invariant(self);
        }
        let id = self.id + 1;
        if id > MAX_SYMBOL_ID {
            Symbol { id: 0 }
        } else {
            Symbol { id }
        }
    }

    /// The previous symbol, wrapping from the first one to the last.
    pub fn wrapping_previous(&self) -> (r: Symbol)
        ensures
            r@ == (if self@ == 0 { MAX_SYMBOL_ID } else { (self@ - 1) as u32 }),
    {
        proof {
            use_type_invariant(self);
        }
        if self.id == 0 {
            Symbol { id: MAX_SYMBOL_ID }
        } else {
            Symbol { id: self.id - 1 }
        }
    }
}

/// Characters in a row of a symbol part.
pub const PART_WIDTH: usize = 6;

/// Characters of a symbol part: three rows with a line feed after each of the first two.
pub const PART_SIZE: usize = 20;

/// Characters from the start of one part of the table to the start of the next: a part, its
/// line feed and an empty line.
pub const PART_STRIDE: usize = 22;

/// Highest part index of the table.
pub const MAX_PART_ID: usize = 16;

/// Characters a table of symbol parts needs: up to the end of its last part.
pub const PARTS_TABLE_LEN: usize = 372;

/// The four parts (top left, top right, bottom left, bottom right) that symbol `id` is drawn
/// from.
pub open spec fn part_ids(id: int) -> Option<(usize, usize, usize, usize)> {
    if id == 0 {
        Some((0, 1, 3, 2))
    } else if id == 1 {
        Some((4, 4, 7, 7))
    } else if id == 2 {
        Some((9, 9, 13, 2))
    } else if id == 3 {
        Some((15, 16, 9, 9))
    } else if id == 4 {
        Some((4, 9, 4, 9))
    } else if id == 5 {
        Some((15, 12, 3, 9))
    } else if id == 6 {
        Some((5, 5, 9, 12))
    } else if id == 7 {
        Some((12, 9, 15, 15))
    } else if id == 8 {
        Some((7, 9, 12, 8))
    } else if id == 9 {
        Some((12, 12, 9, 9))
    } else if id == 10 {
        Some((14, 7, 14, 7))
    } else if id == 11 {
        Some((8, 8, 13, 13))
    } else if id == 12 {
        Some((2, 3, 2, 3))
    } else if id == 13 {
        Some((10, 7, 7, 12))
    } else if id == 14 {
        Some((7, 7, 10, 12))
    } else if id == 15 {
        Some((15, 15, 15, 15))
    } else if id == 16 {
        Some((4, 4, 4, 4))
    } else if id == 17 {
        Some((11, 10, 11, 10))
    } else if id == 18 {
        Some((12, 8, 12, 8))
    } else if id == 19 {
        Some((6, 6, 11, 10))
    } else if id == 20 {
        Some((12, 9, 11, 10))
    } else {
        None
    }
}

/// The parts symbol `id` is drawn from; `None` past the last symbol.
pub fn symbol_part_ids(id: usize) -> (r: Option<(usize, usize, usize, usize)>)
    ensures
        r == part_ids(id as int),
{
    match id {
        0 => Some((0, 1, 3, 2)),
        1 => Some((4, 4, 7, 7)),
        2 => Some((9, 9, 13, 2)),
        3 => Some((15, 16, 9, 9)),
        4 => Some((4, 9, 4, 9)),
        5 => Some((15, 12, 3, 9)),
        6 => Some((5, 5, 9, 12)),
        7 => Some((12, 9, 15, 15)),
        8 => Some((7, 9, 12, 8)),
        9 => Some((12, 12, 9, 9)),
        10 => Some((14, 7, 14, 7)),
        11 => Some((8, 8, 13, 13)),
        12 => Some((2, 3, 2, 3)),
        13 => Some((10, 7, 7, 12)),
        14 => Some((7, 7, 10, 12)),
        15 => Some((15, 15, 15, 15)),
        16 => Some((4, 4, 4, 4)),
        17 => Some((11, 10, 11, 10)),
        18 => Some((12, 8, 12, 8)),
        19 => Some((6, 6, 11, 10)),
        20 => Some((12, 9, 11, 10)),
        _ => None,
    }
}

/// The characters of `s` from position `start` up to position `end`, both cut to its length;
/// nothing when `end` is not past `start`.
pub open spec fn char_range(s: Seq<char>, start: int, end: int) -> Seq<char> {
    if end <= start {
        Seq::empty()
    } else {
        s.subrange(
            if start < s.len() { start } else { s.len() as int },
            if end < s.len() { end } else { s.len() as int },
        )
    }
}

/// Relies on `substring::Substring::substring`, which returns the characters from position
/// `start` up to position `end`, both cut to the string's length, and an empty string when `end`
/// is not past `start`.
#[verifier::external_body]
fn substring(s: &str, start: usize, end: usize) -> (r: &str)
    ensures
        r@ == char_range(s@, start as int, end as int),
{
    s.substring(start, end)
}

/// Part `idx` of the table `parts`.
pub fn get_symbol_part(parts: &str, idx: usize) -> (r: &str)
    requires
        idx <= MAX_PART_ID,
    ensures
        r@ == char_range(parts@, PART_STRIDE * idx, PART_STRIDE * idx + PART_SIZE),
{
    let start = PART_STRIDE * idx;
    substring(parts, start, start + PART_SIZE)
}

/// Row `row` of part `idx` of the table.
pub open spec fn part_row(parts: Seq<char>, idx: int, row: int) -> Seq<char> {
    parts.subrange(PART_STRIDE * idx + 7 * row, PART_STRIDE * idx + 7 * row + PART_WIDTH)
}

/// A row of a symbol: the row of the left part, two spaces, the row of the right part.
pub open spec fn row_pair(parts: Seq<char>, left: int, right: int, row: int) -> Seq<char> {
    part_row(parts, left, row) + "  "@ + part_row(parts, right, row)
}

/// The picture of a symbol drawn from four parts of the table: the three rows of the top parts
/// side by side, a line of spaces, the three rows of the bottom parts, one line each.
pub open spec fn symbol_art(parts: Seq<char>, top_left: int, top_right: int, btm_left: int, btm_right: int) -> Seq<char> {
    row_pair(parts, top_left, top_right, 0) + "\n"@ + row_pair(parts, top_left, top_right, 1) + "\n"@
        + row_pair(parts, top_left, top_right, 2) + "\n"@ + "              "@ + "\n"@ + row_pair(
        parts,
        btm_left,
        btm_right,
        0,
    ) + "\n"@ + row_pair(parts, btm_left, btm_right, 1) + "\n"@ + row_pair(parts, btm_left, btm_right, 2)
}

fn push_row_pair(out: &mut String, parts: &str, left: usize, right: usize, row: usize)
    requires
        left <= MAX_PART_ID,
        right <= MAX_PART_ID,
        row < 3,
        parts@.len() >= PARTS_TABLE_LEN,
    ensures
        final(out)@ == old(out)@ + row_pair(parts@, left as int, right as int, row as int),
{
    let l = get_symbol_part(parts, left);
    let r = get_symbol_part(parts, right);
    let l_row = substring(l, 7 * row, 7 * row + PART_WIDTH);
    let r_row = substring(r, 7 * row, 7 * row + PART_WIDTH);
    out.append(l_row);
    out.append("  ");
    out.append(r_row);
    proof {
        assert(l_row@ =~= part_row(parts@, left as int, row as int));
        assert(r_row@ =~= part_row(parts@, right as int, row as int));
        assert(final(out)@ =~= old(out)@ + row_pair(parts@, left as int, right as int, row as int));
    }
}

/// Draws a symbol from four parts of the table `parts`: `None` when a part index is past the
/// last part or the table is too short to hold all parts.
pub fn get_symbol_with_parts(
    parts: &str,
    top_left: usize,
    top_right: usize,
    btm_left: usize,
    btm_right: usize,
) -> (r: Option<String>)
    ensures
        (top_left > MAX_PART_ID || top_right > MAX_PART_ID || btm_left > MAX_PART_ID || btm_right
            > MAX_PART_ID || parts@.len() < PARTS_TABLE_LEN) ==> r is None,
        !(top_left > MAX_PART_ID || top_right > MAX_PART_ID || btm_left > MAX_PART_ID || btm_right
            > MAX_PART_ID || parts@.len() < PARTS_TABLE_LEN) ==> (r matches Some(s) && s@ == symbol_art(
            parts@,
            top_left as int,
            top_right as int,
            btm_left as int,
            btm_right as int,
        )),
{
    if top_left > MAX_PART_ID || top_right > MAX_PART_ID || btm_left > MAX_PART_ID || btm_right
        > MAX_PART_ID {
        return None;
    }
    if parts.unicode_len() < PARTS_TABLE_LEN {
        return None;
    }
    let mut s = String::new();
    push_row_pair(&mut s, parts, top_left, top_right, 0);
    s.append("\n");
    push_row_pair(&mut s, parts, top_left, top_right, 1);
    s.append("\n");
    push_row_pair(&mut s, parts, top_left, top_right, 2);
    s.append("\n");
    s.append("              ");
    s.append("\n");
    push_row_pair(&mut s, parts, btm_left, btm_right, 0);
    s.append("\n");
    push_row_pair(&mut s, parts, btm_left, btm_right, 1);
    s.append("\n");
    push_row_pair(&mut s, parts, btm_left, btm_right, 2);
    proof {
        assert(s@ =~= symbol_art(parts@, top_left as int, top_right as int, btm_left as int, btm_right as int));
    }
    Some(s)
}

/// The picture of symbol `id`, drawn from the table `parts`; `None` past the last symbol or when
/// the table is too short.
pub fn get_symbol(parts: &str, id: usize) -> (r: Option<String>)
    ensures
        match part_ids(id as int) {
            None => r is None,
            Some((tl, tr, bl, br)) => if parts@.len() < PARTS_TABLE_LEN {
                r is None
            } else {
                r matches Some(s) && s@ == symbol_art(parts@, tl as int, tr as int, bl as int, br as int)
            },
        },
{
    match symbol_part_ids(id) {
        Some((top_left, top_right, btm_left, btm_right)) => get_symbol_with_parts(
            parts,
            top_left,
            top_right,
            btm_left,
            btm_right,
        ),
        None => None,
    }
}

impl Symbol {
    /// The picture of this symbol, drawn from the table `parts`; `None` when the table is too
    /// short.
    pub fn picture(&self, parts: &str) -> (r: Option<String>)
        ensures
            ({
                let (tl, tr, bl, br) = part_ids(self@ as int)->0;
                if parts@.len() < PARTS_TABLE_LEN {
                    r is None
                } else {
                    r matches Some(s) && s@ == symbol_art(parts@, tl as int, tr as int, bl as int, br as int)
                }
            }),
    {
        proof {
            use_type_invariant(self);
        }
        get_symbol(parts, self.id as usize)
    }
}

} // verus!
