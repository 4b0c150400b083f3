use vstd::prelude::*;

use crate::text::str_equal;
use crate::Error;

verus! {

/// The highest level id.
pub const MAX_LEVEL_ID: u64 = 11;

/// The name the game gives to the level with the given id.
pub open spec fn level_name(id: int) -> Seq<char> {
    if id == 0 {
        "Chapter Select"@
    } else if id == 1 {
        "Broken Bridge"@
    } else if id == 2 {
        "Pink Desert"@
    } else if id == 3 {
        "Sunken City"@
    } else if id == 4 {
        "Underground"@
    } else if id == 5 {
        "Tower"@
    } else if id == 6 {
        "Snow"@
    } else if id == 7 {
        "Paradise"@
    } else if id == 8 {
        "Credits"@
    } else if id == 9 {
        "Level Bryan"@
    } else if id == 10 {
        "Level Matt"@
    } else {
        "Level Chris"@
    }
}

/// The first level id from `from` on whose name is `name`.
pub open spec fn level_named_from(name: Seq<char>, from: int) -> Option<u64>
    decreases MAX_LEVEL_ID + 1 - from,
{
    if from > MAX_LEVEL_ID || from < 0 {
        None
    } else if level_name(from) == name {
        Some(from as u64)
    } else {
        level_named_from(name, from + 1)
    }
}

/// A level found by name is a level.
pub proof fn lemma_level_named_bound(name: Seq<char>, from: int)
    ensures
        level_named_from(name, from) matches Some(id) ==> id <= MAX_LEVEL_ID,
    decreases MAX_LEVEL_ID + 1 - from,
{
    if 0 <= from <= MAX_LEVEL_ID && level_name(from) != name {
        lemma_level_named_bound(name, from + 1);
    }
}

/// The first level id whose name is `name`.
pub open spec fn level_named(name: Seq<char>) -> Option<u64> {
    level_named_from(name, 0)
}

/// Name of a level id, `None` past the last level.
pub fn name_of(id: u64) -> (r: Option<&'static str>)
    ensures
        r is Some <==> id <= MAX_LEVEL_ID,
        r matches Some(n) ==> n@ == level_name(id as int),
{
    match id {
        0 => Some("Chapter Select"),
        1 => Some("Broken Bridge"),
        2 => Some("Pink Desert"),
        3 => Some("Sunken City"),
        4 => Some("Underground"),
        5 => Some("Tower"),
        6 => Some("Snow"),
        7 => Some("Paradise"),
        8 => Some("Credits"),
        9 => Some("Level Bryan"),
        10 => Some("Level Matt"),
        11 => Some("Level Chris"),
        _ => None,
    }
}

/// One of the game's twelve chapters, by id.
#[derive(Debug, Clone, Copy)]
pub struct Level {
    id: u64,
}

impl View for Level {
    type V = u64;

    closed spec fn view(&self) -> u64 {
        self.id
    }
}

impl Level {
    #[verifier::type_invariant]
    spec fn inv(self) -> bool {
        self.id <= MAX_LEVEL_ID
    }

    /// The level with the given id, if there is one.
    pub fn new(id: u64) -> (r: Option<Level>)
        ensures
            r is Some <==> id <= MAX_LEVEL_ID,
            r matches Some(l) ==> l@ == id,
    {
        if id > MAX_LEVEL_ID {
            None
        } else {
            Some(Level { id })
        }
    }

    /// The level's id.
    pub fn id(&self) -> (r: u64)
        ensures
            r == self@,
            r <= MAX_LEVEL_ID,
    {
        proof {
            use_type_invariant(self);
        }
        self.id
    }

    /// The level's name.
    pub fn name(&self) -> (r: &'static str)
        ensures
            r@ == level_name(self@ as int),
    {
        proof {
            use_type_invariant(self);
        }
        match name_of(self.id) {
            Some(n) => n,
            None => "Chapter Select",
        }
    }

    /// Moves to the level with the given id; fails, leaving the level as it was, past the last one.
    pub fn set_by_id(&mut self, id: u64) -> (r: Result<(), Error>)
        ensures
            id <= MAX_LEVEL_ID ==> r is Ok && final(self)@ == id,
            id > MAX_LEVEL_ID ==> r == Err::<(), Error>(Error::LevelIdOutOfRange) && final(self)@ == old(self)@,
    {
        if id > MAX_LEVEL_ID {
            return Err(Error::LevelIdOutOfRange);
        }
        self.id = id;
        Ok(())
    }

    /// Moves to the first level whose name is `name`; fails, leaving the level as it was, when
    /// no level has that name.
    pub fn set_by_name(&mut self, name: &str) -> (r: Result<(), Error>)
        ensures
            match level_named(name@) {
                Some(id) => r is Ok && final(self)@ == id,
                None => r == Err::<(), Error>(Error::LevelNameNotFound) && final(self)@ == old(self)@,
            },
    {
        let mut id: u64 = 0;
        while id <= MAX_LEVEL_ID
            invariant
                id <= MAX_LEVEL_ID + 1,
                *self == *old(self),
                level_named(name@) == level_named_from(name@, id as int),
            decreases MAX_LEVEL_ID + 1 - id,
        {
            let candidate = match name_of(id) {
                Some(n) => n,
                None => "",
            };
            if str_equal(candidate, name) {
                self.id = id;
                return Ok(());
            }
            id = id + 1;
        }
        Err(Error::LevelNameNotFound)
    }

    /// The next level, wrapping from the last one to the first.
    pub fn wrapping_next(&self) -> (r: Level)
        ensures
            r@ == (if self@ == MAX_LEVEL_ID { 0 } else { self@ + 1 }),
    {
        proof {
            use_type_invariant(self);
        }
        let id = self.id + 1;
        if id > MAX_LEVEL_ID {
            Level { id: 0 }
        } else {
            Level { id }
        }
    }

    /// The previous level, wrapping from the first one to the last.
    pub fn wrapping_previous(&self) -> (r: Level)
        ensures
            r@ == (if self@ == 0 { MAX_LEVEL_ID } else { (self@ - 1) as u64 }),
    {
        proof {
            use_type_invariant(self);
        }
        if self.id == 0 {
            Level { id: MAX_LEVEL_ID }
        } else {
            Level { id: self.id - 1 }
        }
    }
}

} // verus!
