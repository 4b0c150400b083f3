use vstd::prelude::*;

verus! {

/// Number of levels that have murals.
pub const MURAL_LEVELS: usize = 7;

/// Number of murals in each level.
pub open spec fn mural_count(level: int) -> nat {
    if level == 2 || level == 3 || level == 6 {
        2
    } else {
        1
    }
}

/// Bit at which the murals of `level` start: the murals of all earlier levels come first.
pub open spec fn mural_start(level: nat) -> nat
    decreases level,
{
    if level == 0 {
        0
    } else {
        mural_start((level - 1) as nat) + mural_count(level - 1)
    }
}

/// Whether bit `pos` of the flag word is set.
pub open spec fn flag_bit(flags: u16, pos: nat) -> bool {
    pos < 16 && (flags >> (pos as u16)) & 1u16 == 1u16
}

proof fn lemma_mural_start_bound(level: nat)
    requires
        level <= MURAL_LEVELS,
    ensures
        mural_start(level) + (if level < MURAL_LEVELS { mural_count(level as int) } else { 0 }) <= 10,
    decreases level,
{
    reveal_with_fuel(mural_start, 8);
}

/// Number of murals in a level that has them.
pub fn mural_count_of(level: usize) -> (r: usize)
    requires
        level < MURAL_LEVELS,
    ensures
        r == mural_count(level as int),
{
    if level == 2 || level == 3 || level == 6 {
        2
    } else {
        1
    }
}

/// The murals found, one bit each in a single flag word.
#[derive(Debug, Clone, Copy)]
pub struct Murals {
    status_flags: u16,
}

impl View for Murals {
    type V = u16;

    closed spec fn view(&self) -> u16 {
        self.status_flags
    }
}

impl Murals {
    /// The murals that the flag word `status_flags` records.
    pub fn new(status_flags: u16) -> (r: Murals)
        ensures
            r@ == status_flags,
    {
        Murals { status_flags }
    }

    /// The flag word.
    pub fn flags(&self) -> (r: u16)
        ensures
            r == self@,
    {
        self.status_flags
    }

    /// Whether mural `index` of `level` was found; `None` for a level without murals or an index
    /// past that level's murals.
    pub fn has_found(&self, level: usize, index: usize) -> (r: Option<bool>)
        ensures
            level >= MURAL_LEVELS || index >= mural_count(level as int) ==> r is None,
            level < MURAL_LEVELS && index < mural_count(level as int) ==> r == Some(
                flag_bit(self@, mural_start(level as nat) + index as nat),
            ),
    {
        if level >= MURAL_LEVELS {
            return None;
        }
        if index >= mural_count_of(level) {
            return None;
        }
        let mut pos: usize = 0;
        let mut l: usize = 0;
        proof {
            lemma_mural_start_bound(level as nat);
        }
        while l < level
            invariant
                l <= level,
                level < MURAL_LEVELS,
                pos == mural_start(l as nat),
            decreases level - l,
        {
            proof {
                lemma_mural_start_bound((l + 1) as nat);
            }
            pos = pos + mural_count_of(l);
            l = l + 1;
        }
        proof {
            lemma_mural_start_bound(level as nat);
        }
        let bit = pos + index;
        Some((self.status_flags >> (bit as u16)) & 1u16 == 1u16)
    }

    /// For each level, its index and whether each of its murals was found.
    pub fn all(&self) -> (r: Vec<(usize, Vec<bool>)>)
        ensures
            r@.len() == MURAL_LEVELS,
            forall|l: int|
                0 <= l < MURAL_LEVELS ==> {
                    &&& (#[trigger] r@[l]).0 == l
                    &&& r@[l].1@.len() == mural_count(l)
                    &&& forall|i: int|
                        0 <= i < mural_count(l) ==> r@[l].1@[i] == flag_bit(self@, mural_start(l as nat) + i as nat)
                },
    {
        let mut r: Vec<(usize, Vec<bool>)> = Vec::new();
        let mut level: usize = 0;
        let mut start: usize = 0;
        while level < MURAL_LEVELS
            invariant
                level <= MURAL_LEVELS,
                start == mural_start(level as nat),
                r@.len() == level,
                forall|l: int|
                    0 <= l < level ==> {
                        &&& (#[trigger] r@[l]).0 == l
                        &&& r@[l].1@.len() == mural_count(l)
                        &&& forall|i: int|
                            0 <= i < mural_count(l) ==> r@[l].1@[i] == flag_bit(self@, mural_start(l as nat) + i as nat)
                    },
            decreases MURAL_LEVELS - level,
        {
            proof {
                lemma_mural_start_bound(level as nat);
            }
            let count = mural_count_of(level);
            let mut found: Vec<bool> = Vec::new();
            let mut i: usize = 0;
            while i < count
                invariant
                    i <= count,
                    level < MURAL_LEVELS,
                    count == mural_count(level as int),
                    start == mural_start(level as nat),
                    start + count <= 10,
                    found@.len() == i,
                    forall|j: int| 0 <= j < i ==> found@[j] == flag_bit(self@, mural_start(level as nat) + j as nat),
                decreases count - i,
            {
                let bit = start + i;
                found.push((self.status_flags >> (bit as u16)) & 1u16 == 1u16);
                i = i + 1;
            }
            r.push((level, found));
            start = start + count;
            level = level + 1;
        }
        r
    }
}

} // verus!
