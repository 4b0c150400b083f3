use vstd::prelude::*;

use crate::bytes::copy_bytes;

verus! {

/// Number of levels that have glyphs.
pub const GLYPH_LEVELS: usize = 6;

/// Reserved bytes after each level's status byte.
pub const GLYPH_RESERVED: usize = 343;

/// Bytes of one level's glyph record.
pub const LEVEL_GLYPHS_SIZE: usize = 344;

/// Bytes of all glyph records.
pub const GLYPHS_SIZE: usize = 2064;

/// Highest bit index a status byte is asked about.
pub const MAX_GLYPH_INDEX: usize = 8;

/// Number of glyphs hidden in each level.
pub open spec fn glyph_count(level: int) -> nat {
    if level == 2 || level == 4 || level == 5 {
        4
    } else {
        3
    }
}

/// Whether bit `index` of a status byte is set.
pub open spec fn glyph_bit(flags: u8, index: nat) -> bool {
    ((flags as u16) >> (index as u16)) & 1u16 == 1u16
}

/// Number of glyphs hidden in a level, for levels that have glyphs.
pub fn glyph_count_of(level: usize) -> (r: usize)
    requires
        level < GLYPH_LEVELS,
    ensures
        r == glyph_count(level as int),
{
    if level == 2 || level == 4 || level == 5 {
        4
    } else {
        3
    }
}

/// The glyph status of one level: a status byte whose bit `i` tells whether glyph `i` was
/// found, and reserved bytes kept as they were read.
#[derive(Debug, Clone)]
pub struct LevelGlyphs {
    status_flags: u8,
    reserved: Vec<u8>,
}

impl View for LevelGlyphs {
    type V = (u8, Seq<u8>);

    closed spec fn view(&self) -> (u8, Seq<u8>) {
        (self.status_flags, self.reserved@)
    }
}

impl LevelGlyphs {
    /// Whether glyph `index` was found; `None` past the bits a status byte is asked about.
    pub fn has_collected(&self, index: usize) -> (r: Option<bool>)
        ensures
            index > MAX_GLYPH_INDEX ==> r is None,
            index <= MAX_GLYPH_INDEX ==> r == Some(glyph_bit(self@.0, index as nat)),
    {
        if index > MAX_GLYPH_INDEX {
            return None;
        }
        Some(((self.status_flags as u16) >> (index as u16)) & 1u16 == 1u16)
    }
}

/// Reads the six glyph records from `s`.
pub open spec fn parse_glyphs(s: Seq<u8>) -> Seq<(u8, Seq<u8>)> {
    Seq::new(
        GLYPH_LEVELS as nat,
        |l: int|
            (
                s[LEVEL_GLYPHS_SIZE * l],
                s.subrange(LEVEL_GLYPHS_SIZE * l + 1, LEVEL_GLYPHS_SIZE * l + LEVEL_GLYPHS_SIZE),
            ),
    )
}

/// The bytes of the glyph records: each status byte followed by its reserved bytes.
pub open spec fn glyphs_bytes(g: Seq<(u8, Seq<u8>)>) -> Seq<u8>
    decreases g.len(),
{
    if g.len() == 0 {
        Seq::empty()
    } else {
        seq![g[0].0] + g[0].1 + glyphs_bytes(g.drop_first())
    }
}

proof fn lemma_glyphs_bytes_layout(g: Seq<(u8, Seq<u8>)>)
    requires
        forall|l: int| 0 <= l < g.len() ==> (#[trigger] g[l]).1.len() == GLYPH_RESERVED,
    ensures
        glyphs_bytes(g).len() == LEVEL_GLYPHS_SIZE * g.len(),
        forall|l: int|
            0 <= l < g.len() ==> {
                &&& glyphs_bytes(g)[LEVEL_GLYPHS_SIZE * l] == (#[trigger] g[l]).0
                &&& glyphs_bytes(g).subrange(LEVEL_GLYPHS_SIZE * l + 1, LEVEL_GLYPHS_SIZE * l + LEVEL_GLYPHS_SIZE) == g[l].1
            },
    decreases g.len(),
{
    if g.len() > 0 {
        let tail = g.drop_first();
        assert forall|l: int| 0 <= l < tail.len() implies (#[trigger] tail[l]).1.len() == GLYPH_RESERVED by {
            assert(tail[l] == g[l + 1]);
        }
        lemma_glyphs_bytes_layout(tail);
        let b = glyphs_bytes(g);
        let head = seq![g[0].0] + g[0].1;
        assert(b == head + glyphs_bytes(tail));
        assert forall|l: int| 0 <= l < g.len() implies {
            &&& glyphs_bytes(g)[LEVEL_GLYPHS_SIZE * l] == (#[trigger] g[l]).0
            &&& glyphs_bytes(g).subrange(LEVEL_GLYPHS_SIZE * l + 1, LEVEL_GLYPHS_SIZE * l + LEVEL_GLYPHS_SIZE) == g[l].1
        } by {
            if l == 0 {
                assert(b.subrange(1, LEVEL_GLYPHS_SIZE as int) =~= g[0].1);
            } else {
                assert(g[l] == tail[l - 1]);
                let o = LEVEL_GLYPHS_SIZE * (l - 1);
                assert(LEVEL_GLYPHS_SIZE * l == o + LEVEL_GLYPHS_SIZE);
                assert(b[LEVEL_GLYPHS_SIZE * l] == glyphs_bytes(tail)[o]);
                assert(b.subrange(LEVEL_GLYPHS_SIZE * l + 1, LEVEL_GLYPHS_SIZE * l + LEVEL_GLYPHS_SIZE)
                    =~= glyphs_bytes(tail).subrange(o + 1, o + LEVEL_GLYPHS_SIZE));
            }
        }
    }
}

/// Glyph records with six levels of 343 reserved bytes each read back unchanged.
pub proof fn lemma_glyphs_round_trip(g: Seq<(u8, Seq<u8>)>)
    requires
        g.len() == GLYPH_LEVELS,
        forall|l: int| 0 <= l < g.len() ==> (#[trigger] g[l]).1.len() == GLYPH_RESERVED,
    ensures
        glyphs_bytes(g).len() == GLYPHS_SIZE,
        parse_glyphs(glyphs_bytes(g)) == g,
{
    lemma_glyphs_bytes_layout(g);
    assert(parse_glyphs(glyphs_bytes(g)) =~= g);
}

/// The glyphs found in each of the six levels that have them.
#[derive(Debug)]
pub struct Glyphs(Vec<LevelGlyphs>);

impl View for Glyphs {
    type V = Seq<(u8, Seq<u8>)>;

    closed spec fn view(&self) -> Seq<(u8, Seq<u8>)> {
        self.0@.map_values(|l: LevelGlyphs| l@)
    }
}

impl Glyphs {
    #[verifier::type_invariant]
    spec fn inv(self) -> bool {
        self.0@.len() == GLYPH_LEVELS
    }

    /// For each level, its index and whether each of its glyphs was found.
    pub fn all(&self) -> (r: Vec<(usize, Vec<bool>)>)
        ensures
            r@.len() == GLYPH_LEVELS,
            forall|l: int|
                0 <= l < GLYPH_LEVELS ==> {
                    &&& (#[trigger] r@[l]).0 == l
                    &&& r@[l].1@.len() == glyph_count(l)
                    &&& forall|i: int| 0 <= i < glyph_count(l) ==> r@[l].1@[i] == glyph_bit(self@[l].0, i as nat)
                },
    {
        proof {
            use_type_invariant(self);
        }
        let mut r: Vec<(usize, Vec<bool>)> = Vec::new();
        let mut level: usize = 0;
        while level < GLYPH_LEVELS
            invariant
                level <= GLYPH_LEVELS,
                self.0@.len() == GLYPH_LEVELS,
                r@.len() == level,
                forall|l: int|
                    0 <= l < level ==> {
                        &&& (#[trigger] r@[l]).0 == l
                        &&& r@[l].1@.len() == glyph_count(l)
                        &&& forall|i: int| 0 <= i < glyph_count(l) ==> r@[l].1@[i] == glyph_bit(self@[l].0, i as nat)
                    },
            decreases GLYPH_LEVELS - level,
        {
            let count = glyph_count_of(level);
            let flags = self.0[level].status_flags;
            let mut found: Vec<bool> = Vec::new();
            let mut i: usize = 0;
            while i < count
                invariant
                    i <= count,
                    count <= 4,
                    found@.len() == i,
                    forall|j: int| 0 <= j < i ==> found@[j] == glyph_bit(flags, j as nat),
                decreases count - i,
            {
                found.push(((flags as u16) >> (i as u16)) & 1u16 == 1u16);
                i = i + 1;
            }
            r.push((level, found));
            level = level + 1;
        }
        r
    }

    /// Number of levels with glyphs.
    pub fn count(&self) -> (r: usize)
        ensures
            r == GLYPH_LEVELS,
            r == self@.len(),
    {
        proof {
            use_type_invariant(self);
        }
        self.0.len()
    }

    /// Whether glyph `index` of `level` was found; `None` for a level without glyphs or an index
    /// past the bits a status byte is asked about.
    pub fn has_collected(&self, level: usize, index: usize) -> (r: Option<bool>)
        ensures
            level >= GLYPH_LEVELS || index > MAX_GLYPH_INDEX ==> r is None,
            level < GLYPH_LEVELS && index <= MAX_GLYPH_INDEX ==> r == Some(glyph_bit(self@[level as int].0, index as nat)),
    {
        proof {
            use_type_invariant(self);
        }
        if level >= self.0.len() {
            return None;
        }
        self.0[level].has_collected(index)
    }

    /// Reads the glyph records at `start`.
    pub fn read(b: &[u8], start: usize) -> (r: Glyphs)
        requires
            start + GLYPHS_SIZE <= b@.len(),
        ensures
            r@ == parse_glyphs(b@.subrange(start as int, start + GLYPHS_SIZE)),
    {
        let ghost s = b@.subrange(start as int, start + GLYPHS_SIZE);
        let len = b.len();
        let mut levels: Vec<LevelGlyphs> = Vec::new();
        let mut level: usize = 0;
        while level < GLYPH_LEVELS
            invariant
                level <= GLYPH_LEVELS,
                start + GLYPHS_SIZE <= b@.len(),
                len == b@.len(),
                s == b@.subrange(start as int, start + GLYPHS_SIZE),
                levels@.len() == level,
                forall|l: int| 0 <= l < level ==> (#[trigger] levels@[l])@ == parse_glyphs(s)[l],
            decreases GLYPH_LEVELS - level,
        {
            let pos = start + LEVEL_GLYPHS_SIZE * level;
            let status_flags = b[pos];
            let reserved = copy_bytes(b, pos + 1, GLYPH_RESERVED);
            proof {
                let o = LEVEL_GLYPHS_SIZE * level;
                assert(s.subrange(o + 1, o + LEVEL_GLYPHS_SIZE) =~= b@.subrange(pos + 1, pos + LEVEL_GLYPHS_SIZE));
            }
            levels.push(LevelGlyphs { status_flags, reserved });
            level = level + 1;
        }
        let r = Glyphs(levels);
        proof {
            assert(r@ =~= parse_glyphs(s));
        }
        r
    }

    /// Appends the glyph records.
    pub fn write(&self, out: &mut Vec<u8>)
        ensures
            final(out)@ == old(out)@ + glyphs_bytes(self@),
    {
        let ghost start = out@;
        let mut i: usize = self.0.len();
        let ghost all = self@;
        let mut bytes: Vec<u8> = Vec::new();
        proof {
            assert(all.subrange(i as int, all.len() as int) =~= Seq::<(u8, Seq<u8>)>::empty());
        }
        while i > 0
            invariant
                i <= self.0@.len(),
                all == self@,
                bytes@ == glyphs_bytes(all.subrange(i as int, all.len() as int)),
            decreases i,
        {
            i = i - 1;
            let lg = &self.0[i];
            let mut level_bytes: Vec<u8> = Vec::new();
            level_bytes.push(lg.status_flags);
            crate::bytes::push_bytes(&mut level_bytes, lg.reserved.as_slice());
            crate::bytes::push_bytes(&mut level_bytes, bytes.as_slice());
            proof {
                let sub = all.subrange(i as int, all.len() as int);
                assert(sub.drop_first() =~= all.subrange(i + 1, all.len() as int));
                assert(sub[0] == lg@);
                assert(level_bytes@ =~= glyphs_bytes(sub));
            }
            bytes = level_bytes;
        }
        crate::bytes::push_bytes(out, bytes.as_slice());
        proof {
            assert(all.subrange(0, all.len() as int) =~= all);
        }
    }
}

} // verus!
