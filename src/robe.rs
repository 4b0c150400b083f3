use vstd::prelude::*;

use crate::text::str_equal;

verus! {

pub const MIN_TIER: u32 = 1;

pub const MAX_TIER: u32 = 4;

pub const MAX_RED_TIER_ID: u32 = 3;

/// The largest raw robe value.
pub const MAX_ROBE_VALUE: u32 = 7;

/// Why a robe change was refused.
#[derive(Debug, Clone, Copy, PartialEq, Eq, Structural)]
pub enum Error {
    TierOutOfRange,
    WhiteTierMinimum,
    InvalidColor,
}

/// The two robe colors.
#[derive(Debug, Clone, Copy, PartialEq, Eq, Structural)]
pub enum Color {
    Red,
    White,
}

impl Color {
    /// The color's name.
    pub fn name(&self) -> (r: &'static str)
        ensures
            r@ == (if *self == Color::Red { "Red"@ } else { "White"@ }),
    {
        match self {
            Color::Red => "Red",
            Color::White => "White",
        }
    }
}

impl std::str::FromStr for Color {
    type Err = Error;

    fn from_str(s: &str) -> Result<Color, Error> {
        if str_equal(s, "Red") || str_equal(s, "red") {
            Ok(Color::Red)
        } else if str_equal(s, "White") || str_equal(s, "white") {
            Ok(Color::White)
        } else {
            Err(Error::InvalidColor)
        }
    }
}

/// Color that a raw robe value stands for.
pub open spec fn color_of(value: u32) -> Color {
    if value > MAX_RED_TIER_ID {
        Color::White
    } else {
        Color::Red
    }
}

/// Tier that a raw robe value stands for.
pub open spec fn tier_of(value: u32) -> int {
    if value > MAX_RED_TIER_ID {
        value - MAX_RED_TIER_ID + 1
    } else {
        value + 1
    }
}

/// Raw value after switching a robe of raw value `value` to `color`.
pub open spec fn recolored(value: u32, color: Color) -> u32 {
    if color_of(value) == color {
        value
    } else if color == Color::White {
        if value == 0 {
            (MAX_RED_TIER_ID + 1) as u32
        } else {
            (value + MAX_RED_TIER_ID) as u32
        }
    } else if value == MAX_ROBE_VALUE {
        MAX_RED_TIER_ID
    } else {
        (value - MAX_RED_TIER_ID) as u32
    }
}

/// Outcome of asking a robe of raw value `value` for tier `tier`: the new raw value, or why
/// the tier is refused.
pub open spec fn retiered(value: u32, tier: int) -> Result<u32, Error> {
    if tier < MIN_TIER || tier > MAX_TIER {
        Err(Error::TierOutOfRange)
    } else if color_of(value) == Color::Red {
        Ok((tier - 1) as u32)
    } else if tier == MIN_TIER {
        Err(Error::WhiteTierMinimum)
    } else {
        Ok((MAX_RED_TIER_ID + tier - 1) as u32)
    }
}

/// A robe is red exactly for raw values up to 3, and switching it to a color always gives that
/// color. Switching to the other color and back restores the raw value, except from red value 0,
/// which comes back as red tier 2, and from white value 7, which turns red at tier 4 and comes
/// back as white value 6.
pub proof fn lemma_color_round_trip(value: u32)
    requires
        value <= MAX_ROBE_VALUE,
    ensures
        color_of(value) == Color::Red <==> value <= MAX_RED_TIER_ID,
        color_of(recolored(value, Color::Red)) == Color::Red,
        color_of(recolored(value, Color::White)) == Color::White,
        recolored(value, Color::Red) <= MAX_ROBE_VALUE,
        recolored(value, Color::White) <= MAX_ROBE_VALUE,
        ({
            let back = color_of(value);
            let away = if back == Color::Red { Color::White } else { Color::Red };
            &&& value != 0 && value != MAX_ROBE_VALUE ==> recolored(recolored(value, away), back) == value
            &&& value == 0 ==> recolored(recolored(value, away), back) == 1
            &&& value == MAX_ROBE_VALUE ==> recolored(recolored(value, away), back) == 6
        }),
{
}

/// A white robe refuses tier 1 with the white-minimum error.
pub proof fn lemma_white_tier_minimum(value: u32)
    requires
        value <= MAX_ROBE_VALUE,
        color_of(value) == Color::White,
    ensures
        retiered(value, 1) == Err::<u32, Error>(Error::WhiteTierMinimum),
{
}

/// The robe: one raw value in `0..=7` that holds both its color and its tier. Values up to 3
/// are red tiers 1 to 4, higher values are white, from tier 2 on.
#[derive(Debug, Clone, Copy)]
pub struct Robe {
    value: u32,
}

impl View for Robe {
    type V = u32;

    closed spec fn view(&self) -> u32 {
        self.value
    }
}

impl Robe {
    #[verifier::type_invariant]
    spec fn inv(self) -> bool {
        self.value <= MAX_ROBE_VALUE
    }

    /// The robe with the given raw value, if it is one.
    pub fn new(value: u32) -> (r: Option<Robe>)
        ensures
            r is Some <==> value <= MAX_ROBE_VALUE,
            r matches Some(robe) ==> robe@ == value,
    {
        if value > MAX_ROBE_VALUE {
            None
        } else {
            Some(Robe { value })
        }
    }

    /// The raw value.
    pub fn value(&self) -> (r: u32)
        ensures
            r == self@,
            r <= MAX_ROBE_VALUE,
    {
        proof {
            use_type_invariant(self);
        }
        self.value
    }

    /// The robe's color.
    pub fn color(&self) -> (r: Color)
        ensures
            r == color_of(self@),
    {
        if self.value > MAX_RED_TIER_ID {
            Color::White
        } else {
            Color::Red
        }
    }

    /// Switches to `color`, keeping the tier where the new color has it.
    pub fn set_color(&mut self, color: Color)
        ensures
            final(self)@ == recolored(old(self)@, color),
            color_of(final(self)@) == color,
    {
        proof {
            use_type_invariant(&*self);
        }
        let current = self.color();
        match (current, color) {
            (Color::Red, Color::White) => {
                if self.value == 0 {
                    self.value = MAX_RED_TIER_ID + 1;
                } else {
                    self.value = self.value + MAX_RED_TIER_ID;
                }
            },
            (Color::White, Color::Red) => {
                if self.value == MAX_ROBE_VALUE {
                    self.value = MAX_RED_TIER_ID;
                } else {
                    self.value = self.value - MAX_RED_TIER_ID;
                }
            },
            _ => {},
        }
    }

    /// Switches to the other color.
    pub fn swap_colors(&mut self)
        ensures
            final(self)@ == recolored(
                old(self)@,
                if color_of(old(self)@) == Color::Red { Color::White } else { Color::Red },
            ),
            color_of(final(self)@) != color_of(old(self)@),
    {
        let new_color = match self.color() {
            Color::Red => Color::White,
            Color::White => Color::Red,
        };
        self.set_color(new_color);
    }

    /// The robe's tier: 1 to 4 for red, 2 and up for white.
    pub fn tier(&self) -> (r: u32)
        ensures
            r == tier_of(self@),
    {
        proof {
            use_type_invariant(self);
        }
        match self.color() {
            Color::Red => self.value + 1,
            Color::White => self.value - MAX_RED_TIER_ID + 1,
        }
    }

    /// Sets the tier, keeping the color; fails, leaving the robe as it was, outside `1..=4` and
    /// for tier 1 of a white robe.
    pub fn set_tier(&mut self, tier: u32) -> (r: Result<(), Error>)
        ensures
            match retiered(old(self)@, tier as int) {
                Ok(v) => r is Ok && final(self)@ == v,
                Err(e) => r == Err::<(), Error>(e) && final(self)@ == old(self)@,
            },
    {
        if tier < MIN_TIER || tier > MAX_TIER {
            return Err(Error::TierOutOfRange);
        }
        match self.color() {
            Color::Red => {
                self.value = tier - 1;
            },
            Color::White => {
                if tier == MIN_TIER {
                    return Err(Error::WhiteTierMinimum);
                }
                self.value = MAX_RED_TIER_ID + tier - 1;
            },
        }
        Ok(())
    }

    /// One tier up; nothing happens where there is none.
    pub fn increase_tier(&mut self)
        ensures
            final(self)@ == match retiered(old(self)@, tier_of(old(self)@) + 1) {
                Ok(v) => v,
                Err(_) => old(self)@,
            },
    {
        let tier = self.tier();
        let _ = self.set_tier(tier + 1);
    }

    /// One tier down; nothing happens where there is none.
    pub fn decrease_tier(&mut self)
        ensures
            final(self)@ == match retiered(old(self)@, tier_of(old(self)@) - 1) {
                Ok(v) => v,
                Err(_) => old(self)@,
            },
    {
        let tier = self.tier();
        let _ = self.set_tier(tier - 1);
    }
}

} // verus!
