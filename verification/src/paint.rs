//! Palette indices shared by the models and the client's hull shader (which holds the colours),
//! and how a surface names its paint.

use vstd::prelude::*;

verus! {

pub const WHITE: u8 = 0;
pub const BLUE: u8 = 1;
pub const RED: u8 = 2;
pub const YELLOW: u8 = 3;
/// Joints, hands and the inner frame.
pub const DARK: u8 = 4;
pub const OZ_GREEN: u8 = 5;
pub const OZ_GREY: u8 = 6;
pub const TAURUS_WHITE: u8 = 7;
pub const TAURUS_BLUE: u8 = 8;
pub const VIRGO_OLIVE: u8 = 9;
pub const ALLIANCE_TAN: u8 = 10;
/// Colony hull plating.
pub const HULL: u8 = 11;
/// Colony hull, darker service plating.
pub const HULL_DARK: u8 = 12;
/// The colony's mirrors: aluminised film on a frame.
pub const MIRROR: u8 = 13;
/// Weapons.
pub const GUNMETAL: u8 = 14;
/// Visors and sensor glass.
pub const GLASS: u8 = 15;

/// How many there are (the palette's size).
pub const COUNT: usize = 16;

/// Which paint a surface takes (decoded by the client's hull shader).
#[derive(Clone, Copy, Debug, PartialEq, Eq, Structural)]
pub enum Paint {
    /// The livery's body, trim and accent colours.
    Body,
    Trim,
    Accent,
    /// Sensor glow, in the livery's eye colour.
    Eye,
    /// A fixed palette entry: painted, bare metal, or glowing.
    Fixed(u8),
    Metal(u8),
    Glow(u8),
}

proof fn lemma_low_nibble(k: u8)
    by (bit_vector)
    ensures
        k & 15u8 <= 15u8,
{
}

/// The shader's slot for a paint: the livery's four, then the palette painted (16..31), bare
/// (32..47) and glowing (48..63).
pub open spec fn paint_slot(p: Paint) -> u32 {
    match p {
        Paint::Body => 0,
        Paint::Trim => 1,
        Paint::Accent => 2,
        Paint::Eye => 3,
        Paint::Fixed(k) => (16 + (k & 15u8)) as u32,
        Paint::Metal(k) => (32 + (k & 15u8)) as u32,
        Paint::Glow(k) => (48 + (k & 15u8)) as u32,
    }
}

impl Paint {
    /// The shader's slot for this paint (its code is the slot over 255).
    pub fn slot(self) -> (s: u32)
        ensures
            s == paint_slot(self),
            s < 64,
    {
        match self {
            Paint::Body => 0,
            Paint::Trim => 1,
            Paint::Accent => 2,
            Paint::Eye => 3,
            Paint::Fixed(k) => {
                proof { lemma_low_nibble(k); }
                16 + (k & 15u8) as u32
            },
            Paint::Metal(k) => {
                proof { lemma_low_nibble(k); }
                32 + (k & 15u8) as u32
            },
            Paint::Glow(k) => {
                proof { lemma_low_nibble(k); }
                48 + (k & 15u8) as u32
            },
        }
    }
}

/// Different paints land in different slots, as long as palette entries are told apart by their
/// low four bits.
pub proof fn lemma_slots_distinct(a: Paint, b: Paint)
    requires
        paint_slot(a) == paint_slot(b),
    ensures
        match (a, b) {
            (Paint::Fixed(x), Paint::Fixed(y)) => x & 15u8 == y & 15u8,
            (Paint::Metal(x), Paint::Metal(y)) => x & 15u8 == y & 15u8,
            (Paint::Glow(x), Paint::Glow(y)) => x & 15u8 == y & 15u8,
            _ => a == b,
        },
{
    match a {
        Paint::Fixed(x) => {
            lemma_low_nibble(x);
        },
        Paint::Metal(x) => {
            lemma_low_nibble(x);
        },
        Paint::Glow(x) => {
            lemma_low_nibble(x);
        },
        _ => {},
    }
    match b {
        Paint::Fixed(y) => {
            lemma_low_nibble(y);
        },
        Paint::Metal(y) => {
            lemma_low_nibble(y);
        },
        Paint::Glow(y) => {
            lemma_low_nibble(y);
        },
        _ => {},
    }
}

/// How much detail a suit is built with.
#[derive(Clone, Copy, Debug, PartialEq, Eq, Structural, Hash)]
pub enum Lod {
    /// Bevels, greebles, and round parts in full segments.
    Near,
    /// A few hundred metres off: no bevels or greebles, half the segments.
    Far,
}

/// Both levels of detail, nearest first.
pub fn lods() -> (v: [Lod; 2])
    ensures
        v@ == seq![Lod::Near, Lod::Far],
{
    [Lod::Near, Lod::Far]
}

/// How many segments a round part gets at a level of detail: all of them near, half (but at
/// least six) far.
pub open spec fn segments_at(lod: Lod, n: u32) -> u32 {
    match lod {
        Lod::Near => n,
        Lod::Far => if n / 2 > 6 {
            n / 2
        } else {
            6
        },
    }
}

impl Lod {
    /// Whether this is the near (full) detail.
    pub fn near(self) -> (b: bool)
        ensures
            b == (self == Lod::Near),
    {
        match self {
            Lod::Near => true,
            Lod::Far => false,
        }
    }

    /// How many segments a round part of `n` segments gets at this detail.
    pub fn segments(self, n: u32) -> (s: u32)
        ensures
            s == segments_at(self, n),
    {
        match self {
            Lod::Near => n,
            Lod::Far => if n / 2 > 6 {
                n / 2
            } else {
                6
            },
        }
    }
}

/// Far detail never uses more segments than near, unless near has fewer than six.
pub proof fn lemma_far_is_coarser(n: u32)
    ensures
        segments_at(Lod::Far, n) <= segments_at(Lod::Near, n) || n < 6,
        segments_at(Lod::Far, n) >= 6,
{
}

} // verus!
