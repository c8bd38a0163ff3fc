//! Per-piece shader parameters, packed into a mesh tag (a `u32`) so that every suit shares one
//! material and identical pieces still batch.

use vstd::prelude::*;

verus! {

/// Per-piece parameters of the hull material.
#[derive(Clone, Copy, Debug, PartialEq, Eq, Structural)]
pub struct HullTag {
    pub paint: u8,
    /// Armour left, 0 (destroyed) to 7 (pristine).
    pub armour: u8,
    pub seed: u8,
    /// Recent-hit glow, 0 to 31.
    pub heat: u8,
    pub wreck: bool,
    /// Bare metal instead of paint.
    pub metal: bool,
}

pub open spec fn min_u8(a: u8, b: u8) -> u8 {
    if a < b {
        a
    } else {
        b
    }
}

pub open spec fn bit(b: bool) -> u32 {
    if b {
        1
    } else {
        0
    }
}

/// The packed tag: paint in bits 0-3, armour (at most 7) in 4-6, seed in 7-14, heat (at most 31)
/// in 15-19, wreck in bit 20 and bare metal in bit 21.
pub open spec fn hull_bits(t: HullTag) -> u32 {
    (t.paint & 15u8) as u32 | (min_u8(t.armour, 7) as u32) << 4u32 | (t.seed as u32) << 7u32 | (
    min_u8(t.heat, 31) as u32) << 15u32 | bit(t.wreck) << 20u32 | bit(t.metal) << 21u32
}

proof fn lemma_unpack_hull(p: u32, a: u32, s: u32, h: u32, w: u32, m: u32)
    by (bit_vector)
    requires
        p < 16,
        a < 8,
        s < 256,
        h < 32,
        w < 2,
        m < 2,
    ensures
        ({
            let t = p | a << 4u32 | s << 7u32 | h << 15u32 | w << 20u32 | m << 21u32;
            &&& t & 15u32 == p
            &&& (t >> 4u32) & 7u32 == a
            &&& (t >> 7u32) & 255u32 == s
            &&& (t >> 15u32) & 31u32 == h
            &&& (t >> 20u32) & 1u32 == w
            &&& (t >> 21u32) & 1u32 == m
            &&& t < 0x40_0000u32
        }),
{
}

proof fn lemma_low_nibble(k: u8)
    by (bit_vector)
    ensures
        k & 15u8 <= 15u8,
        k & 3u8 <= 3u8,
{
}

impl HullTag {
    /// A painted piece at full armour, cool, intact.
    pub fn paint(paint: u8, seed: u8) -> (t: HullTag)
        ensures
            t == (HullTag { paint, armour: 7, seed, heat: 0, wreck: false, metal: false }),
    {
        HullTag { paint, armour: 7, seed, heat: 0, wreck: false, metal: false }
    }

    /// The packed tag.
    pub fn tag(self) -> (r: u32)
        ensures
            r == hull_bits(self),
            r & 15u32 == (self.paint & 15u8) as u32,
            (r >> 4u32) & 7u32 == min_u8(self.armour, 7) as u32,
            (r >> 7u32) & 255u32 == self.seed as u32,
            (r >> 15u32) & 31u32 == min_u8(self.heat, 31) as u32,
            (r >> 20u32) & 1u32 == bit(self.wreck),
            (r >> 21u32) & 1u32 == bit(self.metal),
            r < 0x40_0000,
    {
        let armour: u8 = if self.armour < 7 {
            self.armour
        } else {
            7
        };
        let heat: u8 = if self.heat < 31 {
            self.heat
        } else {
            31
        };
        let wreck: u32 = if self.wreck {
            1
        } else {
            0
        };
        let metal: u32 = if self.metal {
            1
        } else {
            0
        };
        proof {
            lemma_low_nibble(self.paint);
            lemma_unpack_hull(
                (self.paint & 15u8) as u32,
                armour as u32,
                self.seed as u32,
                heat as u32,
                wreck,
                metal,
            );
        }
        (self.paint & 15u8) as u32 | (armour as u32) << 4u32 | (self.seed as u32) << 7u32 | (
        heat as u32) << 15u32 | wreck << 20u32 | metal << 21u32
    }
}

/// A rock's tag: its ore kind (bits 0-1) and a seed (bits 2-9).
pub open spec fn rock_bits(ore: u8, seed: u8) -> u32 {
    (ore & 3u8) as u32 | (seed as u32) << 2u32
}

proof fn lemma_unpack_pair(lo: u32, hi: u32, width: u32, mask: u32)
    by (bit_vector)
    requires
        1 <= width <= 8,
        mask == (1u32 << width) - 1u32,
        lo <= mask,
        hi < 256,
    ensures
        (lo | hi << width) & mask == lo,
        (lo | hi << width) >> width == hi,
{
}

/// A rock's tag: its ore kind (bits 0-1) and a seed (bits 2-9).
pub fn rock_tag(ore: u8, seed: u8) -> (r: u32)
    ensures
        r == rock_bits(ore, seed),
        r & 3u32 == (ore & 3u8) as u32,
        r >> 2u32 == seed as u32,
{
    proof {
        lemma_low_nibble(ore);
        assert(1u32 << 2u32 == 4u32) by (bit_vector);
        lemma_unpack_pair((ore & 3u8) as u32, seed as u32, 2, 3);
    }
    (ore & 3u8) as u32 | (seed as u32) << 2u32
}

/// A beam ribbon's tag: a seed for its flicker (bits 0-7), and whether it is a saber blade
/// (bit 8) rather than a shot.
pub fn beam_tag(seed: u8, blade: bool) -> (r: u32)
    ensures
        r == (seed as u32 | bit(blade) << 8u32),
        r & 255u32 == seed as u32,
        r >> 8u32 == bit(blade),
{
    let b: u32 = if blade {
        1
    } else {
        0
    };
    proof {
        assert(1u32 << 8u32 == 256u32) by (bit_vector);
        lemma_unpack_pair(seed as u32, b, 8, 255);
    }
    seed as u32 | b << 8u32
}

/// A thruster plume's tag: its power as a level out of 255 (bits 0-7), and a seed for its flicker
/// (bits 8-15).
pub fn plume_tag(level: u8, seed: u8) -> (r: u32)
    ensures
        r == (level as u32 | (seed as u32) << 8u32),
        r & 255u32 == level as u32,
        r >> 8u32 == seed as u32,
{
    proof {
        assert(1u32 << 8u32 == 256u32) by (bit_vector);
        lemma_unpack_pair(level as u32, seed as u32, 8, 255);
    }
    level as u32 | (seed as u32) << 8u32
}

} // verus!
