//! Which paint each frame wears in each faction's colours, and who appears in the showcase scenes.

use crate::names::{Faction, Scene};
use crate::paint::{ALLIANCE_TAN, BLUE, DARK, OZ_GREEN, OZ_GREY, RED, TAURUS_BLUE, TAURUS_WHITE, VIRGO_OLIVE, WHITE, YELLOW};
use vstd::prelude::*;
use vstd::string::StringSliceAdditionalSpecFns;

verus! {

/// A mobile suit frame.
#[derive(Clone, Copy, Debug, PartialEq, Eq, Structural, Hash)]
pub enum FrameId {
    Leo,
    WingZero,
    /// Wing Zero transformed (Neo-Bird).
    WingZeroBird,
    Heavyarms,
    Deathscythe,
    Sandrock,
    Shenlong,
    Taurus,
    Virgo,
}

/// The slug a pilot names a frame by, for the frames pilots may fly (the Mobile Dolls' frames are
/// the server's alone, and the Neo-Bird is flown by transforming a Wing Zero).
pub open spec fn pilot_slug(f: FrameId) -> Option<Seq<u8>> {
    match f {
        FrameId::Leo => Some(seq![108u8, 101, 111]),
        FrameId::WingZero => Some(seq![119u8, 105, 110, 103, 122, 101, 114, 111]),
        FrameId::Heavyarms => Some(seq![104u8, 101, 97, 118, 121, 97, 114, 109, 115]),
        FrameId::Deathscythe => Some(seq![100u8, 101, 97, 116, 104, 115, 99, 121, 116, 104, 101]),
        FrameId::Sandrock => Some(seq![115u8, 97, 110, 100, 114, 111, 99, 107]),
        FrameId::Shenlong => Some(seq![115u8, 104, 101, 110, 108, 111, 110, 103]),
        _ => None,
    }
}

/// The frame a pilot may fly whose slug is exactly `b`, if any.
pub open spec fn frame_named(b: Seq<u8>) -> Option<FrameId> {
    if pilot_slug(FrameId::Leo) == Some(b) {
        Some(FrameId::Leo)
    } else if pilot_slug(FrameId::WingZero) == Some(b) {
        Some(FrameId::WingZero)
    } else if pilot_slug(FrameId::Heavyarms) == Some(b) {
        Some(FrameId::Heavyarms)
    } else if pilot_slug(FrameId::Deathscythe) == Some(b) {
        Some(FrameId::Deathscythe)
    } else if pilot_slug(FrameId::Sandrock) == Some(b) {
        Some(FrameId::Sandrock)
    } else if pilot_slug(FrameId::Shenlong) == Some(b) {
        Some(FrameId::Shenlong)
    } else {
        None
    }
}

/// Each frame a pilot may fly is found again by its slug, and no two share one.
pub proof fn lemma_slugs_name_their_frames(f: FrameId)
    ensures
        pilot_slug(f) matches Some(w) ==> frame_named(w) == Some(f),
{
}

/// Whether `b` holds exactly the bytes of `w`.
fn same_bytes(b: &[u8], w: &[u8]) -> (r: bool)
    ensures
        r == (b@ == w@),
{
    if b.len() != w.len() {
        return false;
    }
    let mut i: usize = 0;
    while i < b.len()
        invariant
            b@.len() == w@.len(),
            i <= b@.len(),
            forall|j: int| 0 <= j < i ==> b@[j] == w@[j],
        decreases b@.len() - i,
    {
        if b[i] != w[i] {
            return false;
        }
        i = i + 1;
    }
    assert(b@ =~= w@);
    true
}

/// A frame pilots may fly, by its slug (`leo`, `wingzero`, `heavyarms`, `deathscythe`,
/// `sandrock`, `shenlong`); anything else: None.
pub fn parse_frame(s: &str) -> (f: Option<FrameId>)
    ensures
        f == frame_named(s.spec_bytes()),
        f matches Some(g) ==> pilot_slug(g) == Some(s.spec_bytes()),
{
    let b = s.as_bytes();
    if same_bytes(b, &[108u8, 101, 111]) {
        Some(FrameId::Leo)
    } else if same_bytes(b, &[119u8, 105, 110, 103, 122, 101, 114, 111]) {
        Some(FrameId::WingZero)
    } else if same_bytes(b, &[104u8, 101, 97, 118, 121, 97, 114, 109, 115]) {
        Some(FrameId::Heavyarms)
    } else if same_bytes(b, &[100u8, 101, 97, 116, 104, 115, 99, 121, 116, 104, 101]) {
        Some(FrameId::Deathscythe)
    } else if same_bytes(b, &[115u8, 97, 110, 100, 114, 111, 99, 107]) {
        Some(FrameId::Sandrock)
    } else if same_bytes(b, &[115u8, 104, 101, 110, 108, 111, 110, 103]) {
        Some(FrameId::Shenlong)
    } else {
        None
    }
}

/// Eye colours (the hull shader's order).
pub const EYE_GREEN: u8 = 0;
pub const EYE_PINK: u8 = 1;

/// Body, trim and accent paint, and eye colour, for a frame in a faction's livery: the Gundams and
/// the Mobile Dolls wear their own colours whatever the side; a Leo wears its faction's.
pub open spec fn livery_of(frame: FrameId, faction: Faction) -> (u8, u8, u8, u8) {
    match frame {
        FrameId::WingZero | FrameId::WingZeroBird => (WHITE, BLUE, RED, EYE_GREEN),
        FrameId::Heavyarms => (WHITE, RED, DARK, EYE_GREEN),
        FrameId::Deathscythe => (DARK, BLUE, RED, EYE_GREEN),
        FrameId::Sandrock => (ALLIANCE_TAN, WHITE, RED, EYE_GREEN),
        FrameId::Shenlong => (WHITE, OZ_GREEN, YELLOW, EYE_GREEN),
        FrameId::Taurus => (TAURUS_WHITE, TAURUS_BLUE, RED, EYE_PINK),
        FrameId::Virgo => (VIRGO_OLIVE, OZ_GREY, DARK, EYE_PINK),
        FrameId::Leo => match faction {
            Faction::Oz => (OZ_GREEN, OZ_GREY, DARK, EYE_PINK),
            Faction::Colonies => (TAURUS_BLUE, WHITE, RED, EYE_GREEN),
            Faction::Alliance => (ALLIANCE_TAN, DARK, RED, EYE_PINK),
        },
    }
}

/// Body, trim and accent paint, and eye colour, for a frame in a faction's livery.
pub fn livery(frame: FrameId, faction: Faction) -> (r: (u8, u8, u8, u8))
    ensures
        r == livery_of(frame, faction),
{
    match frame {
        FrameId::WingZero | FrameId::WingZeroBird => (WHITE, BLUE, RED, EYE_GREEN),
        FrameId::Heavyarms => (WHITE, RED, DARK, EYE_GREEN),
        FrameId::Deathscythe => (DARK, BLUE, RED, EYE_GREEN),
        FrameId::Sandrock => (ALLIANCE_TAN, WHITE, RED, EYE_GREEN),
        FrameId::Shenlong => (WHITE, OZ_GREEN, YELLOW, EYE_GREEN),
        FrameId::Taurus => (TAURUS_WHITE, TAURUS_BLUE, RED, EYE_PINK),
        FrameId::Virgo => (VIRGO_OLIVE, OZ_GREY, DARK, EYE_PINK),
        FrameId::Leo => match faction {
            Faction::Oz => (OZ_GREEN, OZ_GREY, DARK, EYE_PINK),
            Faction::Colonies => (TAURUS_BLUE, WHITE, RED, EYE_GREEN),
            Faction::Alliance => (ALLIANCE_TAN, DARK, RED, EYE_PINK),
        },
    }
}

/// Every livery's paints are palette entries, and its eye colour one of the two.
pub proof fn lemma_livery_in_palette(frame: FrameId, faction: Faction)
    ensures
        livery_of(frame, faction).0 < crate::paint::COUNT,
        livery_of(frame, faction).1 < crate::paint::COUNT,
        livery_of(frame, faction).2 < crate::paint::COUNT,
        livery_of(frame, faction).3 <= EYE_PINK,
{
}

/// The cast of each showcase scene, in script order.
pub open spec fn cast_of(scene: Scene) -> Seq<(FrameId, Faction)> {
    match scene {
        Scene::Lineup => seq![
            (FrameId::WingZero, Faction::Colonies),
            (FrameId::Leo, Faction::Oz),
            (FrameId::Leo, Faction::Colonies),
            (FrameId::Leo, Faction::Alliance),
            (FrameId::Taurus, Faction::Oz),
            (FrameId::Virgo, Faction::Oz),
            (FrameId::Leo, Faction::Oz),
        ],
        Scene::Duel => seq![
            (FrameId::WingZero, Faction::Colonies),
            (FrameId::Leo, Faction::Oz),
            (FrameId::Taurus, Faction::Oz),
        ],
        Scene::Colony => seq![
            (FrameId::Taurus, Faction::Oz),
            (FrameId::Taurus, Faction::Oz),
            (FrameId::Taurus, Faction::Oz),
        ],
        Scene::Field => seq![(FrameId::Leo, Faction::Oz), (FrameId::Leo, Faction::Colonies)],
    }
}

/// The cast of each showcase scene, in script order.
pub fn cast(scene: Scene) -> (v: Vec<(FrameId, Faction)>)
    ensures
        v@ == cast_of(scene),
{
    match scene {
        Scene::Lineup => vec![
            (FrameId::WingZero, Faction::Colonies),
            (FrameId::Leo, Faction::Oz),
            (FrameId::Leo, Faction::Colonies),
            (FrameId::Leo, Faction::Alliance),
            (FrameId::Taurus, Faction::Oz),
            (FrameId::Virgo, Faction::Oz),
            (FrameId::Leo, Faction::Oz),
        ],
        Scene::Duel => vec![
            (FrameId::WingZero, Faction::Colonies),
            (FrameId::Leo, Faction::Oz),
            (FrameId::Taurus, Faction::Oz),
        ],
        Scene::Colony => vec![
            (FrameId::Taurus, Faction::Oz),
            (FrameId::Taurus, Faction::Oz),
            (FrameId::Taurus, Faction::Oz),
        ],
        Scene::Field => vec![(FrameId::Leo, Faction::Oz), (FrameId::Leo, Faction::Colonies)],
    }
}

} // verus!
