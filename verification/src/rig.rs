//! The suit skeleton: its bones, which bone each hangs from, and which hit-box part each belongs
//! to. Every frame shares it. (Where the joints sit at rest is geometry, drawn by the client.)

use vstd::prelude::*;

verus! {

/// A hit-box part of a suit, in the protocol's order.
#[derive(Clone, Copy, Debug, PartialEq, Eq, Structural, Hash)]
pub enum Part {
    Head,
    Torso,
    ArmL,
    ArmR,
    Legs,
    Backpack,
}

/// How many parts there are.
pub const PART_COUNT: usize = 6;

/// A part's place in the protocol's order.
pub open spec fn part_index(p: Part) -> int {
    match p {
        Part::Head => 0,
        Part::Torso => 1,
        Part::ArmL => 2,
        Part::ArmR => 3,
        Part::Legs => 4,
        Part::Backpack => 5,
    }
}

impl Part {
    /// The part's place in the protocol's order.
    pub fn index(self) -> (i: usize)
        ensures
            i == part_index(self),
            i < PART_COUNT,
    {
        match self {
            Part::Head => 0,
            Part::Torso => 1,
            Part::ArmL => 2,
            Part::ArmR => 3,
            Part::Legs => 4,
            Part::Backpack => 5,
        }
    }
}

/// A bone. Parents come before their children.
#[derive(Clone, Copy, Debug, PartialEq, Eq, Structural, Hash)]
pub enum Bone {
    /// The root: the lower torso, at the suit's origin.
    Torso,
    Chest,
    Head,
    /// Hips and skirt armour.
    Waist,
    ThighL,
    ShinL,
    FootL,
    ThighR,
    ShinR,
    FootR,
    /// Shoulder armour, which rides the shoulder joint.
    ShoulderL,
    UpperArmL,
    ForearmL,
    HandL,
    ShoulderR,
    UpperArmR,
    ForearmR,
    HandR,
    Backpack,
    WingL,
    WingR,
    /// The main weapon, in the right hand.
    Weapon,
    /// A shield on the left forearm.
    Shield,
    /// Things that float free round the suit (the Virgo's Planet Defensors).
    Props,
}

/// How many bones there are.
pub const BONES: usize = 24;

/// A bone's place in [`Bone`] order.
pub open spec fn bone_index(b: Bone) -> int {
    match b {
        Bone::Torso => 0,
        Bone::Chest => 1,
        Bone::Head => 2,
        Bone::Waist => 3,
        Bone::ThighL => 4,
        Bone::ShinL => 5,
        Bone::FootL => 6,
        Bone::ThighR => 7,
        Bone::ShinR => 8,
        Bone::FootR => 9,
        Bone::ShoulderL => 10,
        Bone::UpperArmL => 11,
        Bone::ForearmL => 12,
        Bone::HandL => 13,
        Bone::ShoulderR => 14,
        Bone::UpperArmR => 15,
        Bone::ForearmR => 16,
        Bone::HandR => 17,
        Bone::Backpack => 18,
        Bone::WingL => 19,
        Bone::WingR => 20,
        Bone::Weapon => 21,
        Bone::Shield => 22,
        Bone::Props => 23,
    }
}

/// The bone a bone hangs from (none for the root).
pub open spec fn bone_parent(b: Bone) -> Option<Bone> {
    match b {
        Bone::Torso => None,
        Bone::Chest => Some(Bone::Torso),
        Bone::Head => Some(Bone::Chest),
        Bone::Waist => Some(Bone::Torso),
        Bone::ThighL => Some(Bone::Waist),
        Bone::ShinL => Some(Bone::ThighL),
        Bone::FootL => Some(Bone::ShinL),
        Bone::ThighR => Some(Bone::Waist),
        Bone::ShinR => Some(Bone::ThighR),
        Bone::FootR => Some(Bone::ShinR),
        Bone::ShoulderL => Some(Bone::Chest),
        Bone::UpperArmL => Some(Bone::ShoulderL),
        Bone::ForearmL => Some(Bone::UpperArmL),
        Bone::HandL => Some(Bone::ForearmL),
        Bone::ShoulderR => Some(Bone::Chest),
        Bone::UpperArmR => Some(Bone::ShoulderR),
        Bone::ForearmR => Some(Bone::UpperArmR),
        Bone::HandR => Some(Bone::ForearmR),
        Bone::Backpack => Some(Bone::Chest),
        Bone::WingL => Some(Bone::Backpack),
        Bone::WingR => Some(Bone::Backpack),
        Bone::Weapon => Some(Bone::HandR),
        Bone::Shield => Some(Bone::ForearmL),
        Bone::Props => Some(Bone::Torso),
    }
}

/// The hit-box part a bone belongs to.
pub open spec fn bone_part(b: Bone) -> Part {
    match b {
        Bone::Torso | Bone::Chest | Bone::Waist | Bone::Props => Part::Torso,
        Bone::Head => Part::Head,
        Bone::ThighL | Bone::ShinL | Bone::FootL | Bone::ThighR | Bone::ShinR | Bone::FootR => {
            Part::Legs
        },
        Bone::ShoulderL | Bone::UpperArmL | Bone::ForearmL | Bone::HandL | Bone::Shield => {
            Part::ArmL
        },
        Bone::ShoulderR | Bone::UpperArmR | Bone::ForearmR | Bone::HandR | Bone::Weapon => {
            Part::ArmR
        },
        Bone::Backpack | Bone::WingL | Bone::WingR => Part::Backpack,
    }
}

/// Every bone, in [`Bone`] order.
pub open spec fn all_bones() -> Seq<Bone> {
    seq![
        Bone::Torso,
        Bone::Chest,
        Bone::Head,
        Bone::Waist,
        Bone::ThighL,
        Bone::ShinL,
        Bone::FootL,
        Bone::ThighR,
        Bone::ShinR,
        Bone::FootR,
        Bone::ShoulderL,
        Bone::UpperArmL,
        Bone::ForearmL,
        Bone::HandL,
        Bone::ShoulderR,
        Bone::UpperArmR,
        Bone::ForearmR,
        Bone::HandR,
        Bone::Backpack,
        Bone::WingL,
        Bone::WingR,
        Bone::Weapon,
        Bone::Shield,
        Bone::Props,
    ]
}

/// Every bone, in [`Bone`] order.
pub fn all() -> (v: Vec<Bone>)
    ensures
        v@ == all_bones(),
{
    vec![
        Bone::Torso,
        Bone::Chest,
        Bone::Head,
        Bone::Waist,
        Bone::ThighL,
        Bone::ShinL,
        Bone::FootL,
        Bone::ThighR,
        Bone::ShinR,
        Bone::FootR,
        Bone::ShoulderL,
        Bone::UpperArmL,
        Bone::ForearmL,
        Bone::HandL,
        Bone::ShoulderR,
        Bone::UpperArmR,
        Bone::ForearmR,
        Bone::HandR,
        Bone::Backpack,
        Bone::WingL,
        Bone::WingR,
        Bone::Weapon,
        Bone::Shield,
        Bone::Props,
    ]
}

/// Whether `bone` hangs below `root` (or is it).
pub open spec fn hangs_under(bone: Bone, root: Bone) -> bool
    decreases bone_index(bone),
{
    if bone == root {
        true
    } else {
        match bone_parent(bone) {
            Some(p) => if bone_index(p) < bone_index(bone) {
                hangs_under(p, root)
            } else {
                false
            },
            None => false,
        }
    }
}

impl Bone {
    /// The bone's place in [`Bone`] order.
    pub fn index(self) -> (i: usize)
        ensures
            i == bone_index(self),
            i < BONES,
    {
        match self {
            Bone::Torso => 0,
            Bone::Chest => 1,
            Bone::Head => 2,
            Bone::Waist => 3,
            Bone::ThighL => 4,
            Bone::ShinL => 5,
            Bone::FootL => 6,
            Bone::ThighR => 7,
            Bone::ShinR => 8,
            Bone::FootR => 9,
            Bone::ShoulderL => 10,
            Bone::UpperArmL => 11,
            Bone::ForearmL => 12,
            Bone::HandL => 13,
            Bone::ShoulderR => 14,
            Bone::UpperArmR => 15,
            Bone::ForearmR => 16,
            Bone::HandR => 17,
            Bone::Backpack => 18,
            Bone::WingL => 19,
            Bone::WingR => 20,
            Bone::Weapon => 21,
            Bone::Shield => 22,
            Bone::Props => 23,
        }
    }

    /// The bone it hangs from (none for the root).
    pub fn parent(self) -> (p: Option<Bone>)
        ensures
            p == bone_parent(self),
    {
        match self {
            Bone::Torso => None,
            Bone::Chest => Some(Bone::Torso),
            Bone::Head => Some(Bone::Chest),
            Bone::Waist => Some(Bone::Torso),
            Bone::ThighL => Some(Bone::Waist),
            Bone::ShinL => Some(Bone::ThighL),
            Bone::FootL => Some(Bone::ShinL),
            Bone::ThighR => Some(Bone::Waist),
            Bone::ShinR => Some(Bone::ThighR),
            Bone::FootR => Some(Bone::ShinR),
            Bone::ShoulderL => Some(Bone::Chest),
            Bone::UpperArmL => Some(Bone::ShoulderL),
            Bone::ForearmL => Some(Bone::UpperArmL),
            Bone::HandL => Some(Bone::ForearmL),
            Bone::ShoulderR => Some(Bone::Chest),
            Bone::UpperArmR => Some(Bone::ShoulderR),
            Bone::ForearmR => Some(Bone::UpperArmR),
            Bone::HandR => Some(Bone::ForearmR),
            Bone::Backpack => Some(Bone::Chest),
            Bone::WingL => Some(Bone::Backpack),
            Bone::WingR => Some(Bone::Backpack),
            Bone::Weapon => Some(Bone::HandR),
            Bone::Shield => Some(Bone::ForearmL),
            Bone::Props => Some(Bone::Torso),
        }
    }

    /// The hit-box part it belongs to.
    pub fn part(self) -> (p: Part)
        ensures
            p == bone_part(self),
    {
        match self {
            Bone::Torso | Bone::Chest | Bone::Waist | Bone::Props => Part::Torso,
            Bone::Head => Part::Head,
            Bone::ThighL | Bone::ShinL | Bone::FootL | Bone::ThighR | Bone::ShinR | Bone::FootR => {
                Part::Legs
            },
            Bone::ShoulderL | Bone::UpperArmL | Bone::ForearmL | Bone::HandL | Bone::Shield => {
                Part::ArmL
            },
            Bone::ShoulderR | Bone::UpperArmR | Bone::ForearmR | Bone::HandR | Bone::Weapon => {
                Part::ArmR
            },
            Bone::Backpack | Bone::WingL | Bone::WingR => Part::Backpack,
        }
    }
}

/// Every bone's parent comes before it.
pub proof fn lemma_parent_first(b: Bone)
    ensures
        bone_parent(b) matches Some(p) ==> bone_index(p) < bone_index(b),
{
}

/// Whether `bone` hangs below `root` (or is it).
pub fn under(bone: Bone, root: Bone) -> (r: bool)
    ensures
        r == hangs_under(bone, root),
{
    let mut b = Some(bone);
    while b.is_some()
        invariant
            hangs_under(bone, root) == match b {
                Some(k) => hangs_under(k, root),
                None => false,
            },
        decreases match b {
            Some(k) => bone_index(k) + 1,
            None => 0,
        },
    {
        let k = b.unwrap();
        if k == root {
            return true;
        }
        b = k.parent();
    }
    false
}

/// The bones that come away when `part` is shot to nothing (each with everything below it).
pub open spec fn break_roots(part: Part) -> Seq<Bone> {
    match part {
        Part::Head => seq![Bone::Head],
        Part::ArmL => seq![Bone::ShoulderL],
        Part::ArmR => seq![Bone::ShoulderR],
        Part::Legs => seq![Bone::ThighL, Bone::ThighR],
        Part::Backpack => seq![Bone::Backpack],
        Part::Torso => seq![],
    }
}

/// The bones that come away when `part` is shot to nothing (each with everything below it).
pub fn breaks(part: Part) -> (v: Vec<Bone>)
    ensures
        v@ == break_roots(part),
{
    match part {
        Part::Head => vec![Bone::Head],
        Part::ArmL => vec![Bone::ShoulderL],
        Part::ArmR => vec![Bone::ShoulderR],
        Part::Legs => vec![Bone::ThighL, Bone::ThighR],
        Part::Backpack => vec![Bone::Backpack],
        Part::Torso => vec![],
    }
}

/// A bone hanging under a bone of any part but the torso belongs to that part too.
proof fn lemma_part_inherits(bone: Bone, root: Bone)
    requires
        hangs_under(bone, root),
        bone_part(root) != Part::Torso,
    ensures
        bone_part(bone) == bone_part(root),
    decreases bone_index(bone),
{
    if bone != root {
        let p = bone_parent(bone)->0;
        lemma_part_inherits(p, root);
    }
}

/// What a part shot off takes with it is exactly that part: a bone of any part but the torso is
/// under one of the part's break roots, and everything under a break root belongs to its part.
pub proof fn lemma_breaks_take_the_part(bone: Bone, part: Part)
    ensures
        forall|i: int|
            0 <= i < break_roots(part).len() && hangs_under(bone, #[trigger] break_roots(part)[i])
                ==> bone_part(bone) == part,
        bone_part(bone) == part && part != Part::Torso ==> exists|i: int|
            0 <= i < break_roots(part).len() && hangs_under(bone, #[trigger] break_roots(part)[i]),
{
    assert forall|i: int|
        0 <= i < break_roots(part).len() && hangs_under(bone, #[trigger] break_roots(part)[i])
            implies bone_part(bone) == part by {
        lemma_part_inherits(bone, break_roots(part)[i]);
    }
    reveal_with_fuel(hangs_under, 6);
    match part {
        Part::Legs => {
            assert(bone_part(bone) == part ==> hangs_under(bone, break_roots(part)[0]) || hangs_under(bone, break_roots(part)[1]));
        },
        _ => {
            assert(bone_part(bone) == part && part != Part::Torso ==> hangs_under(bone, break_roots(part)[0]));
        },
    }
}

/// Hanging under is transitive.
pub proof fn lemma_under_transitive(a: Bone, b: Bone, c: Bone)
    requires
        hangs_under(a, b),
        hangs_under(b, c),
    ensures
        hangs_under(a, c),
    decreases bone_index(a),
{
    if a != b {
        let p = bone_parent(a)->0;
        lemma_under_transitive(p, b, c);
    }
}

/// Everything hangs under the root bone.
pub proof fn lemma_under_root(b: Bone)
    ensures
        hangs_under(b, Bone::Torso),
    decreases bone_index(b),
{
    if b != Bone::Torso {
        lemma_under_root(bone_parent(b)->0);
    }
}

/// Each bone sits at its own place in [`all`], and no two bones share a place.
pub proof fn lemma_index_order()
    ensures
        all_bones().len() == BONES,
        forall|i: int| 0 <= i < BONES ==> bone_index(#[trigger] all_bones()[i]) == i,
        forall|a: Bone, b: Bone| bone_index(a) == bone_index(b) ==> a == b,
{
    let s = all_bones();
    assert forall|i: int| 0 <= i < BONES implies bone_index(#[trigger] s[i]) == i by {
        assert(s[0] == Bone::Torso && s[1] == Bone::Chest && s[2] == Bone::Head && s[3] == Bone::Waist);
        assert(s[4] == Bone::ThighL && s[5] == Bone::ShinL && s[6] == Bone::FootL && s[7] == Bone::ThighR);
        assert(s[8] == Bone::ShinR && s[9] == Bone::FootR && s[10] == Bone::ShoulderL && s[11] == Bone::UpperArmL);
        assert(s[12] == Bone::ForearmL && s[13] == Bone::HandL && s[14] == Bone::ShoulderR && s[15] == Bone::UpperArmR);
        assert(s[16] == Bone::ForearmR && s[17] == Bone::HandR && s[18] == Bone::Backpack && s[19] == Bone::WingL);
        assert(s[20] == Bone::WingR && s[21] == Bone::Weapon && s[22] == Bone::Shield && s[23] == Bone::Props);
    }
}

/// What kind of salvage chunk a thing is, as far as its bones go: ore, one part torn off a suit,
/// or a suit's hulk with the parts still on it (bit `i` for the part at place `i`).
#[derive(Clone, Copy, Debug, PartialEq, Eq, Structural)]
pub enum ChunkKind {
    Ore { ore: u8 },
    Limb { part: Part },
    Hulk { parts: u8 },
}

/// Whether a chunk of this kind carries bone `b`.
pub open spec fn chunk_has_bone(kind: ChunkKind, b: Bone) -> bool {
    match kind {
        ChunkKind::Ore { .. } => false,
        ChunkKind::Limb { part } => bone_part(b) == part,
        ChunkKind::Hulk { parts } => parts & (1u8 << (part_index(bone_part(b)) as u8)) != 0u8,
    }
}

fn has_bone(kind: ChunkKind, b: Bone) -> (r: bool)
    ensures
        r == chunk_has_bone(kind, b),
{
    match kind {
        ChunkKind::Ore { .. } => false,
        ChunkKind::Limb { part } => b.part() == part,
        ChunkKind::Hulk { parts } => {
            let i = b.part().index();
            assert(i < 8);
            parts & (1u8 << (i as u8)) != 0u8
        },
    }
}

/// Which bones make up a chunk, in [`Bone`] order: a limb's part, or every part still on a hulk.
pub fn bones_of(kind: ChunkKind) -> (v: Vec<Bone>)
    ensures
        forall|b: Bone| v@.contains(b) <==> chunk_has_bone(kind, b),
        forall|i: int, j: int| 0 <= i < j < v@.len() ==> bone_index(v@[i]) < bone_index(v@[j]),
{
    proof {
        lemma_index_order();
    }
    let bones = all();
    let mut v: Vec<Bone> = Vec::new();
    let mut k: usize = 0;
    while k < bones.len()
        invariant
            bones@ == all_bones(),
            k <= bones@.len(),
            forall|i: int| 0 <= i < BONES ==> bone_index(#[trigger] all_bones()[i]) == i,
            forall|b: Bone|
                v@.contains(b) <==> (chunk_has_bone(kind, b) && bone_index(b) < k),
            forall|i: int, j: int| 0 <= i < j < v@.len() ==> bone_index(v@[i]) < bone_index(v@[j]),
            forall|i: int| 0 <= i < v@.len() ==> bone_index(#[trigger] v@[i]) < k,
        decreases bones@.len() - k,
    {
        let b = bones[k];
        assert(bone_index(b) == k);
        let ghost before = v@;
        if has_bone(kind, b) {
            v.push(b);
            assert(v@ == before.push(b));
        }
        assert forall|c: Bone| v@.contains(c) <==> (chunk_has_bone(kind, c) && bone_index(c) < k + 1) by {
            if bone_index(c) == k {
                assert(c == b);
                if chunk_has_bone(kind, c) {
                    assert(v@[v@.len() - 1] == c);
                }
            }
            if v@.contains(c) {
                let i = choose|i: int| 0 <= i < v@.len() && v@[i] == c;
                if i < before.len() {
                    assert(before[i] == c);
                    assert(before.contains(c));
                }
            }
            if before.contains(c) {
                let i = choose|i: int| 0 <= i < before.len() && before[i] == c;
                assert(v@[i] == c);
            }
        }
        k = k + 1;
    }
    v
}

/// Left or right, for building and posing both sides from one description of the right.
#[derive(Clone, Copy, Debug, PartialEq, Eq, Structural)]
pub enum Side {
    L,
    R,
}

impl Side {
    /// Both sides, left first.
    pub fn both() -> (v: [Side; 2])
        ensures
            v@ == seq![Side::L, Side::R],
    {
        [Side::L, Side::R]
    }

    /// The left thing on the left, the right on the right.
    pub fn pick<T>(self, left: T, right: T) -> (r: T)
        ensures
            r == (match self {
                Side::L => left,
                Side::R => right,
            }),
    {
        match self {
            Side::L => left,
            Side::R => right,
        }
    }
}

} // verus!
