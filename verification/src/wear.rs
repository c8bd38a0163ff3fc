//! Battle damage on a suit, between frames: each part's armour as last seen (in eighths), which
//! bones have come away, and whether the suit is a wreck. Plates come away as a part wears down;
//! a part shot to nothing breaks away with every bone under it; a suit that dies comes apart.
//! (How the pieces fly and burn is drawn by the client.)

use crate::rig::{all, all_bones, bone_index, breaks, break_roots, hangs_under, lemma_index_order, part_index, under, Bone, Part, BONES, PART_COUNT};
use vstd::prelude::*;

verus! {

/// Armour of a pristine part, in eighths.
pub const FULL_ARMOUR: u8 = 7;

/// A suit's damage as the client has drawn it.
pub struct Wear {
    parts: [u8; 6],
    lost: Vec<bool>,
    wreck: bool,
    primed: bool,
}

/// What the damage state holds.
pub struct WearView {
    /// Armour per part last seen, in eighths, by the part's place.
    pub parts: Seq<u8>,
    /// Bones that have come away, by the bone's place.
    pub lost: Seq<bool>,
    pub wreck: bool,
    /// Whether the suit's state when first seen has been taken in.
    pub primed: bool,
}

/// The lost bones after `root` breaks off: it and every bone under it.
pub open spec fn lost_after_break(lost: Seq<bool>, root: Bone) -> Seq<bool> {
    Seq::new(BONES as nat, |i: int| lost[i] || hangs_under(all_bones()[i], root))
}

/// Everything under a lost bone is lost too.
pub open spec fn down_closed(lost: Seq<bool>) -> bool {
    forall|i: int, j: int|
        0 <= i < BONES && 0 <= j < BONES && #[trigger] lost[i] && hangs_under(
            #[trigger] all_bones()[j],
            all_bones()[i],
        ) ==> lost[j]
}

proof fn lemma_break_keeps_closed(lost: Seq<bool>, root: Bone)
    requires
        lost.len() == BONES,
        down_closed(lost),
    ensures
        down_closed(lost_after_break(lost, root)),
        lost[bone_index(root)] ==> lost_after_break(lost, root) == lost,
{
    lemma_index_order();
    let after = lost_after_break(lost, root);
    assert forall|i: int, j: int|
        0 <= i < BONES && 0 <= j < BONES && #[trigger] after[i] && hangs_under(
            #[trigger] all_bones()[j],
            all_bones()[i],
        ) implies after[j] by {
        if !lost[i] {
            crate::rig::lemma_under_transitive(all_bones()[j], all_bones()[i], root);
        }
    }
    if lost[bone_index(root)] {
        assert forall|i: int| 0 <= i < BONES implies after[i] == lost[i] by {
            if hangs_under(all_bones()[i], root) {
                assert(all_bones()[bone_index(root)] == root);
            }
        }
        assert(after =~= lost);
    }
}

proof fn lemma_all_keeps_closed(lost: Seq<bool>, roots: Seq<Bone>)
    requires
        lost.len() == BONES,
        down_closed(lost),
    ensures
        down_closed(lost_after_all(lost, roots)),
        lost_after_all(lost, roots).len() == BONES,
    decreases roots.len(),
{
    if roots.len() > 0 {
        lemma_break_keeps_closed(lost, roots[0]);
        lemma_all_keeps_closed(lost_after_break(lost, roots[0]), roots.drop_first());
    }
}

/// The lost bones after each of `roots` breaks off.
pub open spec fn lost_after_all(lost: Seq<bool>, roots: Seq<Bone>) -> Seq<bool>
    decreases roots.len(),
{
    if roots.len() == 0 {
        lost
    } else {
        lost_after_all(lost_after_break(lost, roots[0]), roots.drop_first())
    }
}

/// How many of the plate thresholds (5, 3 and 1 eighths) a part wore through going from `was` to
/// `now` eighths.
pub open spec fn plates_shed(was: u8, now: u8) -> int {
    (if was > 5 && now <= 5 { 1int } else { 0int }) + (if was > 3 && now <= 3 { 1int } else { 0int })
        + (if was > 1 && now <= 1 { 1int } else { 0int })
}

/// The parts that come apart when a suit dies, in order.
pub open spec fn death_parts() -> Seq<Part> {
    seq![Part::ArmL, Part::ArmR, Part::Legs, Part::Head, Part::Backpack]
}

/// Every part, in order.
pub open spec fn all_parts() -> Seq<Part> {
    seq![Part::Head, Part::Torso, Part::ArmL, Part::ArmR, Part::Legs, Part::Backpack]
}

/// What a part's wear did.
#[derive(Debug)]
pub struct PartWear {
    /// The armour went down.
    pub worn: bool,
    /// How many plates came away.
    pub plates: u8,
    /// The bones that broke away (it was shot to nothing).
    pub broken: Vec<Bone>,
}

impl View for Wear {
    type V = WearView;

    closed spec fn view(&self) -> WearView {
        WearView { parts: self.parts@, lost: self.lost@, wreck: self.wreck, primed: self.primed }
    }
}

impl Wear {
    pub closed spec fn wf(&self) -> bool {
        &&& self.lost@.len() == BONES
        &&& down_closed(self.lost@)
    }

    /// A suit not yet seen: full armour, nothing lost.
    pub fn new() -> (w: Wear)
        ensures
            w.wf(),
            w@.parts == Seq::new(PART_COUNT as nat, |i: int| FULL_ARMOUR),
            w@.lost == Seq::new(BONES as nat, |i: int| false),
            !w@.wreck,
            !w@.primed,
    {
        let mut lost: Vec<bool> = Vec::new();
        while lost.len() < BONES
            invariant
                lost@.len() <= BONES,
                forall|k: int| 0 <= k < lost@.len() ==> !lost@[k],
            decreases BONES - lost@.len(),
        {
            lost.push(false);
        }
        let w = Wear { parts: [7, 7, 7, 7, 7, 7], lost, wreck: false, primed: false };
        assert(w@.parts =~= Seq::new(PART_COUNT as nat, |i: int| FULL_ARMOUR));
        assert(w@.lost =~= Seq::new(BONES as nat, |i: int| false));
        w
    }

    /// Whether `b` has come away.
    pub fn is_lost(&self, b: Bone) -> (r: bool)
        requires
            self.wf(),
        ensures
            r == self@.lost[bone_index(b)],
    {
        self.lost[b.index()]
    }

    /// Armour last seen on `part`, in eighths.
    pub fn armour(&self, part: Part) -> (a: u8)
        ensures
            a == self@.parts[part_index(part)],
    {
        self.parts[part.index()]
    }

    /// Whether the suit is drawn as a wreck.
    pub fn wreck(&self) -> (w: bool)
        ensures
            w == self@.wreck,
    {
        self.wreck
    }

    fn mark_under(&mut self, root: Bone)
        requires
            old(self).lost@.len() == BONES,
            down_closed(old(self).lost@),
        ensures
            final(self).wf(),
            final(self)@ == (WearView { lost: lost_after_break(old(self)@.lost, root), ..old(self)@ }),
    {
        proof {
            lemma_index_order();
        }
        let bones = all();
        let mut k: usize = 0;
        while k < BONES
            invariant
                self.lost@.len() == BONES,
                bones@ == all_bones(),
                k <= BONES,
                self.parts == old(self).parts,
                self.wreck == old(self).wreck,
                self.primed == old(self).primed,
                forall|i: int| 0 <= i < k ==> self.lost@[i] == (old(self).lost@[i] || hangs_under(all_bones()[i], root)),
                forall|i: int| k <= i < BONES ==> self.lost@[i] == old(self).lost@[i],
            decreases BONES - k,
        {
            if under(bones[k], root) {
                self.lost.set(k, true);
            }
            k = k + 1;
        }
        assert(self.lost@ =~= lost_after_break(old(self)@.lost, root));
        proof {
            lemma_break_keeps_closed(old(self)@.lost, root);
        }
    }

    /// Breaks `root` (and the bones under it) off the suit, unless it has already come away.
    /// Returns whether it broke now.
    pub fn break_off(&mut self, root: Bone) -> (broke: bool)
        requires
            old(self).wf(),
        ensures
            final(self).wf(),
            broke == !old(self)@.lost[bone_index(root)],
            final(self)@ == (WearView { lost: lost_after_break(old(self)@.lost, root), ..old(self)@ }),
    {
        if self.lost[root.index()] {
            proof {
                lemma_break_keeps_closed(old(self)@.lost, root);
            }
            return false;
        }
        self.mark_under(root);
        true
    }

    /// Takes in the suit's state as first seen: parts already gone, or every breakable part of a
    /// suit already wrecked, are simply not there. Returns the roots of what is not there, or
    /// `None` when the suit had been seen before.
    pub fn first_sight(&mut self, parts: [u8; 6], wreck: bool) -> (gone: Option<Vec<Bone>>)
        requires
            old(self).wf(),
        ensures
            final(self).wf(),
            old(self)@.primed ==> gone is None && final(self)@ == old(self)@,
            !old(self)@.primed ==> (gone matches Some(roots) && final(self)@ == (WearView {
                parts: parts@,
                lost: lost_after_all(old(self)@.lost, roots@),
                wreck,
                primed: true,
            }) && roots@ == gone_roots(parts@, wreck, 0)),
    {
        if self.primed {
            return None;
        }
        self.primed = true;
        self.parts = parts;
        self.wreck = wreck;
        let ghost start = self.lost@;
        let mut roots: Vec<Bone> = Vec::new();
        let order = [Part::Head, Part::Torso, Part::ArmL, Part::ArmR, Part::Legs, Part::Backpack];
        let mut p: usize = 0;
        while p < 6
            invariant
                self.wf(),
                p <= 6,
                order@ == all_parts(),
                self.parts@ == parts@,
                self.wreck == wreck,
                self.primed,
                self.lost@ == lost_after_all(start, roots@),
                roots@ + gone_roots(parts@, wreck, p as int) == gone_roots(parts@, wreck, 0),
            decreases 6 - p,
        {
            let part = order[p];
            if parts[part.index()] == 0 || wreck {
                let rs = breaks(part);
                let mut k: usize = 0;
                while k < rs.len()
                    invariant
                        self.wf(),
                        rs@ == break_roots(part),
                        k <= rs@.len(),
                        self.parts@ == parts@,
                        self.wreck == wreck,
                        self.primed,
                        self.lost@ == lost_after_all(start, roots@),
                        roots@ + break_roots(part).skip(k as int) + gone_roots(parts@, wreck, p + 1) == gone_roots(parts@, wreck, 0),
                    decreases rs@.len() - k,
                {
                    let ghost before = roots@;
                    self.mark_under(rs[k]);
                    roots.push(rs[k]);
                    proof {
                        lemma_lost_after_push(start, before, rs@[k as int]);
                        assert(break_roots(part).skip(k as int) =~= seq![rs@[k as int]] + break_roots(part).skip(k + 1));
                        assert(roots@ + break_roots(part).skip(k + 1) + gone_roots(parts@, wreck, p + 1) =~= before + break_roots(part).skip(k as int) + gone_roots(parts@, wreck, p + 1));
                    }
                    k = k + 1;
                }
                proof {
                    assert(break_roots(part).skip(rs@.len() as int) =~= seq![]);
                    assert(roots@ + gone_roots(parts@, wreck, p + 1) =~= roots@ + break_roots(part).skip(rs@.len() as int) + gone_roots(parts@, wreck, p + 1));
                }
            }
            p = p + 1;
        }
        assert(roots@ =~= gone_roots(parts@, wreck, 0)) by {
            assert(gone_roots(parts@, wreck, 6) =~= seq![]);
        }
        Some(roots)
    }

    /// Breaks off each of `roots` in turn; returns those that broke now (had not come away).
    fn break_all(&mut self, roots: &Vec<Bone>) -> (broken: Vec<(Bone, bool)>)
        requires
            old(self).wf(),
        ensures
            final(self).wf(),
            final(self)@ == (WearView { lost: lost_after_all(old(self)@.lost, roots@), ..old(self)@ }),
            broken@ == breaks_from(old(self)@.lost, roots@),
    {
        let mut out: Vec<(Bone, bool)> = Vec::new();
        let mut k: usize = 0;
        assert(roots@.skip(0) =~= roots@);
        assert(out@ + breaks_from(self.lost@, roots@) =~= breaks_from(self.lost@, roots@));
        while k < roots.len()
            invariant
                self.wf(),
                k <= roots@.len(),
                self.parts == old(self).parts,
                self.wreck == old(self).wreck,
                self.primed == old(self).primed,
                lost_after_all(self.lost@, roots@.skip(k as int)) == lost_after_all(old(self)@.lost, roots@),
                out@ + breaks_from(self.lost@, roots@.skip(k as int)) == breaks_from(old(self)@.lost, roots@),
            decreases roots@.len() - k,
        {
            let ghost before = self.lost@;
            let ghost rest = roots@.skip(k as int);
            let r = roots[k];
            let broke = self.break_off(r);
            out.push((r, broke));
            proof {
                assert(rest[0] == r);
                assert(rest.drop_first() =~= roots@.skip(k + 1));
                assert(out@ + breaks_from(self.lost@, roots@.skip(k + 1)) =~= out@.drop_last() + breaks_from(before, rest));
            }
            k = k + 1;
        }
        proof {
            assert(roots@.skip(roots@.len() as int) =~= Seq::<Bone>::empty());
            assert(out@ =~= out@ + breaks_from(self.lost@, Seq::<Bone>::empty()));
        }
        out
    }

    /// `part` is now at `now` eighths of armour. When it went down, the plates it wore through come
    /// away, and if it was shot to nothing its bones break away.
    pub fn wear_part(&mut self, part: Part, now: u8) -> (w: PartWear)
        requires
            old(self).wf(),
        ensures
            final(self).wf(),
            ({
                let was = old(self)@.parts[part_index(part)];
                let shot_off = now < was && now == 0;
                &&& w.worn == (now < was)
                &&& w.plates == if now < was { plates_shed(was, now) } else { 0 }
                &&& w.broken@ == if shot_off {
                    broken_of(breaks_from(old(self)@.lost, break_roots(part)))
                } else {
                    seq![]
                }
                &&& final(self)@ == (WearView {
                    parts: old(self)@.parts.update(part_index(part), now),
                    lost: if shot_off {
                        lost_after_all(old(self)@.lost, break_roots(part))
                    } else {
                        old(self)@.lost
                    },
                    ..old(self)@
                })
            }),
    {
        let i = part.index();
        let was = self.parts[i];
        let mut plates: u8 = 0;
        let mut broken: Vec<Bone> = Vec::new();
        let worn = now < was;
        if worn {
            if was > 5 && now <= 5 {
                plates = plates + 1;
            }
            if was > 3 && now <= 3 {
                plates = plates + 1;
            }
            if was > 1 && now <= 1 {
                plates = plates + 1;
            }
            if now == 0 {
                let rs = breaks(part);
                let pairs = self.break_all(&rs);
                broken = only_broken(&pairs);
            }
        }
        self.parts[i] = now;
        PartWear { worn, plates, broken }
    }

    /// The suit is now a wreck or not. When it has just died, every breakable part comes apart:
    /// returns each root in turn with whether it broke now. Also returns whether the wreck state
    /// changed.
    pub fn die(&mut self, wreck: bool) -> (r: (Option<Vec<(Bone, bool)>>, bool))
        requires
            old(self).wf(),
        ensures
            final(self).wf(),
            r.1 == (wreck != old(self)@.wreck),
            (wreck && !old(self)@.wreck) ==> (r.0 matches Some(v) && v@ == breaks_from(old(self)@.lost, death_roots())),
            !(wreck && !old(self)@.wreck) ==> r.0 is None,
            final(self)@ == (WearView {
                lost: if wreck && !old(self)@.wreck {
                    lost_after_all(old(self)@.lost, death_roots())
                } else {
                    old(self)@.lost
                },
                wreck,
                ..old(self)@
            }),
    {
        let mut died = None;
        if wreck && !self.wreck {
            let mut roots: Vec<Bone> = Vec::new();
            roots.push(Bone::ShoulderL);
            roots.push(Bone::ShoulderR);
            roots.push(Bone::ThighL);
            roots.push(Bone::ThighR);
            roots.push(Bone::Head);
            roots.push(Bone::Backpack);
            assert(roots@ =~= death_roots());
            died = Some(self.break_all(&roots));
        }
        let changed = wreck != self.wreck;
        self.wreck = wreck;
        (died, changed)
    }
}

/// Each of `roots` in turn, with whether it breaks off then (had not come away before).
pub open spec fn breaks_from(lost: Seq<bool>, roots: Seq<Bone>) -> Seq<(Bone, bool)>
    decreases roots.len(),
{
    if roots.len() == 0 {
        seq![]
    } else {
        seq![(roots[0], !lost[bone_index(roots[0])])] + breaks_from(
            lost_after_break(lost, roots[0]),
            roots.drop_first(),
        )
    }
}

/// The bones that broke, in turn.
pub open spec fn broken_of(s: Seq<(Bone, bool)>) -> Seq<Bone>
    decreases s.len(),
{
    if s.len() == 0 {
        seq![]
    } else {
        (if s[0].1 {
            seq![s[0].0]
        } else {
            seq![]
        }) + broken_of(s.drop_first())
    }
}

/// What comes apart when a suit dies: the roots of the arms, legs, head and backpack, in order.
pub open spec fn death_roots() -> Seq<Bone> {
    break_roots(Part::ArmL) + break_roots(Part::ArmR) + break_roots(Part::Legs) + break_roots(
        Part::Head,
    ) + break_roots(Part::Backpack)
}

fn only_broken(pairs: &Vec<(Bone, bool)>) -> (v: Vec<Bone>)
    ensures
        v@ == broken_of(pairs@),
{
    let mut v: Vec<Bone> = Vec::new();
    let mut k: usize = 0;
    assert(pairs@.skip(0) =~= pairs@);
    assert(v@ + broken_of(pairs@) =~= broken_of(pairs@));
    while k < pairs.len()
        invariant
            k <= pairs@.len(),
            v@ + broken_of(pairs@.skip(k as int)) == broken_of(pairs@),
        decreases pairs@.len() - k,
    {
        let ghost before = v@;
        let ghost rest = pairs@.skip(k as int);
        let (b, broke) = pairs[k];
        if broke {
            v.push(b);
        }
        proof {
            assert(rest[0] == (b, broke));
            assert(rest.drop_first() =~= pairs@.skip(k + 1));
            if broke {
                assert(v@ + broken_of(pairs@.skip(k + 1)) =~= before + broken_of(rest));
            } else {
                assert(v@ + broken_of(pairs@.skip(k + 1)) =~= before + broken_of(rest));
            }
        }
        k = k + 1;
    }
    proof {
        assert(pairs@.skip(pairs@.len() as int) =~= Seq::<(Bone, bool)>::empty());
        assert(v@ =~= v@ + broken_of(Seq::<(Bone, bool)>::empty()));
    }
    v
}

/// The roots of what a suit first seen with `parts` (and wrecked or not) is missing, from the
/// part at place `p` on.
pub open spec fn gone_roots(parts: Seq<u8>, wreck: bool, p: int) -> Seq<Bone>
    decreases 6 - p,
{
    if p < 0 || p >= 6 {
        seq![]
    } else {
        let part = all_parts()[p];
        let here = if parts[part_index(part)] == 0 || wreck {
            break_roots(part)
        } else {
            seq![]
        };
        here + gone_roots(parts, wreck, p + 1)
    }
}

proof fn lemma_lost_after_push(lost: Seq<bool>, roots: Seq<Bone>, r: Bone)
    ensures
        lost_after_all(lost, roots.push(r)) == lost_after_break(lost_after_all(lost, roots), r),
    decreases roots.len(),
{
    if roots.len() > 0 {
        lemma_lost_after_push(lost_after_break(lost, roots[0]), roots.drop_first(), r);
        assert(roots.push(r).drop_first() =~= roots.drop_first().push(r));
        assert(roots.push(r)[0] == roots[0]);
    } else {
        assert(roots.push(r).drop_first() =~= Seq::<Bone>::empty());
        assert(roots.push(r)[0] == r);
        assert(lost_after_all(lost_after_break(lost, r), Seq::<Bone>::empty()) == lost_after_break(lost, r));
    }
}

/// A bone that has come away stays away, and breaking off roots takes every bone under each.
pub proof fn lemma_breaking_only_adds(lost: Seq<bool>, roots: Seq<Bone>, b: Bone)
    requires
        lost.len() == BONES,
    ensures
        lost[bone_index(b)] ==> lost_after_all(lost, roots)[bone_index(b)],
        (exists|i: int| 0 <= i < roots.len() && hangs_under(b, #[trigger] roots[i]))
            ==> lost_after_all(lost, roots)[bone_index(b)],
        lost_after_all(lost, roots).len() == BONES,
    decreases roots.len(),
{
    lemma_index_order();
    if roots.len() > 0 {
        let next = lost_after_break(lost, roots[0]);
        assert(all_bones()[bone_index(b)] == b);
        lemma_breaking_only_adds(next, roots.drop_first(), b);
        if exists|i: int| 0 <= i < roots.len() && hangs_under(b, #[trigger] roots[i]) {
            let i = choose|i: int| 0 <= i < roots.len() && hangs_under(b, #[trigger] roots[i]);
            if i > 0 {
                assert(roots.drop_first()[i - 1] == roots[i]);
            }
        }
    }
}

/// A part shot to nothing takes all its bones with it: once a part other than the torso is shot
/// off, every bone of that part has come away.
pub proof fn lemma_shot_off_part_is_gone(lost: Seq<bool>, part: Part, b: Bone)
    requires
        lost.len() == BONES,
        part != Part::Torso,
        crate::rig::bone_part(b) == part,
    ensures
        lost_after_all(lost, break_roots(part))[bone_index(b)],
{
    crate::rig::lemma_breaks_take_the_part(b, part);
    lemma_breaking_only_adds(lost, break_roots(part), b);
}

/// Every break root of the part at place `q` is among the roots gone from place `p` on, when that
/// part is missing (shot to nothing, or the suit is a wreck).
proof fn lemma_gone_covers(parts: Seq<u8>, wreck: bool, p: int, q: int, i: int)
    requires
        0 <= p <= q < 6,
        parts[part_index(all_parts()[q])] == 0 || wreck,
        0 <= i < break_roots(all_parts()[q]).len(),
    ensures
        gone_roots(parts, wreck, p).contains(break_roots(all_parts()[q])[i]),
    decreases q - p,
{
    let part = all_parts()[p];
    let here = if parts[part_index(part)] == 0 || wreck {
        break_roots(part)
    } else {
        seq![]
    };
    let rest = gone_roots(parts, wreck, p + 1);
    assert(gone_roots(parts, wreck, p) == here + rest);
    if p == q {
        assert((here + rest)[i] == break_roots(all_parts()[q])[i]);
    } else {
        lemma_gone_covers(parts, wreck, p + 1, q, i);
        let j = choose|j: int| 0 <= j < rest.len() && rest[j] == break_roots(all_parts()[q])[i];
        assert((here + rest)[here.len() + j] == rest[j]);
    }
}

/// A suit first seen wrecked is missing every breakable part, and one first seen with a part shot
/// to nothing is missing that part: every break root of such a part is among the roots first sight
/// hands back, and every bone of it (any part but the torso) has come away.
pub proof fn lemma_first_sight_takes_what_is_gone(lost: Seq<bool>, parts: Seq<u8>, wreck: bool, part: Part, b: Bone)
    requires
        lost.len() == BONES,
        parts.len() == PART_COUNT,
        wreck || parts[part_index(part)] == 0,
    ensures
        forall|i: int|
            0 <= i < break_roots(part).len() ==> gone_roots(parts, wreck, 0).contains(#[trigger] break_roots(part)[i]),
        part != Part::Torso && crate::rig::bone_part(b) == part ==> lost_after_all(
            lost,
            gone_roots(parts, wreck, 0),
        )[bone_index(b)],
{
    let q = part_index(part);
    assert(all_parts()[q] == part);
    assert forall|i: int| 0 <= i < break_roots(part).len() implies gone_roots(parts, wreck, 0).contains(
        #[trigger] break_roots(part)[i],
    ) by {
        lemma_gone_covers(parts, wreck, 0, q, i);
    }
    if part != Part::Torso && crate::rig::bone_part(b) == part {
        crate::rig::lemma_breaks_take_the_part(b, part);
        let i = choose|i: int| 0 <= i < break_roots(part).len() && hangs_under(b, #[trigger] break_roots(part)[i]);
        let gone = gone_roots(parts, wreck, 0);
        assert(gone.contains(break_roots(part)[i]));
        let j = choose|j: int| 0 <= j < gone.len() && gone[j] == break_roots(part)[i];
        assert(hangs_under(b, gone[j]));
        lemma_breaking_only_adds(lost, gone, b);
    }
}

/// A suit first seen whole and not wrecked is missing nothing.
pub proof fn lemma_whole_suit_misses_nothing(parts: Seq<u8>)
    requires
        parts.len() == PART_COUNT,
        forall|p: int| 0 <= p < PART_COUNT ==> #[trigger] parts[p] > 0,
    ensures
        gone_roots(parts, false, 0) == Seq::<Bone>::empty(),
{
    reveal_with_fuel(gone_roots, 7);
    assert(parts[0] > 0 && parts[1] > 0 && parts[2] > 0 && parts[3] > 0 && parts[4] > 0 && parts[5] > 0);
    assert(gone_roots(parts, false, 0) =~= Seq::<Bone>::empty());
}

/// Plates come away once each: a part never sheds more than its three plates, a part shot from
/// full to nothing sheds all three, and wearing down in steps sheds the same plates as wearing down
/// at once.
pub proof fn lemma_plates_come_away_once(was: u8, mid: u8, now: u8)
    requires
        now <= mid <= was,
    ensures
        0 <= plates_shed(was, now) <= 3,
        plates_shed(FULL_ARMOUR, 0) == 3,
        plates_shed(was, mid) + plates_shed(mid, now) == plates_shed(was, now),
        plates_shed(was, was) == 0,
{
}

} // verus!
