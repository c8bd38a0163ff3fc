use before_colony::rig::{all, bones_of, breaks, under, Bone, ChunkKind, Part, Side, BONES};

#[test]
fn parents_come_first_and_indices_match() {
    for (i, b) in all().iter().enumerate() {
        assert_eq!(b.index(), i);
        if let Some(p) = b.parent() {
            assert!(p.index() < i, "{b:?} comes before its parent");
        }
    }
    assert_eq!(all().len(), BONES);
}

#[test]
fn breaking_a_part_takes_its_bones() {
    for part in [Part::Head, Part::Torso, Part::ArmL, Part::ArmR, Part::Legs, Part::Backpack] {
        for b in all() {
            let gone = breaks(part).iter().any(|r| under(b, *r));
            assert_eq!(gone, part != Part::Torso && b.part() == part, "{part:?} {b:?}");
        }
    }
    assert!(under(Bone::HandL, Bone::ShoulderL));
    assert!(under(Bone::Shield, Bone::Chest));
    assert!(!under(Bone::Weapon, Bone::ShoulderL));
    assert!(under(Bone::Torso, Bone::Torso));
}

#[test]
fn chunks_carry_their_bones() {
    assert!(bones_of(ChunkKind::Ore { ore: 2 }).is_empty());
    assert_eq!(bones_of(ChunkKind::Limb { part: Part::Head }), vec![Bone::Head]);
    assert_eq!(
        bones_of(ChunkKind::Limb { part: Part::Backpack }),
        vec![Bone::Backpack, Bone::WingL, Bone::WingR]
    );
    // A hulk with only its head (bit 0) and legs (bit 4).
    assert_eq!(
        bones_of(ChunkKind::Hulk { parts: 0b1_0001 }),
        vec![Bone::Head, Bone::ThighL, Bone::ShinL, Bone::FootL, Bone::ThighR, Bone::ShinR, Bone::FootR]
    );
}

#[test]
fn sides_pick() {
    assert_eq!(Side::L.pick(1, 2), 1);
    assert_eq!(Side::R.pick("l", "r"), "r");
    assert_eq!(Side::both(), [Side::L, Side::R]);
}
