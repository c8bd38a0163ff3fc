use before_colony::rig::{Bone, Part};
use before_colony::wear::Wear;

#[test]
fn a_suit_first_seen_damaged_just_looks_it() {
    let mut w = Wear::new();
    let gone = w.first_sight([7, 7, 0, 7, 0, 7], false).unwrap();
    assert_eq!(gone, vec![Bone::ShoulderL, Bone::ThighL, Bone::ThighR]);
    assert!(w.is_lost(Bone::HandL) && w.is_lost(Bone::Shield) && w.is_lost(Bone::FootR));
    assert!(!w.is_lost(Bone::HandR));
    assert!(w.first_sight([0; 6], true).is_none());
    assert_eq!(w.armour(Part::ArmL), 0);
}

#[test]
fn plates_come_away_and_a_part_breaks_off() {
    let mut w = Wear::new();
    w.first_sight([7; 6], false);
    let r = w.wear_part(Part::ArmR, 4);
    assert!(r.worn);
    assert_eq!(r.plates, 1);
    assert!(r.broken.is_empty());
    let r = w.wear_part(Part::ArmR, 0);
    assert_eq!(r.plates, 2);
    assert_eq!(r.broken, vec![Bone::ShoulderR]);
    assert!(w.is_lost(Bone::Weapon));
    // No change: nothing.
    let r = w.wear_part(Part::ArmR, 0);
    assert!(!r.worn && r.plates == 0 && r.broken.is_empty());
}

#[test]
fn a_dying_suit_comes_apart() {
    let mut w = Wear::new();
    w.first_sight([7; 6], false);
    w.wear_part(Part::Head, 0);
    let (died, changed) = w.die(true);
    assert!(changed);
    let died = died.unwrap();
    assert_eq!(
        died,
        vec![
            (Bone::ShoulderL, true),
            (Bone::ShoulderR, true),
            (Bone::ThighL, true),
            (Bone::ThighR, true),
            (Bone::Head, false),
            (Bone::Backpack, true)
        ]
    );
    assert!(w.wreck());
    assert!(!w.is_lost(Bone::Chest));
    let (again, changed) = w.die(true);
    assert!(again.is_none() && !changed);
}
