use before_colony::miner::{Buttons, Facts, Goal, Held, Mind};

fn calm() -> Facts {
    Facts {
        present: true,
        alive: true,
        tick: 10,
        held: None,
        cargo_kg: 0,
        capacity_kg: 400,
        full: false,
        docked: false,
        ore_near: false,
        rock_stands: false,
        nearest_rock: Some(3),
        at_face: false,
        left_arm: true,
        saber_ready: true,
    }
}

fn ore(mass_kg: u32) -> Held {
    Held { known: true, stowable: true, mass_kg }
}

#[test]
fn miner_waits_without_a_suit() {
    let mut m = Mind { hauling: true, rock: Some(1) };
    let (goal, b) = m.decide(Facts { present: false, ..calm() });
    assert_eq!(goal, Goal::Idle);
    assert_eq!(b, Buttons { grab: false, stow: false, fire: false, melee: false });
    assert_eq!(m, Mind { hauling: true, rock: Some(1) });
}

#[test]
fn miner_forgets_everything_when_dead() {
    let mut m = Mind { hauling: true, rock: Some(1) };
    let (goal, b) = m.decide(Facts { alive: false, ..calm() });
    assert_eq!(goal, Goal::Idle);
    assert!(!b.grab);
    assert_eq!(m, Mind::new());
}

#[test]
fn miner_picks_the_nearest_rock_and_swings_at_it() {
    let mut m = Mind::new();
    let (goal, b) = m.decide(calm());
    assert_eq!(goal, Goal::Rock(3));
    assert_eq!(m.rock, Some(3));
    assert!(b.grab && !b.melee && !b.fire);

    let (goal, b) = m.decide(Facts { at_face: true, rock_stands: true, nearest_rock: Some(7), ..calm() });
    assert_eq!(goal, Goal::Rock(3));
    assert!(b.melee && !b.fire);
    // A swing is a press: not on odd ticks.
    let (_, b) = m.decide(Facts { at_face: true, rock_stands: true, tick: 11, ..calm() });
    assert!(!b.melee);
    let (_, b) = m.decide(Facts { at_face: true, rock_stands: true, saber_ready: false, ..calm() });
    assert!(!b.melee);
}

#[test]
fn miner_without_its_saber_arm_shoots() {
    let mut m = Mind { hauling: false, rock: Some(3) };
    let (goal, b) = m.decide(Facts { at_face: true, rock_stands: true, left_arm: false, tick: 11, ..calm() });
    assert_eq!(goal, Goal::Rock(3));
    assert!(b.fire && !b.melee);
}

#[test]
fn miner_moves_on_when_the_rock_is_gone() {
    let mut m = Mind { hauling: false, rock: Some(3) };
    let (goal, _) = m.decide(Facts { rock_stands: false, nearest_rock: Some(8), ..calm() });
    assert_eq!(goal, Goal::Rock(8));
    let (goal, _) = m.decide(Facts { rock_stands: false, nearest_rock: None, ..calm() });
    assert_eq!(goal, Goal::Patrol);
    assert_eq!(m.rock, None);
}

#[test]
fn miner_gathers_loose_ore_first() {
    let mut m = Mind { hauling: false, rock: Some(3) };
    let (goal, b) = m.decide(Facts { ore_near: true, ..calm() });
    assert_eq!(goal, Goal::Ore);
    assert!(b.grab);
    assert_eq!(m.rock, Some(3));
}

#[test]
fn miner_stows_what_fits_on_even_ticks() {
    let mut m = Mind::new();
    let (goal, b) = m.decide(Facts { held: Some(ore(100)), cargo_kg: 300, ..calm() });
    assert!(b.stow);
    assert_eq!(goal, Goal::Rock(3));
    assert!(!m.hauling);
    let (_, b) = m.decide(Facts { held: Some(ore(100)), cargo_kg: 300, tick: 11, ..calm() });
    assert!(!b.stow);
    // A chunk not yet heard of is neither stowed nor a reason to sell.
    let (goal, b) = m.decide(Facts { held: Some(Held { known: false, ..ore(500) }), ..calm() });
    assert!(!b.stow);
    assert_eq!(goal, Goal::Rock(3));
}

#[test]
fn miner_hauls_what_will_not_fit() {
    let mut m = Mind::new();
    let (goal, b) = m.decide(Facts { held: Some(ore(101)), cargo_kg: 300, ..calm() });
    assert_eq!(goal, Goal::Dock);
    assert!(!b.stow);
    assert!(m.hauling);
    let mut m = Mind::new();
    let (goal, _) = m.decide(Facts { held: Some(Held { stowable: false, ..ore(1) }), ..calm() });
    assert_eq!(goal, Goal::Dock);
}

#[test]
fn miner_hauls_until_everything_is_sold() {
    let mut m = Mind::new();
    let (goal, _) = m.decide(Facts { full: true, cargo_kg: 400, ..calm() });
    assert_eq!(goal, Goal::Dock);
    assert!(m.hauling);
    let (goal, _) = m.decide(Facts { docked: true, cargo_kg: 200, ..calm() });
    assert_eq!(goal, Goal::Dock);
    assert!(m.hauling);
    let (goal, _) = m.decide(Facts { docked: true, cargo_kg: 0, ..calm() });
    assert_eq!(goal, Goal::Rock(3));
    assert!(!m.hauling);
}
