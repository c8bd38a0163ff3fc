use before_colony::entities::EntityTable;
use before_colony::salvage::SalvageView;
use before_colony::shots::{ShotGate, Trigger};

fn rifle() -> Trigger {
    Trigger { alive: true, firing: true, ready: true, mounted: true, per_shot: true, charge_ticks: 0, cooldown: 10 }
}

#[test]
fn predicted_shots_keep_their_cooldown() {
    let mut g = ShotGate::new();
    assert!(g.try_fire(rifle(), 100));
    assert_eq!(g.shot_seq, 1);
    assert!(!g.try_fire(rifle(), 105));
    assert!(g.try_fire(rifle(), 110));
    assert_eq!((g.last_shot_tick, g.shot_seq), (110, 2));
    assert!(!g.try_fire(Trigger { charge_ticks: 5, ..rifle() }, 200));
    assert!(!g.try_fire(Trigger { per_shot: false, ..rifle() }, 200));
    let mut g = ShotGate { last_shot_tick: 0, shot_seq: 255 };
    assert!(g.try_fire(rifle(), 50));
    assert_eq!(g.shot_seq, 0);
}

#[test]
fn the_hold() {
    let v = SalvageView { cargo_kg: [100u16, 200, 0, 50], capacity_kg: 400, held: None, credits: 0, docked: false };
    assert_eq!(v.cargo_total_kg(), 350);
    assert_eq!(v.room_kg(), 50);
    assert!(v.fits(50));
    assert!(!v.fits(51));
    let over = SalvageView { capacity_kg: 300, ..v };
    assert_eq!(over.room_kg(), 0);
}

#[test]
fn tracks_follow_their_slots() {
    let mut t: EntityTable<u16> = EntityTable::new(4);
    t.apply_state(10, 2, 1, 100);
    t.apply_state(11, 2, 1, 101);
    assert_eq!(t.get(2).unwrap().len(), 2);
    // A new generation in the slot: a fresh track.
    t.apply_state(12, 2, 2, 200);
    assert_eq!(t.get(2).unwrap().len(), 1);
    assert!(t.get(9).is_none());
    // A departure before the newest news leaves the track.
    t.leave(11, 2);
    assert!(t.get(2).is_some());
    t.leave(12, 2);
    assert!(t.get(2).is_none());
    t.apply_state(20, 1, 0, 7);
    t.prune_stale(110);
    assert!(t.get(1).is_some());
    t.prune_stale(111);
    assert!(t.get(1).is_none());
}
