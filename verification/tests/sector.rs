use before_colony::ledger::FeedLine;
use before_colony::world::{Event, World};

type Ev = Event<char, u8>;
type W = World<u16, char, u8, u32, u8>;

fn me(slot: u16) -> Option<(u16, u32)> {
    Some((slot, 500))
}

const NOEV: [Ev; 0] = [];

fn kill(id: u16, tick: u32, victim: u16, killer: u16) -> Ev {
    Event::Kill { id, tick, victim, killer, hulk: Some(40 + victim) }
}

#[test]
fn snapshots_build_the_tracks() {
    let mut w: W = World::new(8);
    let notes = w.apply(100, me(1), None, &NOEV, &[(2, 1, 20), (1, 1, 10), (3, 4, 30)]);
    assert!(notes.is_empty());
    assert_eq!(w.tick(), 100);
    // The own suit is not tracked here.
    assert!(w.entities().get(1).is_none());
    assert_eq!(w.entities().get(2).unwrap().latest(), 20);
    assert_eq!(w.entities().get(3).unwrap().latest_tick(), 100);
    w.apply(101, me(1), None, &NOEV, &[(2, 1, 21)]);
    assert_eq!(w.entities().get(2).unwrap().len(), 2);
    // A new generation in a slot starts a fresh track.
    w.apply(102, me(1), None, &NOEV, &[(2, 2, 22)]);
    assert_eq!(w.entities().get(2).unwrap().len(), 1);
}

#[test]
fn older_snapshots_change_nothing() {
    let mut w: W = World::new(8);
    w.apply(100, None, None, &NOEV, &[(2, 1, 20)]);
    let notes = w.apply(99, None, None, &[kill(5, 99, 2, 3)], &[(3, 1, 30)]);
    assert!(notes.is_empty());
    assert_eq!(w.tick(), 100);
    assert!(w.entities().get(3).is_none());
    assert_eq!(w.ledger().feed_len(), 0);
    // The same tick again is applied (the caller drops repeated snapshots).
    w.apply(100, None, None, &NOEV, &[(3, 1, 30)]);
    assert!(w.entities().get(3).is_some());
}

#[test]
fn events_are_taken_in_once() {
    let mut w: W = World::new(8);
    let evs = [kill(5, 100, 2, 1), Event::Clash { id: 6, tick: 100, a: 3, b: 4 }];
    w.apply(100, me(1), None, &evs, &[]);
    w.apply(101, me(1), None, &evs, &[]);
    assert_eq!(w.ledger().feed_len(), 2);
    assert_eq!(w.ledger().feed_line(0), FeedLine::Kill { tick: 100, victim: 2, killer: 1 });
    assert_eq!(w.ledger().feed_line(1), FeedLine::Clash { tick: 100, a: 3, b: 4 });
    assert_eq!(w.ledger().my_kills(), 1);
    assert_eq!(w.ledger().hulk_of(2), Some(42));
}

#[test]
fn hits_come_back_with_the_beam_that_hit() {
    let mut w: W = World::new(8);
    w.predict_beam(1, 9, 99, 20, 'p');
    let spawn = Event::BeamSpawn { id: 7, tick: 100, shooter: 1, shot_seq: 9, ttl_ticks: 20, look: 'x' };
    let other = Event::BeamSpawn { id: 8, tick: 100, shooter: 3, shot_seq: 9, ttl_ticks: 20, look: 'y' };
    let hit = Event::Hit { id: 9, tick: 102, target: 1, shooter: 3, beam_weapon: true, what: 4u8 };
    let notes = w.apply(102, me(1), None, &[spawn, other, hit, Event::Detach, Event::RockBreak], &[]);
    // Our own shot was confirmed (and kept its look), the other's beam joined and then hit us.
    assert_eq!(w.beams().len(), 1);
    let own = w.beams().get(0);
    assert_eq!((own.id, own.predicted, own.look), (7, false, 'p'));
    assert_eq!(notes.len(), 1);
    let n = &notes[0];
    assert_eq!((n.tick, n.target, n.shooter, n.by_me, n.on_me, n.what), (102, 1, 3, false, true, 4));
    assert_eq!(n.beam.unwrap().look, 'y');
    assert_eq!(w.ledger().hits_taken(), 1);
    // Repeated in the next snapshot: nothing new.
    let again = w.apply(103, me(1), None, &[spawn, other, hit], &[]);
    assert!(again.is_empty());
    assert_eq!(w.beams().len(), 1);
    assert_eq!(w.ledger().hits_taken(), 1);
}

#[test]
fn leaving_and_going_stale() {
    let mut w: W = World::new(8);
    w.apply(100, None, None, &NOEV, &[(2, 1, 20), (3, 1, 30)]);
    // A departure older than the track's news is stale news itself.
    w.apply(101, None, None, &[Event::Leave { tick: 100, slot: 2 }], &[(2, 1, 21)]);
    assert!(w.entities().get(2).is_some());
    w.apply(102, None, None, &[Event::Leave { tick: 102, slot: 2 }], &[]);
    assert!(w.entities().get(2).is_none());
    // Slot 3 has heard nothing since tick 100: gone after 90 ticks of silence.
    w.apply(190, None, None, &NOEV, &[]);
    assert!(w.entities().get(3).is_some());
    w.apply(191, None, None, &NOEV, &[]);
    assert!(w.entities().get(3).is_none());
}

#[test]
fn unconfirmed_shots_fade() {
    let mut w: W = World::new(4);
    w.predict_beam(1, 1, 100, 60, 'p');
    w.prune(145);
    assert_eq!(w.beams().len(), 1);
    w.prune(146);
    assert_eq!(w.beams().len(), 0);
}

#[test]
fn snapshots_carry_the_own_suit_and_the_zero_word() {
    let mut w: W = World::new(8);
    assert_eq!(w.own_slot(), None);
    w.apply(100, Some((3, 77)), Some(9), &NOEV, &[]);
    assert_eq!(*w.own(), Some((3, 77)));
    assert_eq!(w.own_slot(), Some(3));
    assert_eq!(*w.zero(), Some(9));
    // An older snapshot changes nothing.
    w.apply(99, Some((4, 1)), None, &NOEV, &[]);
    assert_eq!(*w.own(), Some((3, 77)));
    assert_eq!(*w.zero(), Some(9));
    // The newest says the suit is gone.
    w.apply(101, None, None, &NOEV, &[]);
    assert_eq!(*w.own(), None);
    assert_eq!(*w.zero(), None);
}

#[test]
fn hit_marks_are_kept_sixty_ticks() {
    let mut w: W = World::new(8);
    let hit = |id: u16, tick: u32| -> Ev { Event::Hit { id, tick, target: 2, shooter: 1, beam_weapon: false, what: 0 } };
    w.apply(100, me(1), None, &[hit(1, 100)], &[]);
    w.apply(130, me(1), None, &[hit(2, 130)], &[]);
    assert_eq!(w.hits().len(), 2);
    assert!(w.hits()[0].by_me && w.hits()[0].beam.is_none());
    w.apply(160, me(1), None, &NOEV, &[]);
    w.prune(160);
    assert_eq!(w.hits().len(), 2);
    w.apply(161, me(1), None, &NOEV, &[]);
    w.prune(161);
    assert_eq!(w.hits().len(), 1);
    assert_eq!(w.hits()[0].tick, 130);
}
