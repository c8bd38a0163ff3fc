use before_colony::beams::{Beam, Beams};

#[test]
fn own_shots_are_confirmed_by_their_number() {
    let mut b: Beams<char> = Beams::new();
    b.predict(4, 7, 100, 20, 'a');
    b.predict(4, 8, 103, 20, 'b');
    assert_eq!(b.len(), 2);
    assert!(b.get(0).predicted && b.get(0).id == 0);
    // The server's word on shot 8: that beam is confirmed and keeps its place.
    assert!(b.spawned(900, 4, 8, 103, 20, 'z', Some(4)));
    assert_eq!(b.len(), 2);
    let c = b.get(1);
    assert!(!c.predicted);
    assert_eq!((c.id, c.shot_seq, c.look), (900, 8, 'b'));
    assert!(b.get(0).predicted);
}

#[test]
fn other_shots_join() {
    let mut b: Beams<char> = Beams::new();
    b.predict(4, 7, 100, 20, 'a');
    // Someone else's shot with the same number is a beam of its own.
    assert!(!b.spawned(901, 5, 7, 100, 30, 'c', Some(4)));
    assert_eq!(b.len(), 2);
    let n = b.get(1);
    assert_eq!((n.id, n.shooter, n.spawn_tick, n.ttl_ticks, n.predicted, n.look), (901, 5, 100, 30, false, 'c'));
    // Our own spawn with nothing waiting under its number joins too.
    assert!(!b.spawned(902, 4, 9, 101, 30, 'd', Some(4)));
    assert_eq!(b.len(), 3);
    // Before the client knows its slot nothing is confirmed.
    assert!(!b.spawned(903, 4, 7, 101, 30, 'e', None));
    assert_eq!(b.len(), 4);
    assert!(b.get(0).predicted);
}

#[test]
fn a_hit_stops_the_first_beam_in_flight() {
    let mut b: Beams<char> = Beams::new();
    b.spawned(1, 5, 0, 100, 10, 'a', None);
    b.spawned(2, 5, 1, 104, 10, 'b', None);
    b.spawned(3, 6, 0, 104, 10, 'c', None);
    // Not a beam weapon: nothing stops.
    assert!(b.hit(5, 105, false).is_none());
    assert_eq!(b.len(), 3);
    let gone: Beam<char> = b.hit(5, 105, true).unwrap();
    assert_eq!((gone.id, gone.look), (1, 'a'));
    assert_eq!(b.len(), 2);
    // The first beam of 5 is out of flight by tick 111; the second is still in it.
    assert_eq!(b.hit(5, 114, true).unwrap().id, 2);
    // From the tick before it left the muzzle.
    assert_eq!(b.hit(6, 103, true).unwrap().id, 3);
    assert!(b.hit(6, 103, true).is_none());
}

#[test]
fn a_hit_before_a_beam_flies_stops_nothing() {
    let mut b: Beams<char> = Beams::new();
    b.spawned(1, 5, 0, 100, 10, 'a', None);
    assert!(b.hit(5, 98, true).is_none());
    assert!(b.hit(5, 111, true).is_none());
    assert!(b.hit(7, 105, true).is_none());
    assert_eq!(b.len(), 1);
}

#[test]
fn beams_leave_when_their_flight_ends() {
    let mut b: Beams<char> = Beams::new();
    b.spawned(1, 5, 0, 100, 10, 'a', None);
    b.predict(4, 1, 100, 60, 'b');
    b.spawned(2, 5, 1, 100, 80, 'c', None);
    b.prune(110);
    assert_eq!(b.len(), 3);
    b.prune(111);
    assert_eq!(b.len(), 2);
    // An own shot left unconfirmed goes after 45 ticks, though it would fly longer.
    b.prune(145);
    assert_eq!(b.len(), 2);
    b.prune(146);
    assert_eq!(b.len(), 1);
    assert_eq!(b.get(0).look, 'c');
    b.prune(181);
    assert_eq!(b.len(), 0);
}
