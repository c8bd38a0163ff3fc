use before_colony::ledger::{FeedLine, Ledger};

#[test]
fn each_event_is_taken_in_once() {
    let mut l = Ledger::new();
    assert!(l.first_time(7));
    assert!(!l.first_time(7));
    assert!(l.first_time(8));
}

#[test]
fn kills_and_hits_are_tallied_for_me() {
    let mut l = Ledger::new();
    let me = Some(3);
    assert!(l.on_hit(1, 9, 3, me));
    assert!(!l.on_hit(1, 9, 3, me));
    assert!(l.on_hit(2, 3, 9, me));
    assert_eq!((l.my_hits(), l.hits_taken()), (1, 1));
    assert!(l.on_kill(4, 100, 9, 3, Some(77), me));
    assert_eq!(l.my_kills(), 1);
    assert_eq!(l.hulk_of(9), Some(77));
    // A suicide is a death, not a kill.
    assert!(l.on_kill(5, 120, 3, 3, None, me));
    assert_eq!((l.my_kills(), l.my_deaths()), (1, 1));
    assert_eq!(l.hulk_of(3), None);
    assert_eq!(l.feed_len(), 2);
    assert_eq!(l.feed_line(1), FeedLine::Kill { tick: 120, victim: 3, killer: 3 });
}

#[test]
fn the_feed_keeps_the_newest_eight() {
    let mut l = Ledger::new();
    for k in 0..12u16 {
        assert!(l.on_clash(k, u32::from(k), 1, 2));
    }
    assert!(l.on_seizure(100, 50, 4, true));
    assert_eq!(l.feed_len(), 8);
    assert_eq!(l.feed_line(0), FeedLine::Clash { tick: 5, a: 1, b: 2 });
    assert_eq!(l.feed_line(7), FeedLine::Seizure { tick: 50, pilot: 4, active: true });
}

#[test]
fn only_the_newest_ids_are_remembered() {
    let mut l = Ledger::new();
    for id in 0..600u16 {
        assert!(l.first_time(id));
    }
    // Forgotten: the oldest 88 ids.
    assert!(l.first_time(0));
    assert!(!l.first_time(599));
}
