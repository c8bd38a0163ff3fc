use before_colony::session::{accepts_snapshot, Control, Phase, Session, Welcome};

#[derive(Clone, Copy, Debug, PartialEq, Eq)]
enum Reason {
    VersionMismatch,
    Full,
}

fn welcome() -> Welcome {
    Welcome { client_slot: 3, tick_hz: 30, zero_allowed: true, max_datagram: 1200, field_seed: 9, field_rocks: 40 }
}

#[test]
fn a_welcome_enters_the_game() {
    let mut s: Session<Reason, u8> = Session::new();
    assert_eq!(s.phase(), Phase::Handshake);
    assert!(s.handle_control(Control::Welcome { version: 7, welcome: welcome() }, 7, Reason::VersionMismatch));
    assert!(s.in_game());
    assert_eq!(s.welcome(), Some(welcome()));
    assert!(!s.handle_control(Control::Bye, 7, Reason::VersionMismatch));
    assert_eq!(s.phase(), Phase::Closed);
}

#[test]
fn another_version_is_rejected() {
    let mut s: Session<Reason, u8> = Session::new();
    assert!(!s.handle_control(Control::Welcome { version: 6, welcome: welcome() }, 7, Reason::VersionMismatch));
    assert_eq!(s.phase(), Phase::Rejected(Reason::VersionMismatch));
    assert_eq!(s.welcome(), None);
    s.handle_control(Control::Reject { reason: Reason::Full }, 7, Reason::VersionMismatch);
    assert_eq!(s.phase(), Phase::Rejected(Reason::Full));
}

#[test]
fn the_roster_names_pilots() {
    let mut s: Session<Reason, u8> = Session::new();
    s.handle_control(Control::Roster { slot: 4, pilot: 1, name: "Heero".to_string() }, 7, Reason::VersionMismatch);
    assert_eq!(s.roster_entry(4), Some(&("Heero".to_string(), 1)));
    s.handle_control(Control::Roster { slot: 4, pilot: 1, name: String::new() }, 7, Reason::VersionMismatch);
    assert_eq!(s.roster_entry(4), None);
    s.close();
    assert_eq!(s.phase(), Phase::Closed);
}

#[test]
fn stale_snapshots_are_dropped() {
    assert!(accepts_snapshot(5, 0, 0));
    assert!(accepts_snapshot(5, 9, 0));
    assert!(!accepts_snapshot(9, 9, 3));
    assert!(accepts_snapshot(10, 9, 3));
}
