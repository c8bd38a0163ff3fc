use before_colony::track::EntityTrack;

#[derive(Clone, Copy, Debug, Default, PartialEq)]
struct State {
    flags: u16,
}

fn state(flags: u16) -> State {
    State { flags }
}

fn at(t: f64) -> i64 {
    t.floor() as i64
}

#[test]
fn state_follows_the_drawn_time() {
    let mut track = EntityTrack::new(10, state(1));
    track.push(12, state(2));
    track.push(14, state(4));
    assert_eq!(track.state_at(at(9.0)).flags, 1);
    assert_eq!(track.state_at(at(11.5)).flags, 1);
    assert_eq!(track.state_at(at(12.0)).flags, 2);
    assert_eq!(track.state_at(at(13.9)).flags, 2);
    assert_eq!(track.state_at(at(20.0)).flags, 4);
}

#[test]
fn out_of_order_samples_are_ignored() {
    let mut track = EntityTrack::new(10, state(1));
    track.push(12, state(2));
    track.push(11, state(9));
    track.push(12, state(9));
    assert_eq!(track.len(), 2);
    assert_eq!(track.latest(), state(2));
    assert_eq!(track.latest_tick(), 12);
}

#[test]
fn a_full_track_forgets_the_oldest() {
    let mut track = EntityTrack::new(0, state(0));
    for t in 1..20u32 {
        track.push(t, state(t as u16));
    }
    assert_eq!(track.len(), 8);
    assert_eq!(track.get(0), (12, state(12)));
    assert_eq!(track.get(7), (19, state(19)));
    assert_eq!(track.state_at(at(3.0)).flags, 12);
}
