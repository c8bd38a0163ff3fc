use before_colony::history::InputHistory;
use before_colony::schedule::{due_ticks, packet_windows};

#[test]
fn a_command_is_read_back_until_its_slot_is_reused() {
    let mut h: InputHistory<u8> = InputHistory::new();
    assert_eq!(h.get(0), None);
    h.push(5, 50);
    assert_eq!(h.get(5), Some(50));
    assert_eq!(h.newest(), 5);
    h.push(5 + 128, 7);
    assert_eq!(h.get(5), None);
    assert_eq!(h.get(133), Some(7));
    h.push(6, 60);
    assert_eq!(h.newest(), 133);
    assert_eq!(h.get(6), Some(60));
}

#[test]
fn the_first_command_starts_a_few_ticks_back() {
    // First poll: the input clock is at 100, nothing sent yet.
    assert_eq!(due_ticks(0, 100, 0), (101, Some((97, 100))));
    // Caught up: nothing due.
    assert_eq!(due_ticks(101, 100, 100), (101, None));
    // One more tick.
    assert_eq!(due_ticks(101, 101, 100), (102, Some((101, 101))));
    // After a stall, resume a few ticks back, after what was sent.
    assert_eq!(due_ticks(101, 200, 100), (201, Some((197, 200))));
    assert_eq!(due_ticks(0, 2, 0), (3, Some((1, 2))));
}

#[test]
fn a_burst_goes_out_in_overlapping_windows() {
    let mut h: InputHistory<u32> = InputHistory::new();
    for t in 10..=15u32 {
        h.push(t, t * 10);
    }
    let p = packet_windows(&h, 13, 15);
    assert_eq!(p, vec![vec![150, 140, 130, 120], vec![130, 120, 110, 100]]);
    let p = packet_windows(&h, 15, 15);
    assert_eq!(p, vec![vec![150, 140, 130, 120]]);
    // The oldest commands run out at tick 10.
    let p = packet_windows(&h, 10, 11);
    assert_eq!(p, vec![vec![110, 100]]);
}

#[test]
fn reconciling_replays_the_unacknowledged_commands() {
    let mut h: InputHistory<u32> = InputHistory::new();
    for t in 10..=15u32 {
        h.push(t, t * 10);
    }
    assert_eq!(h.replay(12, 15), (vec![130, 140, 150], 15));
    // Tick 16 was never sent: the replay stops there.
    assert_eq!(h.replay(12, 20), (vec![130, 140, 150], 16));
    // The server is ahead of the prediction: nothing to replay.
    assert_eq!(h.replay(15, 10), (vec![], 15));
}

#[test]
fn a_command_stays_until_its_slot_is_reused() {
    let mut h: InputHistory<u32> = InputHistory::new();
    h.push(5, 500);
    for t in 6..=132u32 {
        h.push(t, t * 10);
    }
    assert_eq!(h.get(5), Some(500));
    assert_eq!(h.get(132), Some(1320));
    // Never pushed: nothing.
    assert_eq!(h.get(4), None);
    assert_eq!(h.get(200), None);
    h.push(133, 1330);
    assert_eq!(h.get(5), None);
    assert_eq!(h.get(133), Some(1330));
}
