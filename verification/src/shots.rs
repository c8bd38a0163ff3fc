//! Drawing the pilot's own shot before the server confirms it.
//!
//! When a command fires the primary weapon and the weapon should be ready, the client draws the
//! beam at once and numbers it; the server's spawn event confirms it by that number. Only weapons
//! whose every shot is an event are drawn this way: a stream's tracers, a blade or a flame have
//! nothing to confirm.

use vstd::prelude::*;

verus! {

/// What the client knows of its own primary weapon when a command is generated.
#[derive(Clone, Copy, Debug, PartialEq, Eq, Structural)]
pub struct Trigger {
    /// The own suit is alive.
    pub alive: bool,
    /// The command holds the primary fire button.
    pub firing: bool,
    /// The server reports the primary weapon ready.
    pub ready: bool,
    /// The weapon has a primary mount at all.
    pub mounted: bool,
    /// Every shot of the weapon is replicated as an event.
    pub per_shot: bool,
    /// Ticks the weapon charges before it fires (0: none).
    pub charge_ticks: u32,
    /// Ticks between shots.
    pub cooldown: u16,
}

/// The numbering of predicted shots.
#[derive(Clone, Copy, Debug, PartialEq, Eq, Structural)]
pub struct ShotGate {
    /// The tick of the last predicted shot.
    pub last_shot_tick: u32,
    /// The number of the last predicted shot (wrapping).
    pub shot_seq: u8,
}

/// Whether a command at `tick` fires a shot the client should draw now.
pub open spec fn shot_due(g: ShotGate, t: Trigger, tick: u32) -> bool {
    &&& t.alive
    &&& t.firing
    &&& t.ready
    &&& t.mounted
    &&& t.per_shot
    &&& t.charge_ticks == 0
    &&& tick >= g.last_shot_tick + t.cooldown
}

impl ShotGate {
    /// No shot yet.
    pub fn new() -> (g: ShotGate)
        ensures
            g == (ShotGate { last_shot_tick: 0, shot_seq: 0 }),
    {
        ShotGate { last_shot_tick: 0, shot_seq: 0 }
    }

    /// Decides whether the command at `tick` fires a shot to draw now; if so, the shot is numbered
    /// (the next number, wrapping) and the cooldown restarts from `tick`. Returns whether to draw.
    pub fn try_fire(&mut self, t: Trigger, tick: u32) -> (fire: bool)
        requires
            old(self).last_shot_tick + t.cooldown <= u32::MAX || !(t.alive && t.firing && t.ready
                && t.mounted && t.per_shot && t.charge_ticks == 0),
        ensures
            fire == shot_due(*old(self), t, tick),
            *final(self) == if fire {
                ShotGate { last_shot_tick: tick, shot_seq: old(self).shot_seq.wrapping_add(1) }
            } else {
                *old(self)
            },
    {
        if !t.alive || !t.firing || !t.ready || !t.mounted {
            return false;
        }
        if !t.per_shot || t.charge_ticks > 0 || tick < self.last_shot_tick + t.cooldown as u32 {
            return false;
        }
        self.last_shot_tick = tick;
        self.shot_seq = self.shot_seq.wrapping_add(1);
        true
    }
}

/// Predicted shots keep their spacing: after a shot at `tick`, the next comes no sooner than the
/// cooldown.
pub proof fn lemma_cooldown_respected(g: ShotGate, t: Trigger, tick: u32, later: u32)
    requires
        shot_due(g, t, tick),
        shot_due(ShotGate { last_shot_tick: tick, shot_seq: g.shot_seq.wrapping_add(1) }, t, later),
    ensures
        later >= tick + t.cooldown,
{
}

/// A shot is drawn only for a live suit holding the fire button with a mounted weapon that the
/// server reports ready, that fires each shot as an event without charging, and only once its
/// cooldown since the last drawn shot has passed; and then whenever all of that holds.
pub proof fn lemma_only_ready_weapons_fire(g: ShotGate, t: Trigger, tick: u32)
    ensures
        shot_due(g, t, tick) ==> t.alive && t.firing && t.ready && t.mounted,
        shot_due(g, t, tick) ==> t.per_shot && t.charge_ticks == 0 && tick >= g.last_shot_tick + t.cooldown,
        !t.ready ==> !shot_due(g, t, tick),
        t.alive && t.firing && t.ready && t.mounted && t.per_shot && t.charge_ticks == 0 && tick
            >= g.last_shot_tick + t.cooldown ==> shot_due(g, t, tick),
{
}

} // verus!
