//! The client's session with the sector: the handshake, what the server told it, and the roster
//! of pilots' names, driven by the control stream's messages.

use std::collections::HashMap;
use vstd::prelude::*;

verus! {

broadcast use vstd::std_specs::hash::group_hash_axioms;

/// What the server told us at the handshake.
#[derive(Clone, Copy, Debug, PartialEq, Eq, Structural)]
pub struct Welcome {
    pub client_slot: u16,
    pub tick_hz: u8,
    pub zero_allowed: bool,
    pub max_datagram: u16,
    /// The sector's debris field.
    pub field_seed: u32,
    pub field_rocks: u16,
}

/// Where the session stands. `R` is the server's reason for a rejection.
#[derive(Clone, Copy, Debug, PartialEq, Eq)]
pub enum Phase<R> {
    Handshake,
    InGame,
    Rejected(R),
    Closed,
}

/// A control-stream message, with what the session reads of it. `R` is a rejection reason, `P`
/// a pilot kind.
pub enum Control<R, P> {
    Welcome { version: u16, welcome: Welcome },
    Reject { reason: R },
    /// A pilot's name for a slot; an empty name clears the slot.
    Roster { slot: u16, pilot: P, name: String },
    Bye,
    Hello,
    Respawn,
}

/// The session.
pub struct Session<R, P> {
    phase: Phase<R>,
    welcome: Option<Welcome>,
    roster: HashMap<u16, (String, P)>,
}

impl<R: Copy, P> Session<R, P> {
    pub closed spec fn phase_spec(&self) -> Phase<R> {
        self.phase
    }

    pub closed spec fn welcome_spec(&self) -> Option<Welcome> {
        self.welcome
    }

    pub closed spec fn roster_spec(&self) -> Map<u16, (String, P)> {
        self.roster@
    }

    /// A session at the handshake, told nothing yet.
    pub fn new() -> (s: Self)
        ensures
            s.phase_spec() == Phase::<R>::Handshake,
            s.welcome_spec() is None,
            s.roster_spec().is_empty(),
    {
        Session { phase: Phase::Handshake, welcome: None, roster: HashMap::new() }
    }

    /// Where the session stands.
    pub fn phase(&self) -> (p: Phase<R>)
        ensures
            p == self.phase_spec(),
    {
        self.phase
    }

    /// What the server told us at the handshake, once it has.
    pub fn welcome(&self) -> (w: Option<Welcome>)
        ensures
            w == self.welcome_spec(),
    {
        self.welcome
    }

    /// Whether the session is in the game.
    pub fn in_game(&self) -> (b: bool)
        ensures
            b == (self.phase_spec() matches Phase::InGame),
    {
        match self.phase {
            Phase::InGame => true,
            _ => false,
        }
    }

    /// The name and pilot kind on the roster for `slot`.
    pub fn roster_entry(&self, slot: u16) -> (e: Option<&(String, P)>)
        ensures
            e matches Some(v) ==> self.roster_spec().contains_key(slot) && *v == self.roster_spec()[slot],
            e is None ==> !self.roster_spec().contains_key(slot),
    {
        self.roster.get(&slot)
    }

    /// The control stream broke (bytes that do not decode): the session is over.
    pub fn close(&mut self)
        ensures
            final(self).phase_spec() == Phase::<R>::Closed,
            final(self).welcome_spec() == old(self).welcome_spec(),
            final(self).roster_spec() == old(self).roster_spec(),
    {
        self.phase = Phase::Closed;
    }

    /// Applies a control message. A welcome for another protocol version rejects the session; a
    /// welcome for `version` records what the server said and enters the game (the caller then
    /// builds the sector's debris field from it). Returns whether the game was entered.
    pub fn handle_control(&mut self, msg: Control<R, P>, version: u16, mismatch: R) -> (entered:
        bool)
        ensures
            entered == (msg matches Control::Welcome { version: v, .. } && v == version),
            match msg {
                Control::Welcome { version: v, welcome } => if v != version {
                    &&& final(self).phase_spec() == Phase::Rejected(mismatch)
                    &&& final(self).welcome_spec() == old(self).welcome_spec()
                    &&& final(self).roster_spec() == old(self).roster_spec()
                } else {
                    &&& final(self).phase_spec() == Phase::<R>::InGame
                    &&& final(self).welcome_spec() == Some(welcome)
                    &&& final(self).roster_spec() == old(self).roster_spec()
                },
                Control::Reject { reason } => {
                    &&& final(self).phase_spec() == Phase::Rejected(reason)
                    &&& final(self).welcome_spec() == old(self).welcome_spec()
                    &&& final(self).roster_spec() == old(self).roster_spec()
                },
                Control::Roster { slot, pilot, name } => {
                    &&& final(self).phase_spec() == old(self).phase_spec()
                    &&& final(self).welcome_spec() == old(self).welcome_spec()
                    &&& final(self).roster_spec() == if name@.len() == 0 {
                        old(self).roster_spec().remove(slot)
                    } else {
                        old(self).roster_spec().insert(slot, (name, pilot))
                    }
                },
                Control::Bye => {
                    &&& final(self).phase_spec() == Phase::<R>::Closed
                    &&& final(self).welcome_spec() == old(self).welcome_spec()
                    &&& final(self).roster_spec() == old(self).roster_spec()
                },
                _ => {
                    &&& final(self).phase_spec() == old(self).phase_spec()
                    &&& final(self).welcome_spec() == old(self).welcome_spec()
                    &&& final(self).roster_spec() == old(self).roster_spec()
                },
            },
    {
        match msg {
            Control::Welcome { version: v, welcome } => {
                if v != version {
                    self.phase = Phase::Rejected(mismatch);
                    return false;
                }
                self.welcome = Some(welcome);
                self.phase = Phase::InGame;
                true
            },
            Control::Reject { reason } => {
                self.phase = Phase::Rejected(reason);
                false
            },
            Control::Roster { slot, pilot, name } => {
                if name.as_str().is_empty() {
                    let _ = self.roster.remove(&slot);
                } else {
                    let _ = self.roster.insert(slot, (name, pilot));
                }
                false
            },
            Control::Bye => {
                self.phase = Phase::Closed;
                false
            },
            Control::Hello | Control::Respawn => false,
        }
    }
}

/// Whether a snapshot for `tick` is worth applying: the first one always is; after that, only
/// one newer than the newest applied (a duplicate or a reordered one repeats nothing new).
pub fn accepts_snapshot(tick: u32, world_tick: u32, snapshots: u64) -> (b: bool)
    ensures
        b == (snapshots == 0 || tick > world_tick),
{
    !(tick <= world_tick && snapshots > 0)
}

} // verus!
