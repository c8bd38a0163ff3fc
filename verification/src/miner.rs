//! The miner's decisions. It works the nearest standing rock with its saber (its rifle, if the
//! saber arm has been shot off); its free hand takes each chip of ore knocked off, and stows it.
//! When the rock shatters it gathers up the ore, and when the hold is full (or it has something in
//! hand that won't fit) it takes it to the dock to sell. (Distances, and flying there, are worked
//! out by the caller, which hands the decisions what it measured.)

use vstd::prelude::*;

verus! {

/// What the miner knows of the chunk in its hand.
#[derive(Clone, Copy, Debug, PartialEq, Eq, Structural)]
pub struct Held {
    /// The client has heard what the chunk is.
    pub known: bool,
    /// It may go in the hold.
    pub stowable: bool,
    pub mass_kg: u32,
}

/// What the miner measured of its situation this tick.
#[derive(Clone, Copy, Debug, PartialEq, Eq, Structural)]
pub struct Facts {
    /// It has a suit and a view of its hold.
    pub present: bool,
    pub alive: bool,
    pub tick: u32,
    /// The chunk in hand, if any.
    pub held: Option<Held>,
    /// Everything in the hold, kg, and what it takes.
    pub cargo_kg: u32,
    pub capacity_kg: u32,
    /// The hold is as full as it gets before selling.
    pub full: bool,
    /// At the dock, slow enough to trade.
    pub docked: bool,
    /// Loose ore that fits lies within reach.
    pub ore_near: bool,
    /// The rock it was working still stands (and is not too big).
    pub rock_stands: bool,
    /// The nearest standing rock small enough to work.
    pub nearest_rock: Option<usize>,
    /// It holds station off the rock's face.
    pub at_face: bool,
    /// The left arm (saber and grabbing hand) is still on.
    pub left_arm: bool,
    /// The saber is ready to swing.
    pub saber_ready: bool,
}

/// Where the miner heads.
#[derive(Clone, Copy, Debug, PartialEq, Eq, Structural)]
pub enum Goal {
    /// Nothing: coast with flight assist.
    Idle,
    /// To the dock, round the colony.
    Dock,
    /// To the nearest loose ore, bringing the free hand to it.
    Ore,
    /// To the face of the rock it works.
    Rock(usize),
    /// To where the fighting is (no rock to work).
    Patrol,
}

/// The buttons held (flight assist is always on).
#[derive(Clone, Copy, Debug, PartialEq, Eq, Structural)]
pub struct Buttons {
    pub grab: bool,
    pub stow: bool,
    pub fire: bool,
    pub melee: bool,
}

/// What the miner remembers between ticks.
#[derive(Clone, Copy, Debug, PartialEq, Eq, Structural)]
pub struct Mind {
    /// On its way to sell.
    pub hauling: bool,
    /// The rock it is working, by index in the field.
    pub rock: Option<usize>,
}

pub open spec fn even(t: u32) -> bool {
    t % 2 == 0
}

/// Whether the chunk in hand goes in the hold: a chunk heard of, stowable, that fits.
pub open spec fn stows(f: Facts) -> bool {
    f.held matches Some(h) && h.known && h.stowable && f.cargo_kg + h.mass_kg <= f.capacity_kg
}

/// Whether it is set to sell this tick: it was already, or the hold is full, or the chunk in hand
/// will not go in.
pub open spec fn sets_out(m: Mind, f: Facts) -> bool {
    m.hauling || f.full || (f.held matches Some(h) && h.known && !stows(f))
}

/// Whether it has sold everything: docked, an empty hold and an empty hand.
pub open spec fn sold(f: Facts) -> bool {
    f.docked && f.cargo_kg == 0 && f.held is None
}

/// The rock it works after this tick's look round.
pub open spec fn rock_after(m: Mind, f: Facts) -> Option<usize> {
    if m.rock is Some && f.rock_stands {
        m.rock
    } else {
        f.nearest_rock
    }
}

/// One tick's decisions: the mind after, where to head, and the buttons.
pub open spec fn decide_spec(m: Mind, f: Facts) -> (Mind, Goal, Buttons) {
    let none = Buttons { grab: false, stow: false, fire: false, melee: false };
    if !f.present {
        (m, Goal::Idle, none)
    } else if !f.alive {
        (Mind { hauling: false, rock: None }, Goal::Idle, none)
    } else {
        let base = Buttons { grab: true, stow: stows(f) && even(f.tick), fire: false, melee: false };
        if sets_out(m, f) && !sold(f) {
            (Mind { hauling: true, ..m }, Goal::Dock, base)
        } else if f.held is None && f.ore_near {
            (Mind { hauling: false, ..m }, Goal::Ore, base)
        } else {
            let rock = rock_after(m, f);
            match rock {
                None => (Mind { hauling: false, rock: None }, Goal::Patrol, base),
                Some(i) => {
                    let cut = f.at_face && f.held is None;
                    (
                        Mind { hauling: false, rock },
                        Goal::Rock(i),
                        Buttons {
                            fire: cut && !f.left_arm,
                            melee: cut && f.left_arm && f.saber_ready && even(f.tick),
                            ..base
                        },
                    )
                },
            }
        }
    }
}

impl Mind {
    /// A miner not yet hauling, with no rock.
    pub fn new() -> (m: Mind)
        ensures
            m == (Mind { hauling: false, rock: None }),
    {
        Mind { hauling: false, rock: None }
    }

    /// Decides this tick: where to head and which buttons to hold.
    pub fn decide(&mut self, f: Facts) -> (r: (Goal, Buttons))
        requires
            f.held matches Some(h) ==> (h.known && h.stowable ==> f.cargo_kg + h.mass_kg <= u32::MAX),
        ensures
            (*final(self), r.0, r.1) == decide_spec(*old(self), f),
    {
        let none = Buttons { grab: false, stow: false, fire: false, melee: false };
        if !f.present {
            return (Goal::Idle, none);
        }
        if !f.alive {
            // The hold spilled where it died.
            self.hauling = false;
            self.rock = None;
            return (Goal::Idle, none);
        }
        let mut buttons = Buttons { grab: true, stow: false, fire: false, melee: false };
        if let Some(h) = f.held {
            if h.known {
                if h.stowable && f.cargo_kg + h.mass_kg <= f.capacity_kg {
                    // A press is an edge: every other tick.
                    if f.tick % 2 == 0 {
                        buttons.stow = true;
                    }
                } else {
                    self.hauling = true;
                }
            }
        }
        if f.full {
            self.hauling = true;
        }
        if self.hauling {
            if !(f.docked && f.cargo_kg == 0 && f.held.is_none()) {
                return (Goal::Dock, buttons);
            }
            self.hauling = false;
        }
        if f.held.is_none() && f.ore_near {
            return (Goal::Ore, buttons);
        }
        if !(self.rock.is_some() && f.rock_stands) {
            self.rock = f.nearest_rock;
        }
        match self.rock {
            None => (Goal::Patrol, buttons),
            Some(i) => {
                if f.at_face && f.held.is_none() {
                    if !f.left_arm {
                        // No saber: shoot it apart.
                        buttons.fire = true;
                    } else if f.saber_ready && f.tick % 2 == 0 {
                        // A swing starts on a press (an edge), once the saber is ready.
                        buttons.melee = true;
                    }
                }
                (Goal::Rock(i), buttons)
            },
        }
    }
}

/// The miner never stows what will not fit, and only ever fires or swings at a rock face with an
/// empty hand.
pub proof fn lemma_miner_is_careful(m: Mind, f: Facts)
    ensures
        decide_spec(m, f).2.stow ==> stows(f),
        decide_spec(m, f).2.fire || decide_spec(m, f).2.melee ==> f.at_face && f.held is None
            && decide_spec(m, f).1 is Rock,
{
}

/// Once set to sell, it heads for the dock until it has sold everything.
pub proof fn lemma_hauls_until_sold(m: Mind, f: Facts)
    requires
        f.present && f.alive,
        m.hauling,
        !sold(f),
    ensures
        decide_spec(m, f).1 == Goal::Dock,
        decide_spec(m, f).0.hauling,
{
}

/// The weapon fits the arm: the saber is swung only with the saber arm on and the saber ready,
/// on a press tick; the rifle is fired only when the saber arm is gone. At a rock face with an
/// empty hand it does exactly that: it shoots when the arm is gone, swings when it can, and
/// otherwise waits for the saber.
pub proof fn lemma_miner_picks_its_weapon(m: Mind, f: Facts)
    ensures
        decide_spec(m, f).2.fire ==> !f.left_arm,
        decide_spec(m, f).2.melee ==> f.left_arm && f.saber_ready && f.tick % 2 == 0,
        !(decide_spec(m, f).2.fire && decide_spec(m, f).2.melee),
        decide_spec(m, f).1 is Rock && f.at_face && f.held is None ==> {
            &&& decide_spec(m, f).2.fire == !f.left_arm
            &&& decide_spec(m, f).2.melee == (f.left_arm && f.saber_ready && f.tick % 2 == 0)
        },
{
}

/// What a tick's decision always respects: with no suit nothing is pressed and nothing is
/// forgotten; a dead miner forgets its rock and its errand; a live one keeps its hand closed (to
/// keep hold of what it has) and stows only on a press tick; it heads for loose ore only with an
/// empty hand and no errand to sell; and the rock it heads for is the one it was working, while
/// that still stands, or else the nearest.
pub proof fn lemma_miner_basics(m: Mind, f: Facts)
    ensures
        !f.present ==> decide_spec(m, f) == (m, Goal::Idle, Buttons { grab: false, stow: false, fire: false, melee: false }),
        f.present && !f.alive ==> decide_spec(m, f).0 == (Mind { hauling: false, rock: None })
            && decide_spec(m, f).1 == Goal::Idle && !decide_spec(m, f).2.grab,
        f.present && f.alive ==> decide_spec(m, f).2.grab,
        decide_spec(m, f).2.stow ==> f.tick % 2 == 0,
        decide_spec(m, f).1 == Goal::Ore ==> f.held is None && f.ore_near && !decide_spec(m, f).0.hauling,
        decide_spec(m, f).1 == Goal::Dock ==> decide_spec(m, f).0.hauling,
        decide_spec(m, f).1 matches Goal::Rock(i) ==> decide_spec(m, f).0.rock == Some(i) && (
            if m.rock is Some && f.rock_stands { m.rock == Some(i) } else { f.nearest_rock == Some(i) }),
        f.full && f.present && f.alive && !(f.docked && f.cargo_kg == 0 && f.held is None)
            ==> decide_spec(m, f).1 == Goal::Dock,
{
}

} // verus!
