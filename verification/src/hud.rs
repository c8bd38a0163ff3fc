//! What the HUD says of the frame's special (on the H key): its name, and which state it is in.
//! The timers that go with some states are the caller's to print.

use crate::livery::FrameId;
use vstd::prelude::*;

verus! {

/// A frame's special.
#[derive(Clone, Copy, Debug, PartialEq, Eq, Structural)]
pub enum Special {
    /// None at all.
    Nothing,
    /// Transforming into the frame `to` (and back).
    Transform { to: FrameId },
    /// The Hyper Jammer, held on.
    HyperJammer,
    /// A barrage from every weapon.
    FullOpen,
    /// A melee move.
    MeleeMove,
}

/// The special's name on the HUD.
#[derive(Clone, Copy, Debug, PartialEq, Eq, Structural)]
pub enum SpecialName {
    NeoBird,
    MsMode,
    HyperJammer,
    FullOpenAttack,
    CrossCrusher,
}

/// The special's state on the HUD.
#[derive(Clone, Copy, Debug, PartialEq, Eq, Structural)]
pub enum SpecialState {
    /// Mid-transformation (with the time left).
    Changing,
    Ready,
    Jamming,
    /// Held, but broken by firing, or short of energy.
    Suppressed,
    Off,
    /// The barrage is on (with the time left).
    Firing,
    Striking,
    /// Cooling down (with the time left).
    Cooling,
}

/// What the HUD reads of the own suit for its special.
#[derive(Clone, Copy, Debug, PartialEq, Eq, Structural)]
pub struct SpecialFlags {
    /// The special is on.
    pub active: bool,
    /// It may be used now.
    pub ready: bool,
    /// The frame is transforming.
    pub transforming: bool,
    /// The pilot holds the MODE key.
    pub asked: bool,
}

/// The name and state shown for `special` with the suit's `flags`; nothing for a frame without one.
pub open spec fn special_status_of(special: Special, flags: SpecialFlags) -> Option<(SpecialName, SpecialState)> {
    let timed = |on: SpecialState|
        if flags.active {
            on
        } else if flags.ready {
            SpecialState::Ready
        } else {
            SpecialState::Cooling
        };
    match special {
        Special::Nothing => None,
        Special::Transform { to } => Some(
            (
                if to == FrameId::WingZeroBird {
                    SpecialName::NeoBird
                } else {
                    SpecialName::MsMode
                },
                if flags.transforming {
                    SpecialState::Changing
                } else {
                    SpecialState::Ready
                },
            ),
        ),
        Special::HyperJammer => Some(
            (
                SpecialName::HyperJammer,
                if flags.active {
                    SpecialState::Jamming
                } else if flags.asked {
                    SpecialState::Suppressed
                } else {
                    SpecialState::Off
                },
            ),
        ),
        Special::FullOpen => Some((SpecialName::FullOpenAttack, timed(SpecialState::Firing))),
        Special::MeleeMove => Some((SpecialName::CrossCrusher, timed(SpecialState::Striking))),
    }
}

/// The name and state the HUD shows for the frame's special.
pub fn special_status(special: Special, flags: SpecialFlags) -> (r: Option<(SpecialName, SpecialState)>)
    ensures
        r == special_status_of(special, flags),
{
    let cooled = if flags.ready {
        SpecialState::Ready
    } else {
        SpecialState::Cooling
    };
    match special {
        Special::Nothing => None,
        Special::Transform { to } => {
            let name = match to {
                FrameId::WingZeroBird => SpecialName::NeoBird,
                _ => SpecialName::MsMode,
            };
            let state = if flags.transforming {
                SpecialState::Changing
            } else {
                SpecialState::Ready
            };
            Some((name, state))
        },
        Special::HyperJammer => {
            let state = if flags.active {
                SpecialState::Jamming
            } else if flags.asked {
                SpecialState::Suppressed
            } else {
                SpecialState::Off
            };
            Some((SpecialName::HyperJammer, state))
        },
        Special::FullOpen => Some(
            (
                SpecialName::FullOpenAttack,
                if flags.active {
                    SpecialState::Firing
                } else {
                    cooled
                },
            ),
        ),
        Special::MeleeMove => Some(
            (
                SpecialName::CrossCrusher,
                if flags.active {
                    SpecialState::Striking
                } else {
                    cooled
                },
            ),
        ),
    }
}

impl SpecialName {
    /// As the HUD prints it.
    pub fn label(self) -> (s: &'static str)
        ensures
            s@ == match self {
                SpecialName::NeoBird => "NEO-BIRD"@,
                SpecialName::MsMode => "MS MODE"@,
                SpecialName::HyperJammer => "HYPER JAMMER"@,
                SpecialName::FullOpenAttack => "FULL OPEN ATTACK"@,
                SpecialName::CrossCrusher => "CROSS CRUSHER"@,
            },
    {
        match self {
            SpecialName::NeoBird => "NEO-BIRD",
            SpecialName::MsMode => "MS MODE",
            SpecialName::HyperJammer => "HYPER JAMMER",
            SpecialName::FullOpenAttack => "FULL OPEN ATTACK",
            SpecialName::CrossCrusher => "CROSS CRUSHER",
        }
    }
}

/// Apart from a transformation (whose state is only whether it is under way), a special that is on
/// is never shown as ready or cooling, and one neither on nor ready is never shown as ready.
pub proof fn lemma_status_follows_the_flags(special: Special, flags: SpecialFlags)
    requires
        !(special is Transform),
    ensures
        special_status_of(special, flags) matches Some((_, state)) ==> {
            &&& flags.active ==> state != SpecialState::Ready && state != SpecialState::Cooling
            &&& !flags.active && !flags.ready ==> state != SpecialState::Ready
        },
{
}

/// Every special is shown under its own name, a frame without one shows nothing, and a
/// transformation shows its state only by whether it is under way.
pub proof fn lemma_status_names_the_special(special: Special, flags: SpecialFlags)
    ensures
        special_status_of(special, flags) is None <==> special is Nothing,
        special_status_of(special, flags) matches Some((name, state)) ==> {
            &&& (name == SpecialName::NeoBird) == (special == Special::Transform { to: FrameId::WingZeroBird })
            &&& (name == SpecialName::MsMode) == (special is Transform && special != Special::Transform { to: FrameId::WingZeroBird })
            &&& (name == SpecialName::HyperJammer) == (special is HyperJammer)
            &&& (name == SpecialName::FullOpenAttack) == (special is FullOpen)
            &&& (name == SpecialName::CrossCrusher) == (special is MeleeMove)
            &&& special is Transform ==> (state == SpecialState::Changing) == flags.transforming
                && (state == SpecialState::Ready) == !flags.transforming
            &&& special is HyperJammer ==> (state == SpecialState::Jamming) == flags.active
                && (state == SpecialState::Suppressed) == (!flags.active && flags.asked)
            &&& (state == SpecialState::Firing) ==> special is FullOpen && flags.active
            &&& (state == SpecialState::Striking) ==> special is MeleeMove && flags.active
            &&& (state == SpecialState::Cooling) ==> !flags.active && !flags.ready
        },
{
}

} // verus!
