use before_colony::hud::{special_status, Special, SpecialFlags, SpecialName, SpecialState};
use before_colony::livery::FrameId;

fn flags(active: bool, ready: bool, transforming: bool, asked: bool) -> SpecialFlags {
    SpecialFlags { active, ready, transforming, asked }
}

#[test]
fn no_special_no_line() {
    assert_eq!(special_status(Special::Nothing, flags(true, true, false, true)), None);
}

#[test]
fn transformations_name_their_form() {
    let bird = Special::Transform { to: FrameId::WingZeroBird };
    let back = Special::Transform { to: FrameId::WingZero };
    assert_eq!(special_status(bird, flags(false, false, false, false)), Some((SpecialName::NeoBird, SpecialState::Ready)));
    assert_eq!(special_status(back, flags(false, false, true, false)), Some((SpecialName::MsMode, SpecialState::Changing)));
    assert_eq!(SpecialName::NeoBird.label(), "NEO-BIRD");
    assert_eq!(SpecialName::MsMode.label(), "MS MODE");
}

#[test]
fn the_jammer_is_on_suppressed_or_off() {
    let j = Special::HyperJammer;
    assert_eq!(special_status(j, flags(true, false, false, false)).unwrap().1, SpecialState::Jamming);
    assert_eq!(special_status(j, flags(false, true, false, true)).unwrap().1, SpecialState::Suppressed);
    assert_eq!(special_status(j, flags(false, true, false, false)).unwrap().1, SpecialState::Off);
    assert_eq!(SpecialName::HyperJammer.label(), "HYPER JAMMER");
}

#[test]
fn attacks_fire_wait_or_cool() {
    let f = Special::FullOpen;
    assert_eq!(special_status(f, flags(true, false, false, false)), Some((SpecialName::FullOpenAttack, SpecialState::Firing)));
    assert_eq!(special_status(f, flags(false, true, false, false)).unwrap().1, SpecialState::Ready);
    assert_eq!(special_status(f, flags(false, false, false, false)).unwrap().1, SpecialState::Cooling);
    let m = Special::MeleeMove;
    assert_eq!(special_status(m, flags(true, true, false, false)), Some((SpecialName::CrossCrusher, SpecialState::Striking)));
    assert_eq!(special_status(m, flags(false, false, false, true)).unwrap().1, SpecialState::Cooling);
    assert_eq!(SpecialName::FullOpenAttack.label(), "FULL OPEN ATTACK");
    assert_eq!(SpecialName::CrossCrusher.label(), "CROSS CRUSHER");
}
