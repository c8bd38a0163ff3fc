use before_colony::livery::{cast, livery, parse_frame, FrameId, EYE_GREEN, EYE_PINK};
use before_colony::names::{Faction, Scene};
use before_colony::paint::{Lod, ALLIANCE_TAN, BLUE, DARK, OZ_GREEN, OZ_GREY, RED, TAURUS_BLUE, WHITE};

#[test]
fn leos_wear_their_side() {
    assert_eq!(livery(FrameId::Leo, Faction::Oz), (OZ_GREEN, OZ_GREY, DARK, EYE_PINK));
    assert_eq!(livery(FrameId::Leo, Faction::Colonies), (TAURUS_BLUE, WHITE, RED, EYE_GREEN));
    assert_eq!(livery(FrameId::Leo, Faction::Alliance), (ALLIANCE_TAN, DARK, RED, EYE_PINK));
    assert_eq!(livery(FrameId::WingZeroBird, Faction::Oz), (WHITE, BLUE, RED, EYE_GREEN));
    assert_eq!(livery(FrameId::WingZero, Faction::Alliance), livery(FrameId::WingZero, Faction::Oz));
}

#[test]
fn showcase_casts() {
    assert_eq!(cast(Scene::Duel), vec![
        (FrameId::WingZero, Faction::Colonies),
        (FrameId::Leo, Faction::Oz),
        (FrameId::Taurus, Faction::Oz)
    ]);
    assert_eq!(cast(Scene::Lineup).len(), 7);
    assert!(cast(Scene::Colony).iter().all(|c| *c == (FrameId::Taurus, Faction::Oz)));
}

#[test]
fn far_detail_halves_segments() {
    assert_eq!(Lod::Near.segments(24), 24);
    assert_eq!(Lod::Far.segments(24), 12);
    assert_eq!(Lod::Far.segments(8), 6);
    assert!(Lod::Near.near() && !Lod::Far.near());
}

#[test]
fn pilots_name_the_frames_they_fly() {
    assert_eq!(parse_frame("leo"), Some(FrameId::Leo));
    assert_eq!(parse_frame("wingzero"), Some(FrameId::WingZero));
    assert_eq!(parse_frame("heavyarms"), Some(FrameId::Heavyarms));
    assert_eq!(parse_frame("deathscythe"), Some(FrameId::Deathscythe));
    assert_eq!(parse_frame("sandrock"), Some(FrameId::Sandrock));
    assert_eq!(parse_frame("shenlong"), Some(FrameId::Shenlong));
    // The Mobile Dolls' frames are the server's alone.
    assert_eq!(parse_frame("taurus"), None);
    assert_eq!(parse_frame("virgo"), None);
    assert_eq!(parse_frame("wing zero"), None);
    assert_eq!(parse_frame(""), None);
    assert_eq!(parse_frame("leos"), None);
}
