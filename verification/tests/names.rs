use before_colony::names::{callsign, launch_frame, launch_name, launch_showcase, name_of, parse_faction, pilot_tag, Faction, GfxTier, PilotKind, Scene};

#[test]
fn tiers_parse_by_name() {
    assert_eq!(GfxTier::parse("LOW"), Some(GfxTier::Low));
    assert_eq!(GfxTier::parse("Med"), Some(GfxTier::Medium));
    assert_eq!(GfxTier::parse("medium"), Some(GfxTier::Medium));
    assert_eq!(GfxTier::parse("ultra"), Some(GfxTier::Ultra));
    assert_eq!(GfxTier::parse("auto"), None);
    for t in [GfxTier::Low, GfxTier::Medium, GfxTier::High, GfxTier::Ultra] {
        assert_eq!(GfxTier::parse(t.name()), Some(t));
        assert_eq!(t.next().next().next().next(), t);
    }
    assert_eq!(GfxTier::High.next(), GfxTier::Ultra);
    assert_eq!(GfxTier::Ultra.next(), GfxTier::Low);
}

#[test]
fn the_launch_picks_a_tier() {
    assert_eq!(GfxTier::from_config("", true), GfxTier::Low);
    assert_eq!(GfxTier::from_config("", false), GfxTier::High);
    assert_eq!(GfxTier::from_config("medium", true), GfxTier::Medium);
}

#[test]
fn tier_settings() {
    let low = GfxTier::Low.settings(false);
    assert!(!low.hdr && low.msaa == 1 && !low.shadows && low.fx_lights == 0);
    let ultra = GfxTier::Ultra.settings(true);
    assert_eq!((ultra.max_dpr_tenths, ultra.shadow_map, ultra.fx_lights, ultra.cascades), (40, 4096, 24, 3));
    assert_eq!(GfxTier::High.settings(false).shadow_distance_m, 500);
    assert!(GfxTier::Medium.settings(false).smaa);
}

#[test]
fn scenes_and_factions_parse() {
    assert_eq!(Scene::parse("Salvage"), Some(Scene::Field));
    assert_eq!(Scene::parse("duel"), Some(Scene::Duel));
    assert_eq!(Scene::parse("gundams"), None);
    assert_eq!(Scene::Colony.name(), "colony");
    assert_eq!(parse_faction("COLONY"), Some(Faction::Colonies));
    assert_eq!(parse_faction("oz"), Some(Faction::Oz));
    assert_eq!(parse_faction("Alliance"), Some(Faction::Alliance));
    assert_eq!(parse_faction("zeon"), None);
    assert_eq!(pilot_tag(PilotKind::Human), "");
    assert_eq!(pilot_tag(PilotKind::MobileDoll), " MD");
}

#[test]
fn launch_settings_fall_back_to_their_defaults() {
    assert_eq!(launch_name(String::new()), "Pilot");
    assert_eq!(launch_name("Heero".to_string()), "Heero");
    assert_eq!(launch_frame(String::new()), "wingzero");
    assert_eq!(launch_frame("leo".to_string()), "leo");
    assert_eq!(launch_showcase(String::new()), None);
    assert_eq!(launch_showcase("duel".to_string()), Some("duel".to_string()));
}

#[test]
fn suits_are_named_by_pilot_frame_or_unit() {
    assert_eq!(name_of(Some("Trowa"), Some("LEO"), 7), "Trowa");
    assert_eq!(name_of(None, Some("LEO"), 7), "LEO-07");
    assert_eq!(name_of(None, Some("TAURUS"), 1234), "TAURUS-34");
    assert_eq!(name_of(None, Some("VIRGO"), 200), "VIRGO-00");
    assert_eq!(name_of(None, None, 7), "UNIT-07");
    assert_eq!(name_of(None, None, 1234), "UNIT-1234");
    assert_eq!(callsign("MD", 65535), "MD-65535");
    assert_eq!(callsign("MD", 10), "MD-10");
}
