//! Names typed by people: graphics tiers, showcase scenes and factions, matched without regard to
//! ASCII case.

use vstd::prelude::*;
use vstd::string::StringSliceAdditionalSpecFns;

verus! {

/// An ASCII letter in lower case; every other byte as it is.
pub open spec fn ascii_lower(c: u8) -> u8 {
    if 65 <= c && c <= 90 {
        (c + 32) as u8
    } else {
        c
    }
}

/// Text in ASCII lower case, byte by byte (what `to_ascii_lowercase` gives).
pub open spec fn lowered(s: Seq<u8>) -> Seq<u8> {
    s.map_values(|c: u8| ascii_lower(c))
}

/// Whether the bytes, in ASCII lower case, are the word `w`.
fn is_word(b: &[u8], w: &[u8]) -> (r: bool)
    ensures
        r == (lowered(b@) == w@),
{
    if b.len() != w.len() {
        assert(lowered(b@).len() != w@.len());
        return false;
    }
    let mut i: usize = 0;
    while i < b.len()
        invariant
            b@.len() == w@.len(),
            i <= b@.len(),
            forall|j: int| 0 <= j < i ==> ascii_lower(b@[j]) == w@[j],
        decreases b@.len() - i,
    {
        let c = b[i];
        let l = if 65 <= c && c <= 90 {
            c + 32
        } else {
            c
        };
        if l != w[i] {
            assert(lowered(b@)[i as int] != w@[i as int]);
            return false;
        }
        i = i + 1;
    }
    assert(lowered(b@) =~= w@);
    true
}

/// A graphics quality tier.
#[derive(Clone, Copy, Debug, PartialEq, Eq, Structural)]
pub enum GfxTier {
    Low,
    Medium,
    High,
    Ultra,
}

/// What each tier turns on. Fractions are fixed point: the device-pixel ratio in tenths and the
/// sky's detail in percent.
#[derive(Clone, Copy, Debug, PartialEq, Eq, Structural)]
pub struct TierSettings {
    /// HDR rendering with tonemapping and bloom. Off: plain LDR output.
    pub hdr: bool,
    /// Multisample count (1 = off).
    pub msaa: u32,
    /// Post-process anti-aliasing (SMAA) when multisampling is off.
    pub smaa: bool,
    /// Gameplay post effects: the G-strain vignette and the ZERO seizure's aberration.
    pub post: bool,
    /// Highest device-pixel ratio the backbuffer is rendered at, in tenths.
    pub max_dpr_tenths: u32,
    /// Image-based lighting from the sky.
    pub ibl: bool,
    /// Sun shadows: map size, cascades and reach (m).
    pub shadows: bool,
    pub shadow_map: usize,
    pub cascades: usize,
    pub shadow_distance_m: u32,
    /// Sky shader detail, 0 (cheapest) to 100.
    pub sky_detail_pct: u32,
    /// Point lights for effects (muzzle flashes, hits, blasts, sabers).
    pub fx_lights: usize,
}

/// The tier's place, cheapest first.
pub open spec fn tier_rank(t: GfxTier) -> int {
    match t {
        GfxTier::Low => 0,
        GfxTier::Medium => 1,
        GfxTier::High => 2,
        GfxTier::Ultra => 3,
    }
}

/// A tier's name.
pub open spec fn tier_word(t: GfxTier) -> Seq<u8> {
    match t {
        GfxTier::Low => seq![108u8, 111, 119],
        GfxTier::Medium => seq![109u8, 101, 100, 105, 117, 109],
        GfxTier::High => seq![104u8, 105, 103, 104],
        GfxTier::Ultra => seq![117u8, 108, 116, 114, 97],
    }
}

/// The tier a name asks for: `low`, `medium` (or `med`), `high`, `ultra`, in any ASCII case.
pub open spec fn tier_named(b: Seq<u8>) -> Option<GfxTier> {
    let l = lowered(b);
    if l == tier_word(GfxTier::Low) {
        Some(GfxTier::Low)
    } else if l == tier_word(GfxTier::Medium) || l == seq![109u8, 101, 100] {
        Some(GfxTier::Medium)
    } else if l == tier_word(GfxTier::High) {
        Some(GfxTier::High)
    } else if l == tier_word(GfxTier::Ultra) {
        Some(GfxTier::Ultra)
    } else {
        None
    }
}

/// The next tier up, wrapping from the top to the bottom.
pub open spec fn tier_after(t: GfxTier) -> GfxTier {
    match t {
        GfxTier::Low => GfxTier::Medium,
        GfxTier::Medium => GfxTier::High,
        GfxTier::High => GfxTier::Ultra,
        GfxTier::Ultra => GfxTier::Low,
    }
}

impl GfxTier {
    /// The tier a name asks for, if any.
    pub fn parse(s: &str) -> (t: Option<GfxTier>)
        ensures
            t == tier_named(s.spec_bytes()),
    {
        let b = s.as_bytes();
        if is_word(b, &[108u8, 111, 119]) {
            Some(GfxTier::Low)
        } else if is_word(b, &[109u8, 101, 100, 105, 117, 109]) || is_word(b, &[109u8, 101, 100]) {
            Some(GfxTier::Medium)
        } else if is_word(b, &[104u8, 105, 103, 104]) {
            Some(GfxTier::High)
        } else if is_word(b, &[117u8, 108, 116, 114, 97]) {
            Some(GfxTier::Ultra)
        } else {
            None
        }
    }

    /// The tier's name, in lower case.
    pub fn name(self) -> (s: &'static str)
        ensures
            s@ == match self {
                GfxTier::Low => "low"@,
                GfxTier::Medium => "medium"@,
                GfxTier::High => "high"@,
                GfxTier::Ultra => "ultra"@,
            },
    {
        match self {
            GfxTier::Low => "low",
            GfxTier::Medium => "medium",
            GfxTier::High => "high",
            GfxTier::Ultra => "ultra",
        }
    }

    /// The next tier, wrapping (F10).
    pub fn next(self) -> (t: GfxTier)
        ensures
            t == tier_after(self),
    {
        match self {
            GfxTier::Low => GfxTier::Medium,
            GfxTier::Medium => GfxTier::High,
            GfxTier::High => GfxTier::Ultra,
            GfxTier::Ultra => GfxTier::Low,
        }
    }

    /// The tier asked for by `quality`, or, when it names none, Low for a low-quality launch and
    /// High otherwise.
    pub fn from_config(quality: &str, low_quality: bool) -> (t: GfxTier)
        ensures
            t == match tier_named(quality.spec_bytes()) {
                Some(t) => t,
                None => if low_quality {
                    GfxTier::Low
                } else {
                    GfxTier::High
                },
            },
    {
        match GfxTier::parse(quality) {
            Some(t) => t,
            None => if low_quality {
                GfxTier::Low
            } else {
                GfxTier::High
            },
        }
    }

    /// What the tier turns on. WebGL2 allows one shadow cascade; the WebGPU build gets three and
    /// more reach.
    pub fn settings(self, webgpu: bool) -> (s: TierSettings)
        ensures
            s == tier_settings(self, webgpu),
    {
        let (cascades, reach): (usize, u32) = if webgpu {
            (3, 3000)
        } else {
            (1, 500)
        };
        let base = TierSettings {
            hdr: true,
            msaa: 4,
            smaa: false,
            post: true,
            max_dpr_tenths: 15,
            ibl: true,
            shadows: true,
            shadow_map: 2048,
            cascades,
            shadow_distance_m: reach,
            sky_detail_pct: 100,
            fx_lights: 12,
        };
        match self {
            GfxTier::Low => TierSettings {
                hdr: false,
                msaa: 1,
                post: false,
                max_dpr_tenths: 10,
                ibl: false,
                shadows: false,
                sky_detail_pct: 0,
                fx_lights: 0,
                ..base
            },
            GfxTier::Medium => TierSettings {
                msaa: 1,
                smaa: true,
                max_dpr_tenths: 10,
                shadows: false,
                sky_detail_pct: 50,
                fx_lights: 4,
                ..base
            },
            GfxTier::High => base,
            GfxTier::Ultra => TierSettings {
                max_dpr_tenths: 40,
                shadow_map: 4096,
                fx_lights: 24,
                ..base
            },
        }
    }
}

/// What a tier turns on.
pub open spec fn tier_settings(t: GfxTier, webgpu: bool) -> TierSettings {
    let base = TierSettings {
        hdr: true,
        msaa: 4,
        smaa: false,
        post: true,
        max_dpr_tenths: 15,
        ibl: true,
        shadows: true,
        shadow_map: 2048,
        cascades: if webgpu {
            3
        } else {
            1
        },
        shadow_distance_m: if webgpu {
            3000
        } else {
            500
        },
        sky_detail_pct: 100,
        fx_lights: 12,
    };
    match t {
        GfxTier::Low => TierSettings {
            hdr: false,
            msaa: 1,
            post: false,
            max_dpr_tenths: 10,
            ibl: false,
            shadows: false,
            sky_detail_pct: 0,
            fx_lights: 0,
            ..base
        },
        GfxTier::Medium => TierSettings {
            msaa: 1,
            smaa: true,
            max_dpr_tenths: 10,
            shadows: false,
            sky_detail_pct: 50,
            fx_lights: 4,
            ..base
        },
        GfxTier::High => base,
        GfxTier::Ultra => TierSettings {
            max_dpr_tenths: 40,
            shadow_map: 4096,
            fx_lights: 24,
            ..base
        },
    }
}

/// A tier's name reads back as the tier, and four presses of F10 come back round.
pub proof fn lemma_tier_names(t: GfxTier)
    ensures
        tier_named(tier_word(t)) == Some(t),
        tier_after(tier_after(tier_after(tier_after(t)))) == t,
{
    let w = tier_word(t);
    assert(lowered(w) =~= w);
    assert(tier_word(GfxTier::Low) != tier_word(GfxTier::Medium));
    assert(tier_word(GfxTier::Low)[0] != tier_word(GfxTier::High)[0]);
    assert(tier_word(GfxTier::Low)[0] != tier_word(GfxTier::Ultra)[0]);
    assert(tier_word(GfxTier::Medium)[0] != tier_word(GfxTier::High)[0]);
    assert(tier_word(GfxTier::Medium)[0] != tier_word(GfxTier::Ultra)[0]);
    assert(tier_word(GfxTier::High)[0] != tier_word(GfxTier::Ultra)[0]);
    assert(w != seq![109u8, 101, 100] || t == GfxTier::Medium);
}

/// A higher tier never turns effect lights, multisampling or detail down, and never turns HDR,
/// post effects, image-based lighting or shadows off that a lower tier has on.
pub proof fn lemma_tiers_rise(a: GfxTier, b: GfxTier, webgpu: bool)
    requires
        tier_rank(a) <= tier_rank(b),
    ensures
        tier_settings(a, webgpu).hdr ==> tier_settings(b, webgpu).hdr,
        tier_settings(a, webgpu).post ==> tier_settings(b, webgpu).post,
        tier_settings(a, webgpu).ibl ==> tier_settings(b, webgpu).ibl,
        tier_settings(a, webgpu).shadows ==> tier_settings(b, webgpu).shadows,
        tier_settings(a, webgpu).msaa <= tier_settings(b, webgpu).msaa,
        tier_settings(a, webgpu).fx_lights <= tier_settings(b, webgpu).fx_lights,
        tier_settings(a, webgpu).sky_detail_pct <= tier_settings(b, webgpu).sky_detail_pct,
        tier_settings(a, webgpu).max_dpr_tenths <= tier_settings(b, webgpu).max_dpr_tenths,
        tier_settings(a, webgpu).shadow_map <= tier_settings(b, webgpu).shadow_map,
{
}

/// Ultra is High with more resolution, a bigger shadow map and more effect lights: everything
/// else is High's.
pub proof fn lemma_ultra_is_high_and_more(webgpu: bool)
    ensures
        ({
            let h = tier_settings(GfxTier::High, webgpu);
            let u = tier_settings(GfxTier::Ultra, webgpu);
            &&& u == (TierSettings {
                max_dpr_tenths: u.max_dpr_tenths,
                shadow_map: u.shadow_map,
                fx_lights: u.fx_lights,
                ..h
            })
            &&& u.max_dpr_tenths > h.max_dpr_tenths
            &&& u.shadow_map > h.shadow_map
            &&& u.fx_lights > h.fx_lights
        }),
{
}

/// A showcase scene.
#[derive(Clone, Copy, Debug, PartialEq, Eq, Structural)]
pub enum Scene {
    /// Every frame and livery side by side.
    Lineup,
    /// Wing Zero and a Leo circling and trading fire.
    Duel,
    /// A Taurus squad skimming the colony hull.
    Colony,
    /// Inside the debris field.
    Field,
}

/// A scene's name.
pub open spec fn scene_word(s: Scene) -> Seq<u8> {
    match s {
        Scene::Lineup => seq![108u8, 105, 110, 101, 117, 112],
        Scene::Duel => seq![100u8, 117, 101, 108],
        Scene::Colony => seq![99u8, 111, 108, 111, 110, 121],
        Scene::Field => seq![102u8, 105, 101, 108, 100],
    }
}

/// The scene a name asks for: `lineup`, `duel`, `colony`, `field` (or `salvage`), in any ASCII
/// case.
pub open spec fn scene_named(b: Seq<u8>) -> Option<Scene> {
    let l = lowered(b);
    if l == scene_word(Scene::Lineup) {
        Some(Scene::Lineup)
    } else if l == scene_word(Scene::Duel) {
        Some(Scene::Duel)
    } else if l == scene_word(Scene::Colony) {
        Some(Scene::Colony)
    } else if l == scene_word(Scene::Field) || l == seq![115u8, 97, 108, 118, 97, 103, 101] {
        Some(Scene::Field)
    } else {
        None
    }
}

impl Scene {
    /// The scene a name asks for, if any.
    pub fn parse(s: &str) -> (r: Option<Scene>)
        ensures
            r == scene_named(s.spec_bytes()),
    {
        let b = s.as_bytes();
        if is_word(b, &[108u8, 105, 110, 101, 117, 112]) {
            Some(Scene::Lineup)
        } else if is_word(b, &[100u8, 117, 101, 108]) {
            Some(Scene::Duel)
        } else if is_word(b, &[99u8, 111, 108, 111, 110, 121]) {
            Some(Scene::Colony)
        } else if is_word(b, &[102u8, 105, 101, 108, 100]) || is_word(
            b,
            &[115u8, 97, 108, 118, 97, 103, 101],
        ) {
            Some(Scene::Field)
        } else {
            None
        }
    }

    /// The scene's name, in lower case.
    pub fn name(self) -> (s: &'static str)
        ensures
            s@ == match self {
                Scene::Lineup => "lineup"@,
                Scene::Duel => "duel"@,
                Scene::Colony => "colony"@,
                Scene::Field => "field"@,
            },
    {
        match self {
            Scene::Lineup => "lineup",
            Scene::Duel => "duel",
            Scene::Colony => "colony",
            Scene::Field => "field",
        }
    }
}

/// One of the sides.
#[derive(Clone, Copy, Debug, PartialEq, Eq, Structural, Hash)]
pub enum Faction {
    Colonies,
    Oz,
    Alliance,
}

/// The faction a name asks for: `colonies` (or `colony`), `oz`, `alliance`, in any ASCII case.
pub open spec fn faction_named(b: Seq<u8>) -> Option<Faction> {
    let l = lowered(b);
    if l == seq![99u8, 111, 108, 111, 110, 105, 101, 115] || l == seq![99u8, 111, 108, 111, 110, 121] {
        Some(Faction::Colonies)
    } else if l == seq![111u8, 122] {
        Some(Faction::Oz)
    } else if l == seq![97u8, 108, 108, 105, 97, 110, 99, 101] {
        Some(Faction::Alliance)
    } else {
        None
    }
}

/// Parses `colonies | oz | alliance`.
pub fn parse_faction(s: &str) -> (f: Option<Faction>)
    ensures
        f == faction_named(s.spec_bytes()),
{
    let b = s.as_bytes();
    if is_word(b, &[99u8, 111, 108, 111, 110, 105, 101, 115]) || is_word(
        b,
        &[99u8, 111, 108, 111, 110, 121],
    ) {
        Some(Faction::Colonies)
    } else if is_word(b, &[111u8, 122]) {
        Some(Faction::Oz)
    } else if is_word(b, &[97u8, 108, 108, 105, 97, 110, 99, 101]) {
        Some(Faction::Alliance)
    } else {
        None
    }
}

/// Who flies a suit.
#[derive(Clone, Copy, Debug, PartialEq, Eq, Structural, Hash)]
pub enum PilotKind {
    Human,
    Agent,
    MobileDoll,
}

/// Pilot kind label for HUD brackets (" MD" for machine pilots, as in the lore).
pub fn pilot_tag(p: PilotKind) -> (s: &'static str)
    ensures
        s@ == match p {
            PilotKind::Human => ""@,
            _ => " MD"@,
        },
{
    match p {
        PilotKind::Human => "",
        PilotKind::Agent | PilotKind::MobileDoll => " MD",
    }
}

/// The pilot's name from the launch settings: what was given, or `Pilot` when it was left empty.
pub fn launch_name(given: String) -> (s: String)
    ensures
        s@ == if given@.len() == 0 {
            "Pilot"@
        } else {
            given@
        },
{
    if given.as_str().is_empty() {
        "Pilot".to_owned()
    } else {
        given
    }
}

/// The frame's slug from the launch settings: what was given, or `wingzero` when it was left empty.
pub fn launch_frame(given: String) -> (s: String)
    ensures
        s@ == if given@.len() == 0 {
            "wingzero"@
        } else {
            given@
        },
{
    if given.as_str().is_empty() {
        "wingzero".to_owned()
    } else {
        given
    }
}

/// The showcase scene from the launch settings: none when it was left empty.
pub fn launch_showcase(given: String) -> (s: Option<String>)
    ensures
        match s {
            Some(t) => given@.len() > 0 && t@ == given@,
            None => given@.len() == 0,
        },
{
    if given.as_str().is_empty() {
        None
    } else {
        Some(given)
    }
}

/// The character for decimal digit `d`.
pub open spec fn digit_char(d: nat) -> char {
    (48 + d) as char
}

/// `n` in decimal.
pub open spec fn decimal_chars(n: nat) -> Seq<char>
    decreases n,
{
    if n < 10 {
        seq![digit_char(n)]
    } else {
        decimal_chars(n / 10) + seq![digit_char(n % 10)]
    }
}

/// `n` in decimal, at least two digits (a leading zero below ten).
pub open spec fn two_digits(n: nat) -> Seq<char> {
    if n < 10 {
        seq!['0'] + decimal_chars(n)
    } else {
        decimal_chars(n)
    }
}

/// A callsign: `prefix`, a hyphen, and `number` in at least two digits.
pub open spec fn callsign_chars(prefix: Seq<char>, number: nat) -> Seq<char> {
    prefix + seq!['-'] + two_digits(number)
}

/// The one-character text of digit `d`.
fn digit_str(d: u32) -> (s: &'static str)
    requires
        d < 10,
    ensures
        s@ == seq![digit_char(d as nat)],
{
    proof {
        reveal_strlit("0");
        reveal_strlit("1");
        reveal_strlit("2");
        reveal_strlit("3");
        reveal_strlit("4");
        reveal_strlit("5");
        reveal_strlit("6");
        reveal_strlit("7");
        reveal_strlit("8");
        reveal_strlit("9");
    }
    match d {
        0 => "0",
        1 => "1",
        2 => "2",
        3 => "3",
        4 => "4",
        5 => "5",
        6 => "6",
        7 => "7",
        8 => "8",
        _ => "9",
    }
}

/// Appends `n` in decimal.
pub(crate) fn push_decimal(s: &mut String, n: u64)
    ensures
        final(s)@ == old(s)@ + decimal_chars(n as nat),
    decreases n,
{
    if n >= 10 {
        push_decimal(s, n / 10);
    }
    s.append(digit_str((n % 10) as u32));
    proof {
        if n >= 10 {
            assert(old(s)@ + decimal_chars(n as nat) =~= old(s)@ + decimal_chars((n / 10) as nat) + seq![digit_char((n % 10) as nat)]);
        } else {
            assert(old(s)@ + decimal_chars(n as nat) =~= old(s)@ + seq![digit_char((n % 10) as nat)]);
        }
    }
}

/// A callsign: `prefix`, a hyphen, and `number` in at least two digits (`UNIT-07`).
pub fn callsign(prefix: &str, number: u32) -> (s: String)
    ensures
        s@ == callsign_chars(prefix@, number as nat),
{
    let mut s = prefix.to_owned();
    s.append("-");
    if number < 10 {
        s.append("0");
    }
    push_decimal(&mut s, number as u64);
    proof {
        reveal_strlit("-");
        reveal_strlit("0");
        assert(s@ =~= callsign_chars(prefix@, number as nat));
    }
    s
}

/// The name shown for the suit in `slot`: its pilot's name from the roster; else, for a tracked
/// Mobile Doll, its frame's name (in capitals) and the slot's last two digits; else a unit number.
pub fn name_of(roster_name: Option<&str>, frame_name: Option<&str>, slot: u16) -> (s: String)
    ensures
        s@ == match (roster_name, frame_name) {
            (Some(n), _) => n@,
            (None, Some(f)) => callsign_chars(f@, (slot % 100) as nat),
            (None, None) => callsign_chars("UNIT"@, slot as nat),
        },
{
    match (roster_name, frame_name) {
        (Some(n), _) => n.to_owned(),
        (None, Some(f)) => callsign(f, (slot % 100) as u32),
        (None, None) => callsign("UNIT", slot as u32),
    }
}

} // verus!
