use before_colony::grid::grid_indices;
use before_colony::paint::{lods, Lod, Paint, MIRROR};
use before_colony::tags::{beam_tag, plume_tag, rock_tag, HullTag};

#[test]
fn hull_tags_pack_their_fields() {
    let t = HullTag { heat: 20, ..HullTag::paint(MIRROR, 200) };
    let bits = t.tag();
    assert_eq!(bits, 13 | 7 << 4 | 200 << 7 | 20 << 15);
    assert_eq!(bits & 15, 13);
    assert_eq!((bits >> 7) & 255, 200);
    let worn = HullTag { armour: 9, heat: 99, wreck: true, metal: true, ..HullTag::paint(17, 1) };
    assert_eq!(worn.tag(), 1 | 7 << 4 | 1 << 7 | 31 << 15 | 1 << 20 | 1 << 21);
}

#[test]
fn small_tags() {
    assert_eq!(rock_tag(6, 3), 2 | 3 << 2);
    assert_eq!(beam_tag(29, true), 29 | 256);
    assert_eq!(plume_tag(255, 1), 255 | 256);
}

#[test]
fn paint_slots() {
    assert_eq!(Paint::Body.slot(), 0);
    assert_eq!(Paint::Eye.slot(), 3);
    assert_eq!(Paint::Fixed(4).slot(), 20);
    assert_eq!(Paint::Metal(17).slot(), 33);
    assert_eq!(Paint::Glow(15).slot(), 63);
    assert_eq!(lods(), [Lod::Near, Lod::Far]);
}

#[test]
fn grid_quads() {
    assert_eq!(grid_indices(2, 1), vec![0, 1, 3, 1, 4, 3, 1, 2, 4, 2, 5, 4]);
    let idx = grid_indices(24, 16);
    assert_eq!(idx.len(), 24 * 16 * 6);
    assert!(idx.iter().all(|&i| i < 25 * 17));
    assert!(grid_indices(0, 5).is_empty());
}
