//! Bin packing, UV derivation and atlas building.

use game_core::atlas::bin_packer::{BinPackNode, PackRectError, Rect};
use game_core::atlas::frame_set::{FrameAddressingError, FrameSet, FrameSetMap, Frames};
use game_core::atlas::frame_set::{FrameSetEntry, FrameSetEntryType, gen_new_frame_set_id};
use game_core::atlas::sprite_sheet::SpriteSheet;
use game_core::atlas::{AtlasBuilder, AtlasPackErr, UvRect, SPACING};

fn rects_disjoint(a: &Rect, b: &Rect) -> bool {
    a.x + a.w <= b.x || b.x + b.w <= a.x || a.y + a.h <= b.y || b.y + b.h <= a.y
}

fn solid_rgba(w: u16, h: u16, val: u8) -> Vec<u8> {
    vec![val; w as usize * h as usize * 4]
}

/// Successful packs return pairwise disjoint rectangles.
#[test]
fn bin_packer_non_overlap() {
    let mut root = BinPackNode::new(Rect { x: 0, y: 0, w: 128, h: 128 });
    let requests = [
        (40u16, 40u16),
        (40, 30),
        (30, 40),
        (60, 20),
        (20, 60),
        (50, 50),
        (10, 10),
        (25, 15),
    ];
    let mut placed: Vec<Rect> = Vec::new();
    for &(w, h) in requests.iter() {
        if let Ok(r) = root.pack_rect(w, h) {
            assert_eq!((r.w, r.h), (w, h));
            assert!(r.x + r.w <= 128 && r.y + r.h <= 128);
            for p in placed.iter() {
                assert!(rects_disjoint(p, &r));
            }
            placed.push(r);
        }
    }
    assert!(placed.len() >= 4);
}

/// Requests whose total area exceeds the surface eventually fail with
/// `SpaceTooSmall`, and nothing ever lands out of bounds.
#[test]
fn bin_packer_exhaustion() {
    let mut root = BinPackNode::new(Rect { x: 0, y: 0, w: 64, h: 64 });
    let mut total_area: u64 = 0;
    let mut failures = 0;
    for _ in 0..20 {
        // 20 * 24 * 24 pixels is far more than 64 * 64.
        match root.pack_rect(24, 24) {
            Ok(r) => {
                assert!(r.x + r.w <= 64 && r.y + r.h <= 64);
                total_area += 24 * 24;
            },
            Err(PackRectError::SpaceTooSmall) => {
                failures += 1;
            },
        }
    }
    assert!(failures > 0);
    assert!(total_area <= 64 * 64);
}

/// The first pack lands at the origin and splits right-then-below.
#[test]
fn bin_packer_layout_is_deterministic() {
    let mut root = BinPackNode::new(Rect { x: 0, y: 0, w: 64, h: 64 });
    assert_eq!(root.pack_rect(20, 10), Ok(Rect { x: 0, y: 0, w: 20, h: 10 }));
    // Right child first: same row, shifted right.
    assert_eq!(root.pack_rect(20, 10), Ok(Rect { x: 20, y: 0, w: 20, h: 10 }));
    assert_eq!(root.pack_rect(20, 10), Ok(Rect { x: 40, y: 0, w: 20, h: 10 }));
    // Row exhausted for this width: drops below.
    assert_eq!(root.pack_rect(30, 10), Ok(Rect { x: 0, y: 10, w: 30, h: 10 }));
    // Too big entirely.
    assert_eq!(root.pack_rect(65, 5), Err(PackRectError::SpaceTooSmall));
}

/// A UV rectangle multiplied back by the atlas dimensions reproduces the
/// packed pixel rectangle exactly.
#[test]
fn uv_round_trip() {
    let rect = Rect { x: 17, y: 23, w: 11, h: 7 };
    let uv = UvRect::from_pixel_rect(&rect, 512, 256);
    assert_eq!(uv.left, 17);
    assert_eq!(uv.top, 23);
    assert_eq!(uv.right, 28);
    assert_eq!(uv.bottom, 30);
    assert_eq!(uv.atlas_w, 512);
    assert_eq!(uv.atlas_h, 256);
    // The normalized coordinates recover the pixel rect exactly.
    assert_eq!(uv.to_pixel_rect(), rect);
    let left = uv.left as f32 / uv.atlas_w as f32;
    assert_eq!(left * uv.atlas_w as f32, 17.0);
}

/// Frame addressing is end-inclusive and checked: `Ordered(5, 8)` has
/// exactly four frames.
#[test]
fn frame_addressing_boundary() {
    let frames = Frames::Ordered(5, 8);
    assert_eq!(frames.get_frame(0), Ok(5));
    assert_eq!(frames.get_frame(3), Ok(8));
    assert_eq!(frames.get_frame(4), Err(FrameAddressingError::FrameOutOfRange));
}

#[test]
fn frame_set_entries_and_ids() {
    let entry = FrameSetEntry {
        entry_type: FrameSetEntryType::Ordered,
        start: 2,
        end: 6,
    };
    assert_eq!(entry.to_frames(), Frames::Ordered(2, 6));
    let mut counter: usize = 7;
    assert_eq!(gen_new_frame_set_id(&mut counter), 7);
    assert_eq!(gen_new_frame_set_id(&mut counter), 8);
    assert_eq!(counter, 9);
}

/// Building a 64 by 64 atlas with three 16 by 16 images at a 1 pixel
/// margin: all three keys map to disjoint, correctly sized regions.
#[test]
fn atlas_end_to_end() {
    let mut builder = AtlasBuilder::new_with_spacing(64, 64, 1);
    let a = solid_rgba(16, 16, 10);
    let b = solid_rgba(16, 16, 20);
    let c = solid_rgba(16, 16, 30);
    builder.add_tex(0, &a, 16, 16).unwrap();
    builder.add_tex(1, &b, 16, 16).unwrap();
    builder.add_tex(2, &c, 16, 16).unwrap();
    let (atlas, buf) = builder.build();
    assert_eq!(buf.len(), 64 * 64 * 4);
    let mut rects = Vec::new();
    for key in 0..3usize {
        let uv = *atlas.rect_for_tex(key).unwrap();
        let r = uv.to_pixel_rect();
        assert_eq!((r.w, r.h), (16, 16));
        assert!(r.x + r.w <= 64 && r.y + r.h <= 64);
        for other in rects.iter() {
            assert!(rects_disjoint(other, &r));
        }
        rects.push(r);
    }
    // Padded 18x18 requests go left to right along the top row.
    assert_eq!(rects[0], Rect { x: 1, y: 1, w: 16, h: 16 });
    assert_eq!(rects[1], Rect { x: 19, y: 1, w: 16, h: 16 });
    assert_eq!(rects[2], Rect { x: 37, y: 1, w: 16, h: 16 });
    // The blitted pixels carry each image's bytes.
    let at = |x: usize, y: usize| buf[(y * 64 + x) * 4];
    assert_eq!(at(1, 1), 10);
    assert_eq!(at(19, 1), 20);
    assert_eq!(at(37, 1), 30);
    // The margin between them stays untouched.
    assert_eq!(at(0, 0), 0);
    assert_eq!(at(18, 1), 0);
    assert_eq!(at(36, 1), 0);
}

/// A full atlas rejects further insertions with a pack error and keeps
/// earlier state.
#[test]
fn atlas_pack_error() {
    let mut builder = AtlasBuilder::new_with_spacing(16, 16, 0);
    let img = solid_rgba(16, 16, 1);
    builder.add_tex(0, &img, 16, 16).unwrap();
    let err = builder.add_tex(1, &img, 16, 16);
    assert_eq!(err, Err(AtlasPackErr::PackRectErr(PackRectError::SpaceTooSmall)));
    let (atlas, _) = builder.build();
    assert!(atlas.rect_for_tex(0).is_some());
    assert!(atlas.rect_for_tex(1).is_none());
}

/// The default spacing margin insets every image by two pixels.
#[test]
fn atlas_default_spacing() {
    let mut builder = AtlasBuilder::new(64, 64);
    let img = solid_rgba(8, 8, 99);
    builder.add_tex(5, &img, 8, 8).unwrap();
    let (atlas, _) = builder.build();
    let uv = *atlas.rect_for_tex(5).unwrap();
    assert_eq!(uv.to_pixel_rect(), Rect { x: SPACING, y: SPACING, w: 8, h: 8 });
}

/// Tilesets subdivide their packed rectangle into equal cells.
#[test]
fn tileset_tiles() {
    let mut builder = AtlasBuilder::new_with_spacing(64, 64, 0);
    let img = solid_rgba(32, 16, 7);
    builder.add_tileset(3, &img, 32, 16, 4, 2).unwrap();
    let (atlas, _) = builder.build();
    let ts = *atlas.rect_for_tileset(3).unwrap();
    assert_eq!(ts.rect.to_pixel_rect(), Rect { x: 0, y: 0, w: 32, h: 16 });
    let t00 = ts.tile(0, 0);
    assert_eq!(t00.to_pixel_rect(), Rect { x: 0, y: 0, w: 8, h: 8 });
    let t31 = ts.tile(3, 1);
    assert_eq!(t31.to_pixel_rect(), Rect { x: 24, y: 8, w: 8, h: 8 });
}

/// Sprite sheets resolve a frame index to its grid cell, and reject
/// indices past the grid.
#[test]
fn sprite_sheet_addressing() {
    let whole = UvRect::from_pixel_rect(&Rect { x: 4, y: 8, w: 32, h: 16 }, 64, 64);
    let sheet = SpriteSheet::new(whole, 4, 2, 8, 8);
    assert_eq!(
        sheet.uv_rect(0).unwrap().to_pixel_rect(),
        Rect { x: 4, y: 8, w: 8, h: 8 }
    );
    assert_eq!(
        sheet.uv_rect(5).unwrap().to_pixel_rect(),
        Rect { x: 12, y: 16, w: 8, h: 8 }
    );
    assert_eq!(sheet.uv_rect(8), Err(FrameAddressingError::FrameOutOfRange));
}

/// Animated sprites resolve (animation, frame) through the frame set and
/// the sheet grid, and every missing link is a checked error.
#[test]
fn anim_sprite_frames() {
    let mut builder = AtlasBuilder::new_with_spacing(64, 64, 0);
    let fs_id = builder.add_frame_set(FrameSet {
        frames: vec![Frames::Ordered(0, 3), Frames::Ordered(4, 7)],
    });
    let img = solid_rgba(32, 16, 1);
    builder.add_anim_sprite(&img, 9, fs_id, 32, 16, 8, 8).unwrap();
    let (atlas, _) = builder.build();
    let sprite = atlas.rect_for_anim_sprite(9).unwrap();
    // Animation 1, frame 2: sheet frame 6, second row, third column.
    let uv = sprite.frame(1, 2, &atlas.frame_set_map).unwrap();
    assert_eq!(uv.to_pixel_rect(), Rect { x: 16, y: 8, w: 8, h: 8 });
    // Frame past the animation.
    assert_eq!(
        sprite.frame(1, 4, &atlas.frame_set_map),
        Err(FrameAddressingError::FrameOutOfRange)
    );
    // Animation past the set.
    assert_eq!(
        sprite.frame(2, 0, &atlas.frame_set_map),
        Err(FrameAddressingError::AnimOutOfRange)
    );
    // A sprite whose frame set nobody registered.
    let empty_map = FrameSetMap::new();
    assert_eq!(
        sprite.frame(0, 0, &empty_map),
        Err(FrameAddressingError::MissingFrameSet)
    );
}

/// Bitmap fonts record one UV rect per declared character cell.
#[test]
fn bitmap_font_glyphs() {
    let mut builder = AtlasBuilder::new_with_spacing(64, 64, 0);
    let img = solid_rgba(24, 8, 2);
    let chars = [('0', (0u16, 0u16)), ('1', (1, 0)), ('2', (2, 0))];
    builder.add_bitmap_font(4, &img, 24, 8, &chars, 8, 8).unwrap();
    let (atlas, _) = builder.build();
    let font = atlas.bitmap_font(4).unwrap();
    assert_eq!(
        font.rect_for_char('1').unwrap().to_pixel_rect(),
        Rect { x: 8, y: 0, w: 8, h: 8 }
    );
    assert!(font.rect_for_char('9').is_none());
}

/// Font glyphs packed one by one land under their character.
#[test]
fn font_glyph_packing() {
    let mut builder = AtlasBuilder::new_with_spacing(64, 64, 1);
    let img = solid_rgba(6, 9, 255);
    builder.add_font_glyph('A', &img, 6, 9).unwrap();
    let (atlas, _) = builder.build();
    let uv = *atlas.rect_for_char('A').unwrap();
    assert_eq!(uv.to_pixel_rect(), Rect { x: 1, y: 1, w: 6, h: 9 });
    assert!(atlas.rect_for_char('B').is_none());
}

/// Mapping a key straight to a UV rect stores it unchanged.
#[test]
fn map_key_to_uv() {
    let mut builder = AtlasBuilder::new(32, 32);
    let uv = UvRect::from_pixel_rect(&Rect { x: 1, y: 2, w: 3, h: 4 }, 32, 32);
    builder.map_tex_to_uv_rect(11, uv);
    let (atlas, _) = builder.build();
    assert_eq!(*atlas.rect_for_tex(11).unwrap(), uv);
}

/// A span that does not divide evenly is split by truncating division:
/// the last cell absorbs the remainder.
#[test]
fn tileset_uneven_tiles() {
    let mut builder = AtlasBuilder::new_with_spacing(64, 64, 0);
    let img = solid_rgba(10, 10, 1);
    builder.add_tileset(1, &img, 10, 10, 3, 1).unwrap();
    let (atlas, _) = builder.build();
    let ts = *atlas.rect_for_tileset(1).unwrap();
    assert_eq!(ts.tile(0, 0).to_pixel_rect(), Rect { x: 0, y: 0, w: 3, h: 10 });
    assert_eq!(ts.tile(1, 0).to_pixel_rect(), Rect { x: 3, y: 0, w: 3, h: 10 });
    assert_eq!(ts.tile(2, 0).to_pixel_rect(), Rect { x: 6, y: 0, w: 4, h: 10 });
}
