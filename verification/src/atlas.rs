//! Texture atlas building.
//!
//! A builder packs raw RGBA images into one backing pixel buffer through
//! the binary tree bin packer, and records where each image ended up as an
//! exact UV rectangle: pixel numerators over the atlas dimensions, so
//! normalized coordinates are represented without floating point and the
//! packed pixel rectangle is recovered exactly.

pub mod bin_packer;
pub mod frame_set;
pub mod sprite_sheet;

use vstd::prelude::*;
use vstd::multiset::Multiset;
use crate::kvmap::KvMap;
use bin_packer::BinPackNode;
use bin_packer::PackRectError;
use bin_packer::Rect;
use bin_packer::rect_inside;
use frame_set::FrameAddressingError;
use frame_set::FrameSet;
use frame_set::FrameSetMap;
use frame_set::Frames;
use sprite_sheet::SpriteSheet;

verus! {

broadcast use vstd::multiset::group_multiset_axioms;

/// Spacing in pixels around items in the atlas, preventing texture
/// sampling bleed between neighbours.
pub const SPACING: u16 = 2;

/// A texture sampling rectangle in exact rational form.  Each side is a
/// pixel numerator over the atlas dimension as denominator: the normalized
/// coordinate of `left` is `left / atlas_w`, in `[0, 1]`.  Multiplying the
/// normalized value back by the atlas dimension recovers the pixel
/// coordinate exactly.
#[derive(Clone, Copy, Debug, PartialEq, Eq, Structural)]
pub struct UvRect {
    pub left: u16,
    pub top: u16,
    pub right: u16,
    pub bottom: u16,
    pub atlas_w: u16,
    pub atlas_h: u16,
}

/// The UV rectangle of a pixel rectangle inside an atlas of the given
/// dimensions.
pub open spec fn uv_of_pixel_rect(rect: Rect, w: u16, h: u16) -> UvRect {
    UvRect {
        left: rect.x,
        top: rect.y,
        right: (rect.x + rect.w) as u16,
        bottom: (rect.y + rect.h) as u16,
        atlas_w: w,
        atlas_h: h,
    }
}

/// The pixel rectangle a UV rectangle denotes.
pub open spec fn pixel_rect_of_uv(u: UvRect) -> Rect {
    Rect { x: u.left, y: u.top, w: (u.right - u.left) as u16, h: (u.bottom - u.top) as u16 }
}

impl UvRect {
    /// The sides are ordered and stay inside the atlas, and the atlas has
    /// positive dimensions.
    pub open spec fn wf(self) -> bool {
        &&& 0 < self.atlas_w
        &&& 0 < self.atlas_h
        &&& self.left <= self.right <= self.atlas_w
        &&& self.top <= self.bottom <= self.atlas_h
    }

    /// The UV rectangle of an `x y w h` pixel rect in an atlas of
    /// dimensions `w` by `h`.
    pub fn from_pixel_rect(rect: &Rect, w: u16, h: u16) -> (r: UvRect)
        requires
            0 < w,
            0 < h,
            rect.x + rect.w <= w,
            rect.y + rect.h <= h,
        ensures
            r == uv_of_pixel_rect(*rect, w, h),
            r.wf(),
    {
        UvRect {
            left: rect.x,
            top: rect.y,
            right: rect.x + rect.w,
            bottom: rect.y + rect.h,
            atlas_w: w,
            atlas_h: h,
        }
    }

    /// The pixel rectangle this UV rectangle denotes, recovered exactly.
    pub fn to_pixel_rect(&self) -> (r: Rect)
        requires
            self.wf(),
        ensures
            r == pixel_rect_of_uv(*self),
    {
        Rect {
            x: self.left,
            y: self.top,
            w: self.right - self.left,
            h: self.bottom - self.top,
        }
    }
}

/// Deriving a UV rectangle from a packed pixel rectangle and multiplying
/// it back by the atlas dimensions reproduces the pixel rectangle exactly.
pub proof fn lemma_uv_round_trip(rect: Rect, w: u16, h: u16)
    requires
        rect.x + rect.w <= w,
        rect.y + rect.h <= h,
    ensures
        pixel_rect_of_uv(uv_of_pixel_rect(rect, w, h)) == rect,
{
}

/// A tileset: one packed image subdivided into a uniform grid of tiles.
#[derive(Clone, Copy, Debug, PartialEq, Eq, Structural)]
pub struct Tileset {
    /// The rect for the whole tileset.
    pub rect: UvRect,
    /// Width in tiles.
    pub w: u32,
    /// Height in tiles.
    pub h: u32,
}

/// The UV rectangle of the tile at grid cell `(x, y)` of a tileset: the
/// whole rectangle's pixel span divided evenly (by truncating division)
/// into `w` by `h` cells.
pub open spec fn tile_uv(t: Tileset, x: u32, y: u32) -> UvRect {
    let span_w = t.rect.right - t.rect.left;
    let span_h = t.rect.bottom - t.rect.top;
    UvRect {
        left: (t.rect.left + span_w * x / (t.w as int)) as u16,
        right: (t.rect.left + span_w * (x + 1) / (t.w as int)) as u16,
        top: (t.rect.top + span_h * y / (t.h as int)) as u16,
        bottom: (t.rect.top + span_h * (y + 1) / (t.h as int)) as u16,
        atlas_w: t.rect.atlas_w,
        atlas_h: t.rect.atlas_h,
    }
}

impl Tileset {
    /// The whole rectangle is well formed and the grid is non-degenerate.
    pub open spec fn wf(self) -> bool {
        self.rect.wf() && 0 < self.w && 0 < self.h
    }

    /// A tileset over an `x y w h` pixel rect, with `tiles_x` by `tiles_y`
    /// grid cells.
    pub fn from_pixel_rect(rect: &Rect, w: u16, h: u16, tiles_x: u32, tiles_y: u32) -> (r:
        Tileset)
        requires
            0 < w,
            0 < h,
            rect.x + rect.w <= w,
            rect.y + rect.h <= h,
            0 < tiles_x,
            0 < tiles_y,
        ensures
            r == (Tileset { rect: uv_of_pixel_rect(*rect, w, h), w: tiles_x, h: tiles_y }),
            r.wf(),
    {
        Tileset { rect: UvRect::from_pixel_rect(rect, w, h), w: tiles_x, h: tiles_y }
    }

    /// The UV rectangle of a given tile in this set.
    pub fn tile(&self, x: u32, y: u32) -> (r: UvRect)
        requires
            self.wf(),
            x < self.w,
            y < self.h,
        ensures
            r == tile_uv(*self, x, y),
            r.wf(),
    {
        let span_w: u64 = (self.rect.right - self.rect.left) as u64;
        let span_h: u64 = (self.rect.bottom - self.rect.top) as u64;
        proof {
            lemma_cell_bounds(span_w as int, x as int, self.w as int);
            lemma_cell_bounds(span_h as int, y as int, self.h as int);
            assert(span_w * (x as int + 1) <= 0xffff * 0x1_0000_0000 && span_h * (y as int
                + 1) <= 0xffff * 0x1_0000_0000 && span_w * (x as int) <= 0xffff
                * 0x1_0000_0000 && span_h * (y as int) <= 0xffff * 0x1_0000_0000)
                by (nonlinear_arith)
                requires
                    0 <= span_w <= 0xffff,
                    0 <= span_h <= 0xffff,
                    0 <= x as int + 1 <= 0x1_0000_0000,
                    0 <= y as int + 1 <= 0x1_0000_0000,
            ;
        }
        let left: u64 = self.rect.left as u64 + span_w * (x as u64) / (self.w as u64);
        let right: u64 = self.rect.left as u64 + span_w * (x as u64 + 1) / (self.w as u64);
        let top: u64 = self.rect.top as u64 + span_h * (y as u64) / (self.h as u64);
        let bottom: u64 = self.rect.top as u64 + span_h * (y as u64 + 1) / (self.h as u64);
        UvRect {
            left: left as u16,
            top: top as u16,
            right: right as u16,
            bottom: bottom as u16,
            atlas_w: self.rect.atlas_w,
            atlas_h: self.rect.atlas_h,
        }
    }
}

/// Bounds for an even grid subdivision: cell edges are ordered and stay
/// within the subdivided span.
proof fn lemma_cell_bounds(span: int, x: int, n: int)
    requires
        0 <= span,
        0 <= x < n,
    ensures
        0 <= span * x / n,
        span * x / n <= span * (x + 1) / n,
        span * (x + 1) / n <= span,
{
    assert(0 <= span * x && span * x <= span * (x + 1) && span * (x + 1) <= span * n)
        by (nonlinear_arith)
        requires
            0 <= span,
            0 <= x < n,
    ;
    vstd::arithmetic::div_mod::lemma_div_pos_is_pos(span * x, n);
    vstd::arithmetic::div_mod::lemma_div_is_ordered(span * x, span * (x + 1), n);
    vstd::arithmetic::div_mod::lemma_div_is_ordered(span * (x + 1), span * n, n);
    vstd::arithmetic::div_mod::lemma_div_multiples_vanish(span, n);
    assert(span * n == n * span) by (nonlinear_arith);
}

/// The byte of the backing buffer at index `i` after an image has been
/// blitted into `rect`: bytes of pixels inside `rect` come from the image,
/// all others keep their old value.  The buffer is row-major RGBA: byte
/// `((py * wdt) + px) * 4 + k` is channel `k` of the pixel at `(px, py)`.
pub open spec fn blit_pixel(i: int, rect: Rect, wdt: int, img: Seq<u8>, old_b: Seq<u8>) -> u8 {
    let p = i / 4;
    let k = i % 4;
    let px = p % wdt;
    let py = p / wdt;
    if rect.x <= px < rect.x + rect.w && rect.y <= py < rect.y + rect.h {
        img[((py - rect.y) * rect.w + (px - rect.x)) * 4 + k]
    } else {
        old_b[i]
    }
}

/// As `blit_pixel`, but with only the first `yy` full rows and the first
/// `j` bytes of row `yy` copied.
spec fn blit_prog(
    i: int,
    rect: Rect,
    wdt: int,
    img: Seq<u8>,
    old_b: Seq<u8>,
    yy: int,
    j: int,
) -> u8 {
    let p = i / 4;
    let k = i % 4;
    let px = p % wdt;
    let py = p / wdt;
    if rect.x <= px < rect.x + rect.w && rect.y <= py < rect.y + rect.h && (py - rect.y < yy
        || (py - rect.y == yy && (px - rect.x) * 4 + k < j)) {
        img[((py - rect.y) * rect.w + (px - rect.x)) * 4 + k]
    } else {
        old_b[i]
    }
}

/// Decomposition of a buffer byte index into its pixel coordinates and
/// channel.
proof fn lemma_buf_index(py: int, px: int, k: int, wdt: int)
    requires
        0 < wdt,
        0 <= px < wdt,
        0 <= k < 4,
        0 <= py,
    ensures
        ((py * wdt + px) * 4 + k) / 4 == py * wdt + px,
        ((py * wdt + px) * 4 + k) % 4 == k,
        (py * wdt + px) % wdt == px,
        (py * wdt + px) / wdt == py,
{
    let p = py * wdt + px;
    assert(0 <= py * wdt + px) by (nonlinear_arith)
        requires
            0 <= py,
            0 <= px,
            0 < wdt,
    ;
    vstd::arithmetic::div_mod::lemma_fundamental_div_mod_converse_div(p * 4 + k, 4, p, k);
    vstd::arithmetic::div_mod::lemma_fundamental_div_mod_converse_mod(p * 4 + k, 4, p, k);
    vstd::arithmetic::div_mod::lemma_fundamental_div_mod_converse_div(p, wdt, py, px);
    vstd::arithmetic::div_mod::lemma_fundamental_div_mod_converse_mod(p, wdt, py, px);
}

/// An animated sprite: a set of sprite animations addressed through a
/// frame set.  This only records how to find frames; playback state lives
/// with the entity that renders it.
#[derive(Clone, Copy, Debug, PartialEq, Eq, Structural)]
pub struct AnimSprite {
    /// Number of columns in the sprite sheet.
    pub columns: usize,
    /// The id of the frame set registered for this sprite.
    pub frame_set: usize,
    /// The sprite sheet for this animation.
    pub sprite_sheet: SpriteSheet,
}

/// The result of resolving animation `anim`, frame `frame_num` of a
/// sprite through a frame set table and the sheet grid: every lookup is
/// checked, and the frame's UV rectangle comes from the sheet grid.
pub open spec fn anim_frame_spec(
    a: AnimSprite,
    anim: usize,
    frame_num: usize,
    fsm: Map<usize, FrameSet>,
) -> Result<UvRect, FrameAddressingError> {
    if !fsm.contains_key(a.frame_set) {
        Err(FrameAddressingError::MissingFrameSet)
    } else if anim >= fsm[a.frame_set].frames@.len() {
        Err(FrameAddressingError::AnimOutOfRange)
    } else {
        match fsm[a.frame_set].frames@[anim as int] {
            Frames::Ordered(start, end) => if start + frame_num <= end {
                if start + frame_num < a.sprite_sheet.columns * a.sprite_sheet.rows {
                    Ok(sprite_sheet::sheet_uv(a.sprite_sheet, start + frame_num))
                } else {
                    Err(FrameAddressingError::FrameOutOfRange)
                }
            } else {
                Err(FrameAddressingError::FrameOutOfRange)
            },
        }
    }
}

impl AnimSprite {
    pub open spec fn wf(self) -> bool {
        self.sprite_sheet.wf()
    }

    /// The UV rect of a given frame of a given animation in this
    /// animation set.  A missing frame set, an animation index past the
    /// set, or a frame past the animation or the sheet grid are explicit
    /// errors.
    pub fn frame(&self, anim: usize, frame_num: usize, frame_set_map: &FrameSetMap) -> (r:
        Result<UvRect, FrameAddressingError>)
        requires
            self.wf(),
            frame_set_map.wf(),
        ensures
            r == anim_frame_spec(*self, anim, frame_num, frame_set_map@),
            r matches Ok(uv) ==> uv.wf(),
    {
        let fs = match frame_set_map.get(self.frame_set) {
            Some(f) => f,
            None => {
                return Err(FrameAddressingError::MissingFrameSet);
            },
        };
        if anim >= fs.frames.len() {
            return Err(FrameAddressingError::AnimOutOfRange);
        }
        let frames = fs.frames[anim];
        let frame = match frames.get_frame(frame_num) {
            Ok(f) => f,
            Err(e) => {
                return Err(e);
            },
        };
        self.sprite_sheet.uv_rect(frame)
    }
}

/// The integer key a character is stored under: its Unicode scalar
/// value.
pub open spec fn char_key(c: char) -> usize {
    (c as u32) as usize
}

/// Distinct characters have distinct keys.
pub proof fn lemma_char_key_injective(a: char, b: char)
    requires
        char_key(a) == char_key(b),
    ensures
        a == b,
{
    broadcast use vstd::utf8::char_u32_cast;

    assert(a as u32 == b as u32);
}

/// A simple bitmap font: one UV rectangle per character.
pub struct BitmapFont {
    glyphs: KvMap<UvRect>,
}

impl BitmapFont {
    /// The font's glyph table, keyed by the character's code point.
    pub closed spec fn glyph_map(self) -> Map<usize, UvRect> {
        self.glyphs@
    }

    pub closed spec fn wf(self) -> bool {
        self.glyphs.wf()
    }

    /// The UV rectangle of a character, if the font has it.
    pub fn rect_for_char(&self, c: char) -> (r: Option<&UvRect>)
        requires
            self.wf(),
        ensures
            match r {
                Some(uv) => self.glyph_map().contains_key(char_key(c)) && *uv
                    == self.glyph_map()[char_key(c)],
                None => !self.glyph_map().contains_key(char_key(c)),
            },
    {
        self.glyphs.get((c as u32) as usize)
    }
}

/// Failure of an atlas insertion.
#[derive(Clone, Copy, Debug, PartialEq, Eq, Structural)]
pub enum AtlasPackErr {
    /// The bin packer had no free region large enough.  Image decoding and
    /// font rasterization happen outside the builder, so their failures
    /// surface in the layer that feeds it.
    PackRectErr(PackRectError),
}

/// An atlas containing images, tilesets, animated sprites, bitmap fonts
/// and font glyphs, each table keyed by an opaque integer texture key
/// (glyphs by character code point).  Built with an `AtlasBuilder`; the
/// atlas holds only the UV tables, while the pixel data is returned by
/// `build`.
pub struct TextureAtlas {
    textures: KvMap<UvRect>,
    glyphs: KvMap<UvRect>,
    tilesets: KvMap<Tileset>,
    anim_sprites: KvMap<AnimSprite>,
    bitmap_fonts: KvMap<BitmapFont>,
    pub frame_set_map: FrameSetMap,
}

impl TextureAtlas {
    pub closed spec fn texture_map(self) -> Map<usize, UvRect> {
        self.textures@
    }

    pub closed spec fn glyph_map(self) -> Map<usize, UvRect> {
        self.glyphs@
    }

    pub closed spec fn tileset_map(self) -> Map<usize, Tileset> {
        self.tilesets@
    }

    pub closed spec fn anim_sprite_map(self) -> Map<usize, AnimSprite> {
        self.anim_sprites@
    }

    pub closed spec fn bitmap_font_map(self) -> Map<usize, BitmapFont> {
        self.bitmap_fonts@
    }

    /// The registered frame sets, by id.
    pub closed spec fn frame_sets(self) -> Map<usize, FrameSet> {
        self.frame_set_map@
    }

    pub closed spec fn wf(self) -> bool {
        &&& self.textures.wf()
        &&& self.glyphs.wf()
        &&& self.tilesets.wf()
        &&& self.anim_sprites.wf()
        &&& self.bitmap_fonts.wf()
        &&& self.frame_set_map.wf()
        &&& forall|k: usize|
            self.tilesets@.contains_key(k) ==> (#[trigger] self.tilesets@[k]).wf()
        &&& forall|k: usize|
            self.anim_sprites@.contains_key(k) ==> (#[trigger] self.anim_sprites@[k]).wf()
        &&& forall|k: usize|
            self.bitmap_fonts@.contains_key(k) ==> (#[trigger] self.bitmap_fonts@[k]).wf()
    }

    fn new() -> (r: TextureAtlas)
        ensures
            r.wf(),
            r.texture_map() == Map::<usize, UvRect>::empty(),
            r.glyph_map() == Map::<usize, UvRect>::empty(),
            r.tileset_map() == Map::<usize, Tileset>::empty(),
            r.anim_sprite_map() == Map::<usize, AnimSprite>::empty(),
            r.bitmap_font_map() == Map::<usize, BitmapFont>::empty(),
            r.frame_set_map@ == Map::<usize, FrameSet>::empty(),
    {
        TextureAtlas {
            textures: KvMap::new(),
            glyphs: KvMap::new(),
            tilesets: KvMap::new(),
            anim_sprites: KvMap::new(),
            bitmap_fonts: KvMap::new(),
            frame_set_map: FrameSetMap::new(),
        }
    }

    /// The UV rectangle of a font glyph character, if one was packed.
    pub fn rect_for_char(&self, c: char) -> (r: Option<&UvRect>)
        requires
            self.wf(),
        ensures
            match r {
                Some(uv) => self.glyph_map().contains_key(char_key(c)) && *uv
                    == self.glyph_map()[char_key(c)],
                None => !self.glyph_map().contains_key(char_key(c)),
            },
    {
        self.glyphs.get((c as u32) as usize)
    }

    /// The UV rectangle of a texture key, if one was packed.
    pub fn rect_for_tex(&self, k: usize) -> (r: Option<&UvRect>)
        requires
            self.wf(),
        ensures
            match r {
                Some(uv) => self.texture_map().contains_key(k) && *uv == self.texture_map()[k],
                None => !self.texture_map().contains_key(k),
            },
    {
        self.textures.get(k)
    }

    /// The animated sprite registered under a texture key.
    pub fn rect_for_anim_sprite(&self, k: usize) -> (r: Option<&AnimSprite>)
        requires
            self.wf(),
        ensures
            match r {
                Some(a) => self.anim_sprite_map().contains_key(k) && *a
                    == self.anim_sprite_map()[k] && a.wf(),
                None => !self.anim_sprite_map().contains_key(k),
            },
    {
        self.anim_sprites.get(k)
    }

    /// The tileset registered under a texture key.
    pub fn rect_for_tileset(&self, k: usize) -> (r: Option<&Tileset>)
        requires
            self.wf(),
        ensures
            match r {
                Some(t) => self.tileset_map().contains_key(k) && *t == self.tileset_map()[k]
                    && t.wf(),
                None => !self.tileset_map().contains_key(k),
            },
    {
        self.tilesets.get(k)
    }

    /// The bitmap font registered under a texture key.
    pub fn bitmap_font(&self, k: usize) -> (r: Option<&BitmapFont>)
        requires
            self.wf(),
        ensures
            match r {
                Some(f) => self.bitmap_font_map().contains_key(k) && *f
                    == self.bitmap_font_map()[k] && f.wf(),
                None => !self.bitmap_font_map().contains_key(k),
            },
    {
        self.bitmap_fonts.get(k)
    }
}

/// Builds a texture atlas and its backing pixel buffer.  Each insertion
/// pads the request by the spacing margin, asks the bin packer for a free
/// rectangle, blits the raw RGBA bytes into the inset (unpadded)
/// rectangle, and records the inset rectangle as a UV rect under the
/// caller's key.  Insertion order affects the layout, so callers wanting
/// byte-identical atlases across runs must insert in a fixed order.
pub struct AtlasBuilder {
    pub width: u16,
    pub height: u16,
    /// Padding in pixels around each packed item.
    pub spacing: u16,
    buf: Vec<u8>,
    atlas: TextureAtlas,
    /// Used to pack textures.
    bin_pack_tree: BinPackNode,
    /// Source of fresh frame set ids.
    next_frame_set_id: usize,
}

impl AtlasBuilder {
    /// The backing RGBA pixel buffer.
    pub closed spec fn buffer(self) -> Seq<u8> {
        self.buf@
    }

    /// The atlas width in pixels, as a specification value.
    pub closed spec fn spec_width(self) -> u16 {
        self.width
    }

    /// The atlas height in pixels, as a specification value.
    pub closed spec fn spec_height(self) -> u16 {
        self.height
    }

    /// The spacing margin in pixels, as a specification value.
    pub closed spec fn spec_spacing(self) -> u16 {
        self.spacing
    }

    pub closed spec fn texture_map(self) -> Map<usize, UvRect> {
        self.atlas.texture_map()
    }

    pub closed spec fn glyph_map(self) -> Map<usize, UvRect> {
        self.atlas.glyph_map()
    }

    pub closed spec fn tileset_map(self) -> Map<usize, Tileset> {
        self.atlas.tileset_map()
    }

    pub closed spec fn anim_sprite_map(self) -> Map<usize, AnimSprite> {
        self.atlas.anim_sprite_map()
    }

    pub closed spec fn bitmap_font_map(self) -> Map<usize, BitmapFont> {
        self.atlas.bitmap_font_map()
    }

    pub closed spec fn frame_sets(self) -> Map<usize, FrameSet> {
        self.atlas.frame_set_map@
    }

    /// The id the next registered frame set will get.
    pub closed spec fn next_id(self) -> usize {
        self.next_frame_set_id
    }

    /// The rectangles the bin packer has handed out (padded sizes).
    pub closed spec fn packed(self) -> Multiset<Rect> {
        self.bin_pack_tree.packed_ms()
    }

    /// Whether a padded `w` by `h` request still fits somewhere.
    pub closed spec fn can_pack(self, w: u16, h: u16) -> bool {
        self.bin_pack_tree.fits(w, h)
    }

    /// Where a fitting padded `w` by `h` request would be placed.
    pub closed spec fn placed_at(self, w: u16, h: u16) -> Rect {
        self.bin_pack_tree.placed(w, h)
    }

    pub closed spec fn wf(self) -> bool {
        &&& 0 < self.width
        &&& 0 < self.height
        &&& self.buf@.len() == self.width * self.height * 4
        &&& self.bin_pack_tree.wf()
        &&& self.bin_pack_tree.dom() == (Rect { x: 0, y: 0, w: self.width, h: self.height })
        &&& self.atlas.wf()
    }

    /// A builder for a `w` by `h` atlas with the default spacing margin.
    pub fn new(w: u16, h: u16) -> (r: AtlasBuilder)
        requires
            0 < w,
            0 < h,
            w * h * 4 <= usize::MAX,
        ensures
            r.wf(),
            r.spec_width() == w,
            r.spec_height() == h,
            r.spec_spacing() == SPACING,
            r.buffer() == Seq::new((w * h * 4) as nat, |i: int| 0u8),
            r.texture_map() == Map::<usize, UvRect>::empty(),
            r.glyph_map() == Map::<usize, UvRect>::empty(),
            r.tileset_map() == Map::<usize, Tileset>::empty(),
            r.anim_sprite_map() == Map::<usize, AnimSprite>::empty(),
            r.bitmap_font_map() == Map::<usize, BitmapFont>::empty(),
            r.frame_sets() == Map::<usize, FrameSet>::empty(),
            r.next_id() == 0,
            r.packed() == Multiset::<Rect>::empty(),
            forall|pw: u16, ph: u16| #[trigger] r.can_pack(pw, ph) <==> (pw <= w && ph <= h),
            forall|pw: u16, ph: u16| #[trigger]
                r.placed_at(pw, ph) == (Rect { x: 0, y: 0, w: pw, h: ph }),
    {
        Self::new_with_spacing(w, h, SPACING)
    }

    /// A builder for a `w` by `h` atlas with an explicit spacing margin.
    pub fn new_with_spacing(w: u16, h: u16, spacing: u16) -> (r: AtlasBuilder)
        requires
            0 < w,
            0 < h,
            w * h * 4 <= usize::MAX,
        ensures
            r.wf(),
            r.spec_width() == w,
            r.spec_height() == h,
            r.spec_spacing() == spacing,
            r.buffer() == Seq::new((w * h * 4) as nat, |i: int| 0u8),
            r.texture_map() == Map::<usize, UvRect>::empty(),
            r.glyph_map() == Map::<usize, UvRect>::empty(),
            r.tileset_map() == Map::<usize, Tileset>::empty(),
            r.anim_sprite_map() == Map::<usize, AnimSprite>::empty(),
            r.bitmap_font_map() == Map::<usize, BitmapFont>::empty(),
            r.frame_sets() == Map::<usize, FrameSet>::empty(),
            r.next_id() == 0,
            r.packed() == Multiset::<Rect>::empty(),
            forall|pw: u16, ph: u16| #[trigger] r.can_pack(pw, ph) <==> (pw <= w && ph <= h),
            forall|pw: u16, ph: u16| #[trigger]
                r.placed_at(pw, ph) == (Rect { x: 0, y: 0, w: pw, h: ph }),
    {
        let len: usize = (w as usize) * (h as usize) * 4;
        let mut buf: Vec<u8> = Vec::new();
        let mut i: usize = 0;
        while i < len
            invariant
                i <= len,
                buf@.len() == i,
                forall|p: int| 0 <= p < i ==> buf@[p] == 0u8,
            decreases len - i,
        {
            buf.push(0u8);
            i = i + 1;
        }
        proof {
            assert(buf@ =~= Seq::new((w * h * 4) as nat, |i: int| 0u8));
        }
        AtlasBuilder {
            width: w,
            height: h,
            spacing,
            buf,
            atlas: TextureAtlas::new(),
            bin_pack_tree: BinPackNode::new(Rect { x: 0, y: 0, w, h }),
            next_frame_set_id: 0,
        }
    }

    /// Blit the given RGBA bytes into a pixel rect of the backing buffer.
    /// The rect is `x y w h`, as returned from the packer.
    fn blit(&mut self, buf: &[u8], rect: Rect)
        requires
            old(self).wf(),
            rect.x + rect.w <= old(self).width,
            rect.y + rect.h <= old(self).height,
            buf@.len() == rect.w * rect.h * 4,
        ensures
            final(self).wf(),
            final(self).width == old(self).width,
            final(self).height == old(self).height,
            final(self).spacing == old(self).spacing,
            final(self).atlas == old(self).atlas,
            final(self).bin_pack_tree == old(self).bin_pack_tree,
            final(self).next_frame_set_id == old(self).next_frame_set_id,
            final(self).buf@.len() == old(self).buf@.len(),
            forall|i: int|
                0 <= i < old(self).buf@.len() ==> final(self).buf@[i] == blit_pixel(
                    i,
                    rect,
                    old(self).width as int,
                    buf@,
                    old(self).buf@,
                ),
    {
        let wdt: u16 = self.width;
        let hgt: u16 = self.height;
        let slen: usize = buf.len();
        let ghost old_b = self.buf@;
        let ghost img = buf@;
        proof {
            assert forall|i: int| 0 <= i < old_b.len() implies self.buf@[i] == blit_prog(
                i,
                rect,
                wdt as int,
                img,
                old_b,
                0,
                0,
            ) by {}
        }
        let row_bytes: usize = rect.w as usize * 4;
        let mut yy: u16 = 0;
        while yy < rect.h
            invariant
                old(self).wf(),
                rect.x + rect.w <= wdt,
                rect.y + rect.h <= old(self).height,
                img.len() == rect.w * rect.h * 4,
                img.len() <= usize::MAX,
                img == buf@,
                wdt == old(self).width,
                hgt == old(self).height,
                row_bytes == rect.w * 4,
                yy <= rect.h,
                self.width == old(self).width,
                self.height == old(self).height,
                self.spacing == old(self).spacing,
                self.atlas == old(self).atlas,
                self.bin_pack_tree == old(self).bin_pack_tree,
                self.next_frame_set_id == old(self).next_frame_set_id,
                self.buf@.len() == old_b.len(),
                old_b == old(self).buf@,
                old_b.len() == wdt * old(self).height * 4,
                forall|i: int|
                    0 <= i < old_b.len() ==> self.buf@[i] == blit_prog(
                        i,
                        rect,
                        wdt as int,
                        img,
                        old_b,
                        yy as int,
                        0,
                    ),
            decreases rect.h - yy,
        {
            let mut j: usize = 0;
            while j < row_bytes
                invariant
                    old(self).wf(),
                    rect.x + rect.w <= wdt,
                    rect.y + rect.h <= old(self).height,
                    img.len() == rect.w * rect.h * 4,
                    img.len() <= usize::MAX,
                    img == buf@,
                    wdt == old(self).width,
                    hgt == old(self).height,
                    row_bytes == rect.w * 4,
                    yy < rect.h,
                    j <= row_bytes,
                    self.width == old(self).width,
                    self.height == old(self).height,
                    self.spacing == old(self).spacing,
                    self.atlas == old(self).atlas,
                    self.bin_pack_tree == old(self).bin_pack_tree,
                    self.next_frame_set_id == old(self).next_frame_set_id,
                    self.buf@.len() == old_b.len(),
                    old_b == old(self).buf@,
                    old_b.len() == wdt * old(self).height * 4,
                    forall|i: int|
                        0 <= i < old_b.len() ==> self.buf@[i] == blit_prog(
                            i,
                            rect,
                            wdt as int,
                            img,
                            old_b,
                            yy as int,
                            j as int,
                        ),
                decreases row_bytes - j,
            {
                let ghost wi = wdt as int;
                let ghost ry = rect.y as int;
                let ghost rx = rect.x as int;
                let ghost py = ry + yy as int;
                proof {
                    // Row byte j is channel j % 4 of pixel column j / 4.
                    vstd::arithmetic::div_mod::lemma_fundamental_div_mod(j as int, 4);
                    vstd::arithmetic::div_mod::lemma_mod_division_less_than_divisor(
                        j as int,
                        4,
                    );
                    vstd::arithmetic::div_mod::lemma_div_pos_is_pos(j as int, 4);
                }
                let ghost q = j as int / 4;
                let ghost k2 = j as int % 4;
                let ghost px = rx + q;
                proof {
                    assert(q < rect.w as int);
                    lemma_buf_index(py, px, k2, wi);
                    // Buffer and image index bounds.
                    assert((py * wi + px) * 4 + k2 < wi * (hgt as int) * 4
                        && (yy as int) * (rect.w as int * 4) + j < rect.w as int * rect.h
                        as int * 4 && (yy as int) * (rect.w as int) * 4 == (yy as int)
                        * (rect.w as int * 4)) by (nonlinear_arith)
                        requires
                            0 <= q < rect.w as int,
                            0 <= k2 < 4,
                            px == rx + q,
                            py == ry + yy as int,
                            0 <= rx,
                            0 <= ry,
                            rx + rect.w <= wi,
                            ry + rect.h <= hgt as int,
                            0 <= (yy as int) && (yy as int) < rect.h as int,
                            0 <= (j as int) && (j as int) < rect.w as int * 4,
                            j as int == q * 4 + k2,
                    ;
                }
                proof {
                    assert(0 <= ((ry + yy as int) * wi + rx) * 4 + j
                        && ((ry + yy as int) * wi + rx) * 4 + j < 0x10_0000_0000)
                        by (nonlinear_arith)
                        requires
                            0 <= ry,
                            0 <= rx <= 0xffff,
                            ry + yy as int <= 0x1_ffff,
                            0 < wi <= 0xffff,
                            0 <= (j as int) && (j as int) < rect.w as int * 4,
                            rect.w <= 0xffff,
                    ;
                }
                let dst64: u64 = (((rect.y as u64 + yy as u64) * (wdt as u64) + rect.x
                    as u64) * 4) + (j as u64);
                let blen: usize = self.buf.len();
                proof {
                    assert(dst64 as int == (py * wi + px) * 4 + k2) by (nonlinear_arith)
                        requires
                            dst64 as int == ((ry + yy as int) * wi + rx) * 4 + j as int,
                            py == ry + yy as int,
                            px == rx + q,
                            j as int == q * 4 + k2,
                            0 <= q,
                            0 <= k2 < 4,
                    ;
                    assert((dst64 as int) < (blen as int));
                }
                let dst: usize = dst64 as usize;
                let src: usize = (yy as usize) * row_bytes + j;
                let v: u8 = buf[src];
                proof {
                    assert(img[src as int] == img[((py - ry) * rect.w + (px - rx)) * 4
                        + k2]) by (nonlinear_arith)
                        requires
                            src as int == (yy as int) * (rect.w as int * 4) + j as int,
                            j as int == q * 4 + k2,
                            py - ry == yy as int,
                            px - rx == q,
                            img.len() == rect.w as int * rect.h as int * 4,
                    ;
                }
                self.buf[dst] = v;
                proof {
                    let jn = j as int + 1;
                    assert forall|i: int| 0 <= i < old_b.len() implies self.buf@[i]
                        == blit_prog(i, rect, wi, img, old_b, yy as int, jn) by {
                        if i == dst as int {
                        } else {
                            let p = i / 4;
                            let k = i % 4;
                            let px2 = p % wi;
                            let py2 = p / wi;
                            if rect.x <= px2 < rect.x + rect.w && rect.y <= py2 < rect.y
                                + rect.h && py2 - ry == yy as int && (px2 - rx) * 4 + k
                                == j as int {
                                // this byte is exactly the one just written
                                vstd::arithmetic::div_mod::lemma_fundamental_div_mod(i, 4);
                                vstd::arithmetic::div_mod::lemma_fundamental_div_mod(
                                    p,
                                    wi,
                                );
                                vstd::arithmetic::div_mod::lemma_mod_division_less_than_divisor(
                                    i,
                                    4,
                                );
                                vstd::arithmetic::div_mod::lemma_mod_division_less_than_divisor(
                                    p,
                                    wi,
                                );
                                assert(px2 - rx == q && k == k2);
                                assert(py2 * wi == wi * py2) by (nonlinear_arith);
                                assert(p == py2 * wi + px2);
                                assert(i == p * 4 + k);
                                assert(false);
                            }
                        }
                    }
                }
                j = j + 1;
            }
            proof {
                assert forall|i: int| 0 <= i < old_b.len() implies blit_prog(
                    i,
                    rect,
                    wdt as int,
                    img,
                    old_b,
                    yy as int,
                    row_bytes as int,
                ) == blit_prog(i, rect, wdt as int, img, old_b, yy as int + 1, 0) by {
                    let p = i / 4;
                    let k = i % 4;
                    let px2 = p % (wdt as int);
                    let py2 = p / (wdt as int);
                    if rect.x <= px2 < rect.x + rect.w && rect.y <= py2 < rect.y + rect.h {
                        vstd::arithmetic::div_mod::lemma_mod_division_less_than_divisor(
                            i,
                            4,
                        );
                        assert((px2 - rect.x) * 4 + k < rect.w as int * 4);
                    }
                }
            }
            yy = yy + 1;
        }
        proof {
            assert forall|i: int| 0 <= i < old_b.len() implies self.buf@[i] == blit_pixel(
                i,
                rect,
                wdt as int,
                img,
                old_b,
            ) by {}
        }
    }
}

impl AtlasBuilder {
    /// Pack a `w` by `h` image padded by the spacing margin, blit it into
    /// the inset (unpadded) rectangle, and return the inset rectangle.
    fn pack_and_blit(&mut self, img: &[u8], w: u16, h: u16) -> (r: Result<Rect, AtlasPackErr>)
        requires
            old(self).wf(),
            img@.len() == w * h * 4,
            0 < w,
            0 < h,
            w + 2 * old(self).spacing <= 0xffff,
            h + 2 * old(self).spacing <= 0xffff,
        ensures
            final(self).wf(),
            final(self).width == old(self).width,
            final(self).height == old(self).height,
            final(self).spacing == old(self).spacing,
            final(self).next_frame_set_id == old(self).next_frame_set_id,
            final(self).atlas == old(self).atlas,
            final(self).buf@.len() == old(self).buf@.len(),
            r is Ok <==> old(self).can_pack(
                (w + 2 * old(self).spacing) as u16,
                (h + 2 * old(self).spacing) as u16,
            ),
            r is Err ==> *final(self) == *old(self) && r == Err::<Rect, AtlasPackErr>(
                AtlasPackErr::PackRectErr(PackRectError::SpaceTooSmall),
            ),
            r matches Ok(inner) ==> ({
                let pad = old(self).placed_at(
                    (w + 2 * old(self).spacing) as u16,
                    (h + 2 * old(self).spacing) as u16,
                );
                &&& inner == (Rect {
                    x: (pad.x + old(self).spacing) as u16,
                    y: (pad.y + old(self).spacing) as u16,
                    w,
                    h,
                })
                &&& inner.x + w <= old(self).width
                &&& inner.y + h <= old(self).height
                &&& final(self).packed() == old(self).packed().insert(pad)
                &&& forall|i: int|
                    0 <= i < old(self).buf@.len() ==> final(self).buf@[i] == blit_pixel(
                        i,
                        inner,
                        old(self).width as int,
                        img@,
                        old(self).buf@,
                    )
            }),
    {
        let sp = self.spacing;
        let pw = w + 2 * sp;
        let ph = h + 2 * sp;
        let pad = match self.bin_pack_tree.pack_rect(pw, ph) {
            Ok(p) => p,
            Err(e) => {
                return Err(AtlasPackErr::PackRectErr(e));
            },
        };
        proof {
            bin_packer::lemma_packed_rects_sound(self.bin_pack_tree);
            assert(self.bin_pack_tree.packed_ms().count(pad) > 0);
            assert(rect_inside(pad, self.bin_pack_tree.dom()));
        }
        let inner = Rect { x: pad.x + sp, y: pad.y + sp, w, h };
        self.blit(img, inner);
        Ok(inner)
    }

    /// Pack an RGBA image under a texture key: the image is padded by the
    /// spacing margin, placed by the bin packer, blitted into the backing
    /// buffer at the inset rectangle, and the inset rectangle recorded as
    /// the key's UV rect.
    pub fn add_tex(&mut self, key: usize, img: &[u8], w: u16, h: u16) -> (r: Result<
        (),
        AtlasPackErr,
    >)
        requires
            old(self).wf(),
            img@.len() == w * h * 4,
            0 < w,
            0 < h,
            w + 2 * old(self).spec_spacing() <= 0xffff,
            h + 2 * old(self).spec_spacing() <= 0xffff,
        ensures
            final(self).wf(),
            final(self).spec_width() == old(self).spec_width(),
            final(self).spec_height() == old(self).spec_height(),
            final(self).spec_spacing() == old(self).spec_spacing(),
            final(self).next_id() == old(self).next_id(),
            r is Ok <==> old(self).can_pack(
                (w + 2 * old(self).spec_spacing()) as u16,
                (h + 2 * old(self).spec_spacing()) as u16,
            ),
            r is Err ==> *final(self) == *old(self) && r == Err::<(), AtlasPackErr>(
                AtlasPackErr::PackRectErr(PackRectError::SpaceTooSmall),
            ),
            r is Ok ==> ({
                let pad = old(self).placed_at(
                    (w + 2 * old(self).spec_spacing()) as u16,
                    (h + 2 * old(self).spec_spacing()) as u16,
                );
                let inner = Rect {
                    x: (pad.x + old(self).spec_spacing()) as u16,
                    y: (pad.y + old(self).spec_spacing()) as u16,
                    w,
                    h,
                };
                &&& final(self).texture_map() == old(self).texture_map().insert(
                    key,
                    uv_of_pixel_rect(inner, old(self).spec_width(), old(self).spec_height()),
                )
                &&& final(self).glyph_map() == old(self).glyph_map()
                &&& final(self).tileset_map() == old(self).tileset_map()
                &&& final(self).anim_sprite_map() == old(self).anim_sprite_map()
                &&& final(self).bitmap_font_map() == old(self).bitmap_font_map()
                &&& final(self).frame_sets() == old(self).frame_sets()
                &&& final(self).packed() == old(self).packed().insert(pad)
                &&& forall|i: int|
                    0 <= i < old(self).buffer().len() ==> final(self).buffer()[i]
                        == blit_pixel(
                        i,
                        inner,
                        old(self).spec_width() as int,
                        img@,
                        old(self).buffer(),
                    )
            }),
    {
        let inner = match self.pack_and_blit(img, w, h) {
            Ok(r) => r,
            Err(e) => {
                return Err(e);
            },
        };
        let uv = UvRect::from_pixel_rect(&inner, self.width, self.height);
        self.atlas.textures.insert(key, uv);
        Ok(())
    }
}

/// The UV rectangle of grid cell `(cx, cy)` of a sheet packed at `inner`,
/// with cells of `fw` by `fh` pixels, in an `aw` by `ah` atlas.
pub open spec fn cell_uv(inner: Rect, cx: u16, cy: u16, fw: u16, fh: u16, aw: u16, ah: u16)
    -> UvRect {
    uv_of_pixel_rect(
        Rect { x: (inner.x + cx * fw) as u16, y: (inner.y + cy * fh) as u16, w: fw, h: fh },
        aw,
        ah,
    )
}

/// A span holds at least one whole cell, and whole cells never overrun
/// the span.
proof fn lemma_grid_fit(w: int, fw: int)
    requires
        0 < fw <= w,
    ensures
        1 <= w / fw,
        (w / fw) * fw <= w,
{
    vstd::arithmetic::div_mod::lemma_div_by_self(fw);
    vstd::arithmetic::div_mod::lemma_div_is_ordered(fw, w, fw);
    vstd::arithmetic::div_mod::lemma_fundamental_div_mod(w, fw);
    vstd::arithmetic::div_mod::lemma_mod_division_less_than_divisor(w, fw);
    assert(fw * (w / fw) == (w / fw) * fw) by (nonlinear_arith);
}

impl AtlasBuilder {
    /// Pack a tileset image: as `add_tex`, but also recording the
    /// `tiles_x` by `tiles_y` grid so a later `tile` query can subdivide
    /// the packed rectangle.
    pub fn add_tileset(
        &mut self,
        key: usize,
        img: &[u8],
        w: u16,
        h: u16,
        tiles_x: u32,
        tiles_y: u32,
    ) -> (r: Result<(), AtlasPackErr>)
        requires
            old(self).wf(),
            img@.len() == w * h * 4,
            0 < w,
            0 < h,
            0 < tiles_x,
            0 < tiles_y,
            w + 2 * old(self).spec_spacing() <= 0xffff,
            h + 2 * old(self).spec_spacing() <= 0xffff,
        ensures
            final(self).wf(),
            final(self).spec_width() == old(self).spec_width(),
            final(self).spec_height() == old(self).spec_height(),
            final(self).spec_spacing() == old(self).spec_spacing(),
            final(self).next_id() == old(self).next_id(),
            r is Ok <==> old(self).can_pack(
                (w + 2 * old(self).spec_spacing()) as u16,
                (h + 2 * old(self).spec_spacing()) as u16,
            ),
            r is Err ==> *final(self) == *old(self) && r == Err::<(), AtlasPackErr>(
                AtlasPackErr::PackRectErr(PackRectError::SpaceTooSmall),
            ),
            r is Ok ==> ({
                let pad = old(self).placed_at(
                    (w + 2 * old(self).spec_spacing()) as u16,
                    (h + 2 * old(self).spec_spacing()) as u16,
                );
                let inner = Rect {
                    x: (pad.x + old(self).spec_spacing()) as u16,
                    y: (pad.y + old(self).spec_spacing()) as u16,
                    w,
                    h,
                };
                &&& final(self).tileset_map() == old(self).tileset_map().insert(
                    key,
                    Tileset {
                        rect: uv_of_pixel_rect(
                            inner,
                            old(self).spec_width(),
                            old(self).spec_height(),
                        ),
                        w: tiles_x,
                        h: tiles_y,
                    },
                )
                &&& final(self).texture_map() == old(self).texture_map()
                &&& final(self).glyph_map() == old(self).glyph_map()
                &&& final(self).anim_sprite_map() == old(self).anim_sprite_map()
                &&& final(self).bitmap_font_map() == old(self).bitmap_font_map()
                &&& final(self).frame_sets() == old(self).frame_sets()
                &&& final(self).packed() == old(self).packed().insert(pad)
                &&& forall|i: int|
                    0 <= i < old(self).buffer().len() ==> final(self).buffer()[i]
                        == blit_pixel(
                        i,
                        inner,
                        old(self).spec_width() as int,
                        img@,
                        old(self).buffer(),
                    )
            }),
    {
        let inner = match self.pack_and_blit(img, w, h) {
            Ok(rect) => rect,
            Err(e) => {
                return Err(e);
            },
        };
        let ts = Tileset::from_pixel_rect(&inner, self.width, self.height, tiles_x, tiles_y);
        self.atlas.tilesets.insert(key, ts);
        Ok(())
    }

    /// Pack a sprite sheet and register an animated sprite for it: the
    /// sheet is divided into `w / frame_w` columns and `h / frame_h` rows
    /// of frames, addressed through the given frame set id.
    pub fn add_anim_sprite(
        &mut self,
        img: &[u8],
        key: usize,
        frame_set: usize,
        w: u16,
        h: u16,
        frame_w: u16,
        frame_h: u16,
    ) -> (r: Result<(), AtlasPackErr>)
        requires
            old(self).wf(),
            img@.len() == w * h * 4,
            0 < frame_w <= w,
            0 < frame_h <= h,
            w + 2 * old(self).spec_spacing() <= 0xffff,
            h + 2 * old(self).spec_spacing() <= 0xffff,
        ensures
            final(self).wf(),
            final(self).spec_width() == old(self).spec_width(),
            final(self).spec_height() == old(self).spec_height(),
            final(self).spec_spacing() == old(self).spec_spacing(),
            final(self).next_id() == old(self).next_id(),
            r is Ok <==> old(self).can_pack(
                (w + 2 * old(self).spec_spacing()) as u16,
                (h + 2 * old(self).spec_spacing()) as u16,
            ),
            r is Err ==> *final(self) == *old(self) && r == Err::<(), AtlasPackErr>(
                AtlasPackErr::PackRectErr(PackRectError::SpaceTooSmall),
            ),
            r is Ok ==> ({
                let pad = old(self).placed_at(
                    (w + 2 * old(self).spec_spacing()) as u16,
                    (h + 2 * old(self).spec_spacing()) as u16,
                );
                let inner = Rect {
                    x: (pad.x + old(self).spec_spacing()) as u16,
                    y: (pad.y + old(self).spec_spacing()) as u16,
                    w,
                    h,
                };
                let sheet = SpriteSheet {
                    whole: uv_of_pixel_rect(inner, old(self).spec_width(), old(self).spec_height()),
                    columns: (w / frame_w) as usize,
                    rows: (h / frame_h) as usize,
                    frame_w,
                    frame_h,
                };
                &&& final(self).anim_sprite_map() == old(self).anim_sprite_map().insert(
                    key,
                    AnimSprite { columns: (w / frame_w) as usize, frame_set, sprite_sheet: sheet },
                )
                &&& final(self).texture_map() == old(self).texture_map()
                &&& final(self).glyph_map() == old(self).glyph_map()
                &&& final(self).tileset_map() == old(self).tileset_map()
                &&& final(self).bitmap_font_map() == old(self).bitmap_font_map()
                &&& final(self).frame_sets() == old(self).frame_sets()
                &&& final(self).packed() == old(self).packed().insert(pad)
                &&& forall|i: int|
                    0 <= i < old(self).buffer().len() ==> final(self).buffer()[i]
                        == blit_pixel(
                        i,
                        inner,
                        old(self).spec_width() as int,
                        img@,
                        old(self).buffer(),
                    )
            }),
    {
        let inner = match self.pack_and_blit(img, w, h) {
            Ok(rect) => rect,
            Err(e) => {
                return Err(e);
            },
        };
        let uv = UvRect::from_pixel_rect(&inner, self.width, self.height);
        proof {
            lemma_grid_fit(w as int, frame_w as int);
            lemma_grid_fit(h as int, frame_h as int);
        }
        let columns: usize = (w / frame_w) as usize;
        let rows: usize = (h / frame_h) as usize;
        let sheet = SpriteSheet::new(uv, columns, rows, frame_w, frame_h);
        self.atlas.anim_sprites.insert(
            key,
            AnimSprite { columns, frame_set, sprite_sheet: sheet },
        );
        Ok(())
    }

    /// Pack a single rasterized font glyph and record its UV rect under
    /// its character.  Rasterization itself happens outside the builder;
    /// this takes the glyph's raw RGBA coverage bitmap.
    pub fn add_font_glyph(&mut self, c: char, img: &[u8], w: u16, h: u16) -> (r: Result<
        (),
        AtlasPackErr,
    >)
        requires
            old(self).wf(),
            img@.len() == w * h * 4,
            0 < w,
            0 < h,
            w + 2 * old(self).spec_spacing() <= 0xffff,
            h + 2 * old(self).spec_spacing() <= 0xffff,
        ensures
            final(self).wf(),
            final(self).spec_width() == old(self).spec_width(),
            final(self).spec_height() == old(self).spec_height(),
            final(self).spec_spacing() == old(self).spec_spacing(),
            final(self).next_id() == old(self).next_id(),
            r is Ok <==> old(self).can_pack(
                (w + 2 * old(self).spec_spacing()) as u16,
                (h + 2 * old(self).spec_spacing()) as u16,
            ),
            r is Err ==> *final(self) == *old(self) && r == Err::<(), AtlasPackErr>(
                AtlasPackErr::PackRectErr(PackRectError::SpaceTooSmall),
            ),
            r is Ok ==> ({
                let pad = old(self).placed_at(
                    (w + 2 * old(self).spec_spacing()) as u16,
                    (h + 2 * old(self).spec_spacing()) as u16,
                );
                let inner = Rect {
                    x: (pad.x + old(self).spec_spacing()) as u16,
                    y: (pad.y + old(self).spec_spacing()) as u16,
                    w,
                    h,
                };
                &&& final(self).glyph_map() == old(self).glyph_map().insert(
                    char_key(c),
                    uv_of_pixel_rect(inner, old(self).spec_width(), old(self).spec_height()),
                )
                &&& final(self).texture_map() == old(self).texture_map()
                &&& final(self).tileset_map() == old(self).tileset_map()
                &&& final(self).anim_sprite_map() == old(self).anim_sprite_map()
                &&& final(self).bitmap_font_map() == old(self).bitmap_font_map()
                &&& final(self).frame_sets() == old(self).frame_sets()
                &&& final(self).packed() == old(self).packed().insert(pad)
                &&& forall|i: int|
                    0 <= i < old(self).buffer().len() ==> final(self).buffer()[i]
                        == blit_pixel(
                        i,
                        inner,
                        old(self).spec_width() as int,
                        img@,
                        old(self).buffer(),
                    )
            }),
    {
        let inner = match self.pack_and_blit(img, w, h) {
            Ok(rect) => rect,
            Err(e) => {
                return Err(e);
            },
        };
        let uv = UvRect::from_pixel_rect(&inner, self.width, self.height);
        self.atlas.glyphs.insert((c as u32) as usize, uv);
        Ok(())
    }

    /// Map a texture key directly to a UV rect.  This makes it possible to
    /// have a static texture which is a frame of an animation.
    pub fn map_tex_to_uv_rect(&mut self, key: usize, rect: UvRect)
        requires
            old(self).wf(),
        ensures
            final(self).wf(),
            final(self).spec_width() == old(self).spec_width(),
            final(self).spec_height() == old(self).spec_height(),
            final(self).spec_spacing() == old(self).spec_spacing(),
            final(self).next_id() == old(self).next_id(),
            final(self).texture_map() == old(self).texture_map().insert(key, rect),
            final(self).glyph_map() == old(self).glyph_map(),
            final(self).tileset_map() == old(self).tileset_map(),
            final(self).anim_sprite_map() == old(self).anim_sprite_map(),
            final(self).bitmap_font_map() == old(self).bitmap_font_map(),
            final(self).frame_sets() == old(self).frame_sets(),
            final(self).packed() == old(self).packed(),
            final(self).buffer() == old(self).buffer(),
    {
        self.atlas.textures.insert(key, rect);
    }

    /// Register a frame set under a fresh id and return the id.
    pub fn add_frame_set(&mut self, f: FrameSet) -> (id: usize)
        requires
            old(self).wf(),
            old(self).next_id() < usize::MAX,
        ensures
            final(self).wf(),
            id == old(self).next_id(),
            final(self).next_id() == old(self).next_id() + 1,
            final(self).spec_width() == old(self).spec_width(),
            final(self).spec_height() == old(self).spec_height(),
            final(self).spec_spacing() == old(self).spec_spacing(),
            final(self).frame_sets() == old(self).frame_sets().insert(id, f),
            final(self).texture_map() == old(self).texture_map(),
            final(self).glyph_map() == old(self).glyph_map(),
            final(self).tileset_map() == old(self).tileset_map(),
            final(self).anim_sprite_map() == old(self).anim_sprite_map(),
            final(self).bitmap_font_map() == old(self).bitmap_font_map(),
            final(self).packed() == old(self).packed(),
            final(self).buffer() == old(self).buffer(),
    {
        let id = frame_set::gen_new_frame_set_id(&mut self.next_frame_set_id);
        self.atlas.frame_set_map.insert(id, f);
        id
    }

    /// Finish the build: hand out the atlas's UV tables and the packed
    /// RGBA pixel buffer, ready for a one-shot upload to a texture
    /// resource.  This is a terminal operation: the builder is consumed.
    pub fn build(self) -> (r: (TextureAtlas, Vec<u8>))
        requires
            self.wf(),
        ensures
            r.0.wf(),
            r.0.texture_map() == self.texture_map(),
            r.0.glyph_map() == self.glyph_map(),
            r.0.tileset_map() == self.tileset_map(),
            r.0.anim_sprite_map() == self.anim_sprite_map(),
            r.0.bitmap_font_map() == self.bitmap_font_map(),
            r.0.frame_sets() == self.frame_sets(),
            r.1@ == self.buffer(),
            r.1@.len() == self.spec_width() * self.spec_height() * 4,
    {
        (self.atlas, self.buf)
    }
}

impl AtlasBuilder {
    /// Pack a bitmap font sheet, a uniform grid of glyph cells, and record
    /// each listed character's UV rect at its declared cell.  Characters
    /// must be distinct and every declared cell must lie inside the sheet.
    pub fn add_bitmap_font(
        &mut self,
        key: usize,
        img: &[u8],
        w: u16,
        h: u16,
        chars: &[(char, (u16, u16))],
        frame_w: u16,
        frame_h: u16,
    ) -> (r: Result<(), AtlasPackErr>)
        requires
            old(self).wf(),
            img@.len() == w * h * 4,
            0 < w,
            0 < h,
            0 < frame_w,
            0 < frame_h,
            w + 2 * old(self).spec_spacing() <= 0xffff,
            h + 2 * old(self).spec_spacing() <= 0xffff,
            forall|i: int, j: int|
                0 <= i < j < chars@.len() ==> (#[trigger] chars@[i]).0 != (#[trigger]
                chars@[j]).0,
            forall|i: int|
                0 <= i < chars@.len() ==> ((#[trigger] chars@[i]).1.0 + 1) * frame_w <= w
                    && (chars@[i].1.1 + 1) * frame_h <= h,
        ensures
            final(self).wf(),
            final(self).spec_width() == old(self).spec_width(),
            final(self).spec_height() == old(self).spec_height(),
            final(self).spec_spacing() == old(self).spec_spacing(),
            final(self).next_id() == old(self).next_id(),
            r is Ok <==> old(self).can_pack(
                (w + 2 * old(self).spec_spacing()) as u16,
                (h + 2 * old(self).spec_spacing()) as u16,
            ),
            r is Err ==> *final(self) == *old(self) && r == Err::<(), AtlasPackErr>(
                AtlasPackErr::PackRectErr(PackRectError::SpaceTooSmall),
            ),
            r is Ok ==> ({
                let pad = old(self).placed_at(
                    (w + 2 * old(self).spec_spacing()) as u16,
                    (h + 2 * old(self).spec_spacing()) as u16,
                );
                let inner = Rect {
                    x: (pad.x + old(self).spec_spacing()) as u16,
                    y: (pad.y + old(self).spec_spacing()) as u16,
                    w,
                    h,
                };
                let fnt = final(self).bitmap_font_map()[key];
                &&& final(self).bitmap_font_map() == old(self).bitmap_font_map().insert(
                    key,
                    fnt,
                )
                &&& fnt.wf()
                &&& forall|i: int|
                    0 <= i < chars@.len() ==> fnt.glyph_map().contains_key(
                        char_key((#[trigger] chars@[i]).0),
                    ) && fnt.glyph_map()[char_key(chars@[i].0)] == cell_uv(
                        inner,
                        chars@[i].1.0,
                        chars@[i].1.1,
                        frame_w,
                        frame_h,
                        old(self).spec_width(),
                        old(self).spec_height(),
                    )
                &&& forall|c: usize|
                    #[trigger] fnt.glyph_map().contains_key(c) ==> exists|i: int|
                        0 <= i < chars@.len() && char_key((#[trigger] chars@[i]).0) == c
                &&& final(self).texture_map() == old(self).texture_map()
                &&& final(self).glyph_map() == old(self).glyph_map()
                &&& final(self).tileset_map() == old(self).tileset_map()
                &&& final(self).anim_sprite_map() == old(self).anim_sprite_map()
                &&& final(self).frame_sets() == old(self).frame_sets()
                &&& final(self).packed() == old(self).packed().insert(pad)
                &&& forall|i: int|
                    0 <= i < old(self).buffer().len() ==> final(self).buffer()[i]
                        == blit_pixel(
                        i,
                        inner,
                        old(self).spec_width() as int,
                        img@,
                        old(self).buffer(),
                    )
            }),
    {
        let inner = match self.pack_and_blit(img, w, h) {
            Ok(rect) => rect,
            Err(e) => {
                return Err(e);
            },
        };
        let ghost mid = *self;
        let mut glyphs: KvMap<UvRect> = KvMap::new();
        let n = chars.len();
        let mut idx: usize = 0;
        while idx < n
            invariant
                *self == mid,
                mid.wf(),
                n == chars@.len(),
                idx <= n,
                glyphs.wf(),
                0 < frame_w,
                0 < frame_h,
                inner.w == w,
                inner.h == h,
                inner.x + w <= mid.width,
                inner.y + h <= mid.height,
                forall|i: int, j: int|
                    0 <= i < j < chars@.len() ==> (#[trigger] chars@[i]).0 != (#[trigger]
                    chars@[j]).0,
                forall|i: int|
                    0 <= i < chars@.len() ==> ((#[trigger] chars@[i]).1.0 + 1) * frame_w
                        <= w && (chars@[i].1.1 + 1) * frame_h <= h,
                forall|i: int|
                    0 <= i < idx ==> glyphs@.contains_key(
                        char_key((#[trigger] chars@[i]).0),
                    ) && glyphs@[char_key(chars@[i].0)] == cell_uv(
                        inner,
                        chars@[i].1.0,
                        chars@[i].1.1,
                        frame_w,
                        frame_h,
                        mid.width,
                        mid.height,
                    ),
                forall|c: usize|
                    #[trigger] glyphs@.contains_key(c) ==> exists|i: int|
                        0 <= i < idx && char_key((#[trigger] chars@[i]).0) == c,
            decreases n - idx,
        {
            let entry = chars[idx];
            let c = entry.0;
            let cx = entry.1.0;
            let cy = entry.1.1;
            proof {
                assert(((chars@[idx as int]).1.0 + 1) * frame_w <= w && ((chars@[
                    idx as int]).1.1 + 1) * frame_h <= h);
                assert(cx as int * frame_w + frame_w <= w && cy as int * frame_h + frame_h
                    <= h) by (nonlinear_arith)
                    requires
                        (cx as int + 1) * frame_w <= w,
                        (cy as int + 1) * frame_h <= h,
                ;
            }
            let gx: u16 = inner.x + cx * frame_w;
            let gy: u16 = inner.y + cy * frame_h;
            let uv = UvRect::from_pixel_rect(
                &Rect { x: gx, y: gy, w: frame_w, h: frame_h },
                self.width,
                self.height,
            );
            glyphs.insert((c as u32) as usize, uv);
            proof {
                assert forall|i: int| 0 <= i < idx + 1 implies glyphs@.contains_key(
                    char_key((#[trigger] chars@[i]).0),
                ) && glyphs@[char_key(chars@[i].0)] == cell_uv(
                    inner,
                    chars@[i].1.0,
                    chars@[i].1.1,
                    frame_w,
                    frame_h,
                    mid.width,
                    mid.height,
                ) by {
                    if i < idx {
                        assert(chars@[i].0 != chars@[idx as int].0);
                        if char_key(chars@[i].0) == char_key(c) {
                            lemma_char_key_injective(chars@[i].0, c);
                        }
                    }
                }
            }
            idx = idx + 1;
        }
        self.atlas.bitmap_fonts.insert(key, BitmapFont { glyphs });
        Ok(())
    }
}

} // verus!
