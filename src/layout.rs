//! Layout of a text block: shaping, glyph meshes from the cache, centering.
use vstd::prelude::*;

use crate::cache::{
    cache_grows, FontGlyphMeshMap, FontId, FontMetrics, FontSource, GlyphId, GlyphMeshEntry,
    GlyphMeshError,
};
use crate::mesh::{Fraction, MeshBackend, MeshHandle};

verus! {

/// Sub-pixel steps per pixel: sizes and positions in layout are in 1/64 pixel.
pub const SUBPIXELS: i64 = 64;

/// A flat colour, 8 bits per channel.
#[derive(Clone, Copy, Debug, PartialEq, Eq, Structural)]
pub struct Rgba {
    pub r: u8,
    pub g: u8,
    pub b: u8,
    pub a: u8,
}

/// One run of text in one style. `size` is the font size in 1/64 pixel.
#[derive(Clone, Debug)]
pub struct TextSection {
    pub text: String,
    pub font: FontId,
    pub size: i32,
    pub color: Rgba,
}

/// A block of styled text, in order.
#[derive(Clone, Debug)]
pub struct Text3d {
    pub sections: Vec<TextSection>,
}

/// The size of a laid out block, in 1/64 pixel.
#[derive(Clone, Copy, Debug, PartialEq, Eq, Structural)]
pub struct Text3dSize {
    pub width: u64,
    pub height: u64,
}

/// One glyph placed by the shaper: its id, the section it belongs to and its pen
/// position in 1/64 pixel, y pointing down.
#[derive(Clone, Copy, Debug, PartialEq, Eq, Structural)]
pub struct PositionedGlyph {
    pub glyph: GlyphId,
    pub section: usize,
    pub x: i32,
    pub y: i32,
}

/// A glyph with its mesh, before centering: colour, pen position, scale from font
/// units to pixels, and its advance and descent scaled to 1/64 pixel.
#[derive(Clone, Copy, Debug, PartialEq, Eq, Structural)]
pub struct PlacedGlyph {
    pub mesh: MeshHandle,
    pub glyph: GlyphId,
    pub section: usize,
    pub color: Rgba,
    pub scale: Fraction,
    pub pen_x: i64,
    pub pen_y: i64,
    pub advance: i64,
    pub descent: i64,
}

/// One child of a laid out block: a mesh, the section it comes from and that
/// section's colour, its scale from font units to pixels and its translation in
/// 1/64 pixel (y pointing up).
#[derive(Clone, Copy, Debug, PartialEq, Eq, Structural)]
pub struct GlyphInstance {
    pub mesh: MeshHandle,
    pub section: usize,
    pub color: Rgba,
    pub scale: Fraction,
    pub x: i64,
    pub y: i64,
}

/// A fully laid out block: its children, its size, and the glyphs that were left
/// out because no mesh could be made for them (contours not filled, or font
/// metrics unusable).
#[derive(Clone, Debug)]
pub struct BlockLayout {
    pub instances: Vec<GlyphInstance>,
    pub size: Text3dSize,
    pub failed_glyphs: Vec<(FontId, GlyphId)>,
}

/// What became of a block: laid out in full, or deferred because a font is not loaded.
#[derive(Clone, Debug)]
pub enum QueueOutcome {
    Laid(BlockLayout),
    Deferred,
}

/// How the renderer draws a glyph instance.
#[derive(Clone, Copy, Debug, PartialEq, Eq, Structural)]
pub enum RenderMode {
    Solid,
    Wireframe,
}

pub open spec fn flipped(m: RenderMode) -> RenderMode {
    match m {
        RenderMode::Solid => RenderMode::Wireframe,
        RenderMode::Wireframe => RenderMode::Solid,
    }
}

/// Switches every instance between solid and wireframe drawing.
pub fn toggle_render_modes(modes: &mut Vec<RenderMode>)
    ensures
        final(modes)@.len() == old(modes)@.len(),
        forall|i: int| 0 <= i < old(modes)@.len() ==> #[trigger] final(modes)@[i] == flipped(old(modes)@[i]),
{
    let n = modes.len();
    let mut out: Vec<RenderMode> = Vec::new();
    let mut i: usize = 0;
    while i < n
        invariant
            n == modes@.len(),
            modes@ == old(modes)@,
            i <= n,
            out@.len() == i,
            forall|j: int| 0 <= j < i ==> #[trigger] out@[j] == flipped(modes@[j]),
        decreases n - i,
    {
        let m = match modes[i] {
            RenderMode::Solid => RenderMode::Wireframe,
            RenderMode::Wireframe => RenderMode::Solid,
        };
        out.push(m);
        i += 1;
    }
    *modes = out;
}

/// `v` font units at font size `size` (1/64 pixel) in a font of natural scale
/// `scale`, in 1/64 pixel, rounded down.
pub open spec fn scaled(v: int, size: int, scale: int) -> int {
    (v * size) / scale
}

pub open spec fn fits_layout(g: PlacedGlyph) -> bool {
    &&& -0x8000_0000 <= g.pen_x < 0x8000_0000
    &&& -0x8000_0000 <= g.pen_y < 0x8000_0000
    &&& -0x4000_0000_0000_0000 <= g.advance <= 0x4000_0000_0000_0000
    &&& -0x4000_0000_0000_0000 <= g.descent <= 0x4000_0000_0000_0000
}

/// The shaped glyph `pg` of a section of font size `size` and colour `color`, with
/// its cached entry `e` and its font's metrics `m`, at its shaped pen position.
pub open spec fn placement(
    pg: PositionedGlyph,
    size: i32,
    color: Rgba,
    e: GlyphMeshEntry,
    m: FontMetrics,
) -> PlacedGlyph {
    PlacedGlyph {
        mesh: e.mesh,
        glyph: pg.glyph,
        section: pg.section,
        color,
        scale: scale_fraction(size as int, m.scale_spec()),
        pen_x: pg.x as i64,
        pen_y: pg.y as i64,
        advance: scaled(e.h_advance as int, size as int, m.scale_spec()) as i64,
        descent: scaled(m.descent_spec(), size as int, m.scale_spec()) as i64,
    }
}

/// Pixels per font unit at font size `size` (1/64 pixel) in a font of natural
/// scale `scale`, with a positive denominator.
pub open spec fn scale_fraction(size: int, scale: int) -> Fraction {
    if scale > 0 {
        Fraction { num: size as i64, den: (scale * SUBPIXELS) as i64 }
    } else {
        Fraction { num: -size as i64, den: (-scale * SUBPIXELS) as i64 }
    }
}

proof fn lemma_scaled_bound(v: int, size: int, scale: int)
    requires
        -0x8000_0000 <= v < 0x8000_0000,
        -0x8000_0000 <= size < 0x8000_0000,
        -0x8000_0000 <= scale < 0x8000_0000,
        scale != 0,
    ensures
        -0x4000_0000_0000_0000 <= v * size <= 0x4000_0000_0000_0000,
        -0x4000_0000_0000_0000 <= scaled(v, size, scale) <= 0x4000_0000_0000_0000,
{
    let p = v * size;
    assert(-0x4000_0000_0000_0000 <= p <= 0x4000_0000_0000_0000) by (nonlinear_arith)
        requires
            -0x8000_0000 <= v < 0x8000_0000,
            -0x8000_0000 <= size < 0x8000_0000,
            p == v * size,
    ;
    let q = p / scale;
    let r = p % scale;
    vstd::arithmetic::div_mod::lemma_fundamental_div_mod(p, scale);
    assert(p == scale * q + r);
    assert(0 <= r < if scale > 0 { scale } else { -scale });
    assert(-0x4000_0000_0000_0000 <= q <= 0x4000_0000_0000_0000) by (nonlinear_arith)
        requires
            -0x4000_0000_0000_0000 <= p <= 0x4000_0000_0000_0000,
            scale != 0,
            p == scale * q + r,
            0 <= r,
            r < scale || r < -scale,
    ;
}

/// `v` font units scaled to 1/64 pixel (see `scaled`).
pub fn scale_units(v: i32, size: i32, scale: i32) -> (r: i64)
    requires
        scale != 0,
    ensures
        r == scaled(v as int, size as int, scale as int),
{
    proof {
        lemma_scaled_bound(v as int, size as int, scale as int);
    }
    let p = v as i64 * size as i64;
    match p.checked_div_euclid(scale as i64) {
        Some(q) => q,
        None => 0,
    }
}

/// Places one shaped glyph of a section with the given size and colour, with its
/// cached mesh entry and its font's metrics.
pub fn place_glyph(pg: PositionedGlyph, size: i32, color: Rgba, e: GlyphMeshEntry, m: FontMetrics) -> (r: PlacedGlyph)
    ensures
        r == placement(pg, size, color, e, m),
        fits_layout(r),
{
    let ns = m.natural_scale();
    let descent = m.descent();
    proof {
        lemma_scaled_bound(e.h_advance as int, size as int, ns as int);
        lemma_scaled_bound(descent as int, size as int, ns as int);
    }
    PlacedGlyph {
        mesh: e.mesh,
        glyph: pg.glyph,
        section: pg.section,
        color,
        scale: if ns > 0 {
            Fraction { num: size as i64, den: ns as i64 * SUBPIXELS }
        } else {
            Fraction { num: -(size as i64), den: -(ns as i64) * SUBPIXELS }
        },
        pen_x: pg.x as i64,
        pen_y: pg.y as i64,
        advance: scale_units(e.h_advance, size, ns),
        descent: scale_units(descent, size, ns),
    }
}

pub open spec fn min_int(a: int, b: int) -> int {
    if a <= b { a } else { b }
}

pub open spec fn max_int(a: int, b: int) -> int {
    if a >= b { a } else { b }
}

/// The glyph's box spans x from its pen x to pen x plus advance, and y (down)
/// from 0 to its pen y less its descent, each in either order.
pub open spec fn glyph_left(g: PlacedGlyph) -> int {
    min_int(g.pen_x as int, g.pen_x + g.advance)
}

pub open spec fn glyph_right(g: PlacedGlyph) -> int {
    max_int(g.pen_x as int, g.pen_x + g.advance)
}

pub open spec fn glyph_top(g: PlacedGlyph) -> int {
    min_int(0, g.pen_y - g.descent)
}

pub open spec fn glyph_bottom(g: PlacedGlyph) -> int {
    max_int(0, g.pen_y - g.descent)
}

/// Left edge of the block's box: the union of its glyphs' boxes; 0 without glyphs.
pub open spec fn left_of(p: Seq<PlacedGlyph>) -> int
    decreases p.len(),
{
    if p.len() == 0 {
        0
    } else if p.len() == 1 {
        glyph_left(p[0])
    } else {
        min_int(left_of(p.drop_last()), glyph_left(p.last()))
    }
}

pub open spec fn right_of(p: Seq<PlacedGlyph>) -> int
    decreases p.len(),
{
    if p.len() == 0 {
        0
    } else if p.len() == 1 {
        glyph_right(p[0])
    } else {
        max_int(right_of(p.drop_last()), glyph_right(p.last()))
    }
}

pub open spec fn top_of(p: Seq<PlacedGlyph>) -> int
    decreases p.len(),
{
    if p.len() == 0 {
        0
    } else if p.len() == 1 {
        glyph_top(p[0])
    } else {
        min_int(top_of(p.drop_last()), glyph_top(p.last()))
    }
}

pub open spec fn bottom_of(p: Seq<PlacedGlyph>) -> int
    decreases p.len(),
{
    if p.len() == 0 {
        0
    } else if p.len() == 1 {
        glyph_bottom(p[0])
    } else {
        max_int(bottom_of(p.drop_last()), glyph_bottom(p.last()))
    }
}

/// The centre of the block's box, rounded down to 1/64 pixel.
pub open spec fn center_x(p: Seq<PlacedGlyph>) -> int {
    (left_of(p) + right_of(p)) / 2
}

pub open spec fn center_y(p: Seq<PlacedGlyph>) -> int {
    (top_of(p) + bottom_of(p)) / 2
}

/// The child for `g` once the block is centred on its origin: its shaped pen
/// position less the centre, with y flipped to point up.
pub open spec fn instance_of(g: PlacedGlyph, cx: int, cy: int) -> GlyphInstance {
    GlyphInstance {
        mesh: g.mesh,
        section: g.section,
        color: g.color,
        scale: g.scale,
        x: (g.pen_x - cx) as i64,
        y: (cy - g.pen_y) as i64,
    }
}

/// `l` lays out the placed glyphs `p`: one child per glyph, in order, centred on
/// the block's origin, and the size of the block's box.
pub open spec fn is_layout_of(l: BlockLayout, p: Seq<PlacedGlyph>) -> bool {
    &&& l.instances@.len() == p.len()
    &&& forall|i: int|
        0 <= i < p.len() ==> #[trigger] l.instances@[i] == instance_of(
            p[i],
            center_x(p),
            center_y(p),
        )
    &&& l.size.width == right_of(p) - left_of(p)
    &&& l.size.height == bottom_of(p) - top_of(p)
}

proof fn lemma_edges_bounded(p: Seq<PlacedGlyph>)
    requires
        forall|i: int| 0 <= i < p.len() ==> fits_layout(#[trigger] p[i]),
    ensures
        -0x4000_0000_8000_0000 <= left_of(p) <= right_of(p) <= 0x4000_0000_8000_0000,
        -0x4000_0000_8000_0000 <= top_of(p) <= 0,
        0 <= bottom_of(p) <= 0x4000_0000_8000_0000,
    decreases p.len(),
{
    if p.len() > 1 {
        let q = p.drop_last();
        assert forall|i: int| 0 <= i < q.len() implies fits_layout(#[trigger] q[i]) by {
            assert(q[i] == p[i]);
        }
        lemma_edges_bounded(q);
        assert(fits_layout(p[p.len() - 1]));
    } else if p.len() == 1 {
        assert(fits_layout(p[0]));
    }
}

/// Half of `v`, rounded down.
fn halve(v: i64) -> (r: i64)
    ensures
        r == v / 2,
{
    match v.checked_div_euclid(2) {
        Some(h) => h,
        None => 0,
    }
}

fn min_i64(a: i64, b: i64) -> (r: i64)
    ensures
        r == min_int(a as int, b as int),
{
    if a <= b { a } else { b }
}

fn max_i64(a: i64, b: i64) -> (r: i64)
    ensures
        r == max_int(a as int, b as int),
{
    if a >= b { a } else { b }
}

/// Centres the placed glyphs `p` on the block's origin and measures the block.
/// The block's box is the union of the glyphs' boxes (see `glyph_left`).
pub fn center_block(p: &Vec<PlacedGlyph>, failures: Vec<(FontId, GlyphId)>) -> (l: BlockLayout)
    requires
        forall|i: int| 0 <= i < p@.len() ==> fits_layout(#[trigger] p@[i]),
    ensures
        is_layout_of(l, p@),
        l.failed_glyphs@ == failures@,
{
    let n = p.len();
    let mut left: i64 = 0;
    let mut right: i64 = 0;
    let mut top: i64 = 0;
    let mut bottom: i64 = 0;
    let mut i: usize = 0;
    while i < n
        invariant
            n == p@.len(),
            i <= n,
            forall|j: int| 0 <= j < p@.len() ==> fits_layout(#[trigger] p@[j]),
            left == left_of(p@.subrange(0, i as int)),
            right == right_of(p@.subrange(0, i as int)),
            top == top_of(p@.subrange(0, i as int)),
            bottom == bottom_of(p@.subrange(0, i as int)),
        decreases n - i,
    {
        let g = p[i];
        let ghost pre = p@.subrange(0, i as int);
        let ghost next = p@.subrange(0, i + 1);
        proof {
            assert(next.drop_last() =~= pre);
            assert(next.last() == g);
            assert forall|j: int| 0 <= j < next.len() implies fits_layout(#[trigger] next[j]) by {
                assert(next[j] == p@[j]);
            }
            lemma_edges_bounded(next);
            assert(fits_layout(p@[i as int]));
        }
        let end_x = g.pen_x + g.advance;
        let end_y = g.pen_y - g.descent;
        let gl = min_i64(g.pen_x, end_x);
        let gr = max_i64(g.pen_x, end_x);
        let gt = min_i64(0, end_y);
        let gb = max_i64(0, end_y);
        if i == 0 {
            left = gl;
            right = gr;
            top = gt;
            bottom = gb;
        } else {
            left = min_i64(left, gl);
            right = max_i64(right, gr);
            top = min_i64(top, gt);
            bottom = max_i64(bottom, gb);
        }
        i += 1;
    }
    proof {
        assert(p@.subrange(0, n as int) =~= p@);
        lemma_edges_bounded(p@);
    }
    let cx = halve(left + right);
    let cy = halve(top + bottom);
    let mut instances: Vec<GlyphInstance> = Vec::new();
    let mut k: usize = 0;
    while k < n
        invariant
            n == p@.len(),
            k <= n,
            forall|j: int| 0 <= j < p@.len() ==> fits_layout(#[trigger] p@[j]),
            cx == center_x(p@),
            cy == center_y(p@),
            -0x2000_0000_8000_0000 <= cx <= 0x2000_0000_8000_0000,
            -0x2000_0000_8000_0000 <= cy <= 0x2000_0000_8000_0000,
            instances@.len() == k,
            forall|j: int| 0 <= j < k ==> #[trigger] instances@[j] == instance_of(p@[j], cx as int, cy as int),
        decreases n - k,
    {
        let g = p[k];
        assert(fits_layout(p@[k as int]));
        instances.push(GlyphInstance {
            mesh: g.mesh,
            section: g.section,
            color: g.color,
            scale: g.scale,
            x: g.pen_x - cx,
            y: cy - g.pen_y,
        });
        k += 1;
    }
    BlockLayout {
        instances,
        size: Text3dSize {
            width: (right as i128 - left as i128) as u64,
            height: (bottom as i128 - top as i128) as u64,
        },
        failed_glyphs: failures,
    }
}

/// What the cache gave for one shaped glyph.
pub type GlyphLookup = Result<(GlyphMeshEntry, FontMetrics), GlyphMeshError>;

/// The shaped glyph belongs to one of the sections.
pub open spec fn in_section(sections: Seq<TextSection>, g: PositionedGlyph) -> bool {
    g.section < sections.len()
}

/// The cache key of a shaped glyph: its section's font and its id.
pub open spec fn key_of(sections: Seq<TextSection>, g: PositionedGlyph) -> (FontId, GlyphId) {
    (sections[g.section as int].font, g.glyph)
}

/// The placed glyphs of a block, in shaping order: one for each shaped glyph of a
/// section whose lookup gave an entry, at its shaped pen position.
pub open spec fn placed_seq(
    sections: Seq<TextSection>,
    glyphs: Seq<PositionedGlyph>,
    found: Seq<GlyphLookup>,
) -> Seq<PlacedGlyph>
    decreases glyphs.len(),
{
    if glyphs.len() == 0 || found.len() == 0 {
        Seq::empty()
    } else {
        let rest = placed_seq(sections, glyphs.drop_last(), found.drop_last());
        let g = glyphs.last();
        match found.last() {
            Ok((e, m)) => if in_section(sections, g) {
                let s = sections[g.section as int];
                rest.push(placement(g, s.size, s.color, e, m))
            } else {
                rest
            },
            Err(_) => rest,
        }
    }
}

/// The glyphs of a section whose contours could not be filled or whose font's
/// metrics are unusable, in shaping order.
pub open spec fn failures_seq(
    sections: Seq<TextSection>,
    glyphs: Seq<PositionedGlyph>,
    found: Seq<GlyphLookup>,
) -> Seq<(FontId, GlyphId)>
    decreases glyphs.len(),
{
    if glyphs.len() == 0 || found.len() == 0 {
        Seq::empty()
    } else {
        let rest = failures_seq(sections, glyphs.drop_last(), found.drop_last());
        let g = glyphs.last();
        if in_section(sections, g) && (found.last() == Err::<(GlyphMeshEntry, FontMetrics), GlyphMeshError>(
            GlyphMeshError::TessellationFailed,
        ) || found.last() == Err::<(GlyphMeshEntry, FontMetrics), GlyphMeshError>(
            GlyphMeshError::InvalidMetrics,
        )) {
            rest.push(key_of(sections, g))
        } else {
            rest
        }
    }
}

/// Some glyph of a section found its font not loaded.
pub open spec fn defers(
    sections: Seq<TextSection>,
    glyphs: Seq<PositionedGlyph>,
    found: Seq<GlyphLookup>,
) -> bool {
    exists|i: int|
        0 <= i < glyphs.len() && in_section(sections, glyphs[i]) && #[trigger] found[i]
            == Err::<(GlyphMeshEntry, FontMetrics), GlyphMeshError>(GlyphMeshError::FontNotLoaded)
}

/// What a block comes to, given the cache's answer for each shaped glyph: deferred
/// if any says its font is not loaded, else laid out from the glyphs that were found.
pub open spec fn block_outcome(
    sections: Seq<TextSection>,
    glyphs: Seq<PositionedGlyph>,
    found: Seq<GlyphLookup>,
    r: QueueOutcome,
) -> bool {
    &&& (r is Deferred) == defers(sections, glyphs, found)
    &&& r matches QueueOutcome::Laid(l) ==> {
        &&& is_layout_of(l, placed_seq(sections, glyphs, found))
        &&& l.failed_glyphs@ == failures_seq(sections, glyphs, found)
    }
}

/// A shaped glyph answered `NoOutline` (a space, say) gets no child and moves no
/// other: the block is laid out exactly as if that glyph had not been shaped, so
/// the later glyphs keep the pen positions shaping gave them, and it defers nothing.
pub proof fn lemma_glyph_without_outline_is_skipped(
    sections: Seq<TextSection>,
    glyphs: Seq<PositionedGlyph>,
    found: Seq<GlyphLookup>,
    q: int,
)
    requires
        found.len() == glyphs.len(),
        0 <= q < glyphs.len(),
        found[q] == Err::<(GlyphMeshEntry, FontMetrics), GlyphMeshError>(GlyphMeshError::NoOutline),
    ensures
        placed_seq(sections, glyphs, found) == placed_seq(sections, glyphs.remove(q), found.remove(q)),
        failures_seq(sections, glyphs, found) == failures_seq(
            sections,
            glyphs.remove(q),
            found.remove(q),
        ),
        defers(sections, glyphs, found) == defers(sections, glyphs.remove(q), found.remove(q)),
    decreases glyphs.len(),
{
    let n = glyphs.len();
    let g2 = glyphs.remove(q);
    let f2 = found.remove(q);
    if q == n - 1 {
        assert(g2 =~= glyphs.drop_last());
        assert(f2 =~= found.drop_last());
    } else {
        lemma_glyph_without_outline_is_skipped(sections, glyphs.drop_last(), found.drop_last(), q);
        assert(g2.drop_last() =~= glyphs.drop_last().remove(q));
        assert(f2.drop_last() =~= found.drop_last().remove(q));
        assert(g2.last() == glyphs.last());
        assert(f2.last() == found.last());
    }
    let fnl = Err::<(GlyphMeshEntry, FontMetrics), GlyphMeshError>(GlyphMeshError::FontNotLoaded);
    if defers(sections, glyphs, found) {
        let i = choose|i: int| 0 <= i < glyphs.len() && in_section(sections, glyphs[i]) && #[trigger] found[i] == fnl;
        if i < q {
            assert(f2[i] == found[i] && g2[i] == glyphs[i]);
        } else {
            assert(f2[i - 1] == found[i] && g2[i - 1] == glyphs[i]);
        }
    }
    if defers(sections, g2, f2) {
        let i = choose|i: int| 0 <= i < g2.len() && in_section(sections, g2[i]) && #[trigger] f2[i] == fnl;
        if i < q {
            assert(f2[i] == found[i] && g2[i] == glyphs[i]);
        } else {
            assert(f2[i] == found[i + 1] && g2[i] == glyphs[i + 1]);
        }
    }
}

/// Lays out a block from the cache's answer for each of its shaped glyphs, in
/// shaping order. A glyph of a section whose font is not loaded defers the block;
/// otherwise each glyph with an entry gets one child at its shaped pen position,
/// a glyph without outline (or of no section) gets none, and a glyph whose
/// contours could not be filled, or whose font's metrics are unusable, gets none
/// and is listed.
pub fn assemble_block(
    sections: &Vec<TextSection>,
    glyphs: &Vec<PositionedGlyph>,
    found: &Vec<GlyphLookup>,
) -> (r: QueueOutcome)
    requires
        found@.len() == glyphs@.len(),
    ensures
        block_outcome(sections@, glyphs@, found@, r),
{
    let n = glyphs.len();
    let ns = sections.len();
    let mut placed: Vec<PlacedGlyph> = Vec::new();
    let mut failures: Vec<(FontId, GlyphId)> = Vec::new();
    let mut i: usize = 0;
    while i < n
        invariant
            n == glyphs@.len(),
            n == found@.len(),
            ns == sections@.len(),
            i <= n,
            placed@ == placed_seq(sections@, glyphs@.subrange(0, i as int), found@.subrange(0, i as int)),
            failures@ == failures_seq(sections@, glyphs@.subrange(0, i as int), found@.subrange(0, i as int)),
            forall|j: int| 0 <= j < placed@.len() ==> fits_layout(#[trigger] placed@[j]),
            forall|j: int|
                0 <= j < i && in_section(sections@, glyphs@[j]) ==> #[trigger] found@[j]
                    != Err::<(GlyphMeshEntry, FontMetrics), GlyphMeshError>(GlyphMeshError::FontNotLoaded),
        decreases n - i,
    {
        let g = glyphs[i];
        let f = found[i];
        let ghost gs = glyphs@.subrange(0, i + 1);
        let ghost fs = found@.subrange(0, i + 1);
        proof {
            assert(gs.drop_last() =~= glyphs@.subrange(0, i as int));
            assert(fs.drop_last() =~= found@.subrange(0, i as int));
            assert(gs.last() == g);
            assert(fs.last() == f);
        }
        if g.section < ns {
            let s = &sections[g.section];
            match f {
                Err(GlyphMeshError::FontNotLoaded) => {
                    assert(found@[i as int] == f);
                    return QueueOutcome::Deferred;
                },
                Err(GlyphMeshError::TessellationFailed) | Err(GlyphMeshError::InvalidMetrics) => {
                    failures.push((s.font, g.glyph));
                },
                Err(GlyphMeshError::NoOutline) => {},
                Ok((e, m)) => {
                    let pg = place_glyph(g, s.size, s.color, e, m);
                    placed.push(pg);
                },
            }
        }
        i += 1;
    }
    proof {
        assert(glyphs@.subrange(0, n as int) =~= glyphs@);
        assert(found@.subrange(0, n as int) =~= found@);
    }
    QueueOutcome::Laid(center_block(&placed, failures))
}

/// The cache's answers `found` agree with the caches before (`a`) and after (`b`):
/// an entry handed out is in `b` with its font's metrics, and a glyph already in
/// `a` was answered from `a` (or its font was found not loaded).
pub open spec fn lookups_agree(
    a: (Map<FontId, FontMetrics>, Map<(FontId, GlyphId), GlyphMeshEntry>),
    b: (Map<FontId, FontMetrics>, Map<(FontId, GlyphId), GlyphMeshEntry>),
    sections: Seq<TextSection>,
    glyphs: Seq<PositionedGlyph>,
    found: Seq<GlyphLookup>,
) -> bool {
    &&& found.len() == glyphs.len()
    &&& forall|i: int|
        0 <= i < glyphs.len() && in_section(sections, glyphs[i]) ==> {
            let k = key_of(sections, glyphs[i]);
            &&& (#[trigger] found[i] matches Ok((e, m)) ==> b.1.contains_key(k) && b.1[k] == e
                && b.0.contains_key(k.0) && b.0[k.0] == m)
            &&& (a.1.contains_key(k) ==> found[i] == Ok::<(GlyphMeshEntry, FontMetrics), GlyphMeshError>(
                (a.1[k], a.0[k.0]),
            ) || found[i] == Err::<(GlyphMeshEntry, FontMetrics), GlyphMeshError>(
                GlyphMeshError::FontNotLoaded,
            ))
        }
}

/// Every entry of `b` that `a` did not hold was handed out for one of the glyphs.
pub open spec fn entries_from_answers(
    a: (Map<FontId, FontMetrics>, Map<(FontId, GlyphId), GlyphMeshEntry>),
    b: (Map<FontId, FontMetrics>, Map<(FontId, GlyphId), GlyphMeshEntry>),
    sections: Seq<TextSection>,
    glyphs: Seq<PositionedGlyph>,
    found: Seq<GlyphLookup>,
) -> bool {
    forall|k: (FontId, GlyphId)|
        #[trigger] b.1.contains_key(k) && !a.1.contains_key(k) ==> exists|j: int|
            0 <= j < glyphs.len() && in_section(sections, glyphs[j]) && key_of(sections, glyphs[j]) == k
                && (#[trigger] found[j]) is Ok
}

/// No glyph was looked up after the first one whose font was found not loaded:
/// every later answer is that same one.
pub open spec fn stops_at_deferral(
    sections: Seq<TextSection>,
    glyphs: Seq<PositionedGlyph>,
    found: Seq<GlyphLookup>,
) -> bool {
    forall|j: int, l: int|
        0 <= j < l < glyphs.len() && in_section(sections, glyphs[j]) && #[trigger] found[j]
            == Err::<(GlyphMeshEntry, FontMetrics), GlyphMeshError>(GlyphMeshError::FontNotLoaded)
            ==> #[trigger] found[l] == Err::<(GlyphMeshEntry, FontMetrics), GlyphMeshError>(
            GlyphMeshError::FontNotLoaded,
        )
}

/// Every shaped glyph of a section is already in cache `a`.
pub open spec fn all_cached(
    a: (Map<FontId, FontMetrics>, Map<(FontId, GlyphId), GlyphMeshEntry>),
    sections: Seq<TextSection>,
    glyphs: Seq<PositionedGlyph>,
) -> bool {
    forall|i: int|
        0 <= i < glyphs.len() && in_section(sections, #[trigger] glyphs[i]) ==> a.1.contains_key(
            key_of(sections, glyphs[i]),
        )
}

/// What laying out the shaped `glyphs` of `sections` does, from cache `a` and
/// backend `ba` to cache `b` and backend `bb`, returning `r`: the outcome is the
/// one `assemble_block` gives for the cache's answers, which agree with the cache;
/// the cache gained only entries that were handed out, and no glyph was looked up
/// after one whose font was found not loaded.
pub open spec fn shaped_outcome<B>(
    a: (Map<FontId, FontMetrics>, Map<(FontId, GlyphId), GlyphMeshEntry>),
    b: (Map<FontId, FontMetrics>, Map<(FontId, GlyphId), GlyphMeshEntry>),
    ba: B,
    bb: B,
    sections: Seq<TextSection>,
    glyphs: Seq<PositionedGlyph>,
    r: QueueOutcome,
) -> bool {
    &&& cache_grows(a, b)
    &&& (glyphs.len() == 0 || sections.len() == 0 ==> r is Laid)
    &&& (all_cached(a, sections, glyphs) ==> b == a && bb == ba)
    &&& exists|found: Seq<GlyphLookup>|
        #![trigger lookups_agree(a, b, sections, glyphs, found)]
        {
            &&& lookups_agree(a, b, sections, glyphs, found)
            &&& entries_from_answers(a, b, sections, glyphs, found)
            &&& stops_at_deferral(sections, glyphs, found)
            &&& block_outcome(sections, glyphs, found, r)
        }
}

proof fn lemma_cache_grows_trans(
    a: (Map<FontId, FontMetrics>, Map<(FontId, GlyphId), GlyphMeshEntry>),
    b: (Map<FontId, FontMetrics>, Map<(FontId, GlyphId), GlyphMeshEntry>),
    c: (Map<FontId, FontMetrics>, Map<(FontId, GlyphId), GlyphMeshEntry>),
)
    requires
        cache_grows(a, b),
        cache_grows(b, c),
    ensures
        cache_grows(a, c),
{
    assert forall|f: FontId| #[trigger] a.0.contains_key(f) implies c.0.contains_key(f) && c.0[f]
        == a.0[f] by {
        assert(b.0.contains_key(f));
    }
    assert forall|k: (FontId, GlyphId)| #[trigger] a.1.contains_key(k) implies c.1.contains_key(k)
        && c.1[k] == a.1[k] by {
        assert(b.1.contains_key(k));
    }
}

/// Lays out the shaped `glyphs` of `sections`: asks the cache for each glyph in
/// shaping order (building missing meshes through `backend`), stops at the first
/// glyph whose font is not loaded, and assembles the block (see `assemble_block`).
/// A block whose glyphs are all cached leaves cache and backend as they were.
pub fn layout_shaped<F: FontSource, B: MeshBackend>(
    cache: &mut FontGlyphMeshMap,
    fonts: &F,
    backend: &mut B,
    sections: &Vec<TextSection>,
    glyphs: &Vec<PositionedGlyph>,
) -> (r: QueueOutcome)
    requires
        old(cache).wf(),
    ensures
        final(cache).wf(),
        shaped_outcome(old(cache)@, final(cache)@, *old(backend), *final(backend), sections@, glyphs@, r),
{
    let ghost a = cache@;
    let ghost ba = *backend;
    proof {
        cache.lemma_entries_have_fonts();
    }
    let n = glyphs.len();
    let ns = sections.len();
    let mut found: Vec<GlyphLookup> = Vec::new();
    let mut i: usize = 0;
    while i < n
        invariant
            n == glyphs@.len(),
            ns == sections@.len(),
            i <= n,
            a == old(cache)@,
            ba == *old(backend),
            forall|k: (FontId, GlyphId)| #[trigger] a.1.contains_key(k) ==> a.0.contains_key(k.0),
            cache.wf(),
            cache_grows(a, cache@),
            found@.len() == i,
            lookups_agree(a, cache@, sections@, glyphs@.subrange(0, i as int), found@),
            entries_from_answers(a, cache@, sections@, glyphs@.subrange(0, i as int), found@),
            forall|j: int|
                0 <= j < i && in_section(sections@, glyphs@[j]) ==> #[trigger] found@[j]
                    != Err::<(GlyphMeshEntry, FontMetrics), GlyphMeshError>(GlyphMeshError::FontNotLoaded),
            all_cached(a, sections@, glyphs@.subrange(0, i as int)) ==> cache@ == a && *backend == ba,
        decreases n - i,
    {
        let g = glyphs[i];
        let ghost c0 = cache@;
        let ghost b0 = *backend;
        let ghost prev = found@;
        let ghost gs = glyphs@.subrange(0, i + 1);
        proof {
            assert(gs.drop_last() =~= glyphs@.subrange(0, i as int));
            assert(gs[i as int] == g);
        }
        let res = if g.section < ns {
            cache.get_or_create(fonts, backend, sections[g.section].font, g.glyph)
        } else {
            Err(GlyphMeshError::NoOutline)
        };
        found.push(res);
        proof {
            lemma_cache_grows_trans(a, c0, cache@);
            assert forall|j: int|
                0 <= j < gs.len() && in_section(sections@, gs[j]) implies {
                    let k = key_of(sections@, gs[j]);
                    &&& (#[trigger] found@[j] matches Ok((e, m)) ==> cache@.1.contains_key(k)
                        && cache@.1[k] == e && cache@.0.contains_key(k.0) && cache@.0[k.0] == m)
                    &&& (a.1.contains_key(k) ==> found@[j] == Ok::<
                        (GlyphMeshEntry, FontMetrics),
                        GlyphMeshError,
                    >((a.1[k], a.0[k.0])) || found@[j] == Err::<
                        (GlyphMeshEntry, FontMetrics),
                        GlyphMeshError,
                    >(GlyphMeshError::FontNotLoaded))
                } by {
                if j < i {
                    assert(gs[j] == glyphs@.subrange(0, i as int)[j]);
                    assert(found@[j] == prev[j]);
                    let k = key_of(sections@, gs[j]);
                    if let Ok((e, m)) = found@[j] {
                        assert(c0.1.contains_key(k));
                        assert(c0.0.contains_key(k.0));
                    }
                } else {
                    let k = key_of(sections@, g);
                    if a.1.contains_key(k) {
                        assert(c0.1.contains_key(k));
                        assert(c0.1[k] == a.1[k]);
                        assert(a.0.contains_key(k.0));
                        assert(c0.0[k.0] == a.0[k.0]);
                    }
                }
            }
            assert(lookups_agree(a, cache@, sections@, gs, found@));
            assert forall|k: (FontId, GlyphId)|
                #[trigger] cache@.1.contains_key(k) && !a.1.contains_key(k) implies exists|j: int|
                    0 <= j < gs.len() && in_section(sections@, gs[j]) && key_of(sections@, gs[j]) == k
                        && (#[trigger] found@[j]) is Ok by {
                if c0.1.contains_key(k) {
                    let j = choose|j: int|
                        0 <= j < glyphs@.subrange(0, i as int).len() && in_section(
                            sections@,
                            glyphs@.subrange(0, i as int)[j],
                        ) && key_of(sections@, glyphs@.subrange(0, i as int)[j]) == k
                            && (#[trigger] prev[j]) is Ok;
                    assert(gs[j] == glyphs@.subrange(0, i as int)[j]);
                    assert(found@[j] == prev[j]);
                } else {
                    assert(found@[i as int] == res);
                    assert(gs[i as int] == g);
                }
            }
            assert(entries_from_answers(a, cache@, sections@, gs, found@));
            if all_cached(a, sections@, gs) {
                assert forall|j: int|
                    0 <= j < i && in_section(sections@, #[trigger] glyphs@.subrange(0, i as int)[j])
                    implies a.1.contains_key(key_of(sections@, glyphs@.subrange(0, i as int)[j])) by {
                    assert(glyphs@.subrange(0, i as int)[j] == gs[j]);
                }
                if in_section(sections@, g) {
                    assert(a.1.contains_key(key_of(sections@, gs[i as int])));
                }
            }
        }
        if let Err(GlyphMeshError::FontNotLoaded) = res {
            if g.section < ns {
                let ghost rest = Seq::new(
                    (n - i - 1) as nat,
                    |j: int| Err::<(GlyphMeshEntry, FontMetrics), GlyphMeshError>(GlyphMeshError::FontNotLoaded),
                );
                let ghost all = found@ + rest;
                proof {
                    assert(gs + glyphs@.subrange(i + 1, n as int) =~= glyphs@);
                    assert(all[i as int] == res);
                    assert(defers(sections@, glyphs@, all));
                    assert forall|j: int|
                        0 <= j < glyphs@.len() && in_section(sections@, glyphs@[j]) implies {
                            let k = key_of(sections@, glyphs@[j]);
                            &&& (#[trigger] all[j] matches Ok((e, m)) ==> cache@.1.contains_key(k)
                                && cache@.1[k] == e && cache@.0.contains_key(k.0) && cache@.0[k.0] == m)
                            &&& (a.1.contains_key(k) ==> all[j] == Ok::<
                                (GlyphMeshEntry, FontMetrics),
                                GlyphMeshError,
                            >((a.1[k], a.0[k.0])) || all[j] == Err::<
                                (GlyphMeshEntry, FontMetrics),
                                GlyphMeshError,
                            >(GlyphMeshError::FontNotLoaded))
                        } by {
                        if j <= i {
                            assert(glyphs@[j] == gs[j]);
                            assert(all[j] == found@[j]);
                        }
                    }
                    assert(lookups_agree(a, cache@, sections@, glyphs@, all));
                    assert forall|k: (FontId, GlyphId)|
                        #[trigger] cache@.1.contains_key(k) && !a.1.contains_key(k) implies exists|j: int|
                            0 <= j < glyphs@.len() && in_section(sections@, glyphs@[j]) && key_of(
                                sections@,
                                glyphs@[j],
                            ) == k && (#[trigger] all[j]) is Ok by {
                        let j = choose|j: int|
                            0 <= j < gs.len() && in_section(sections@, gs[j]) && key_of(sections@, gs[j]) == k
                                && (#[trigger] found@[j]) is Ok;
                        assert(glyphs@[j] == gs[j]);
                        assert(all[j] == found@[j]);
                    }
                    assert forall|j: int, l: int|
                        0 <= j < l < glyphs@.len() && in_section(sections@, glyphs@[j]) && #[trigger] all[j]
                            == Err::<(GlyphMeshEntry, FontMetrics), GlyphMeshError>(
                            GlyphMeshError::FontNotLoaded,
                        ) implies #[trigger] all[l] == Err::<(GlyphMeshEntry, FontMetrics), GlyphMeshError>(
                        GlyphMeshError::FontNotLoaded,
                    ) by {
                        if j < i {
                            assert(all[j] == found@[j]);
                        }
                        if l <= i {
                            assert(all[j] == found@[j]);
                        }
                    }
                    if all_cached(a, sections@, glyphs@) {
                        assert forall|j: int|
                            0 <= j < gs.len() && in_section(sections@, #[trigger] gs[j])
                            implies a.1.contains_key(key_of(sections@, gs[j])) by {
                            assert(gs[j] == glyphs@[j]);
                        }
                    }
                }
                return QueueOutcome::Deferred;
            }
        }
        i += 1;
    }
    proof {
        assert(glyphs@.subrange(0, n as int) =~= glyphs@);
    }
    let r = assemble_block(sections, glyphs, &found);
    proof {
        assert(lookups_agree(a, cache@, sections@, glyphs@, found@));
        assert(entries_from_answers(a, cache@, sections@, glyphs@, found@));
        assert(stops_at_deferral(sections@, glyphs@, found@));
        if glyphs@.len() == 0 || sections@.len() == 0 {
            assert(!defers(sections@, glyphs@, found@));
        }
    }
    r
}

/// Lays out `text`: checks that every section's font is loaded, shapes the
/// sections, and lays out the shaped glyphs (see `layout_shaped`). A section whose
/// font the source reports not loaded defers the block and leaves cache and
/// backend as they were; else the outcome is that of `layout_shaped` on what the
/// shaper returned. A block without sections is always laid out (empty).
pub fn queue_text<F: FontSource, B: MeshBackend>(
    cache: &mut FontGlyphMeshMap,
    fonts: &F,
    backend: &mut B,
    text: &Text3d,
) -> (r: QueueOutcome)
    requires
        old(cache).wf(),
    ensures
        final(cache).wf(),
        (r is Deferred && final(cache)@ == old(cache)@ && *final(backend) == *old(backend))
            || exists|glyphs: Seq<PositionedGlyph>|
            shaped_outcome(
                old(cache)@,
                final(cache)@,
                *old(backend),
                *final(backend),
                text.sections@,
                glyphs,
                r,
            ),
        text.sections@.len() == 0 ==> r is Laid,
{
    let sections = &text.sections;
    let ns = sections.len();
    let mut s: usize = 0;
    while s < ns
        invariant
            ns == sections@.len(),
            sections == &text.sections,
            s <= ns,
            cache.wf(),
            cache@ == old(cache)@,
            *backend == *old(backend),
        decreases ns - s,
    {
        if !fonts.is_loaded(sections[s].font) {
            return QueueOutcome::Deferred;
        }
        s += 1;
    }
    let glyphs = fonts.shape(sections);
    layout_shaped(cache, fonts, backend, sections, &glyphs)
}

} // verus!
