//! The glyph mesh cache: per font, its metrics and the meshes of its glyphs.
use vstd::prelude::*;
use std::collections::HashMap;

use crate::geometry::Outline;
use crate::layout::{PositionedGlyph, TextSection};
use crate::mesh::{build_mesh, MeshBackend, MeshError, MeshHandle};

verus! {

broadcast use vstd::std_specs::hash::group_hash_axioms;

/// Identifies a font for as long as it stays loaded.
pub type FontId = u32;

/// Identifies a glyph within a font.
pub type GlyphId = u16;

/// Unscaled metrics of a font, in design units. The natural scale (the font's
/// height, by which layout divides) is not zero.
#[derive(Clone, Copy, Debug, PartialEq, Eq)]
pub struct FontMetrics {
    natural_scale: i32,
    descent: i32,
}

impl FontMetrics {
    #[verifier::type_invariant]
    spec fn scale_is_nonzero(self) -> bool {
        self.natural_scale != 0
    }

    pub closed spec fn scale_spec(self) -> int {
        self.natural_scale as int
    }

    pub closed spec fn descent_spec(self) -> int {
        self.descent as int
    }

    /// Metrics with the given natural scale and descent; `None` for a zero scale.
    pub fn new(natural_scale: i32, descent: i32) -> (r: Option<FontMetrics>)
        ensures
            r is Some == (natural_scale != 0),
            r matches Some(m) ==> m.scale_spec() == natural_scale && m.descent_spec() == descent,
    {
        if natural_scale != 0 {
            Some(FontMetrics { natural_scale, descent })
        } else {
            None
        }
    }

    pub fn natural_scale(&self) -> (r: i32)
        ensures
            r == self.scale_spec(),
            r != 0,
    {
        proof {
            use_type_invariant(self);
        }
        self.natural_scale
    }

    pub fn descent(&self) -> (r: i32)
        ensures
            r == self.descent_spec(),
    {
        self.descent
    }
}

/// The cached mesh of one glyph with its unscaled size and horizontal advance.
#[derive(Clone, Copy, Debug, PartialEq, Eq, Structural)]
pub struct GlyphMeshEntry {
    pub mesh: MeshHandle,
    pub width: i64,
    pub height: i64,
    pub h_advance: i32,
}

/// The font side of layout: which fonts are loaded, their metrics and glyphs,
/// and text shaping.
pub trait FontSource {
    /// Whether `font` can be used now.
    fn is_loaded(&self, font: FontId) -> bool;

    /// The unscaled metrics of a loaded `font`; `None` where the font gives none
    /// that can be used (see `FontMetrics::new`).
    fn metrics(&self, font: FontId) -> Option<FontMetrics>;

    /// The outline of `glyph` in `font`; `None` where it has none.
    fn outline(&self, font: FontId, glyph: GlyphId) -> Option<Outline>;

    /// The unscaled horizontal advance of `glyph` in `font`.
    fn h_advance(&self, font: FontId, glyph: GlyphId) -> i32;

    /// Shapes `sections` into positioned glyphs, with line breaks and kerning applied.
    fn shape(&self, sections: &Vec<TextSection>) -> Vec<PositionedGlyph>;
}

/// Why `get_or_create` gave no entry.
#[derive(Clone, Copy, Debug, PartialEq, Eq, Structural)]
pub enum GlyphMeshError {
    /// The font is not loaded yet: try again in a later cycle.
    FontNotLoaded,
    /// The glyph has no outline: skip it.
    NoOutline,
    /// The font is loaded but its metrics cannot be used: skip its glyphs, do not retry.
    InvalidMetrics,
    /// The glyph's contours could not be filled: report it, do not retry.
    TessellationFailed,
}

/// The key under which the entry of `glyph` in `font` is stored.
pub open spec fn glyph_key(font: FontId, glyph: GlyphId) -> u64 {
    (font as int * 65536 + glyph as int) as u64
}

/// Metrics and glyph meshes per font. Entries are created once and never change
/// nor leave.
pub struct FontGlyphMeshMap {
    fonts: HashMap<u32, FontMetrics>,
    glyphs: HashMap<u64, GlyphMeshEntry>,
}

/// What a cache holds: metrics per font, and an entry per (font, glyph).
pub type CacheView = (Map<FontId, FontMetrics>, Map<(FontId, GlyphId), GlyphMeshEntry>);

impl View for FontGlyphMeshMap {
    type V = CacheView;

    closed spec fn view(&self) -> CacheView {
        (
            self.fonts@,
            Map::new(
                |k: (FontId, GlyphId)| self.glyphs@.contains_key(glyph_key(k.0, k.1)),
                |k: (FontId, GlyphId)| self.glyphs@[glyph_key(k.0, k.1)],
            ),
        )
    }
}

/// `b` holds all that `a` holds, unchanged.
pub open spec fn cache_grows(a: CacheView, b: CacheView) -> bool {
    &&& forall|f: FontId| #[trigger] a.0.contains_key(f) ==> b.0.contains_key(f) && b.0[f] == a.0[f]
    &&& forall|k: (FontId, GlyphId)|
        #[trigger] a.1.contains_key(k) ==> b.1.contains_key(k) && b.1[k] == a.1[k]
}

/// The metrics of `font` after a call that found it loaded: kept where cached,
/// else added.
pub open spec fn fonts_after(a: CacheView, b: CacheView, font: FontId) -> bool {
    if a.0.contains_key(font) {
        b.0 == a.0
    } else {
        b.0.dom() == a.0.dom().insert(font) && b.0 == a.0.insert(font, b.0[font])
    }
}

/// What one call `get_or_create(font, glyph)` does, from cache `a` and backend `ba`
/// to cache `b` and backend `bb`, returning `r`.
pub open spec fn get_or_create_outcome<B>(
    a: CacheView,
    b: CacheView,
    ba: B,
    bb: B,
    font: FontId,
    glyph: GlyphId,
    r: Result<(GlyphMeshEntry, FontMetrics), GlyphMeshError>,
) -> bool {
    &&& cache_grows(a, b)
    &&& match r {
        Err(GlyphMeshError::FontNotLoaded) => b == a && bb == ba,
        Err(GlyphMeshError::InvalidMetrics) => b == a && bb == ba && !a.0.contains_key(font),
        Err(GlyphMeshError::NoOutline) => {
            &&& !a.1.contains_key((font, glyph))
            &&& b.1 == a.1
            &&& fonts_after(a, b, font)
            &&& bb == ba
        },
        Err(GlyphMeshError::TessellationFailed) => {
            &&& !a.1.contains_key((font, glyph))
            &&& b.1 == a.1
            &&& fonts_after(a, b, font)
        },
        Ok((entry, metrics)) => {
            &&& b.1 == a.1.insert((font, glyph), entry)
            &&& fonts_after(a, b, font)
            &&& b.0[font] == metrics
            &&& entry.width >= 0 && entry.height >= 0
        },
    }
    &&& a.1.contains_key((font, glyph)) ==> {
        &&& b == a
        &&& bb == ba
        &&& (r is Ok ==> r == Ok::<(GlyphMeshEntry, FontMetrics), GlyphMeshError>(
            (a.1[(font, glyph)], a.0[font]),
        ))
        &&& (r is Ok || r == Err::<(GlyphMeshEntry, FontMetrics), GlyphMeshError>(
            GlyphMeshError::FontNotLoaded,
        ))
    }
}

/// Once `get_or_create(font, glyph)` has returned an entry, every later call for the
/// same font and glyph (whatever was asked in between) returns that same entry with
/// the same metrics, or `FontNotLoaded` where the font is gone; it changes nothing
/// in the cache and leaves the backend untouched, so the glyph is never tessellated
/// again.
pub proof fn lemma_cached_glyph_is_reused<B>(
    c0: CacheView,
    c1: CacheView,
    c2: CacheView,
    c3: CacheView,
    b0: B,
    b1: B,
    b2: B,
    b3: B,
    font: FontId,
    glyph: GlyphId,
    r1: Result<(GlyphMeshEntry, FontMetrics), GlyphMeshError>,
    r2: Result<(GlyphMeshEntry, FontMetrics), GlyphMeshError>,
)
    requires
        get_or_create_outcome(c0, c1, b0, b1, font, glyph, r1),
        r1 is Ok,
        cache_grows(c1, c2),
        get_or_create_outcome(c2, c3, b2, b3, font, glyph, r2),
    ensures
        c3 == c2,
        b3 == b2,
        r2 is Ok ==> r2 == r1,
        r2 is Ok || r2 == Err::<(GlyphMeshEntry, FontMetrics), GlyphMeshError>(
            GlyphMeshError::FontNotLoaded,
        ),
{
    let k = (font, glyph);
    assert(c1.1.contains_key(k) && c1.1[k] == r1->Ok_0.0);
    assert(c1.0.contains_key(font) && c1.0[font] == r1->Ok_0.1);
    assert(c2.1[k] == c1.1[k]);
    assert(c2.0[font] == c1.0[font]);
}

impl FontGlyphMeshMap {
    /// Every cached glyph belongs to a font whose metrics are cached, and has a size.
    pub closed spec fn wf(self) -> bool {
        forall|f: FontId, g: GlyphId|
            #[trigger] self.glyphs@.contains_key(glyph_key(f, g)) ==> self.fonts@.contains_key(f)
                && self.glyphs@[glyph_key(f, g)].width >= 0 && self.glyphs@[glyph_key(f, g)].height
                >= 0
    }

    /// A well-formed cache holds the metrics of every font that has a glyph entry.
    pub proof fn lemma_entries_have_fonts(&self)
        requires
            self.wf(),
        ensures
            forall|k: (FontId, GlyphId)| #[trigger] self@.1.contains_key(k) ==> self@.0.contains_key(k.0),
    {
        assert forall|k: (FontId, GlyphId)| #[trigger] self@.1.contains_key(k) implies self@.0.contains_key(k.0) by {
            assert(self.glyphs@.contains_key(glyph_key(k.0, k.1)));
        }
    }

    /// An empty cache.
    pub fn new() -> (r: FontGlyphMeshMap)
        ensures
            r.wf(),
            r@.0 == Map::<FontId, FontMetrics>::empty(),
            r@.1 == Map::<(FontId, GlyphId), GlyphMeshEntry>::empty(),
    {
        let r = FontGlyphMeshMap { fonts: HashMap::new(), glyphs: HashMap::new() };
        assert(r@.1 =~= Map::<(FontId, GlyphId), GlyphMeshEntry>::empty());
        r
    }

    /// The cached entry of `glyph` in `font`, with the font's metrics.
    pub fn lookup(&self, font: FontId, glyph: GlyphId) -> (r: Option<(GlyphMeshEntry, FontMetrics)>)
        requires
            self.wf(),
        ensures
            r is Some == self@.1.contains_key((font, glyph)),
            r matches Some((e, m)) ==> e == self@.1[(font, glyph)] && m == self@.0[font],
    {
        let key = Self::key(font, glyph);
        match self.glyphs.get(&key) {
            None => None,
            Some(e) => {
                assert(self.fonts@.contains_key(font));
                match self.fonts.get(&font) {
                    Some(m) => Some((*e, *m)),
                    None => None,
                }
            },
        }
    }

    fn key(font: FontId, glyph: GlyphId) -> (k: u64)
        ensures
            k == glyph_key(font, glyph),
    {
        font as u64 * 65536 + glyph as u64
    }

    proof fn lemma_key_injective(f1: FontId, g1: GlyphId, f2: FontId, g2: GlyphId)
        ensures
            glyph_key(f1, g1) == glyph_key(f2, g2) ==> f1 == f2 && g1 == g2,
    {
        assert(f1 as int * 65536 + g1 as int <= 0xffff_ffff_ffff_ffff) by (nonlinear_arith);
        assert(f2 as int * 65536 + g2 as int <= 0xffff_ffff_ffff_ffff) by (nonlinear_arith);
        if glyph_key(f1, g1) == glyph_key(f2, g2) {
            assert(f1 as int * 65536 + g1 as int == f2 as int * 65536 + g2 as int);
            assert(f1 == f2 && g1 == g2) by (nonlinear_arith)
                requires
                    f1 as int * 65536 + g1 as int == f2 as int * 65536 + g2 as int,
                    0 <= g1 < 65536,
                    0 <= g2 < 65536,
                    f1 >= 0,
                    f2 >= 0,
            ;
        }
    }

    /// Returns the mesh entry of `glyph` in `font` with the font's metrics, building
    /// and caching the mesh on first use. The font's metrics are read once, on the
    /// font's first use. A glyph already cached is returned as it is, without
    /// touching the backend. A font that is not loaded gives `FontNotLoaded` and
    /// changes nothing; so do unusable metrics of a loaded font (`InvalidMetrics`).
    /// A glyph without outline, or whose contours cannot be filled, gets no entry:
    /// asking again asks the font again. Without an outline the backend is not used.
    pub fn get_or_create<F: FontSource, B: MeshBackend>(
        &mut self,
        fonts: &F,
        backend: &mut B,
        font: FontId,
        glyph: GlyphId,
    ) -> (r: Result<(GlyphMeshEntry, FontMetrics), GlyphMeshError>)
        requires
            old(self).wf(),
        ensures
            final(self).wf(),
            get_or_create_outcome(old(self)@, final(self)@, *old(backend), *final(backend), font, glyph, r),
    {
        if !fonts.is_loaded(font) {
            return Err(GlyphMeshError::FontNotLoaded);
        }
        let metrics = match self.fonts.get(&font) {
            Some(m) => *m,
            None => match fonts.metrics(font) {
                None => {
                    return Err(GlyphMeshError::InvalidMetrics);
                },
                Some(m) => {
                    let ghost before = self@;
                    self.fonts.insert(font, m);
                    proof {
                        assert(self@.1 =~= before.1);
                        assert(self@.0 == before.0.insert(font, m));
                        assert(self@.0.dom() =~= before.0.dom().insert(font));
                    }
                    m
                },
            },
        };
        let ghost mid = self@;
        proof {
            if old(self)@.1.contains_key((font, glyph)) {
                assert(old(self).glyphs@.contains_key(glyph_key(font, glyph)));
                assert(old(self)@.0.contains_key(font));
                assert(mid == old(self)@);
                assert(mid.1.insert((font, glyph), mid.1[(font, glyph)]) =~= mid.1);
            }
        }
        assert(mid.0.contains_key(font) && mid.0[font] == metrics);
        if let Some((e, m)) = self.lookup(font, glyph) {
            return Ok((e, m));
        }
        let outline = match fonts.outline(font, glyph) {
            None => {
                return Err(GlyphMeshError::NoOutline);
            },
            Some(o) => o,
        };
        let mesh = match build_mesh(backend, &outline) {
            Err(MeshError::NoOutline) => {
                return Err(GlyphMeshError::NoOutline);
            },
            Err(MeshError::TessellationFailed) => {
                return Err(GlyphMeshError::TessellationFailed);
            },
            Ok(m) => m,
        };
        let handle = backend.add_mesh(mesh.mesh);
        let h_advance = fonts.h_advance(font, glyph);
        let entry = GlyphMeshEntry { mesh: handle, width: mesh.width, height: mesh.height, h_advance };
        let key = Self::key(font, glyph);
        self.glyphs.insert(key, entry);
        proof {
            assert forall|f: FontId, g: GlyphId|
                #[trigger] self.glyphs@.contains_key(glyph_key(f, g)) implies self.fonts@.contains_key(f)
                && self.glyphs@[glyph_key(f, g)].width >= 0 && self.glyphs@[glyph_key(f, g)].height
                >= 0 by {
                Self::lemma_key_injective(f, g, font, glyph);
            }
            assert forall|k: (FontId, GlyphId)| #[trigger] self@.1.contains_key(k) == mid.1.insert((font, glyph), entry).contains_key(k) by {
                Self::lemma_key_injective(k.0, k.1, font, glyph);
            }
            assert forall|k: (FontId, GlyphId)| self@.1.contains_key(k) implies #[trigger] self@.1[k] == mid.1.insert((font, glyph), entry)[k] by {
                Self::lemma_key_injective(k.0, k.1, font, glyph);
            }
            assert(self@.1 =~= mid.1.insert((font, glyph), entry));
        }
        Ok((entry, metrics))
    }
}

} // verus!
