use std::collections::HashMap;

use text3d::cache::{FontGlyphMeshMap, FontMetrics, FontSource, GlyphMeshError};
use text3d::geometry::{Bounds, Outline, OutlineCurve, Point};
use text3d::layout::{
    assemble_block, center_block, layout_shaped, queue_text, scale_units, toggle_render_modes,
    PositionedGlyph, QueueOutcome, RenderMode, Rgba, Text3d, TextSection,
};
use text3d::mesh::{
    assemble_mesh, build_mesh, vertex_uv, GlyphMeshData, MeshBackend, MeshError, MeshHandle,
    Tessellation,
};
use text3d::path::{build_contours, Contour};
use text3d::queue::{BlockStatus, RetryQueue};

fn pt(x: i32, y: i32) -> Point {
    Point::new(x, y)
}

fn triangle() -> Vec<OutlineCurve> {
    vec![
        OutlineCurve::Line(pt(0, 0), pt(500, 0)),
        OutlineCurve::Line(pt(500, 0), pt(250, 700)),
        OutlineCurve::Line(pt(250, 700), pt(0, 0)),
    ]
}

fn triangle_outline() -> Outline {
    Outline {
        curves: triangle(),
        bounds: Bounds { min: pt(0, 0), max: pt(500, 700) },
    }
}

struct Fonts {
    loaded: Vec<u32>,
    metrics: HashMap<u32, FontMetrics>,
    outlines: HashMap<(u32, u16), Outline>,
    advances: HashMap<(u32, u16), i32>,
    shaped: Vec<PositionedGlyph>,
}

impl Fonts {
    fn one_font() -> Fonts {
        let mut metrics = HashMap::new();
        metrics.insert(7, FontMetrics::new(1000, -200).unwrap());
        let mut outlines = HashMap::new();
        outlines.insert((7, 36), triangle_outline());
        let mut advances = HashMap::new();
        advances.insert((7, 36), 500);
        advances.insert((7, 3), 250);
        Fonts { loaded: vec![7], metrics, outlines, advances, shaped: Vec::new() }
    }
}

impl FontSource for Fonts {
    fn is_loaded(&self, font: u32) -> bool {
        self.loaded.contains(&font)
    }

    fn metrics(&self, font: u32) -> Option<FontMetrics> {
        if self.is_loaded(font) {
            self.metrics.get(&font).copied()
        } else {
            None
        }
    }

    fn outline(&self, font: u32, glyph: u16) -> Option<Outline> {
        self.outlines.get(&(font, glyph)).cloned()
    }

    fn h_advance(&self, font: u32, glyph: u16) -> i32 {
        self.advances.get(&(font, glyph)).copied().unwrap_or(0)
    }

    fn shape(&self, _sections: &Vec<TextSection>) -> Vec<PositionedGlyph> {
        self.shaped.clone()
    }
}

/// Fills each contour as a fan over its curves' start points.
struct Backend {
    tessellations: usize,
    meshes: Vec<GlyphMeshData>,
    fail: bool,
}

impl Backend {
    fn new() -> Backend {
        Backend { tessellations: 0, meshes: Vec::new(), fail: false }
    }
}

impl MeshBackend for Backend {
    fn tessellate(&mut self, contours: &Vec<Contour>) -> Option<Tessellation> {
        self.tessellations += 1;
        if self.fail {
            return None;
        }
        let mut positions = Vec::new();
        let mut indices = Vec::new();
        for c in contours {
            let base = positions.len() as u32;
            for curve in &c.curves {
                positions.push(curve.start());
            }
            for k in 1..(c.curves.len() as u32).saturating_sub(1) {
                indices.extend_from_slice(&[base, base + k, base + k + 1]);
            }
        }
        Some(Tessellation { positions, indices })
    }

    fn add_mesh(&mut self, mesh: GlyphMeshData) -> MeshHandle {
        self.meshes.push(mesh);
        MeshHandle { id: self.meshes.len() as u64 - 1 }
    }
}

const GREEN: Rgba = Rgba { r: 128, g: 230, b: 128, a: 255 };

fn section(font: u32, text: &str) -> TextSection {
    TextSection { text: text.to_string(), font, size: 40 * 64, color: GREEN }
}

#[test]
fn closed_triangle_is_one_contour() {
    let contours = build_contours(&triangle());
    assert_eq!(contours.len(), 1);
    assert_eq!(contours[0].curves, triangle());
}

#[test]
fn no_curves_give_no_contour() {
    assert!(build_contours(&Vec::new()).is_empty());
}

#[test]
fn two_subpaths_give_two_contours() {
    let outer = vec![
        OutlineCurve::Quad(pt(0, 0), pt(50, 100), pt(100, 0)),
        OutlineCurve::Quad(pt(100, 0), pt(50, -100), pt(0, 0)),
    ];
    let inner = vec![
        OutlineCurve::Line(pt(30, 0), pt(50, 40)),
        OutlineCurve::Cubic(pt(50, 40), pt(60, 30), pt(70, 10), pt(70, 0)),
        OutlineCurve::Line(pt(70, 0), pt(30, 0)),
    ];
    let mut curves = outer.clone();
    curves.extend(inner.iter().copied());
    let contours = build_contours(&curves);
    assert_eq!(contours.len(), 2);
    assert_eq!(contours[0].curves, outer);
    assert_eq!(contours[1].curves, inner);
}

#[test]
fn each_break_starts_a_contour() {
    let curves = vec![
        OutlineCurve::Line(pt(0, 0), pt(1, 0)),
        OutlineCurve::Line(pt(5, 5), pt(6, 5)),
        OutlineCurve::Line(pt(6, 5), pt(5, 5)),
        OutlineCurve::Line(pt(9, 9), pt(9, 9)),
    ];
    let contours = build_contours(&curves);
    let lens: Vec<usize> = contours.iter().map(|c| c.curves.len()).collect();
    assert_eq!(lens, vec![1, 2, 1]);
}

#[test]
fn triangle_winding_is_reversed() {
    let t = Tessellation {
        positions: vec![pt(0, 0), pt(500, 0), pt(250, 700)],
        indices: vec![0, 1, 2],
    };
    let m = assemble_mesh(t, Bounds { min: pt(0, 0), max: pt(500, 700) });
    assert_eq!(m.indices, vec![2, 1, 0]);
    assert_eq!(m.positions, vec![pt(0, 0), pt(500, 0), pt(250, 700)]);
    assert_eq!(m.normals.len(), 3);
    assert!(m.normals.iter().all(|n| (n.x, n.y, n.z) == (0, 0, 1)));
}

#[test]
fn longer_index_list_is_read_backwards() {
    let t = Tessellation { positions: Vec::new(), indices: vec![0, 1, 2, 2, 3, 0] };
    let m = assemble_mesh(t, Bounds { min: pt(0, 0), max: pt(1, 1) });
    assert_eq!(m.indices, vec![0, 3, 2, 2, 1, 0]);
}

#[test]
fn uv_maps_top_to_zero() {
    let b = Bounds { min: pt(0, 0), max: pt(100, 200) };
    let uv = vertex_uv(pt(25, 50), b);
    assert_eq!((uv.u.num, uv.u.den), (25, 100));
    assert_eq!((uv.v.num, uv.v.den), (150, 200));
    let top = vertex_uv(pt(0, 200), b);
    assert_eq!((top.u.num, top.v.num), (0, 0));
}

#[test]
fn uv_ignores_corner_order() {
    let b = Bounds { min: pt(100, 200), max: pt(0, 0) };
    let uv = vertex_uv(pt(25, 50), b);
    assert_eq!((uv.u.num, uv.u.den), (25, 100));
    assert_eq!((uv.v.num, uv.v.den), (150, 200));
}

#[test]
fn degenerate_bounds_give_zero_uvs() {
    let t = Tessellation { positions: vec![pt(3, 0), pt(3, 9), pt(3, 4)], indices: vec![0, 1, 2] };
    let m = assemble_mesh(t, Bounds { min: pt(3, 0), max: pt(3, 9) });
    assert_eq!(m.uvs.len(), 3);
    for uv in &m.uvs {
        assert_eq!((uv.u.num, uv.v.num), (0, 0));
        assert!(uv.u.den > 0 && uv.v.den > 0);
    }
    let flat = vertex_uv(pt(1, 1), Bounds { min: pt(0, 5), max: pt(10, 5) });
    assert_eq!((flat.u.num, flat.v.num), (0, 0));
}

#[test]
fn build_mesh_of_empty_outline_is_no_outline() {
    let mut backend = Backend::new();
    let outline = Outline { curves: Vec::new(), bounds: Bounds { min: pt(0, 0), max: pt(0, 0) } };
    assert!(matches!(build_mesh(&mut backend, &outline), Err(MeshError::NoOutline)));
    assert_eq!(backend.tessellations, 0);
}

#[test]
fn build_mesh_reports_tessellation_failure() {
    let mut backend = Backend::new();
    backend.fail = true;
    assert!(matches!(
        build_mesh(&mut backend, &triangle_outline()),
        Err(MeshError::TessellationFailed)
    ));
}

#[test]
fn build_mesh_of_triangle() {
    let mut backend = Backend::new();
    let m = build_mesh(&mut backend, &triangle_outline()).unwrap();
    assert_eq!((m.width, m.height), (500, 700));
    assert_eq!(m.mesh.indices, vec![2, 1, 0]);
    assert_eq!((m.mesh.uvs[2].u.num, m.mesh.uvs[2].u.den), (250, 500));
    assert_eq!((m.mesh.uvs[2].v.num, m.mesh.uvs[2].v.den), (0, 700));
}

#[test]
fn repeated_lookup_reuses_entry() {
    let fonts = Fonts::one_font();
    let mut backend = Backend::new();
    let mut cache = FontGlyphMeshMap::new();
    let (first, m1) = cache.get_or_create(&fonts, &mut backend, 7, 36).unwrap();
    assert_eq!(backend.tessellations, 1);
    let (second, m2) = cache.get_or_create(&fonts, &mut backend, 7, 36).unwrap();
    let (third, _) = cache.get_or_create(&fonts, &mut backend, 7, 36).unwrap();
    assert_eq!(first, second);
    assert_eq!(first, third);
    assert_eq!(m1, m2);
    assert_eq!(backend.tessellations, 1);
    assert_eq!(backend.meshes.len(), 1);
    assert_eq!(first.h_advance, 500);
    assert_eq!((first.width, first.height), (500, 700));
    assert_eq!(m1.natural_scale(), 1000);
    assert_eq!(m1.descent(), -200);
}

#[test]
fn unloaded_font_creates_nothing() {
    let mut fonts = Fonts::one_font();
    fonts.loaded.clear();
    let mut backend = Backend::new();
    let mut cache = FontGlyphMeshMap::new();
    assert_eq!(
        cache.get_or_create(&fonts, &mut backend, 7, 36).unwrap_err(),
        GlyphMeshError::FontNotLoaded
    );
    assert!(cache.lookup(7, 36).is_none());
    assert_eq!(backend.tessellations, 0);
    assert!(backend.meshes.is_empty());
}

#[test]
fn glyph_without_outline_is_no_outline() {
    let fonts = Fonts::one_font();
    let mut backend = Backend::new();
    let mut cache = FontGlyphMeshMap::new();
    assert_eq!(
        cache.get_or_create(&fonts, &mut backend, 7, 3).unwrap_err(),
        GlyphMeshError::NoOutline
    );
    assert!(cache.lookup(7, 3).is_none());
    assert_eq!(backend.tessellations, 0);
}

#[test]
fn failed_tessellation_is_reported() {
    let fonts = Fonts::one_font();
    let mut backend = Backend::new();
    backend.fail = true;
    let mut cache = FontGlyphMeshMap::new();
    assert_eq!(
        cache.get_or_create(&fonts, &mut backend, 7, 36).unwrap_err(),
        GlyphMeshError::TessellationFailed
    );
    assert!(cache.lookup(7, 36).is_none());
}

#[test]
fn font_metrics_refuse_only_zero_scale() {
    assert!(FontMetrics::new(0, -10).is_none());
    let m = FontMetrics::new(-1000, -200).unwrap();
    assert_eq!((m.natural_scale(), m.descent()), (-1000, -200));
    assert!(FontMetrics::new(1, 0).is_some());
}

#[test]
fn scaling_rounds_down() {
    assert_eq!(scale_units(500, 2560, 1000), 1280);
    assert_eq!(scale_units(-200, 2560, 1000), -512);
    assert_eq!(scale_units(-1, 1, 3), -1);
    assert_eq!(scale_units(1, 1, 3), 0);
}

#[test]
fn single_glyph_end_to_end() {
    let mut fonts = Fonts::one_font();
    fonts.shaped = vec![PositionedGlyph { glyph: 36, section: 0, x: 0, y: 2048 }];
    let mut backend = Backend::new();
    let mut cache = FontGlyphMeshMap::new();
    let text = Text3d { sections: vec![section(7, "A")] };
    let layout = match queue_text(&mut cache, &fonts, &mut backend, &text) {
        QueueOutcome::Laid(l) => l,
        QueueOutcome::Deferred => panic!("font is loaded"),
    };
    assert_eq!(layout.instances.len(), 1);
    let g = layout.instances[0];
    assert_eq!(g.mesh, MeshHandle { id: 0 });
    assert_eq!(g.section, 0);
    // 40 px over a natural scale of 1000: 0.04 pixel per font unit
    assert_eq!((g.scale.num, g.scale.den), (2560, 64000));
    assert_eq!(g.scale.num * 25, g.scale.den);
    // box: x from 0 to 1280 (advance 500 at 0.04 px, in 1/64 px), y from 0 to 2048 + 512
    assert_eq!((layout.size.width, layout.size.height), (1280, 2560));
    assert_eq!((g.x, g.y), (-640, 1280 - 2048));
    assert!(layout.failed_glyphs.is_empty());
    assert_eq!(backend.tessellations, 1);
    assert_eq!(backend.meshes.len(), 1);
    assert_eq!(backend.meshes[0].indices, vec![2, 1, 0]);
}

#[test]
fn space_is_skipped_but_advances() {
    let mut fonts = Fonts::one_font();
    // "A A": the space's advance is in the pen position of the second A
    fonts.shaped = vec![
        PositionedGlyph { glyph: 36, section: 0, x: 0, y: 2048 },
        PositionedGlyph { glyph: 3, section: 0, x: 1280, y: 2048 },
        PositionedGlyph { glyph: 36, section: 0, x: 1920, y: 2048 },
    ];
    let mut backend = Backend::new();
    let mut cache = FontGlyphMeshMap::new();
    let text = Text3d { sections: vec![section(7, "A A")] };
    let layout = match queue_text(&mut cache, &fonts, &mut backend, &text) {
        QueueOutcome::Laid(l) => l,
        QueueOutcome::Deferred => panic!("font is loaded"),
    };
    assert_eq!(layout.instances.len(), 2);
    assert_eq!(layout.size.width, 1920 + 1280);
    assert_eq!(layout.instances[0].x, -1600);
    assert_eq!(layout.instances[1].x, 1920 - 1600);
    assert_eq!(layout.instances[0].mesh, layout.instances[1].mesh);
    assert!(layout.failed_glyphs.is_empty());
    assert_eq!(backend.tessellations, 1);
}

#[test]
fn unloaded_font_defers_block() {
    let mut fonts = Fonts::one_font();
    fonts.shaped = vec![PositionedGlyph { glyph: 36, section: 0, x: 0, y: 2048 }];
    let mut backend = Backend::new();
    let mut cache = FontGlyphMeshMap::new();
    let text = Text3d { sections: vec![section(7, "A"), section(8, "B")] };
    assert!(matches!(queue_text(&mut cache, &fonts, &mut backend, &text), QueueOutcome::Deferred));
    assert!(cache.lookup(7, 36).is_none());
    assert_eq!(backend.tessellations, 0);
    assert!(backend.meshes.is_empty());
}

#[test]
fn failed_glyph_is_left_out_and_listed() {
    let mut fonts = Fonts::one_font();
    fonts.shaped = vec![PositionedGlyph { glyph: 36, section: 0, x: 0, y: 2048 }];
    let mut backend = Backend::new();
    backend.fail = true;
    let mut cache = FontGlyphMeshMap::new();
    let text = Text3d { sections: vec![section(7, "A")] };
    let layout = match queue_text(&mut cache, &fonts, &mut backend, &text) {
        QueueOutcome::Laid(l) => l,
        QueueOutcome::Deferred => panic!("font is loaded"),
    };
    assert!(layout.instances.is_empty());
    assert_eq!(layout.failed_glyphs, vec![(7, 36)]);
}

#[test]
fn empty_block_has_zero_size() {
    let layout = center_block(&Vec::new(), Vec::new());
    assert!(layout.instances.is_empty());
    assert_eq!((layout.size.width, layout.size.height), (0, 0));
}

/// Blocks whose font loads at a given cycle.
struct Blocks {
    cycle: u32,
    ready_at: HashMap<u64, u32>,
    laid: Vec<(u32, u64)>,
}

impl Blocks {
    fn process(&mut self, block: u64) -> BlockStatus {
        match self.ready_at.get(&block) {
            None => BlockStatus::Missing,
            Some(&c) if c <= self.cycle => {
                self.laid.push((self.cycle, block));
                BlockStatus::Laid
            }
            Some(_) => BlockStatus::Deferred,
        }
    }
}

fn run_cycle(queue: &mut RetryQueue, changed: &Vec<u64>, blocks: &mut Blocks) -> Vec<(u64, BlockStatus)> {
    let mut log = Vec::new();
    for b in queue.begin_cycle(changed) {
        let st = blocks.process(b);
        queue.record(b, st);
        log.push((b, st));
    }
    queue.end_cycle();
    log
}

#[test]
fn deferred_block_is_retried_next_cycle() {
    let mut blocks = Blocks { cycle: 1, ready_at: HashMap::new(), laid: Vec::new() };
    blocks.ready_at.insert(10, 2);
    blocks.ready_at.insert(11, 1);
    let mut queue = RetryQueue::new();

    let log = run_cycle(&mut queue, &vec![10, 11], &mut blocks);
    assert_eq!(log, vec![(10, BlockStatus::Deferred), (11, BlockStatus::Laid)]);
    assert_eq!(queue.pending(), vec![10]);
    assert_eq!(blocks.laid, vec![(1, 11)]);

    blocks.cycle = 2;
    let log = run_cycle(&mut queue, &vec![12], &mut blocks);
    assert_eq!(log, vec![(10, BlockStatus::Laid), (12, BlockStatus::Missing)]);
    assert!(queue.pending().is_empty());
    assert_eq!(blocks.laid, vec![(1, 11), (2, 10)]);

    blocks.cycle = 3;
    let log = run_cycle(&mut queue, &Vec::new(), &mut blocks);
    assert!(log.is_empty());
}

#[test]
fn block_is_queued_once_per_cycle() {
    let mut blocks = Blocks { cycle: 1, ready_at: HashMap::new(), laid: Vec::new() };
    blocks.ready_at.insert(5, 9);
    blocks.ready_at.insert(6, 9);
    let mut queue = RetryQueue::new();
    run_cycle(&mut queue, &vec![5, 6, 5], &mut blocks);
    assert_eq!(queue.pending(), vec![5, 6]);
    // waiting blocks come before changed ones, and stay queued while deferred
    let order = queue.begin_cycle(&vec![6]);
    assert_eq!(order, vec![5, 6, 6]);
    for b in order {
        queue.record(b, BlockStatus::Deferred);
    }
    queue.end_cycle();
    assert_eq!(queue.pending(), vec![5, 6]);
}

#[test]
fn recorded_blocks_settle_the_next_list() {
    let mut queue = RetryQueue::new();
    queue.begin_cycle(&vec![1, 2, 3]);
    queue.record(1, BlockStatus::Laid);
    queue.record(2, BlockStatus::Deferred);
    queue.record(3, BlockStatus::Missing);
    assert!(queue.pending().is_empty());
    queue.end_cycle();
    assert_eq!(queue.pending(), vec![2]);
}

#[test]
fn toggling_flips_every_mode() {
    let mut modes = vec![RenderMode::Solid, RenderMode::Wireframe, RenderMode::Solid];
    toggle_render_modes(&mut modes);
    assert_eq!(modes, vec![RenderMode::Wireframe, RenderMode::Solid, RenderMode::Wireframe]);
    toggle_render_modes(&mut modes);
    assert_eq!(modes, vec![RenderMode::Solid, RenderMode::Wireframe, RenderMode::Solid]);
}

fn entry_and_metrics(fonts: &Fonts, cache: &mut FontGlyphMeshMap, backend: &mut Backend) -> text3d::layout::GlyphLookup {
    cache.get_or_create(fonts, backend, 7, 36)
}

#[test]
fn unusable_metrics_are_a_permanent_error() {
    let mut fonts = Fonts::one_font();
    fonts.metrics.clear();
    let mut backend = Backend::new();
    let mut cache = FontGlyphMeshMap::new();
    assert_eq!(
        entry_and_metrics(&fonts, &mut cache, &mut backend).unwrap_err(),
        GlyphMeshError::InvalidMetrics
    );
    assert_eq!(backend.tessellations, 0);
}

#[test]
fn children_carry_section_colour() {
    let mut fonts = Fonts::one_font();
    fonts.shaped = vec![
        PositionedGlyph { glyph: 36, section: 0, x: 0, y: 2048 },
        PositionedGlyph { glyph: 36, section: 1, x: 1280, y: 2048 },
    ];
    let red = Rgba { r: 255, g: 0, b: 0, a: 255 };
    let mut second = section(7, "A");
    second.color = red;
    let text = Text3d { sections: vec![section(7, "A"), second] };
    let mut backend = Backend::new();
    let mut cache = FontGlyphMeshMap::new();
    let layout = match queue_text(&mut cache, &fonts, &mut backend, &text) {
        QueueOutcome::Laid(l) => l,
        QueueOutcome::Deferred => panic!("font is loaded"),
    };
    assert_eq!(layout.instances.len(), 2);
    assert_eq!((layout.instances[0].color, layout.instances[0].section), (GREEN, 0));
    assert_eq!((layout.instances[1].color, layout.instances[1].section), (red, 1));
}

#[test]
fn glyph_above_its_descent_line_has_positive_height() {
    let mut fonts = Fonts::one_font();
    // pen y of -1000 lies above the top line; descent -512 puts the box from -488 to 0
    fonts.shaped = vec![PositionedGlyph { glyph: 36, section: 0, x: 0, y: -1000 }];
    let text = Text3d { sections: vec![section(7, "A")] };
    let mut backend = Backend::new();
    let mut cache = FontGlyphMeshMap::new();
    let layout = match queue_text(&mut cache, &fonts, &mut backend, &text) {
        QueueOutcome::Laid(l) => l,
        QueueOutcome::Deferred => panic!("font is loaded"),
    };
    assert_eq!((layout.size.width, layout.size.height), (1280, 488));
    // centre y is -244: the child sits at -(-1000) + (-244)
    assert_eq!(layout.instances[0].y, -244 + 1000);
}

#[test]
fn assembled_block_follows_the_lookups() {
    let sections = vec![section(7, "A A")];
    let glyphs = vec![
        PositionedGlyph { glyph: 36, section: 0, x: 0, y: 2048 },
        PositionedGlyph { glyph: 3, section: 0, x: 1280, y: 2048 },
        PositionedGlyph { glyph: 36, section: 0, x: 1920, y: 2048 },
        PositionedGlyph { glyph: 9, section: 4, x: 3000, y: 2048 },
    ];
    let fonts = Fonts::one_font();
    let mut backend = Backend::new();
    let mut cache = FontGlyphMeshMap::new();
    let found_a = entry_and_metrics(&fonts, &mut cache, &mut backend);
    let found = vec![found_a, Err(GlyphMeshError::NoOutline), found_a, Err(GlyphMeshError::FontNotLoaded)];
    // the last glyph belongs to no section: its answer does not count
    let layout = match assemble_block(&sections, &glyphs, &found) {
        QueueOutcome::Laid(l) => l,
        QueueOutcome::Deferred => panic!("no font of a section is missing"),
    };
    assert_eq!(layout.instances.len(), 2);
    assert_eq!(layout.instances[0].x, -1600);
    assert_eq!(layout.instances[1].x, 1920 - 1600);

    let found = vec![found_a, Err(GlyphMeshError::FontNotLoaded), found_a, Err(GlyphMeshError::NoOutline)];
    assert!(matches!(assemble_block(&sections, &glyphs, &found), QueueOutcome::Deferred));

    let found = vec![found_a, Err(GlyphMeshError::TessellationFailed), found_a, found_a];
    match assemble_block(&sections, &glyphs, &found) {
        QueueOutcome::Laid(l) => assert_eq!(l.failed_glyphs, vec![(7, 3)]),
        QueueOutcome::Deferred => panic!("no font of a section is missing"),
    }
}

#[test]
fn shaped_glyphs_of_a_cached_block_reuse_entries() {
    let fonts = Fonts::one_font();
    let sections = vec![section(7, "AA")];
    let glyphs = vec![
        PositionedGlyph { glyph: 36, section: 0, x: 0, y: 2048 },
        PositionedGlyph { glyph: 36, section: 0, x: 1280, y: 2048 },
    ];
    let mut backend = Backend::new();
    let mut cache = FontGlyphMeshMap::new();
    assert!(matches!(
        layout_shaped(&mut cache, &fonts, &mut backend, &sections, &glyphs),
        QueueOutcome::Laid(_)
    ));
    assert_eq!(backend.tessellations, 1);
    match layout_shaped(&mut cache, &fonts, &mut backend, &sections, &glyphs) {
        QueueOutcome::Laid(l) => assert_eq!(l.instances.len(), 2),
        QueueOutcome::Deferred => panic!("font is loaded"),
    }
    assert_eq!(backend.tessellations, 1);
    assert_eq!(backend.meshes.len(), 1);
}

#[test]
fn no_glyphs_or_no_sections_lay_out_empty() {
    let fonts = Fonts::one_font();
    let mut backend = Backend::new();
    let mut cache = FontGlyphMeshMap::new();
    let glyphs = vec![PositionedGlyph { glyph: 36, section: 0, x: 0, y: 0 }];
    match layout_shaped(&mut cache, &fonts, &mut backend, &Vec::new(), &glyphs) {
        QueueOutcome::Laid(l) => assert!(l.instances.is_empty()),
        QueueOutcome::Deferred => panic!("no section"),
    }
    match queue_text(&mut cache, &fonts, &mut backend, &Text3d { sections: Vec::new() }) {
        QueueOutcome::Laid(l) => assert!(l.instances.is_empty()),
        QueueOutcome::Deferred => panic!("no section"),
    }
}

#[test]
fn negative_scale_keeps_a_positive_denominator() {
    let mut fonts = Fonts::one_font();
    fonts.metrics.insert(7, FontMetrics::new(-1000, 200).unwrap());
    fonts.shaped = vec![PositionedGlyph { glyph: 36, section: 0, x: 0, y: 0 }];
    let text = Text3d { sections: vec![section(7, "A")] };
    let mut backend = Backend::new();
    let mut cache = FontGlyphMeshMap::new();
    let layout = match queue_text(&mut cache, &fonts, &mut backend, &text) {
        QueueOutcome::Laid(l) => l,
        QueueOutcome::Deferred => panic!("font is loaded"),
    };
    let g = layout.instances[0];
    assert_eq!((g.scale.num, g.scale.den), (-2560, 64000));
    // advance 500 scales to -1280: the box spans x from -1280 to 0
    assert_eq!(layout.size.width, 1280);
    assert_eq!(g.x, 640);
    assert_eq!(scale_units(500, 2560, -1000), -1280);
    assert_eq!(scale_units(1, 1, -3), 0);
    assert_eq!(scale_units(-1, 1, -3), 1);
}

#[test]
fn unusable_metrics_are_listed() {
    let mut fonts = Fonts::one_font();
    fonts.metrics.clear();
    fonts.shaped = vec![PositionedGlyph { glyph: 36, section: 0, x: 0, y: 2048 }];
    let text = Text3d { sections: vec![section(7, "A")] };
    let mut backend = Backend::new();
    let mut cache = FontGlyphMeshMap::new();
    match queue_text(&mut cache, &fonts, &mut backend, &text) {
        QueueOutcome::Laid(l) => {
            assert!(l.instances.is_empty());
            assert_eq!(l.failed_glyphs, vec![(7, 36)]);
        }
        QueueOutcome::Deferred => panic!("font is loaded"),
    }
}

#[test]
fn lookups_stop_at_an_unloaded_font() {
    let mut fonts = Fonts::one_font();
    fonts.outlines.insert((8, 36), triangle_outline());
    let sections = vec![section(9, "A"), section(8, "A")];
    let glyphs = vec![
        PositionedGlyph { glyph: 36, section: 0, x: 0, y: 0 },
        PositionedGlyph { glyph: 36, section: 1, x: 1280, y: 0 },
    ];
    fonts.loaded.push(8);
    fonts.metrics.insert(8, FontMetrics::new(1000, -200).unwrap());
    let mut backend = Backend::new();
    let mut cache = FontGlyphMeshMap::new();
    assert!(matches!(
        layout_shaped(&mut cache, &fonts, &mut backend, &sections, &glyphs),
        QueueOutcome::Deferred
    ));
    assert!(cache.lookup(8, 36).is_none());
    assert_eq!(backend.tessellations, 0);
}
