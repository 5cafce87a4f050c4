use text_brush::{Color, CopyBlock, DrawQuad, LayoutOutcome, QueuedSection, Rect, TextBrush};

const BIG: i64 = 0x2000_0000;

fn rect(min_x: i64, min_y: i64, max_x: i64, max_y: i64) -> Rect {
    Rect { min_x, min_y, max_x, max_y }
}

fn white() -> Color {
    Color { r: 1, g: 1, b: 1, a: 1 }
}

fn section(text: &str, font_id: u32) -> QueuedSection {
    QueuedSection {
        text: String::from(text),
        pos_x: 0,
        pos_y: 0,
        bound_x: BIG,
        bound_y: BIG,
        scale_x: 16,
        scale_y: 16,
        color: white(),
        font_id,
    }
}

#[test]
fn font_ids_count_up_from_zero() {
    let mut b = TextBrush::new(8, 8);
    assert_eq!(b.font_count(), 0);
    assert_eq!(b.register_font(), 0);
    assert_eq!(b.register_font(), 1);
    assert_eq!(b.register_font(), 2);
    assert_eq!(b.font_count(), 3);
}

#[test]
fn queue_is_drained_in_order() {
    let mut b = TextBrush::new(8, 8);
    b.queue_section(section("first", 0));
    b.queue_section(section("second", 1));
    assert_eq!(b.queued_count(), 2);
    let taken = b.take_queue();
    assert_eq!(taken.len(), 2);
    assert_eq!(taken[0].text, "first");
    assert_eq!(taken[0].font_id, 0);
    assert_eq!(taken[1].text, "second");
    assert_eq!(taken[1].font_id, 1);
    assert_eq!(b.queued_count(), 0);
}

#[test]
fn two_glyph_section_yields_two_vertices() {
    // One registered font, one section "Hi" at the origin at scale 16 with
    // unbounded bounds; the engine answers with one quad per glyph.
    let mut b = TextBrush::new(256, 256);
    assert_eq!(b.register_font(), 0);
    b.queue_section(section("Hi", 0));
    let sections = b.take_queue();
    assert_eq!(sections.len(), 1);
    assert_eq!(sections[0].text, "Hi");

    // uv coordinates in 1/65536 of the texture, i.e. inside [0, 65536].
    let quads = vec![
        DrawQuad {
            screen: rect(0, 0, 10, 16),
            uv: rect(0, 0, 2560, 4096),
            bounds: rect(-BIG, -BIG, BIG, BIG),
            color: white(),
        },
        DrawQuad {
            screen: rect(11, 4, 15, 16),
            uv: rect(2560, 0, 3584, 3072),
            bounds: rect(-BIG, -BIG, BIG, BIG),
            color: white(),
        },
    ];
    b.update(&Vec::new(), LayoutOutcome::Draw(quads));
    let verts = b.vertices();
    assert_eq!(verts.len(), 2);
    for v in verts.iter() {
        // Inside the unit uv square (fixed-point denominator 65536).
        assert!(0 <= v.uv.min_x && v.uv.max_x <= 65536);
        assert!(0 <= v.uv.min_y && v.uv.max_y <= 65536);
        // Within the region position + scale covers.
        assert!(0 <= v.screen.min_x && v.screen.max_x <= 16);
        assert!(0 <= v.screen.min_y && v.screen.max_y <= 16);
    }
    // Unbounded bounds leave the quads untouched.
    assert_eq!(verts[0].screen, rect(0, 0, 10, 16));
    assert_eq!(verts[0].uv, rect(0, 0, 2560, 4096));
    assert_eq!(verts[1].screen, rect(11, 4, 15, 16));
}

#[test]
fn bounded_section_is_clamped_proportionally() {
    // A glyph whose natural extent reaches (10, 10) under bounds of (5, 5):
    // the vertex is clamped to the bounds and its uv shrinks by the same
    // ratio.
    let mut b = TextBrush::new(256, 256);
    let quads = vec![DrawQuad {
        screen: rect(0, 0, 10, 10),
        uv: rect(0, 0, 4096, 4096),
        bounds: rect(-BIG, -BIG, 5, 5),
        color: white(),
    }];
    b.update(&Vec::new(), LayoutOutcome::Draw(quads));
    let verts = b.vertices();
    assert_eq!(verts.len(), 1);
    assert_eq!(verts[0].screen, rect(0, 0, 5, 5));
    // 4096 * 5 / 10 on both axes.
    assert_eq!(verts[0].uv, rect(0, 0, 2048, 2048));
}

#[test]
fn fully_clipped_quads_produce_no_vertices() {
    let mut b = TextBrush::new(64, 64);
    let quads = vec![DrawQuad {
        screen: rect(100, 100, 120, 120),
        uv: rect(0, 0, 64, 64),
        bounds: rect(-BIG, -BIG, 50, 50),
        color: white(),
    }];
    b.update(&Vec::new(), LayoutOutcome::Draw(quads));
    assert_eq!(b.vertices().len(), 0);
}

#[test]
fn copies_reach_the_texture_and_mark_it_dirty() {
    let mut b = TextBrush::new(4, 4);
    let copies = vec![CopyBlock { x: 1, y: 0, w: 2, h: 1, data: vec![10u8, 20] }];
    b.update(&copies, LayoutOutcome::Unchanged);
    assert_eq!(b.texture_data()[1], 10);
    assert_eq!(b.texture_data()[2], 20);
    assert!(b.read_and_clear_dirty());
    assert!(!b.read_and_clear_dirty());
}

#[test]
fn oversized_copy_is_rejected_whole() {
    let mut b = TextBrush::new(4, 4);
    let copies = vec![CopyBlock { x: 3, y: 3, w: 2, h: 2, data: vec![9u8; 4] }];
    b.update(&copies, LayoutOutcome::Unchanged);
    assert!(b.texture_data().iter().all(|&p| p == 0));
    assert!(!b.read_and_clear_dirty());
}

#[test]
fn empty_update_changes_nothing() {
    // Queue-drain idempotence: a cycle with nothing queued and nothing
    // rasterized keeps the vertex list and the texture exactly as they are.
    let mut b = TextBrush::new(64, 64);
    let quads = vec![DrawQuad {
        screen: rect(0, 0, 8, 8),
        uv: rect(0, 0, 512, 512),
        bounds: rect(-BIG, -BIG, BIG, BIG),
        color: white(),
    }];
    let copies = vec![CopyBlock { x: 0, y: 0, w: 1, h: 1, data: vec![3u8] }];
    b.update(&copies, LayoutOutcome::Draw(quads));
    assert!(b.read_and_clear_dirty());
    let verts_before: Vec<_> = b.vertices().clone();
    let pixels_before: Vec<u8> = b.texture_data().clone();

    b.update(&Vec::new(), LayoutOutcome::Unchanged);
    assert_eq!(b.vertices().as_slice(), verts_before.as_slice());
    assert_eq!(b.texture_data().as_slice(), pixels_before.as_slice());
    assert!(!b.read_and_clear_dirty());
}

#[test]
fn resize_cycle_then_full_draw() {
    // Atlas overflow: the first cycle only grows the atlas and leaves the
    // vertex list alone; the retry cycle then yields the full vertex set.
    let mut b = TextBrush::new(4, 4);
    let first = vec![DrawQuad {
        screen: rect(0, 0, 4, 4),
        uv: rect(0, 0, 65536, 65536),
        bounds: rect(-BIG, -BIG, BIG, BIG),
        color: white(),
    }];
    b.update(&Vec::new(), LayoutOutcome::Draw(first));
    assert_eq!(b.vertices().len(), 1);
    b.read_and_clear_dirty();

    b.update(&Vec::new(), LayoutOutcome::NeedsResize(8, 8));
    assert_eq!(b.texture_dimensions(), (8, 8));
    // No vertex change in the resize cycle, but the texture is dirty.
    assert_eq!(b.vertices().len(), 1);
    assert!(b.texture_data().iter().all(|&p| p == 0));
    assert!(b.read_and_clear_dirty());

    let retry = vec![
        DrawQuad {
            screen: rect(0, 0, 4, 4),
            uv: rect(0, 0, 32768, 65536),
            bounds: rect(-BIG, -BIG, BIG, BIG),
            color: white(),
        },
        DrawQuad {
            screen: rect(5, 0, 9, 4),
            uv: rect(32768, 0, 65536, 65536),
            bounds: rect(-BIG, -BIG, BIG, BIG),
            color: white(),
        },
        DrawQuad {
            screen: rect(10, 0, 14, 4),
            uv: rect(0, 0, 32768, 32768),
            bounds: rect(-BIG, -BIG, BIG, BIG),
            color: white(),
        },
    ];
    let copies = vec![CopyBlock { x: 0, y: 0, w: 8, h: 8, data: vec![255u8; 64] }];
    b.update(&copies, LayoutOutcome::Draw(retry));
    assert_eq!(b.vertices().len(), 3);
    assert!(b.texture_data().iter().all(|&p| p == 255));
    assert!(b.read_and_clear_dirty());
}

#[test]
fn malformed_quads_are_skipped_silently() {
    let mut b = TextBrush::new(16, 16);
    let quads = vec![
        // min above max: malformed, dropped.
        DrawQuad {
            screen: rect(10, 10, 0, 0),
            uv: rect(0, 0, 64, 64),
            bounds: rect(-BIG, -BIG, BIG, BIG),
            color: white(),
        },
        // Well-formed: kept.
        DrawQuad {
            screen: rect(0, 0, 4, 4),
            uv: rect(0, 0, 64, 64),
            bounds: rect(-BIG, -BIG, BIG, BIG),
            color: white(),
        },
    ];
    b.update(&Vec::new(), LayoutOutcome::Draw(quads));
    assert_eq!(b.vertices().len(), 1);
    assert_eq!(b.vertices()[0].screen, rect(0, 0, 4, 4));
}
