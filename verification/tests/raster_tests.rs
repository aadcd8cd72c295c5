use rotor_raster::engine::{Corners, OLCEngine};
use rotor_raster::geometry::UV;
use rotor_raster::pixel::Pixel;
use rotor_raster::scalar::Scalar;
use rotor_raster::sprite::Sprite;
use rotor_raster::util::Vf2d;

fn s(x: f64) -> Scalar {
    Scalar::from_raw((x * 4294967296.0).round() as i64)
}

fn p(x: f64, y: f64) -> Vf2d {
    Vf2d::new(s(x), s(y))
}

fn uv(u: f64, v: f64, w: f64) -> UV {
    UV { u: s(u), v: s(v), w: s(w) }
}

fn flat(w: f64) -> UV {
    uv(0.0, 0.0, w)
}

fn pixel(e: &OLCEngine, x: u32, y: u32) -> Pixel {
    e.draw_target.col_data[(y * e.pixels_w + x) as usize]
}

fn depth(e: &OLCEngine, x: u32, y: u32) -> Scalar {
    e.depth_buffer[(y * e.pixels_w + x) as usize]
}

fn written(e: &OLCEngine) -> Vec<(u32, u32)> {
    let mut out = vec![];
    for y in 0..e.pixels_h {
        for x in 0..e.pixels_w {
            if pixel(e, x, y) != Pixel::blank() {
                out.push((x, y));
            }
        }
    }
    out
}

/// Draws a triangle that covers the pixel (5, 5) with one inverse depth at all corners.
fn draw_at_depth(e: &mut OLCEngine, w: f64, colour: Pixel) {
    e.texture_triangle(p(0.0, 0.0), p(12.0, 0.0), p(0.0, 12.0), flat(w), flat(w), flat(w), None, colour);
}

#[test]
fn new_frame_is_blank_and_far() {
    let e = OLCEngine::new(7, 5);
    assert_eq!(e.pixels_w, 7);
    assert_eq!(e.pixels_h, 5);
    assert_eq!(e.draw_target.col_data.len(), 35);
    assert_eq!(e.depth_buffer.len(), 35);
    assert!(e.draw_target.col_data.iter().all(|c| *c == Pixel::blank()));
    assert!(e.depth_buffer.iter().all(|d| d.raw == 0));
}

#[test]
fn depth_buffer_access() {
    let mut e = OLCEngine::new(4, 3);
    e.update_depth_buffer(5, s(2.5));
    assert_eq!(e.check_depth_buffer(5), s(2.5));
    assert_eq!(e.check_depth_buffer(4), s(0.0));
    e.clear_depth_buffer();
    assert_eq!(e.depth_buffer.len(), 12);
    assert_eq!(e.check_depth_buffer(5), s(0.0));
}

#[test]
fn draw_ignores_pixels_outside() {
    let mut e = OLCEngine::new(4, 3);
    e.draw(1, 2, Pixel::red());
    e.draw(-1, 0, Pixel::green());
    e.draw(0, -1, Pixel::green());
    e.draw(4, 0, Pixel::green());
    e.draw(0, 3, Pixel::green());
    assert_eq!(written(&e), vec![(1, 2)]);
    assert_eq!(pixel(&e, 1, 2), Pixel::red());
    e.clear(Pixel::blue());
    assert!(e.draw_target.col_data.iter().all(|c| *c == Pixel::blue()));
}

#[test]
fn depth_test_keeps_the_nearer_triangle() {
    let mut e = OLCEngine::new(16, 16);
    draw_at_depth(&mut e, 2.0, Pixel::red());
    assert_eq!(pixel(&e, 5, 5), Pixel::red());
    assert_eq!(depth(&e, 5, 5), s(2.0));
    draw_at_depth(&mut e, 5.0, Pixel::blue());
    assert_eq!(pixel(&e, 5, 5), Pixel::blue());
    assert_eq!(depth(&e, 5, 5), s(5.0));
}

#[test]
fn depth_test_does_not_depend_on_the_order() {
    let mut first = OLCEngine::new(16, 16);
    draw_at_depth(&mut first, 2.0, Pixel::red());
    draw_at_depth(&mut first, 5.0, Pixel::blue());
    let mut second = OLCEngine::new(16, 16);
    draw_at_depth(&mut second, 5.0, Pixel::blue());
    draw_at_depth(&mut second, 2.0, Pixel::red());
    assert_eq!(pixel(&first, 5, 5), Pixel::blue());
    assert_eq!(pixel(&second, 5, 5), Pixel::blue());
    assert_eq!(first.draw_target.col_data, second.draw_target.col_data);
    assert_eq!(first.depth_buffer, second.depth_buffer);
}

#[test]
fn depth_test_is_strict() {
    // an equal inverse depth is not nearer: the first triangle stays
    let mut e = OLCEngine::new(16, 16);
    draw_at_depth(&mut e, 2.0, Pixel::red());
    draw_at_depth(&mut e, 2.0, Pixel::blue());
    assert_eq!(pixel(&e, 5, 5), Pixel::red());
    // nothing is nearer than the cleared depth of zero unless it is in front
    let mut f = OLCEngine::new(16, 16);
    draw_at_depth(&mut f, 0.0, Pixel::red());
    draw_at_depth(&mut f, -1.0, Pixel::red());
    assert_eq!(written(&f), vec![]);
}

#[test]
fn texture_triangle_covers_the_scanned_pixels() {
    let mut e = OLCEngine::new(8, 8);
    e.texture_triangle(p(0.0, 0.0), p(4.0, 0.0), p(0.0, 4.0), flat(1.0), flat(1.0), flat(1.0), None, Pixel::red());
    // row y holds the pixels 0 .. 4 - y
    let expected: Vec<(u32, u32)> = vec![
        (0, 0), (1, 0), (2, 0), (3, 0),
        (0, 1), (1, 1), (2, 1),
        (0, 2), (1, 2),
        (0, 3),
    ];
    assert_eq!(written(&e), expected);
    for (x, y) in expected {
        assert_eq!(depth(&e, x, y), s(1.0));
    }
}

#[test]
fn corners_are_sorted_by_height() {
    let c = Corners { pos1: p(3.0, 9.0), pos2: p(1.0, 2.0), pos3: p(5.0, 4.0), uv1: flat(1.0), uv2: flat(2.0), uv3: flat(3.0) };
    let sorted = c.sorted();
    assert_eq!(sorted.pos1, p(1.0, 2.0));
    assert_eq!(sorted.pos2, p(5.0, 4.0));
    assert_eq!(sorted.pos3, p(3.0, 9.0));
    assert_eq!(sorted.uv1, flat(2.0));
    assert_eq!(sorted.uv2, flat(3.0));
    assert_eq!(sorted.uv3, flat(1.0));
    let prepared = c.prepared(4, 6);
    assert_eq!(prepared.pos1, p(1.0, 2.0));
    assert_eq!(prepared.pos2, p(4.0, 4.0));
    assert_eq!(prepared.pos3, p(3.0, 6.0));
}

#[test]
fn the_order_of_the_corners_does_not_matter() {
    let a = (p(1.0, 1.0), flat(1.0));
    let b = (p(9.0, 3.0), flat(2.0));
    let c = (p(4.0, 8.0), flat(3.0));
    let mut frames = vec![];
    for order in [[a, b, c], [a, c, b], [b, a, c], [b, c, a], [c, a, b], [c, b, a]] {
        let mut e = OLCEngine::new(12, 12);
        e.texture_triangle(order[0].0, order[1].0, order[2].0, order[0].1, order[1].1, order[2].1, None, Pixel::white());
        frames.push(e);
    }
    assert!(!written(&frames[0]).is_empty());
    for e in frames.iter() {
        assert_eq!(e.draw_target.col_data, frames[0].draw_target.col_data);
        assert_eq!(e.depth_buffer, frames[0].depth_buffer);
    }
}

#[test]
fn span_and_fragment_of_a_scanline() {
    let c = Corners { pos1: p(0.0, 0.0), pos2: p(8.0, 4.0), pos3: p(0.0, 8.0), uv1: uv(0.0, 0.0, 1.0), uv2: uv(1.0, 0.0, 1.0), uv3: uv(0.0, 1.0, 1.0) };
    // above the middle corner: between the edges from the first corner
    let top = c.span(2);
    assert_eq!(top.start_x, s(0.0));
    assert_eq!(top.end_x, s(4.0));
    assert_eq!(top.start_uv, uv(0.0, 0.25, 1.0));
    assert_eq!(top.end_uv, uv(0.5, 0.0, 1.0));
    // the ends were exchanged, because the long edge lies to the left
    let bottom = c.span(6);
    assert_eq!(bottom.start_x, s(0.0));
    assert_eq!(bottom.end_x, s(4.0));
    assert_eq!(bottom.start_uv, uv(0.0, 0.75, 1.0));
    assert_eq!(bottom.end_uv, uv(0.5, 0.5, 1.0));
    // r = 1 - (4 - 1) / 4 = 0.25
    let f = top.fragment(1);
    assert_eq!(f, uv(0.125, 0.1875, 1.0));
}

#[test]
fn fragments_are_perspective_correct() {
    // u and w are carried divided by depth: the left end at depth 1, the right end at depth 4
    let c = Corners { pos1: p(0.0, 0.0), pos2: p(8.0, 0.0), pos3: p(0.0, 8.0), uv1: uv(0.0, 0.0, 1.0), uv2: uv(0.25, 0.0, 0.25), uv3: uv(0.0, 1.0, 1.0) };
    let span = c.span(0);
    assert_eq!(span.start_x, s(0.0));
    assert_eq!(span.end_x, s(8.0));
    // halfway across the screen: w = 0.625, u / w = 0.125 / 0.625 = 0.2, not 0.5
    let f = span.fragment(4);
    assert_eq!(f.w, s(0.625));
    assert!((f.u.raw - s(0.2).raw).abs() <= 1);
}

#[test]
fn texture_is_sampled_at_the_nearest_texel() {
    let texels = vec![Pixel::red(), Pixel::green(), Pixel::blue(), Pixel::white()];
    let texture = Sprite::new_with_data(2, 2, texels).unwrap();
    assert_eq!(texture.sample(s(0.0), s(0.0)), Pixel::red());
    assert_eq!(texture.sample(s(0.49), s(0.0)), Pixel::red());
    assert_eq!(texture.sample(s(0.5), s(0.0)), Pixel::green());
    assert_eq!(texture.sample(s(0.0), s(0.99)), Pixel::blue());
    assert_eq!(texture.sample(s(1.0), s(1.0)), Pixel::white());
    // coordinates outside [0, 1] are cut off
    assert_eq!(texture.sample(s(-3.0), s(0.0)), Pixel::red());
    assert_eq!(texture.sample(s(7.0), s(7.0)), Pixel::white());
    let mut e = OLCEngine::new(8, 8);
    e.texture_triangle(
        p(0.0, 0.0), p(8.0, 0.0), p(0.0, 8.0),
        uv(0.0, 0.0, 1.0), uv(1.0, 0.0, 1.0), uv(0.0, 1.0, 1.0),
        Some(&texture), Pixel::black(),
    );
    assert_eq!(pixel(&e, 0, 0), Pixel::red());
    assert_eq!(pixel(&e, 6, 0), Pixel::green());
    assert_eq!(pixel(&e, 0, 6), Pixel::blue());
    assert_eq!(pixel(&e, 1, 1), Pixel::red());
}

#[test]
fn flat_top_scanline_stays_on_the_shared_edge() {
    // two corners at the height 2: the scanline at that height is written from 3 up to 9 only
    let mut e = OLCEngine::new(16, 16);
    e.texture_triangle(p(3.0, 2.0), p(9.0, 2.0), p(14.0, 10.0), flat(1.0), flat(1.0), flat(1.0), None, Pixel::red());
    let row: Vec<u32> = written(&e).iter().filter(|q| q.1 == 2).map(|q| q.0).collect();
    assert_eq!(row, vec![3, 4, 5, 6, 7, 8]);
    assert!(written(&e).iter().all(|q| q.1 >= 2 && q.1 < 10 && q.0 >= 3 && q.0 < 14));
}

#[test]
fn flat_bottom_scanline_is_not_written() {
    let mut e = OLCEngine::new(16, 16);
    e.texture_triangle(p(6.0, 1.0), p(2.0, 9.0), p(12.0, 9.0), flat(1.0), flat(1.0), flat(1.0), None, Pixel::red());
    assert!(!written(&e).is_empty());
    assert!(written(&e).iter().all(|q| q.1 >= 1 && q.1 < 9 && q.0 >= 2 && q.0 < 12));
}

#[test]
fn degenerate_triangles_write_nothing() {
    let mut e = OLCEngine::new(8, 8);
    // all corners at one height
    e.texture_triangle(p(1.0, 3.0), p(5.0, 3.0), p(7.0, 3.0), flat(1.0), flat(1.0), flat(1.0), None, Pixel::red());
    // all corners on one vertical line
    e.texture_triangle(p(2.0, 1.0), p(2.0, 4.0), p(2.0, 7.0), flat(1.0), flat(1.0), flat(1.0), None, Pixel::red());
    // a single point
    e.texture_triangle(p(2.0, 2.0), p(2.0, 2.0), p(2.0, 2.0), flat(1.0), flat(1.0), flat(1.0), None, Pixel::red());
    assert_eq!(written(&e), vec![]);
}

#[test]
fn any_viewport_size_is_safe() {
    let corners = [
        (p(-50.0, -50.0), p(300.0, 10.0), p(10.0, 300.0)),
        (p(3.0, 2.0), p(9.0, 2.0), p(14.0, 10.0)),
        (p(1e6, 1e6), p(-1e6, 1e6), p(0.0, -1e6)),
        (p(0.5, 0.5), p(0.75, 0.5), p(0.5, 0.75)),
    ];
    for (w, h) in [(0u32, 0u32), (0, 5), (5, 0), (1, 1), (1, 9), (9, 1), (3, 4), (17, 13)] {
        for (a, b, c) in corners {
            let mut e = OLCEngine::new(w, h);
            e.texture_triangle(a, b, c, flat(1.0), flat(2.0), flat(3.0), None, Pixel::red());
            e.fill_triangle(a, b, c, Pixel::blue());
            assert_eq!(e.draw_target.col_data.len(), (w * h) as usize);
            assert_eq!(e.depth_buffer.len(), (w * h) as usize);
        }
    }
}

#[test]
fn corners_outside_are_clamped_to_the_viewport() {
    let mut e = OLCEngine::new(4, 4);
    e.texture_triangle(p(-10.0, -10.0), p(20.0, -10.0), p(-10.0, 20.0), flat(1.0), flat(1.0), flat(1.0), None, Pixel::red());
    // clamped to (0, 0), (4, 0), (0, 4)
    let expected: Vec<(u32, u32)> = vec![(0, 0), (1, 0), (2, 0), (3, 0), (0, 1), (1, 1), (2, 1), (0, 2), (1, 2), (0, 3)];
    assert_eq!(written(&e), expected);
}

#[test]
fn fill_triangle_ignores_the_depth_buffer() {
    let mut e = OLCEngine::new(8, 8);
    for i in 0..64 {
        e.update_depth_buffer(i, s(100.0));
    }
    e.fill_triangle(p(0.0, 0.0), p(4.0, 0.0), p(0.0, 4.0), Pixel::green());
    let expected: Vec<(u32, u32)> = vec![(0, 0), (1, 0), (2, 0), (3, 0), (0, 1), (1, 1), (2, 1), (0, 2), (1, 2), (0, 3)];
    assert_eq!(written(&e), expected);
    assert!(e.depth_buffer.iter().all(|d| *d == s(100.0)));
    // a textured triangle behind what the depth buffer holds writes nothing
    let mut f = OLCEngine::new(8, 8);
    for i in 0..64 {
        f.update_depth_buffer(i, s(100.0));
    }
    f.texture_triangle(p(0.0, 0.0), p(4.0, 0.0), p(0.0, 4.0), flat(1.0), flat(1.0), flat(1.0), None, Pixel::green());
    assert_eq!(written(&f), vec![]);
}

#[test]
fn sprite_pixels() {
    let mut sprite = Sprite::new(3, 2);
    assert_eq!(sprite.col_data.len(), 6);
    assert!(sprite.set_pixel(2, 1, Pixel::red()));
    assert!(!sprite.set_pixel(3, 1, Pixel::red()));
    assert!(!sprite.set_pixel(0, 2, Pixel::red()));
    assert_eq!(sprite.get_pixel(2, 1), Pixel::red());
    assert_eq!(sprite.get_pixel(0, 0), Pixel::blank());
    // outside, a read gives opaque black
    assert_eq!(sprite.get_pixel(3, 0), Pixel::rgb(0, 0, 0));
    sprite.mode_sample = rotor_raster::sprite::SpriteMode::Periodic;
    assert_eq!(sprite.get_pixel(5, 3), Pixel::red());
    sprite.clear(Pixel::green());
    assert!(sprite.col_data.iter().all(|c| *c == Pixel::green()));
    assert!(Sprite::new_with_data(2, 2, vec![Pixel::red(); 3]).is_none());
    assert_eq!(Sprite::new(0, 0).sample(s(0.5), s(0.5)), Pixel::rgb(0, 0, 0));
}

#[test]
fn pixel_colours_and_lighting() {
    assert_eq!(Pixel::rgb(1, 2, 3), Pixel::rgba(1, 2, 3, 255));
    assert_eq!(Pixel::red(), Pixel::rgb(255, 0, 0));
    assert_eq!(Pixel::green(), Pixel::rgb(0, 255, 0));
    assert_eq!(Pixel::blue(), Pixel::rgb(0, 0, 255));
    assert_eq!(Pixel::white(), Pixel::rgb(255, 255, 255));
    assert_eq!(Pixel::black(), Pixel::rgb(0, 0, 0));
    assert_eq!(Pixel::blank(), Pixel::rgba(0, 0, 0, 0));
    let c = Pixel::rgba(200, 100, 50, 77);
    assert_eq!(c.scale(s(0.5)), Pixel::rgba(100, 50, 25, 77));
    assert_eq!(c.scale(s(1.0)), c);
    // channels are cut off at 255 and at zero
    assert_eq!(c.scale(s(2.0)), Pixel::rgba(255, 200, 100, 77));
    assert_eq!(c.scale(s(-1.0)), Pixel::rgba(0, 0, 0, 77));
    assert_eq!(c.scale(s(0.01)), Pixel::rgba(2, 1, 0, 77));
}

#[test]
fn vf2d_clamp() {
    assert_eq!(p(-1.0, 9.0).clamp(s(4.0), s(6.0)), p(0.0, 6.0));
    assert_eq!(p(5.0, -2.0).clamp(s(4.0), s(6.0)), p(4.0, 0.0));
    assert_eq!(p(1.5, 2.5).clamp(s(4.0), s(6.0)), p(1.5, 2.5));
}

#[test]
fn pixel_channels() {
    let c = Pixel::rgba(1, 2, 3, 4);
    assert_eq!((c.r(), c.g(), c.b(), c.a()), (1, 2, 3, 4));
}
