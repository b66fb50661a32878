use vgrender::{
    blend_colors, BlendFactor, Color, Command, CommandType, CompositeOperationState, Drawable,
    FillRule, Params, ShaderType, SoftwareRenderer, TextureType, Vertex,
};

const RED: Color = Color { r: 255, g: 0, b: 0, a: 255 };
const BLUE: Color = Color { r: 0, g: 0, b: 255, a: 255 };
const CLEAR: Color = Color { r: 0, g: 0, b: 0, a: 0 };

fn v(x: i32, y: i32) -> Vertex {
    Vertex::new(x, y, 0, 0)
}

fn surface(w: u32, h: u32) -> SoftwareRenderer {
    let mut r = SoftwareRenderer::new();
    r.set_size(w, h);
    r
}

fn paint(c: Color) -> Params {
    Params::new(ShaderType::FillGradient, c)
}

fn fill_cmd(kind: CommandType, start: usize, count: usize, rule: FillRule) -> Command {
    let mut c = Command::new(kind);
    c.drawables.push(Drawable { fill_verts: Some((start, count)), stroke_verts: None });
    c.fill_rule = rule;
    c
}

fn stroke_cmd(kind: CommandType, start: usize, count: usize) -> Command {
    let mut c = Command::new(kind);
    c.drawables.push(Drawable { fill_verts: None, stroke_verts: Some((start, count)) });
    c
}

fn convex(c: Color) -> CommandType {
    CommandType::ConvexFill { params: paint(c) }
}

fn concave(c: Color) -> CommandType {
    CommandType::ConcaveFill { stencil_params: Params::new(ShaderType::Stencil, CLEAR), fill_params: paint(c) }
}

fn stencil_is_clear(r: &SoftwareRenderer) -> bool {
    r.stencil.iter().all(|&s| s == 0)
}

#[test]
fn clear_then_fill_respects_order() {
    let verts = vec![v(4, 4), v(8, 4), v(4, 8)];
    let cmds = vec![
        Command::new(CommandType::ClearRect { x: 0, y: 0, width: 10, height: 10, color: RED }),
        fill_cmd(convex(BLUE), 0, 3, FillRule::NonZero),
    ];
    let mut r = surface(10, 10);
    r.render(&verts, &cmds);
    assert_eq!(r.pixel(5, 5), BLUE);
    assert_eq!(r.pixel(0, 0), RED);
    assert!(stencil_is_clear(&r));
}

#[test]
fn clear_then_fill_covering_origin() {
    let verts = vec![v(0, 0), v(12, 0), v(0, 12)];
    let cmds = vec![
        Command::new(CommandType::ClearRect { x: 0, y: 0, width: 10, height: 10, color: RED }),
        fill_cmd(convex(BLUE), 0, 3, FillRule::NonZero),
    ];
    let mut r = surface(10, 10);
    r.render(&verts, &cmds);
    assert_eq!(r.pixel(5, 5), BLUE);
    assert_eq!(r.pixel(0, 0), BLUE);
    assert_eq!(r.pixel(9, 9), RED);
}

#[test]
fn clear_rect_bounds() {
    let mut r = surface(4, 4);
    r.render(&[], &[Command::new(CommandType::ClearRect { x: 1, y: 2, width: 2, height: 5, color: RED })]);
    assert_eq!(r.pixel(1, 2), RED);
    assert_eq!(r.pixel(2, 3), RED);
    assert_eq!(r.pixel(0, 2), CLEAR);
    assert_eq!(r.pixel(3, 3), CLEAR);
    assert_eq!(r.pixel(1, 1), CLEAR);
    assert_eq!(r.pixel(7, 7), CLEAR);
}

// Two lobes of one outline, wound the same way, overlapping in the middle.
fn lobes() -> Vec<Vertex> {
    vec![v(0, 0), v(8, 0), v(0, 16), v(2, 2), v(10, 2), v(2, 18)]
}

fn lobe_count(px: i32, py: i32) -> i32 {
    let first = (2 * px + py <= 14) as i32;
    let second = (px >= 2 && py >= 2 && 2 * px + py <= 20) as i32;
    first + second
}

#[test]
fn figure_eight_fill_rules() {
    let verts = lobes();
    let mut nonzero = surface(16, 20);
    nonzero.render(&verts, &[fill_cmd(concave(BLUE), 0, 6, FillRule::NonZero)]);
    let mut evenodd = surface(16, 20);
    evenodd.render(&verts, &[fill_cmd(concave(BLUE), 0, 6, FillRule::EvenOdd)]);
    for py in 0..20 {
        for px in 0..16 {
            let n = lobe_count(px, py);
            let nz = if n >= 1 { BLUE } else { CLEAR };
            let eo = if n == 1 { BLUE } else { CLEAR };
            assert_eq!(nonzero.pixel(px as u32, py as u32), nz, "nonzero at {} {}", px, py);
            assert_eq!(evenodd.pixel(px as u32, py as u32), eo, "even-odd at {} {}", px, py);
        }
    }
    assert_eq!(nonzero.pixel(3, 3), BLUE);
    assert_eq!(evenodd.pixel(3, 3), CLEAR);
    assert!(stencil_is_clear(&nonzero));
    assert!(stencil_is_clear(&evenodd));
}

#[test]
fn opposite_windings_cancel_under_nonzero() {
    let verts = vec![v(0, 0), v(8, 0), v(0, 16), v(2, 2), v(2, 18), v(10, 2)];
    let mut r = surface(16, 20);
    r.render(&verts, &[fill_cmd(concave(BLUE), 0, 6, FillRule::NonZero)]);
    assert_eq!(r.pixel(3, 3), CLEAR);
    assert_eq!(r.pixel(0, 0), BLUE);
    assert_eq!(r.pixel(7, 3), BLUE);
}

#[test]
fn convex_and_concave_fill_agree_on_convex_polygon() {
    // fan over the convex pentagon a b c d e
    let (a, b, c, d, e) = (v(1, 1), v(11, 2), v(13, 8), v(6, 12), v(0, 7));
    let verts = vec![a, b, c, a, c, d, a, d, e];
    let mut first = surface(14, 14);
    first.render(&verts, &[fill_cmd(convex(BLUE), 0, 9, FillRule::NonZero)]);
    for rule in [FillRule::NonZero, FillRule::EvenOdd] {
        let mut second = surface(14, 14);
        second.render(&verts, &[fill_cmd(concave(BLUE), 0, 9, rule)]);
        assert_eq!(first.pixels, second.pixels);
        assert!(stencil_is_clear(&second));
    }
    assert_eq!(first.pixel(6, 6), BLUE);
    assert_eq!(first.pixel(13, 13), CLEAR);
}

#[test]
fn shared_edges_are_drawn_once() {
    // rectangle 10 x 6 split along its diagonal
    let verts = vec![v(0, 0), v(10, 0), v(10, 6), v(0, 0), v(10, 6), v(0, 6)];
    let mut r = surface(12, 8);
    let half = Color { r: 0, g: 0, b: 0, a: 128 };
    r.render(&[], &[Command::new(CommandType::ClearRect { x: 0, y: 0, width: 12, height: 8, color: Color { r: 255, g: 255, b: 255, a: 255 } })]);
    r.render(&verts, &[fill_cmd(convex(half), 0, 6, FillRule::NonZero)]);
    let once = Color { r: 127, g: 127, b: 127, a: 255 };
    let mut painted = 0;
    for py in 0..8 {
        for px in 0..12 {
            let c = r.pixel(px, py);
            if px < 10 && py < 6 {
                assert_eq!(c, once);
                painted += 1;
            } else {
                assert_eq!(c.r, 255);
            }
        }
    }
    assert_eq!(painted, 60);
}

#[test]
fn stencil_stroke_blends_overlap_once() {
    let verts = vec![v(0, 0), v(8, 0), v(0, 16), v(2, 2), v(10, 2), v(2, 18)];
    let white = Color { r: 255, g: 255, b: 255, a: 255 };
    let half = Color { r: 0, g: 0, b: 0, a: 128 };
    let bg = Command::new(CommandType::ClearRect { x: 0, y: 0, width: 16, height: 20, color: white });
    let mut plain = surface(16, 20);
    plain.render(&verts, &[bg.clone(), stroke_cmd(CommandType::Stroke { params: paint(half) }, 0, 6)]);
    let mut stenciled = surface(16, 20);
    stenciled.render(
        &verts,
        &[bg, stroke_cmd(CommandType::StencilStroke { params1: Params::new(ShaderType::Stencil, CLEAR), params2: paint(half) }, 0, 6)],
    );
    assert_eq!(plain.pixel(3, 3).r, 63);
    assert_eq!(stenciled.pixel(3, 3).r, 127);
    assert_eq!(plain.pixel(0, 0).r, 127);
    assert_eq!(stenciled.pixel(0, 0).r, 127);
    assert_eq!(stenciled.pixel(15, 0).r, 255);
    assert!(stencil_is_clear(&stenciled));
}

#[test]
fn triangles_use_their_own_range() {
    let verts = vec![v(0, 0), v(1, 0), v(0, 1), v(0, 0), v(4, 0), v(0, 4)];
    let mut c = Command::new(CommandType::Triangles { params: paint(RED) });
    c.triangles_verts = Some((3, 3));
    let mut r = surface(4, 4);
    r.render(&verts, &[c]);
    assert_eq!(r.pixel(2, 0), RED);
    assert_eq!(r.pixel(3, 3), CLEAR);
}

#[test]
fn degenerate_path_leaves_nothing() {
    let verts = vec![v(0, 0), v(5, 5), v(9, 9)];
    let mut r = surface(10, 10);
    r.render(&verts, &[fill_cmd(concave(BLUE), 0, 3, FillRule::NonZero), fill_cmd(convex(BLUE), 0, 3, FillRule::NonZero)]);
    assert!(r.pixels.iter().all(|&p| p == CLEAR));
    assert!(stencil_is_clear(&r));
}

#[test]
fn blend_source_over_exact() {
    let src = Color { r: 100, g: 50, b: 0, a: 128 };
    let dst = Color { r: 200, g: 200, b: 200, a: 255 };
    let op = CompositeOperationState::default();
    assert_eq!(blend_colors(src, dst, op), Color { r: 199, g: 149, b: 99, a: 255 });
}

#[test]
fn blend_additive_saturates() {
    let src = Color { r: 100, g: 100, b: 100, a: 100 };
    let dst = Color { r: 200, g: 20, b: 200, a: 255 };
    let op = CompositeOperationState::new(BlendFactor::One, BlendFactor::One);
    assert_eq!(blend_colors(src, dst, op), Color { r: 255, g: 120, b: 255, a: 255 });
}

#[test]
fn blend_state_is_per_command() {
    let verts = vec![v(0, 0), v(8, 0), v(0, 8)];
    let mut erase = fill_cmd(convex(BLUE), 0, 3, FillRule::NonZero);
    erase.composite_operation = CompositeOperationState::new(BlendFactor::Zero, BlendFactor::Zero);
    let after = fill_cmd(convex(Color { r: 0, g: 0, b: 0, a: 128 }), 0, 3, FillRule::NonZero);
    let mut r = surface(8, 8);
    r.render(&[], &[Command::new(CommandType::ClearRect { x: 0, y: 0, width: 8, height: 8, color: RED })]);
    r.render(&verts, &[erase]);
    assert_eq!(r.pixel(1, 1), CLEAR);
    r.render(&[], &[Command::new(CommandType::ClearRect { x: 0, y: 0, width: 8, height: 8, color: RED })]);
    r.render(&verts, &[after]);
    assert_eq!(r.pixel(1, 1), Color { r: 127, g: 0, b: 0, a: 255 });
}

#[test]
fn screenshot_is_rgba_rows() {
    let mut r = surface(2, 1);
    r.render(&[], &[Command::new(CommandType::ClearRect { x: 1, y: 0, width: 1, height: 1, color: RED })]);
    let shot = r.screenshot().unwrap();
    assert_eq!((shot.width, shot.height, shot.format), (2, 1, TextureType::Rgba));
    assert_eq!(shot.data, vec![0, 0, 0, 0, 255, 0, 0, 255]);
}

#[test]
fn resize_clears_surface_and_keeps_images() {
    let mut r = surface(3, 3);
    let img = vgrender::Image { width: 1, height: 1, format: TextureType::Alpha, data: vec![1] };
    let id = r.create_image(&img, vgrender::ImageFlags::empty()).unwrap();
    r.render(&[], &[Command::new(CommandType::ClearRect { x: 0, y: 0, width: 3, height: 3, color: RED })]);
    r.set_size(5, 2);
    assert_eq!((r.width, r.height), (5, 2));
    assert_eq!(r.pixel(4, 1), CLEAR);
    assert_eq!(r.pixel(0, 0), CLEAR);
    assert_eq!(r.texture_size(id), (1, 1));
}

#[test]
fn command_defaults() {
    let c = Command::new(CommandType::Stroke { params: paint(RED) });
    assert!(c.drawables.is_empty());
    assert_eq!(c.triangles_verts, None);
    assert_eq!(c.image, None);
    assert_eq!(c.alpha_mask, None);
    assert_eq!(c.fill_rule, FillRule::NonZero);
    assert_eq!(
        c.composite_operation,
        CompositeOperationState::new(BlendFactor::One, BlendFactor::OneMinusSrcAlpha)
    );
}

#[test]
fn shader_selectors() {
    assert_eq!(ShaderType::FillGradient.selector(), 0);
    assert_eq!(ShaderType::FillImage.selector(), 1);
    assert_eq!(ShaderType::Stencil.selector(), 2);
    assert_eq!(ShaderType::default(), ShaderType::FillGradient);
    assert_eq!(TextureType::Rgb.bytes_per_pixel(), 3);
    assert_eq!(TextureType::Alpha.bytes_per_pixel(), 1);
}

#[test]
fn vertex_new_and_set() {
    let mut p = Vertex::new(1, 2, 3, 4);
    assert_eq!((p.x, p.y, p.u, p.v), (1, 2, 3, 4));
    p.set(5, 6, 7, 8);
    assert_eq!(p, Vertex { x: 5, y: 6, u: 7, v: 8 });
}
