use vstd::prelude::*;

use crate::command::{Command, CommandType, Drawable};
use crate::images::{
    after_create, after_delete, after_update, create_result, flags_of, size_of, type_of, Image,
    ImageError, ImageStore, TextureView,
};
use crate::raster::{
    blend, blend_colors, fill_paint, lemma_fill_paint_once, lemma_fill_sums, fill_sum, opt_range_paint, paint_fills, paint_range, range_ok,
    stencil_inside, stroke_count, stroke_paint, sum_fills,
};
use crate::types::{Color, FillRule, ImageFlags, ImageId, TextureType, Vertex};

verus! {

/// The pixel `(px, py)`, holding `dst`, after `cmd` was executed.
pub open spec fn cmd_pixel(dst: Color, px: int, py: int, verts: Seq<Vertex>, cmd: Command) -> Color {
    let ds = cmd.drawables@;
    let op = cmd.composite_operation;
    match cmd.cmd_type {
        CommandType::ClearRect { x, y, width, height, color } => {
            if x <= px < x + width && y <= py < y + height {
                color
            } else {
                dst
            }
        },
        CommandType::ConvexFill { params } => fill_paint(verts, ds, ds.len(), px, py, dst, params.paint, op),
        CommandType::ConcaveFill { stencil_params, fill_params } => {
            if stencil_inside(cmd.fill_rule, fill_sum(verts, ds, ds.len(), px, py, cmd.fill_rule)) {
                blend(fill_params.paint, dst, op)
            } else {
                dst
            }
        },
        CommandType::Stroke { params } => stroke_paint(verts, ds, ds.len(), px, py, dst, params.paint, op),
        CommandType::StencilStroke { params1, params2 } => {
            if stencil_inside(FillRule::NonZero, stroke_count(verts, ds, ds.len(), px, py)) {
                blend(params2.paint, dst, op)
            } else {
                dst
            }
        },
        CommandType::Triangles { params } => opt_range_paint(verts, cmd.triangles_verts, px, py, dst, params.paint, op),
    }
}

/// A row-major surface `w` pixels wide after `cmd` was executed on it.
pub open spec fn apply_command(buf: Seq<Color>, w: int, verts: Seq<Vertex>, cmd: Command) -> Seq<Color> {
    Seq::new(buf.len(), |i: int| cmd_pixel(buf[i], i % w, i / w, verts, cmd))
}

/// The surface after the first `n` commands were executed in order.
pub open spec fn apply_commands(buf: Seq<Color>, w: int, verts: Seq<Vertex>, cmds: Seq<Command>, n: nat) -> Seq<Color>
    decreases n,
{
    if n == 0 {
        buf
    } else {
        apply_command(apply_commands(buf, w, verts, cmds, (n - 1) as nat), w, verts, cmds[n - 1])
    }
}

/// Every vertex range of the command lies inside a buffer of `len` vertices.
pub open spec fn command_in_bounds(len: int, cmd: Command) -> bool {
    &&& range_ok(len, cmd.triangles_verts)
    &&& forall|j: int|
        0 <= j < cmd.drawables@.len() ==> range_ok(len, #[trigger] cmd.drawables@[j].fill_verts) && range_ok(
            len,
            cmd.drawables@[j].stroke_verts,
        )
}

pub open spec fn transparent() -> Color {
    Color { r: 0, g: 0, b: 0, a: 0 }
}

/// What the stencil pass accumulates at index `j` of a surface `w` pixels wide.
pub open spec fn stencil_sum(verts: Seq<Vertex>, ds: Seq<Drawable>, w: int, stroke: bool, rule: FillRule, j: int) -> int {
    if stroke {
        stroke_count(verts, ds, ds.len(), j % w, j / w)
    } else {
        fill_sum(verts, ds, ds.len(), j % w, j / w, rule)
    }
}

/// Channel `k` of `c`, in the order red, green, blue, alpha.
pub open spec fn channel(c: Color, k: int) -> u8 {
    if k == 0 {
        c.r
    } else if k == 1 {
        c.g
    } else if k == 2 {
        c.b
    } else {
        c.a
    }
}

/// Column and row of index `i` of a row-major surface `w` pixels wide and `h` high.
fn coords(i: usize, w: u32, h: u32) -> (r: (u32, u32))
    requires
        i < w as int * h as int,
    ensures
        r.0 as int == i as int % w as int,
        r.1 as int == i as int / w as int,
{
    assert(w > 0) by (nonlinear_arith)
        requires
            i < w as int * h as int,
    ;
    proof {
        vstd::arithmetic::div_mod::lemma_multiply_divide_lt(i as int, w as int, h as int);
    }
    ((i % w as usize) as u32, (i / w as usize) as u32)
}

/// No pixel of the surface `w` pixels wide is covered by two fill triangles of `ds`.
pub open spec fn fills_disjoint(buf_len: int, w: int, verts: Seq<Vertex>, ds: Seq<Drawable>) -> bool {
    forall|j: int| 0 <= j < buf_len ==> #[trigger] fill_sum(verts, ds, ds.len(), j % w, j / w, FillRule::EvenOdd) <= 1
}

/// A convex fill and a concave fill of the same shape, with the same paint
/// and blend state, under either fill rule, leave a pixel alike wherever the
/// shape's triangles do not overlap there, as the triangles of a fan over a
/// convex polygon never do.
pub proof fn lemma_convex_pixel_matches_concave(
    verts: Seq<Vertex>,
    convex: Command,
    concave: Command,
    dst: Color,
    px: int,
    py: int,
)
    requires
        convex.cmd_type is ConvexFill,
        concave.cmd_type is ConcaveFill,
        convex.cmd_type->ConvexFill_params.paint == concave.cmd_type->ConcaveFill_fill_params.paint,
        convex.drawables@ == concave.drawables@,
        convex.composite_operation == concave.composite_operation,
        fill_sum(verts, convex.drawables@, convex.drawables@.len(), px, py, FillRule::EvenOdd) <= 1,
    ensures
        cmd_pixel(dst, px, py, verts, convex) == cmd_pixel(dst, px, py, verts, concave),
{
    let ds = convex.drawables@;
    lemma_fill_sums(verts, ds, ds.len(), px, py);
    lemma_fill_paint_once(
        verts,
        ds,
        ds.len(),
        px,
        py,
        dst,
        convex.cmd_type->ConvexFill_params.paint,
        convex.composite_operation,
    );
}

/// On a whole surface: a convex fill and a concave fill of the same
/// non-overlapping triangles give the same pixels.
pub proof fn lemma_convex_matches_concave(buf: Seq<Color>, w: int, verts: Seq<Vertex>, convex: Command, concave: Command)
    requires
        convex.cmd_type is ConvexFill,
        concave.cmd_type is ConcaveFill,
        convex.cmd_type->ConvexFill_params.paint == concave.cmd_type->ConcaveFill_fill_params.paint,
        convex.drawables@ == concave.drawables@,
        convex.composite_operation == concave.composite_operation,
        fills_disjoint(buf.len() as int, w, verts, convex.drawables@),
    ensures
        apply_command(buf, w, verts, convex) == apply_command(buf, w, verts, concave),
{
    assert forall|j: int| 0 <= j < buf.len() implies apply_command(buf, w, verts, convex)[j] == apply_command(
        buf,
        w,
        verts,
        concave,
    )[j] by {
        lemma_convex_pixel_matches_concave(verts, convex, concave, buf[j], j % w, j / w);
    }
    assert(apply_command(buf, w, verts, convex) =~= apply_command(buf, w, verts, concave));
}

/// How many fill triangles of `cmd` cover the pixel.
pub open spec fn coverage(verts: Seq<Vertex>, cmd: Command, px: int, py: int) -> int {
    fill_sum(verts, cmd.drawables@, cmd.drawables@.len(), px, py, FillRule::EvenOdd)
}

/// Winding number of the fill triangles of `cmd` at the pixel.
pub open spec fn winding(verts: Seq<Vertex>, cmd: Command, px: int, py: int) -> int {
    fill_sum(verts, cmd.drawables@, cmd.drawables@.len(), px, py, FillRule::NonZero)
}

/// Under a concave fill, a pixel that the shape's triangles cover once is
/// filled under either rule; a pixel that two triangles wound the same way
/// cover (where two lobes of a self-overlapping outline meet) is filled under
/// the nonzero rule and left as it was under the even-odd rule.
pub proof fn lemma_fill_rules_on_overlap(verts: Seq<Vertex>, cmd: Command, dst: Color, px: int, py: int)
    requires
        cmd.cmd_type is ConcaveFill,
    ensures
        coverage(verts, cmd, px, py) == 1 ==> cmd_pixel(dst, px, py, verts, cmd) == blend(
            cmd.cmd_type->ConcaveFill_fill_params.paint,
            dst,
            cmd.composite_operation,
        ),
        coverage(verts, cmd, px, py) == 2 && (winding(verts, cmd, px, py) == 2 || winding(verts, cmd, px, py) == -2)
            ==> cmd_pixel(dst, px, py, verts, cmd) == if cmd.fill_rule == FillRule::NonZero {
            blend(cmd.cmd_type->ConcaveFill_fill_params.paint, dst, cmd.composite_operation)
        } else {
            dst
        },
{
    lemma_fill_sums(verts, cmd.drawables@, cmd.drawables@.len(), px, py);
}

/// A renderer that executes command batches on a surface in memory, with an
/// 8-bit stencil buffer, and keeps its textures in an `ImageStore`. It shades
/// every pass with the solid paint of its parameter block; bound images and
/// alpha masks are not sampled.
pub struct SoftwareRenderer {
    pub width: u32,
    pub height: u32,
    pub pixels: Vec<Color>,
    pub stencil: Vec<u8>,
    pub images: ImageStore,
}

impl SoftwareRenderer {
    /// Buffers match the surface size, the stencil is clear, the textures are well formed.
    pub open spec fn wf(&self) -> bool {
        &&& self.pixels@.len() == self.width as int * self.height as int
        &&& self.stencil@.len() == self.pixels@.len()
        &&& 4 * self.pixels@.len() <= usize::MAX
        &&& self.stencil_clear()
        &&& self.images.wf()
    }

    pub open spec fn stencil_clear(&self) -> bool {
        forall|i: int| 0 <= i < self.stencil@.len() ==> #[trigger] self.stencil@[i] == 0
    }

    /// A renderer with an empty surface and no textures.
    pub fn new() -> (r: SoftwareRenderer)
        ensures
            r.wf(),
            r.width == 0,
            r.height == 0,
            r.images@.len() == 0,
    {
        SoftwareRenderer { width: 0, height: 0, pixels: Vec::new(), stencil: Vec::new(), images: ImageStore::new() }
    }

    /// Resizes the surface to `width` by `height` transparent pixels; textures are kept.
    pub fn set_size(&mut self, width: u32, height: u32)
        requires
            old(self).wf(),
            4 * (width as int * height as int) <= usize::MAX,
        ensures
            final(self).wf(),
            final(self).width == width,
            final(self).height == height,
            final(self).pixels@ == Seq::new((width as int * height as int) as nat, |i: int| transparent()),
            final(self).images@ == old(self).images@,
    {
        let n: usize = width as usize * height as usize;
        let mut pixels: Vec<Color> = Vec::new();
        let mut stencil: Vec<u8> = Vec::new();
        let mut i: usize = 0;
        while i < n
            invariant
                0 <= i <= n,
                pixels@ == Seq::new(i as nat, |j: int| transparent()),
                stencil@ == Seq::new(i as nat, |j: int| 0u8),
            decreases n - i,
        {
            pixels.push(Color { r: 0, g: 0, b: 0, a: 0 });
            stencil.push(0);
            i = i + 1;
            assert(pixels@ =~= Seq::new(i as nat, |j: int| transparent()));
            assert(stencil@ =~= Seq::new(i as nat, |j: int| 0u8));
        }
        self.width = width;
        self.height = height;
        self.pixels = pixels;
        self.stencil = stencil;
    }

    /// One pass of a single-pass command over every pixel.
    fn shade_pass(&mut self, verts: &[Vertex], cmd: &Command)
        requires
            old(self).wf(),
            command_in_bounds(verts@.len() as int, *cmd),
            !(cmd.cmd_type is ConcaveFill),
            !(cmd.cmd_type is StencilStroke),
        ensures
            final(self).wf(),
            final(self).width == old(self).width,
            final(self).height == old(self).height,
            final(self).images == old(self).images,
            final(self).pixels@ == apply_command(old(self).pixels@, old(self).width as int, verts@, *cmd),
    {
        let n = self.pixels.len();
        let ghost old_px = self.pixels@;
        let op = cmd.composite_operation;
        let mut i: usize = 0;
        while i < n
            invariant
                self.wf(),
                0 <= i <= n,
                n == self.pixels@.len(),
                n == old_px.len(),
                command_in_bounds(verts@.len() as int, *cmd),
                !(cmd.cmd_type is ConcaveFill),
                !(cmd.cmd_type is StencilStroke),
                op == cmd.composite_operation,
                self.width == old(self).width,
                self.height == old(self).height,
                self.images == old(self).images,
                old_px == old(self).pixels@,
                forall|j: int| 0 <= j < i ==> self.pixels@[j] == cmd_pixel(old_px[j], j % self.width as int, j / self.width as int, verts@, *cmd),
                forall|j: int| i <= j < n ==> self.pixels@[j] == old_px[j],
            decreases n - i,
        {
            let (px, py) = coords(i, self.width, self.height);
            let dst = self.pixels[i];
            let c = match cmd.cmd_type {
                CommandType::ClearRect { x, y, width, height, color } => {
                    if x <= px && (px as u64) < x as u64 + width as u64 && y <= py && (py as u64) < y as u64
                        + height as u64 {
                        color
                    } else {
                        dst
                    }
                },
                CommandType::ConvexFill { params } => paint_fills(verts, &cmd.drawables, false, px, py, dst, params.paint, op),
                CommandType::Stroke { params } => paint_fills(verts, &cmd.drawables, true, px, py, dst, params.paint, op),
                CommandType::Triangles { params } => paint_range(verts, cmd.triangles_verts, px, py, dst, params.paint, op),
                _ => dst,
            };
            self.pixels.set(i, c);
            i = i + 1;
        }
        assert(self.pixels@ =~= apply_command(old_px, old(self).width as int, verts@, *cmd));
    }

    /// The two stencil passes of a concave fill (`stroke` false) or a
    /// stencil stroke (`stroke` true): first accumulate coverage into the
    /// stencil, then shade where it reads as inside and clear it.
    fn stencil_passes(&mut self, verts: &[Vertex], cmd: &Command, stroke: bool, rule: FillRule, paint: Color)
        requires
            old(self).wf(),
            command_in_bounds(verts@.len() as int, *cmd),
        ensures
            final(self).wf(),
            final(self).width == old(self).width,
            final(self).height == old(self).height,
            final(self).images == old(self).images,
            final(self).pixels@ == Seq::new(
                old(self).pixels@.len(),
                |j: int|
                    {
                        let px = j % old(self).width as int;
                        let py = j / old(self).width as int;
                        let ds = cmd.drawables@;
                        let sum = if stroke {
                            stroke_count(verts@, ds, ds.len(), px, py)
                        } else {
                            fill_sum(verts@, ds, ds.len(), px, py, rule)
                        };
                        if stencil_inside(rule, sum) {
                            blend(paint, old(self).pixels@[j], cmd.composite_operation)
                        } else {
                            old(self).pixels@[j]
                        }
                    },
            ),
    {
        let n = self.pixels.len();
        let ghost old_px = self.pixels@;
        let ghost w = self.width as int;
        let ghost ds = cmd.drawables@;
        let op = cmd.composite_operation;
        let mut i: usize = 0;
        while i < n
            invariant
                0 <= i <= n,
                n == self.pixels@.len(),
                n == self.stencil@.len(),
                self.pixels@ == old_px,
                old_px == old(self).pixels@,
                w == self.width as int,
                ds == cmd.drawables@,
                self.width == old(self).width,
                self.height == old(self).height,
                self.images == old(self).images,
                self.pixels@.len() == self.width as int * self.height as int,
                4 * self.pixels@.len() <= usize::MAX,
                self.images.wf(),
                command_in_bounds(verts@.len() as int, *cmd),
                forall|j: int| 0 <= j < i ==> self.stencil@[j] as int == stencil_sum(verts@, ds, w, stroke, rule, j) % 256,
                forall|j: int| i <= j < n ==> self.stencil@[j] == 0,
            decreases n - i,
        {
            let (px, py) = coords(i, self.width, self.height);
            let s = sum_fills(verts, &cmd.drawables, stroke, px, py, rule);
            assert(s as int == stencil_sum(verts@, ds, w, stroke, rule, i as int) % 256);
            self.stencil.set(i, s);
            i = i + 1;
        }
        let mut i: usize = 0;
        while i < n
            invariant
                0 <= i <= n,
                n == self.pixels@.len(),
                n == self.stencil@.len(),
                n == old_px.len(),
                old_px == old(self).pixels@,
                w == self.width as int,
                self.width == old(self).width,
                self.height == old(self).height,
                self.images == old(self).images,
                self.pixels@.len() == self.width as int * self.height as int,
                4 * self.pixels@.len() <= usize::MAX,
                self.images.wf(),
                op == cmd.composite_operation,
                forall|j: int| i <= j < n ==> self.stencil@[j] as int == stencil_sum(verts@, ds, w, stroke, rule, j) % 256,
                forall|j: int| 0 <= j < i ==> self.stencil@[j] == 0,
                forall|j: int|
                    0 <= j < i ==> self.pixels@[j] == (if stencil_inside(rule, stencil_sum(verts@, ds, w, stroke, rule, j)) {
                        blend(paint, old_px[j], op)
                    } else {
                        old_px[j]
                    }),
                forall|j: int| i <= j < n ==> self.pixels@[j] == old_px[j],
            decreases n - i,
        {
            let s = self.stencil[i];
            proof {
                vstd::arithmetic::div_mod::lemma_mod_mod(stencil_sum(verts@, ds, w, stroke, rule, i as int), 2, 128);
            }
            let inside = match rule {
                FillRule::NonZero => s != 0,
                FillRule::EvenOdd => s % 2 != 0,
            };
            if inside {
                let c = blend_colors(paint, self.pixels[i], op);
                self.pixels.set(i, c);
            }
            self.stencil.set(i, 0);
            i = i + 1;
        }
        assert(self.pixels@ =~= Seq::new(
            old(self).pixels@.len(),
            |j: int|
                {
                    let px = j % old(self).width as int;
                    let py = j / old(self).width as int;
                    let ds = cmd.drawables@;
                    let sum = if stroke {
                        stroke_count(verts@, ds, ds.len(), px, py)
                    } else {
                        fill_sum(verts@, ds, ds.len(), px, py, rule)
                    };
                    if stencil_inside(rule, sum) {
                        blend(paint, old(self).pixels@[j], cmd.composite_operation)
                    } else {
                        old(self).pixels@[j]
                    }
                },
        ));
    }

    /// Executes one command on the surface.
    fn execute(&mut self, verts: &[Vertex], cmd: &Command)
        requires
            old(self).wf(),
            command_in_bounds(verts@.len() as int, *cmd),
        ensures
            final(self).wf(),
            final(self).width == old(self).width,
            final(self).height == old(self).height,
            final(self).images == old(self).images,
            final(self).pixels@ == apply_command(old(self).pixels@, old(self).width as int, verts@, *cmd),
    {
        match cmd.cmd_type {
            CommandType::ConcaveFill { stencil_params, fill_params } => {
                self.stencil_passes(verts, cmd, false, cmd.fill_rule, fill_params.paint);
                assert(self.pixels@ =~= apply_command(old(self).pixels@, old(self).width as int, verts@, *cmd));
            },
            CommandType::StencilStroke { params1, params2 } => {
                self.stencil_passes(verts, cmd, true, FillRule::NonZero, params2.paint);
                assert(self.pixels@ =~= apply_command(old(self).pixels@, old(self).width as int, verts@, *cmd));
            },
            _ => {
                self.shade_pass(verts, cmd);
            },
        }
    }

    /// Executes `commands` in list order over the vertex buffer `verts`.
    /// The stencil buffer is clear before and after.
    pub fn render(&mut self, verts: &[Vertex], commands: &[Command])
        requires
            old(self).wf(),
            forall|k: int| 0 <= k < commands@.len() ==> command_in_bounds(verts@.len() as int, #[trigger] commands@[k]),
        ensures
            final(self).wf(),
            final(self).stencil_clear(),
            final(self).width == old(self).width,
            final(self).height == old(self).height,
            final(self).images == old(self).images,
            final(self).pixels@ == apply_commands(old(self).pixels@, old(self).width as int, verts@, commands@, commands@.len()),
    {
        let mut k: usize = 0;
        while k < commands.len()
            invariant
                self.wf(),
                0 <= k <= commands@.len(),
                forall|k: int| 0 <= k < commands@.len() ==> command_in_bounds(verts@.len() as int, #[trigger] commands@[k]),
                self.width == old(self).width,
                self.height == old(self).height,
                self.images == old(self).images,
                self.pixels@ == apply_commands(old(self).pixels@, old(self).width as int, verts@, commands@, k as nat),
            decreases commands@.len() - k,
        {
            self.execute(verts, &commands[k]);
            k = k + 1;
        }
    }

    /// Uploads `image` as a new texture; see `ImageStore::create_image`.
    pub fn create_image(&mut self, image: &Image, flags: ImageFlags) -> (r: Result<ImageId, ImageError>)
        requires
            old(self).wf(),
        ensures
            final(self).wf(),
            r == create_result(old(self).images@.len(), image),
            final(self).images@ == after_create(old(self).images@, image, flags),
            final(self).pixels == old(self).pixels,
            final(self).width == old(self).width,
            final(self).height == old(self).height,
    {
        self.images.create_image(image, flags)
    }

    /// Writes `image` into texture `id` at `(x, y)`; see `ImageStore::update_image`.
    pub fn update_image(&mut self, id: ImageId, image: &Image, x: u32, y: u32)
        requires
            old(self).wf(),
        ensures
            final(self).wf(),
            final(self).images@ == after_update(old(self).images@, id, image, x, y),
            final(self).pixels == old(self).pixels,
            final(self).width == old(self).width,
            final(self).height == old(self).height,
    {
        self.images.update_image(id, image, x, y)
    }

    /// Releases texture `id`; an id that is not live is left as it is.
    pub fn delete_image(&mut self, id: ImageId)
        requires
            old(self).wf(),
        ensures
            final(self).wf(),
            final(self).images@ == after_delete(old(self).images@, id),
            final(self).pixels == old(self).pixels,
            final(self).width == old(self).width,
            final(self).height == old(self).height,
    {
        self.images.delete_image(id)
    }

    pub fn texture_flags(&self, id: ImageId) -> (r: ImageFlags)
        ensures
            r == flags_of(self.images@, id),
    {
        self.images.texture_flags(id)
    }

    pub fn texture_size(&self, id: ImageId) -> (r: (u32, u32))
        ensures
            r == size_of(self.images@, id),
    {
        self.images.texture_size(id)
    }

    pub fn texture_type(&self, id: ImageId) -> (r: Option<TextureType>)
        ensures
            r == type_of(self.images@, id),
    {
        self.images.texture_type(id)
    }

    /// Captures the surface as an RGBA image, rows top to bottom.
    pub fn screenshot(&self) -> (r: Option<Image>)
        requires
            self.wf(),
        ensures
            r is Some,
            r->Some_0.width == self.width,
            r->Some_0.height == self.height,
            r->Some_0.format == TextureType::Rgba,
            r->Some_0.data@ == Seq::new(4 * self.pixels@.len(), |k: int| channel(self.pixels@[k / 4], k % 4)),
    {
        let n = self.pixels.len();
        let mut data: Vec<u8> = Vec::new();
        let mut i: usize = 0;
        while i < n
            invariant
                0 <= i <= n,
                n == self.pixels@.len(),
                4 * n <= usize::MAX,
                data@ == Seq::new(4 * i as nat, |k: int| channel(self.pixels@[k / 4], k % 4)),
            decreases n - i,
        {
            let c = self.pixels[i];
            data.push(c.r);
            data.push(c.g);
            data.push(c.b);
            data.push(c.a);
            i = i + 1;
            assert(data@ =~= Seq::new(4 * i as nat, |k: int| channel(self.pixels@[k / 4], k % 4)));
        }
        Some(Image { width: self.width, height: self.height, format: TextureType::Rgba, data })
    }

    /// Color of pixel `(x, y)`, or transparent outside the surface.
    pub fn pixel(&self, x: u32, y: u32) -> (c: Color)
        requires
            self.wf(),
        ensures
            x < self.width && y < self.height ==> c == self.pixels@[y as int * self.width as int + x as int],
            !(x < self.width && y < self.height) ==> c == transparent(),
    {
        if x < self.width && y < self.height {
            let (w, h) = (self.width, self.height);
            assert((y as int) * (w as int) + (x as int) < (w as int) * (h as int)) by (nonlinear_arith)
                requires
                    x < w,
                    y < h,
            ;
            self.pixels[y as usize * self.width as usize + x as usize]
        } else {
            Color { r: 0, g: 0, b: 0, a: 0 }
        }
    }
}

} // verus!
