//! The rasterizer frontend: buffers primitives into an opaque and a
//! semi-transparent pass and hands batches of them to the backend.
use vstd::prelude::*;

use super::load_buffer::LoadBuffer;
use super::model::{
    counts_ok, drawing_area_scissor, fill_rect_vertices, flushed, flushed_then,
    lemma_empty_wf, lemma_flushed_wf, lemma_push_primitive_wf, lemma_vertex_counts,
    opaque_draws, opaque_total, push_opaque_spec, push_primitive_spec, push_semi_spec,
    scale_coords_spec, semi_draws, semi_total, stamp, with_order, wf, RendererView, Submitted,
    VERTEX_BUFFER_LEN,
};
use super::vertex::{
    Batch, BlendedRange, CommandVertex, DisplayArea, DrawRange, GpuCommand, GpuCommandView,
    ImageArea, OpaqueCommand, PrimitiveType, Scissor, SemiTransparentCommand,
};
use super::{
    BlendMode, DisplayDepth, SemiTransparencyMode, TextureDepth, VRAM_HEIGHT, VRAM_WIDTH_PIXELS,
};

verus! {

pub struct Renderer {
    /// Framebuffer horizontal resolution (native: 1024)
    fb_out_x_res: u16,
    /// Framebuffer vertical resolution (native: 512)
    fb_out_y_res: u16,
    /// Pending opaque vertices
    opaque_vertex_buffer: Vec<CommandVertex>,
    /// Pending semi-transparent vertices
    semi_transparent_vertex_buffer: Vec<CommandVertex>,
    /// Drawing order of the primitives
    order: u32,
    /// List of queued opaque draw commands. Each command contains a
    /// primitive type (triangle or line) and a number of vertices to
    /// be drawn from the vertex buffer.
    opaque_command_queue: Vec<OpaqueCommand>,
    /// Current draw command. Will be pushed onto the queue if a new
    /// command needs to be started.
    current_opaque_command: OpaqueCommand,
    /// List of queued semi-transparent draw commands
    semi_transparent_command_queue: Vec<SemiTransparentCommand>,
    /// Current semi-transparent draw command
    current_semi_transparent_command: SemiTransparentCommand,
    /// Current draw offset
    offset: (i16, i16),
    /// Current drawing area
    scissor: Scissor,
    /// Work for the backend, oldest first
    commands: Vec<GpuCommand>,
    /// Primitives submitted since the last flush
    submitted: Ghost<Seq<Submitted>>,
}

impl View for Renderer {
    type V = RendererView;

    closed spec fn view(&self) -> RendererView {
        RendererView {
            x_res: self.fb_out_x_res,
            y_res: self.fb_out_y_res,
            submitted: self.submitted@,
            opaque_vertices: self.opaque_vertex_buffer@,
            semi_transparent_vertices: self.semi_transparent_vertex_buffer@,
            order: self.order,
            opaque_queue: self.opaque_command_queue@,
            current_opaque: self.current_opaque_command,
            semi_queue: self.semi_transparent_command_queue@,
            current_semi: self.current_semi_transparent_command,
            offset: self.offset,
            scissor: self.scissor,
            output: self.commands@.map_values(|c: GpuCommand| c@),
        }
    }
}

proof fn lemma_total_prefix(q: Seq<OpaqueCommand>, i: int)
    requires
        0 <= i < q.len(),
    ensures
        opaque_total(q.subrange(0, i + 1)) == opaque_total(q.subrange(0, i)) + q[i].len,
        opaque_total(q.subrange(0, i + 1)) <= opaque_total(q),
    decreases q.len(),
{
    assert(q.subrange(0, i + 1).drop_last() =~= q.subrange(0, i));
    if i + 1 < q.len() {
        lemma_total_prefix(q.drop_last(), i);
        assert(q.drop_last().subrange(0, i + 1) =~= q.subrange(0, i + 1));
    } else {
        assert(q.subrange(0, i + 1) =~= q);
    }
}

proof fn lemma_semi_total_prefix(q: Seq<SemiTransparentCommand>, i: int)
    requires
        0 <= i < q.len(),
    ensures
        semi_total(q.subrange(0, i + 1)) == semi_total(q.subrange(0, i)) + q[i].len,
        semi_total(q.subrange(0, i + 1)) <= semi_total(q),
    decreases q.len(),
{
    assert(q.subrange(0, i + 1).drop_last() =~= q.subrange(0, i));
    if i + 1 < q.len() {
        lemma_semi_total_prefix(q.drop_last(), i);
        assert(q.drop_last().subrange(0, i + 1) =~= q.subrange(0, i + 1));
    } else {
        assert(q.subrange(0, i + 1) =~= q);
    }
}

/// Untextured, opaque vertex of color `color`
fn monochrome_vertex(x: i16, y: i16, color: [u8; 3]) -> (r: CommandVertex)
    ensures
        r == super::model::monochrome_vertex(x, y, color),
{
    CommandVertex::new(
        [x, y],
        color,
        BlendMode::Untextured,
        [0, 0],
        [0, 0],
        [0, 0],
        TextureDepth::T4Bpp,
        false,
        false,
    )
}

impl Renderer {
    /// A renderer at the native resolution of the VRAM, with nothing
    /// buffered, the drawing area covering the whole VRAM and no offset
    pub fn new() -> (r: Renderer)
        ensures
            wf(r@),
            r@.x_res == VRAM_WIDTH_PIXELS,
            r@.y_res == VRAM_HEIGHT,
            r@.submitted.len() == 0,
            r@.opaque_queue.len() == 0,
            r@.current_opaque == (OpaqueCommand {
                primitive_type: PrimitiveType::TrianglesList,
                len: 0,
            }),
            r@.semi_queue.len() == 0,
            r@.current_semi == (SemiTransparentCommand {
                primitive_type: PrimitiveType::TrianglesList,
                mode: SemiTransparencyMode::Average,
                len: 0,
            }),
            r@.order == 0,
            r@.opaque_vertices.len() == 0,
            r@.semi_transparent_vertices.len() == 0,
            r@.offset == (0i16, 0i16),
            r@.scissor == (Scissor {
                left: 0,
                bottom: 0,
                width: VRAM_WIDTH_PIXELS as u32,
                height: VRAM_HEIGHT as u32,
            }),
            r@.output.len() == 0,
    {
        let r = Renderer {
            fb_out_x_res: VRAM_WIDTH_PIXELS,
            fb_out_y_res: VRAM_HEIGHT,
            opaque_vertex_buffer: Vec::new(),
            semi_transparent_vertex_buffer: Vec::new(),
            order: 0,
            opaque_command_queue: Vec::new(),
            current_opaque_command: OpaqueCommand {
                primitive_type: PrimitiveType::TrianglesList,
                len: 0,
            },
            semi_transparent_command_queue: Vec::new(),
            current_semi_transparent_command: SemiTransparentCommand {
                primitive_type: PrimitiveType::TrianglesList,
                mode: SemiTransparencyMode::Average,
                len: 0,
            },
            offset: (0, 0),
            // Default to full screen
            scissor: Scissor {
                left: 0,
                bottom: 0,
                width: VRAM_WIDTH_PIXELS as u32,
                height: VRAM_HEIGHT as u32,
            },
            commands: Vec::new(),
            submitted: Ghost(Seq::empty()),
        };
        assert(r@.output =~= Seq::<GpuCommandView>::empty());
        proof {
            lemma_empty_wf(r@);
        }
        r
    }

    /// Draw calls of the opaque pass for what is buffered: the runs,
    /// the current one included, from the most recent back. The depth
    /// buffer will take care of overlapping geometry, and drawing the
    /// frontmost first reduces overdraw.
    pub fn draw_opaque(&self) -> (r: Vec<DrawRange>)
        requires
            counts_ok(self@),
        ensures
            r@ == opaque_draws(super::model::sealed_opaque(self@)),
    {
        let queue = &self.opaque_command_queue;
        let cur = self.current_opaque_command;
        let ghost sealed = super::model::sealed_opaque(self@);
        // Start of each run in the vertex buffer
        let mut starts: Vec<u32> = Vec::new();
        let mut pos: u32 = 0;
        let mut i: usize = 0;
        assert(queue@.subrange(0, 0) =~= Seq::<OpaqueCommand>::empty());
        while i < queue.len()
            invariant
                0 <= i <= queue.len(),
                opaque_total(queue@) <= VERTEX_BUFFER_LEN,
                pos == opaque_total(queue@.subrange(0, i as int)),
                starts.len() == i,
                forall|k: int|
                    0 <= k < i ==> #[trigger] starts@[k] == opaque_total(queue@.subrange(0, k)),
            decreases queue.len() - i,
        {
            proof {
                lemma_total_prefix(queue@, i as int);
            }
            starts.push(pos);
            pos = pos + queue[i].len;
            i = i + 1;
        }
        assert(queue@.subrange(0, queue.len() as int) =~= queue@);
        assert(sealed.subrange(0, queue.len() as int) =~= queue@);
        let mut draws: Vec<DrawRange> = Vec::new();
        let off: usize = if cur.len > 0 {
            // The current run is the most recent one
            draws.push(DrawRange { primitive_type: cur.primitive_type, start: pos, len: cur.len });
            1
        } else {
            0
        };
        let n = queue.len();
        let mut j: usize = 0;
        while j < n
            invariant
                0 <= j <= n,
                n == queue.len(),
                sealed.len() == n + off,
                sealed.subrange(0, n as int) == queue@,
                forall|k: int| 0 <= k < n ==> #[trigger] sealed[k] == queue@[k],
                starts.len() == n,
                forall|k: int|
                    0 <= k < n ==> #[trigger] starts@[k] == opaque_total(queue@.subrange(0, k)),
                draws.len() == j + off,
                forall|k: int| 0 <= k < j + off ==> #[trigger] draws@[k] == opaque_draws(sealed)[k],
            decreases n - j,
        {
            let i = n - 1 - j;
            let c = queue[i];
            assert(sealed.subrange(0, i as int) =~= queue@.subrange(0, i as int));
            draws.push(DrawRange { primitive_type: c.primitive_type, start: starts[i], len: c.len });
            j = j + 1;
        }
        assert(draws@ =~= opaque_draws(sealed));
        draws
    }

    /// Draw calls of the semi-transparent pass for what is buffered:
    /// the runs, the current one included, in submission order
    pub fn draw_semi_transparent(&self) -> (r: Vec<BlendedRange>)
        requires
            counts_ok(self@),
        ensures
            r@ == semi_draws(super::model::sealed_semi(self@)),
    {
        let queue = &self.semi_transparent_command_queue;
        let cur = self.current_semi_transparent_command;
        let ghost sealed = super::model::sealed_semi(self@);
        let mut draws: Vec<BlendedRange> = Vec::new();
        let mut pos: u32 = 0;
        let mut i: usize = 0;
        assert(queue@.subrange(0, 0) =~= Seq::<SemiTransparentCommand>::empty());
        while i < queue.len()
            invariant
                0 <= i <= queue.len(),
                semi_total(queue@) <= VERTEX_BUFFER_LEN,
                forall|k: int| 0 <= k < queue.len() ==> #[trigger] sealed[k] == queue@[k],
                sealed.len() >= queue.len(),
                pos == semi_total(queue@.subrange(0, i as int)),
                draws.len() == i,
                forall|k: int| 0 <= k < i ==> #[trigger] draws@[k] == semi_draws(sealed)[k],
            decreases queue.len() - i,
        {
            proof {
                lemma_semi_total_prefix(queue@, i as int);
            }
            let c = queue[i];
            assert(sealed.subrange(0, i as int) =~= queue@.subrange(0, i as int));
            draws.push(
                BlendedRange { primitive_type: c.primitive_type, mode: c.mode, start: pos, len: c.len },
            );
            pos = pos + c.len;
            i = i + 1;
        }
        assert(queue@.subrange(0, queue.len() as int) =~= queue@);
        if cur.len > 0 {
            assert(sealed.subrange(0, queue.len() as int) =~= queue@);
            draws.push(
                BlendedRange {
                    primitive_type: cur.primitive_type,
                    mode: cur.mode,
                    start: pos,
                    len: cur.len,
                },
            );
        }
        assert(draws@ =~= semi_draws(sealed));
        draws
    }

    /// Hand the buffered commands to the backend as one batch and
    /// reset the buffers
    pub fn draw(&mut self)
        requires
            counts_ok(old(self)@),
        ensures
            final(self)@ == flushed(old(self)@),
            wf(final(self)@),
    {
        let ghost s = self@;
        let opaque_draws = self.draw_opaque();
        let semi_transparent_draws = self.draw_semi_transparent();
        let mut opaque_vertices: Vec<CommandVertex> = Vec::new();
        std::mem::swap(&mut opaque_vertices, &mut self.opaque_vertex_buffer);
        let mut semi_transparent_vertices: Vec<CommandVertex> = Vec::new();
        std::mem::swap(&mut semi_transparent_vertices, &mut self.semi_transparent_vertex_buffer);
        let batch = Batch {
            opaque_vertices: opaque_vertices,
            opaque_draws: opaque_draws,
            semi_transparent_vertices: semi_transparent_vertices,
            semi_transparent_draws: semi_transparent_draws,
            max_order: self.order,
            offset: self.offset,
            scissor: self.scissor,
        };
        self.commands.push(GpuCommand::Draw(batch));
        // Reset the buffers
        self.opaque_command_queue.clear();
        self.current_opaque_command = OpaqueCommand {
            primitive_type: PrimitiveType::TrianglesList,
            len: 0,
        };
        self.semi_transparent_command_queue.clear();
        self.current_semi_transparent_command = SemiTransparentCommand {
            primitive_type: PrimitiveType::TrianglesList,
            mode: SemiTransparencyMode::Average,
            len: 0,
        };
        self.order = 0;
        self.submitted = Ghost(Seq::empty());
        assert(self@.output =~= s.output.push(GpuCommandView::Draw(super::model::batch_of(s))));
        assert(self@ == flushed(s));
        proof {
            lemma_flushed_wf(s);
        }
    }

    /// Add a primitive to the buffers of the opaque pass; return its
    /// vertices with their draw order set
    fn push_primitive(
        &mut self,
        primitive_type: PrimitiveType,
        vertices: &[CommandVertex],
        mode: Ghost<Option<SemiTransparencyMode>>,
    ) -> (stamped: Vec<CommandVertex>)
        requires
            wf(old(self)@),
            0 < vertices@.len() <= 3,
        ensures
            final(self)@ == push_opaque_spec(old(self)@, primitive_type, vertices@, mode@),
            stamped@ == final(self)@.submitted.last().vertices,
    {
        let primitive_vertices = vertices.len() as u32;
        // Make sure we have enough room left to queue the vertex
        if self.opaque_vertex_buffer.len() as u32 + primitive_vertices > VERTEX_BUFFER_LEN {
            // The vertex attribute buffers are full, force an early
            // draw
            self.draw();
        }
        let ghost s1 = self@;
        proof {
            lemma_vertex_counts(s1.submitted);
        }
        let mut buffer: Vec<CommandVertex> = Vec::new();
        std::mem::swap(&mut buffer, &mut self.opaque_vertex_buffer);
        let order = self.order;
        let mut stamped: Vec<CommandVertex> = Vec::new();
        let mut i: usize = 0;
        while i < vertices.len()
            invariant
                0 <= i <= vertices.len(),
                buffer@ == s1.opaque_vertices + stamped@,
                stamped@ == stamp(vertices@.subrange(0, i as int), order),
            decreases vertices.len() - i,
        {
            let v = vertices[i];
            let sv = CommandVertex { order: order, ..v };
            assert(stamp(vertices@.subrange(0, i + 1), order) =~= stamp(
                vertices@.subrange(0, i as int),
                order,
            ).push(with_order(vertices@[i as int], order)));
            stamped.push(sv);
            buffer.push(sv);
            i = i + 1;
        }
        assert(vertices@.subrange(0, vertices.len() as int) =~= vertices@);
        std::mem::swap(&mut buffer, &mut self.opaque_vertex_buffer);
        self.order = self.order + 1;
        let cur = self.current_opaque_command;
        let mut cmd_len = cur.len;
        if primitive_type != cur.primitive_type {
            // We have to change the primitive type. Push the current
            // command onto the queue and start a new one.
            if cur.len > 0 {
                self.opaque_command_queue.push(cur);
            }
            cmd_len = 0;
        }
        self.current_opaque_command = OpaqueCommand {
            primitive_type: primitive_type,
            len: cmd_len + primitive_vertices,
        };
        self.submitted = Ghost(
            self.submitted@.push(
                Submitted { primitive_type: primitive_type, vertices: stamped@, mode: mode@ },
            ),
        );
        assert(self@ == push_opaque_spec(s1, primitive_type, vertices@, mode@));
        stamped
    }

    /// Add a primitive to the buffers of the semi-transparent pass
    fn push_semi_transparent_primitive(
        &mut self,
        primitive_type: PrimitiveType,
        vertices: &[CommandVertex],
        mode: SemiTransparencyMode,
    )
        requires
            counts_ok(old(self)@),
            0 < vertices@.len() <= 3,
        ensures
            final(self)@ == push_semi_spec(old(self)@, primitive_type, vertices@, mode),
    {
        let primitive_vertices = vertices.len() as u32;
        if self.semi_transparent_vertex_buffer.len() as u32 + primitive_vertices
            > VERTEX_BUFFER_LEN {
            // The vertex attribute buffers are full, force an early
            // draw
            self.draw();
        }
        let ghost s1 = self@;
        let mut buffer: Vec<CommandVertex> = Vec::new();
        std::mem::swap(&mut buffer, &mut self.semi_transparent_vertex_buffer);
        let mut i: usize = 0;
        while i < vertices.len()
            invariant
                0 <= i <= vertices.len(),
                buffer@ == s1.semi_transparent_vertices + vertices@.subrange(0, i as int),
            decreases vertices.len() - i,
        {
            assert(vertices@.subrange(0, i + 1) =~= vertices@.subrange(0, i as int).push(
                vertices@[i as int],
            ));
            buffer.push(vertices[i]);
            i = i + 1;
        }
        assert(vertices@.subrange(0, vertices.len() as int) =~= vertices@);
        std::mem::swap(&mut buffer, &mut self.semi_transparent_vertex_buffer);
        let cur = self.current_semi_transparent_command;
        let mut cmd_len = cur.len;
        if primitive_type != cur.primitive_type || mode != cur.mode {
            // We have to change the primitive type or
            // semi-transparency mode. Push the current command onto
            // the queue and start a new one.
            if cur.len > 0 {
                self.semi_transparent_command_queue.push(cur);
            }
            cmd_len = 0;
        }
        self.current_semi_transparent_command = SemiTransparentCommand {
            primitive_type: primitive_type,
            mode: mode,
            len: cmd_len + primitive_vertices,
        };
        assert(self@ == push_semi_spec(s1, primitive_type, vertices@, mode));
    }

    /// Add a primitive to both passes as needed
    fn push(
        &mut self,
        primitive_type: PrimitiveType,
        vertices: &[CommandVertex],
        semi_transparency_mode: SemiTransparencyMode,
    )
        requires
            wf(old(self)@),
            0 < vertices@.len() <= 3,
        ensures
            final(self)@ == push_primitive_spec(
                old(self)@,
                primitive_type,
                vertices@,
                semi_transparency_mode,
            ),
            wf(final(self)@),
    {
        let ghost s = self@;
        let semi = vertices[0].semi_transparent != 0;
        let stamped = self.push_primitive(
            primitive_type,
            vertices,
            Ghost(
                if semi {
                    Some(semi_transparency_mode)
                } else {
                    None
                },
            ),
        );
        proof {
            lemma_push_primitive_wf(s, primitive_type, vertices@, semi_transparency_mode);
        }
        if semi {
            self.push_semi_transparent_primitive(
                primitive_type,
                stamped.as_slice(),
                semi_transparency_mode,
            );
        }
    }

    /// Add a triangle to the draw buffer
    pub fn push_triangle(
        &mut self,
        vertices: [CommandVertex; 3],
        semi_transparency_mode: SemiTransparencyMode,
    )
        requires
            wf(old(self)@),
        ensures
            final(self)@ == push_primitive_spec(
                old(self)@,
                PrimitiveType::TrianglesList,
                vertices@,
                semi_transparency_mode,
            ),
            wf(final(self)@),
    {
        self.push(PrimitiveType::TrianglesList, vertices.as_slice(), semi_transparency_mode);
    }

    /// Add a quad to the draw buffer, as the triangles (0, 1, 2) and
    /// (1, 2, 3)
    pub fn push_quad(&mut self, vertices: [CommandVertex; 4], semi_transparency_mode: SemiTransparencyMode)
        requires
            wf(old(self)@),
        ensures
            final(self)@ == push_primitive_spec(
                push_primitive_spec(
                    old(self)@,
                    PrimitiveType::TrianglesList,
                    seq![vertices[0], vertices[1], vertices[2]],
                    semi_transparency_mode,
                ),
                PrimitiveType::TrianglesList,
                seq![vertices[1], vertices[2], vertices[3]],
                semi_transparency_mode,
            ),
            wf(final(self)@),
    {
        let first = [vertices[0], vertices[1], vertices[2]];
        assert(first@ =~= seq![vertices[0], vertices[1], vertices[2]]);
        self.push_triangle(first, semi_transparency_mode);
        let second = [vertices[1], vertices[2], vertices[3]];
        assert(second@ =~= seq![vertices[1], vertices[2], vertices[3]]);
        self.push_triangle(second, semi_transparency_mode);
    }

    /// Add a line to the draw buffer
    pub fn push_line(&mut self, vertices: [CommandVertex; 2], semi_transparency_mode: SemiTransparencyMode)
        requires
            wf(old(self)@),
        ensures
            final(self)@ == push_primitive_spec(
                old(self)@,
                PrimitiveType::LinesList,
                vertices@,
                semi_transparency_mode,
            ),
            wf(final(self)@),
    {
        self.push(PrimitiveType::LinesList, vertices.as_slice(), semi_transparency_mode);
    }

    /// Fill a rectangle in memory with the given color. This ignores
    /// the mask bit, the drawing area and the drawing offset.
    pub fn fill_rect(&mut self, color: [u8; 3], top: u16, left: u16, bottom: u16, right: u16)
        requires
            wf(old(self)@),
        ensures
            final(self)@ == flushed_then(
                old(self)@,
                GpuCommandView::FillRect(fill_rect_vertices(color, top, left, bottom, right)),
            ),
            wf(final(self)@),
    {
        // Flush any pending draw commands
        self.draw();
        let ghost f = self@;
        let top = top as i16;
        let left = left as i16;
        // Fill rect is inclusive
        let bottom = bottom as i16;
        let right = right as i16;
        let vertices = [
            monochrome_vertex(left, top, color),
            monochrome_vertex(right, top, color),
            monochrome_vertex(left, bottom, color),
            monochrome_vertex(right, bottom, color),
        ];
        self.commands.push(GpuCommand::FillRect(vertices));
        assert(self@.output =~= f.output.push(GpuCommandView::FillRect(vertices)));
    }

    /// Set the value of the uniform draw offset
    pub fn set_draw_offset(&mut self, x: i16, y: i16)
        requires
            wf(old(self)@),
        ensures
            final(self)@ == (RendererView { offset: (x, y), ..flushed(old(self)@) }),
            wf(final(self)@),
    {
        // Force draw for the primitives with the current offset
        self.draw();
        self.offset = (x, y);
    }

    /// Set the drawing area. Coordinates are offsets in the
    /// PlayStation VRAM
    pub fn set_drawing_area(&mut self, left: u16, top: u16, right: u16, bottom: u16)
        requires
            wf(old(self)@),
        ensures
            final(self)@ == (RendererView {
                scissor: drawing_area_scissor(
                    old(self)@.x_res,
                    old(self)@.y_res,
                    left,
                    top,
                    right,
                    bottom,
                ),
                ..flushed(old(self)@)
            }),
            wf(final(self)@),
    {
        // Render any pending primitives
        self.draw();
        let (left, top) = self.scale_coords(left, top);
        let (right, bottom) = self.scale_coords(right, bottom);
        if left > right || bottom > top {
            // This happens often because the drawing area is set in
            // two successive calls to set the top_left and then
            // bottom_right so the intermediate value is often wrong.
            self.scissor = Scissor { left: 0, bottom: 0, width: 0, height: 0 };
        } else {
            // Width and height are inclusive
            self.scissor = Scissor {
                left: left,
                bottom: bottom,
                width: right - left + 1,
                height: top - bottom + 1,
            };
        }
    }

    /// Convert coordinates in the PlayStation framebuffer to
    /// coordinates in our potentially scaled framebuffer. Coordinates
    /// are rounded to the nearest pixel.
    pub fn scale_coords(&self, x: u16, y: u16) -> (r: (u32, u32))
        ensures
            r == scale_coords_spec(self@.x_res, self@.y_res, x, y),
            r.0 <= 0x40_0000,
            r.1 <= 0x1_0000,
    {
        // The host has (0, 0) at the bottom left, the PSX at the top
        // left so we need to complement the y coordinate
        let y0 = y;
        let y = !y & 0x1ff;
        assert(!y0 & 0x1ffu16 <= 0x1ff) by (bit_vector);
        let xr = self.fb_out_x_res as u32;
        let yr = self.fb_out_y_res as u32;
        assert((x as u32) * xr <= 0xffff * 0xffff) by (nonlinear_arith)
            requires
                xr <= 0xffff,
        ;
        assert((y as u32) * yr <= 0x1ff * 0xffff) by (nonlinear_arith)
            requires
                yr <= 0xffff,
                y <= 0x1ff,
        ;
        let x = (x as u32 * xr + 512) / 1024;
        let y = (y as u32 * yr + 256) / 512;
        (x, y)
    }

    /// Hand the buffered commands to the backend, then show the region
    /// of VRAM from (`fb_x`, `fb_y`) of `width` by `height` on screen
    pub fn display(&mut self, fb_x: u16, fb_y: u16, width: u16, height: u16, depth: DisplayDepth)
        requires
            wf(old(self)@),
            fb_x + width <= 0xffff,
            fb_y + height <= 0xffff,
        ensures
            final(self)@ == flushed_then(
                old(self)@,
                GpuCommandView::Display(
                    DisplayArea {
                        x_start: fb_x,
                        x_end: (fb_x + width) as u16,
                        y_start: (fb_y + height) as u16,
                        y_end: fb_y,
                        depth: depth,
                    },
                ),
            ),
            wf(final(self)@),
    {
        // Draw any pending commands
        self.draw();
        let ghost f = self@;
        // The host puts the Y axis in the opposite direction compared
        // to the PlayStation GPU coordinate system so we must start at
        // the bottom here.
        let area = DisplayArea {
            x_start: fb_x,
            x_end: fb_x + width,
            y_start: fb_y + height,
            y_end: fb_y,
            depth: depth,
        };
        self.commands.push(GpuCommand::Display(area));
        assert(self@.output =~= f.output.push(GpuCommandView::Display(area)));
    }

    /// Load an image (texture, palette, ...) into the VRAM
    pub fn load_image(&mut self, load_buffer: LoadBuffer)
        requires
            wf(old(self)@),
            load_buffer.top_left_spec().0 + load_buffer.width_spec() <= 0xffff,
            load_buffer.top_left_spec().1 + load_buffer.height_spec() <= 0xffff,
        ensures
            final(self)@ == flushed_then(
                old(self)@,
                GpuCommandView::LoadImage(
                    ImageArea {
                        x_start: load_buffer.top_left_spec().0,
                        x_end: (load_buffer.top_left_spec().0 + load_buffer.width_spec()) as u16,
                        y_start: load_buffer.top_left_spec().1,
                        y_end: (load_buffer.top_left_spec().1 + load_buffer.height_spec()) as u16,
                        width: load_buffer.width_spec(),
                        height: load_buffer.height_spec(),
                    },
                    if load_buffer.pixels().len() > load_buffer.width_spec()
                        * load_buffer.height_spec() {
                        load_buffer.pixels().subrange(
                            0,
                            load_buffer.width_spec() * load_buffer.height_spec(),
                        )
                    } else {
                        load_buffer.pixels()
                    },
                ),
            ),
            wf(final(self)@),
    {
        // First we must run any pending command
        self.draw();
        let ghost f = self@;
        // Target coordinates in VRAM
        let (x, y) = load_buffer.top_left();
        let width = load_buffer.width();
        let height = load_buffer.height();
        let area = ImageArea {
            x_start: x,
            x_end: x + width,
            y_start: y,
            y_end: y + height,
            width: width,
            height: height,
        };
        let pixels = load_buffer.into_pixels();
        let ghost p = pixels@;
        self.commands.push(GpuCommand::LoadImage(area, pixels));
        assert(self@.output =~= f.output.push(GpuCommandView::LoadImage(area, p)));
    }

    /// Take the work handed to the backend so far, oldest first
    pub fn take_commands(&mut self) -> (r: Vec<GpuCommand>)
        ensures
            r@.map_values(|c: GpuCommand| c@) == old(self)@.output,
            final(self)@ == (RendererView { output: Seq::empty(), ..old(self)@ }),
    {
        let mut commands: Vec<GpuCommand> = Vec::new();
        std::mem::swap(&mut commands, &mut self.commands);
        assert(self@.output =~= Seq::<GpuCommandView>::empty());
        commands
    }

    /// Number of vertices in the opaque buffer
    pub fn opaque_vertices(&self) -> (r: u32)
        requires
            wf(self@),
        ensures
            r == self@.opaque_vertices.len(),
    {
        self.opaque_vertex_buffer.len() as u32
    }

    /// Number of vertices in the semi-transparent buffer
    pub fn semi_transparent_vertices(&self) -> (r: u32)
        requires
            wf(self@),
        ensures
            r == self@.semi_transparent_vertices.len(),
    {
        self.semi_transparent_vertex_buffer.len() as u32
    }

    /// Draw order of the next primitive
    pub fn order(&self) -> (r: u32)
        ensures
            r == self@.order,
    {
        self.order
    }

    /// Sealed runs of the opaque pass
    pub fn opaque_command_queue(&self) -> (r: &[OpaqueCommand])
        ensures
            r@ == self@.opaque_queue,
    {
        self.opaque_command_queue.as_slice()
    }

    /// Run of the opaque pass being extended
    pub fn current_opaque_command(&self) -> (r: OpaqueCommand)
        ensures
            r == self@.current_opaque,
    {
        self.current_opaque_command
    }

    /// Sealed runs of the semi-transparent pass
    pub fn semi_transparent_command_queue(&self) -> (r: &[SemiTransparentCommand])
        ensures
            r@ == self@.semi_queue,
    {
        self.semi_transparent_command_queue.as_slice()
    }

    /// Run of the semi-transparent pass being extended
    pub fn current_semi_transparent_command(&self) -> (r: SemiTransparentCommand)
        ensures
            r == self@.current_semi,
    {
        self.current_semi_transparent_command
    }
}

} // verus!
