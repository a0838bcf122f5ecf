//! The rasterizer frontend's state as mathematics: what is buffered
//! since the last flush, and how each operation changes it.
use vstd::prelude::*;

use super::vertex::{
    BatchView, BlendedRange, CommandVertex, DrawRange, GpuCommandView, OpaqueCommand,
    PrimitiveType, Scissor, SemiTransparentCommand,
};
use super::SemiTransparencyMode;

verus! {

/// Maximum number of vertex that can be stored in an attribute
/// buffer
pub const VERTEX_BUFFER_LEN: u32 = 64 * 1024;

/// A primitive submitted since the last flush: its kind, its vertices
/// as stored (with their draw order), and its blend mode if it is
/// semi-transparent
pub struct Submitted {
    pub primitive_type: PrimitiveType,
    pub vertices: Seq<CommandVertex>,
    pub mode: Option<SemiTransparencyMode>,
}

/// State of the rasterizer frontend
pub struct RendererView {
    /// Horizontal resolution of the render target
    pub x_res: u16,
    /// Vertical resolution of the render target
    pub y_res: u16,
    /// Primitives submitted since the last flush, oldest first
    pub submitted: Seq<Submitted>,
    pub opaque_vertices: Seq<CommandVertex>,
    pub semi_transparent_vertices: Seq<CommandVertex>,
    /// Draw order of the next primitive
    pub order: u32,
    pub opaque_queue: Seq<OpaqueCommand>,
    pub current_opaque: OpaqueCommand,
    pub semi_queue: Seq<SemiTransparentCommand>,
    pub current_semi: SemiTransparentCommand,
    pub offset: (i16, i16),
    pub scissor: Scissor,
    /// Work handed to the backend and not yet taken, oldest first
    pub output: Seq<GpuCommandView>,
}

/// Vertices of all the primitives `ps`, in order
pub open spec fn all_vertices(ps: Seq<Submitted>) -> Seq<CommandVertex>
    decreases ps.len(),
{
    if ps.len() == 0 {
        Seq::empty()
    } else {
        all_vertices(ps.drop_last()) + ps.last().vertices
    }
}

/// Vertices of the semi-transparent primitives among `ps`, in order
pub open spec fn semi_vertices(ps: Seq<Submitted>) -> Seq<CommandVertex>
    decreases ps.len(),
{
    if ps.len() == 0 {
        Seq::empty()
    } else {
        semi_vertices(ps.drop_last()) + if ps.last().mode is Some {
            ps.last().vertices
        } else {
            Seq::empty()
        }
    }
}

/// Number of vertices of the runs `q`
pub open spec fn opaque_total(q: Seq<OpaqueCommand>) -> nat
    decreases q.len(),
{
    if q.len() == 0 {
        0
    } else {
        opaque_total(q.drop_last()) + q.last().len as nat
    }
}

/// Number of vertices of the runs `q`
pub open spec fn semi_total(q: Seq<SemiTransparentCommand>) -> nat
    decreases q.len(),
{
    if q.len() == 0 {
        0
    } else {
        semi_total(q.drop_last()) + q.last().len as nat
    }
}

/// The opaque runs with the current one sealed, if it holds anything
pub open spec fn sealed_opaque(s: RendererView) -> Seq<OpaqueCommand> {
    if s.current_opaque.len > 0 {
        s.opaque_queue.push(s.current_opaque)
    } else {
        s.opaque_queue
    }
}

/// The semi-transparent runs with the current one sealed, if it holds
/// anything
pub open spec fn sealed_semi(s: RendererView) -> Seq<SemiTransparentCommand> {
    if s.current_semi.len > 0 {
        s.semi_queue.push(s.current_semi)
    } else {
        s.semi_queue
    }
}

/// Draw calls of the opaque pass: the runs from the most recent back,
/// so that the depth test discards what later primitives cover
pub open spec fn opaque_draws(q: Seq<OpaqueCommand>) -> Seq<DrawRange> {
    Seq::new(
        q.len(),
        |j: int|
            DrawRange {
                primitive_type: q[q.len() - 1 - j].primitive_type,
                start: opaque_total(q.subrange(0, q.len() - 1 - j)) as u32,
                len: q[q.len() - 1 - j].len,
            },
    )
}

/// Draw calls of the semi-transparent pass, in submission order
pub open spec fn semi_draws(q: Seq<SemiTransparentCommand>) -> Seq<BlendedRange> {
    Seq::new(
        q.len(),
        |i: int|
            BlendedRange {
                primitive_type: q[i].primitive_type,
                mode: q[i].mode,
                start: semi_total(q.subrange(0, i)) as u32,
                len: q[i].len,
            },
    )
}

/// What a flush hands to the backend
pub open spec fn batch_of(s: RendererView) -> BatchView {
    BatchView {
        opaque_vertices: s.opaque_vertices,
        opaque_draws: opaque_draws(sealed_opaque(s)),
        semi_transparent_vertices: s.semi_transparent_vertices,
        semi_transparent_draws: semi_draws(sealed_semi(s)),
        max_order: s.order,
        offset: s.offset,
        scissor: s.scissor,
    }
}

pub open spec fn empty_opaque_command() -> OpaqueCommand {
    OpaqueCommand { primitive_type: PrimitiveType::TrianglesList, len: 0 }
}

pub open spec fn empty_semi_command() -> SemiTransparentCommand {
    SemiTransparentCommand {
        primitive_type: PrimitiveType::TrianglesList,
        mode: SemiTransparencyMode::Average,
        len: 0,
    }
}

/// The state after a flush: everything buffered goes to the backend
/// as one batch, and the buffers, runs and draw order start over
pub open spec fn flushed(s: RendererView) -> RendererView {
    RendererView {
        submitted: Seq::empty(),
        opaque_vertices: Seq::empty(),
        semi_transparent_vertices: Seq::empty(),
        order: 0,
        opaque_queue: Seq::empty(),
        current_opaque: empty_opaque_command(),
        semi_queue: Seq::empty(),
        current_semi: empty_semi_command(),
        output: s.output.push(GpuCommandView::Draw(batch_of(s))),
        ..s
    }
}

/// A vertex with its draw order set
pub open spec fn with_order(v: CommandVertex, order: u32) -> CommandVertex {
    CommandVertex { order: order, ..v }
}

/// Vertices with their draw order set
pub open spec fn stamp(vs: Seq<CommandVertex>, order: u32) -> Seq<CommandVertex> {
    vs.map_values(|v: CommandVertex| with_order(v, order))
}

/// Whether appending `n` vertices to the buffer `count` overflows it
pub open spec fn overflows(count: nat, n: nat) -> bool {
    count + n > VERTEX_BUFFER_LEN
}

/// Add a primitive to the opaque pass: flush first if the buffer is
/// full, stamp the vertices with the next draw order, and extend the
/// current run or start a new one for another kind of primitive
pub open spec fn push_opaque_spec(
    s: RendererView,
    kind: PrimitiveType,
    vs: Seq<CommandVertex>,
    mode: Option<SemiTransparencyMode>,
) -> RendererView {
    let s1 = if overflows(s.opaque_vertices.len(), vs.len()) {
        flushed(s)
    } else {
        s
    };
    let stamped = stamp(vs, s1.order);
    let cur = s1.current_opaque;
    let queue = if kind != cur.primitive_type && cur.len > 0 {
        s1.opaque_queue.push(cur)
    } else {
        s1.opaque_queue
    };
    let cur_len = if kind != cur.primitive_type {
        0
    } else {
        cur.len
    };
    RendererView {
        submitted: s1.submitted.push(
            Submitted { primitive_type: kind, vertices: stamped, mode: mode },
        ),
        opaque_vertices: s1.opaque_vertices + stamped,
        order: (s1.order + 1) as u32,
        opaque_queue: queue,
        current_opaque: OpaqueCommand { primitive_type: kind, len: (cur_len + vs.len()) as u32 },
        ..s1
    }
}

/// Add stamped vertices to the semi-transparent pass: flush first if
/// the buffer is full, and extend the current run or start a new one
/// for another kind of primitive or another blend mode
pub open spec fn push_semi_spec(
    s: RendererView,
    kind: PrimitiveType,
    vs: Seq<CommandVertex>,
    mode: SemiTransparencyMode,
) -> RendererView {
    let s1 = if overflows(s.semi_transparent_vertices.len(), vs.len()) {
        flushed(s)
    } else {
        s
    };
    let cur = s1.current_semi;
    let changed = kind != cur.primitive_type || mode != cur.mode;
    let queue = if changed && cur.len > 0 {
        s1.semi_queue.push(cur)
    } else {
        s1.semi_queue
    };
    let cur_len = if changed {
        0
    } else {
        cur.len
    };
    RendererView {
        semi_transparent_vertices: s1.semi_transparent_vertices + vs,
        semi_queue: queue,
        current_semi: SemiTransparentCommand {
            primitive_type: kind,
            mode: mode,
            len: (cur_len + vs.len()) as u32,
        },
        ..s1
    }
}

/// Whether a primitive is semi-transparent: its first vertex says so
pub open spec fn is_semi_transparent(vs: Seq<CommandVertex>) -> bool {
    vs[0].semi_transparent != 0
}

/// Add a primitive: to the opaque pass always, and to the
/// semi-transparent pass too when it is semi-transparent
pub open spec fn push_primitive_spec(
    s: RendererView,
    kind: PrimitiveType,
    vs: Seq<CommandVertex>,
    mode: SemiTransparencyMode,
) -> RendererView {
    let semi = is_semi_transparent(vs);
    let s1 = push_opaque_spec(
        s,
        kind,
        vs,
        if semi {
            Some(mode)
        } else {
            None
        },
    );
    if semi {
        push_semi_spec(s1, kind, s1.submitted.last().vertices, mode)
    } else {
        s1
    }
}

/// Convert coordinates in the PlayStation framebuffer to coordinates
/// in a render target of `x_res` by `y_res`, rounded to the nearest
/// pixel. The host puts the origin at the bottom left, the console at
/// the top left, so the line number is complemented.
pub open spec fn scale_coords_spec(x_res: u16, y_res: u16, x: u16, y: u16) -> (u32, u32) {
    let yc = (!y) & 0x1ffu16;
    (((x * x_res + 512) / 1024) as u32, ((yc * y_res + 256) / 512) as u32)
}

/// Scissor box of the drawing area from (`left`, `top`) to (`right`,
/// `bottom`) inclusive, or an empty box when the corners are crossed
pub open spec fn drawing_area_scissor(
    x_res: u16,
    y_res: u16,
    left: u16,
    top: u16,
    right: u16,
    bottom: u16,
) -> Scissor {
    let (l, t) = scale_coords_spec(x_res, y_res, left, top);
    let (r, b) = scale_coords_spec(x_res, y_res, right, bottom);
    if l > r || b > t {
        Scissor { left: 0, bottom: 0, width: 0, height: 0 }
    } else {
        Scissor { left: l, bottom: b, width: (r - l + 1) as u32, height: (t - b + 1) as u32 }
    }
}

/// Untextured, opaque vertex of color `color`
pub open spec fn monochrome_vertex(x: i16, y: i16, color: [u8; 3]) -> CommandVertex {
    CommandVertex {
        position: [x, y],
        order: 0,
        color: color,
        texture_page: [0, 0],
        texture_coord: [0, 0],
        clut: [0, 0],
        texture_blend_mode: 0,
        depth_shift: 2,
        dither: 0,
        semi_transparent: 0,
    }
}

/// Strip of a filled rectangle, corners inclusive
pub open spec fn fill_rect_vertices(
    color: [u8; 3],
    top: u16,
    left: u16,
    bottom: u16,
    right: u16,
) -> [CommandVertex; 4] {
    [
        monochrome_vertex(left as i16, top as i16, color),
        monochrome_vertex(right as i16, top as i16, color),
        monochrome_vertex(left as i16, bottom as i16, color),
        monochrome_vertex(right as i16, bottom as i16, color),
    ]
}

/// The state after a flush, with `cmd` handed to the backend after
/// the batch
pub open spec fn flushed_then(s: RendererView, cmd: GpuCommandView) -> RendererView {
    let f = flushed(s);
    RendererView { output: f.output.push(cmd), ..f }
}

/// The kind of each vertex covered by the runs `q`, in order
pub open spec fn run_kinds(q: Seq<OpaqueCommand>) -> Seq<PrimitiveType>
    decreases q.len(),
{
    if q.len() == 0 {
        Seq::empty()
    } else {
        run_kinds(q.drop_last()) + Seq::new(q.last().len as nat, |i: int| q.last().primitive_type)
    }
}

/// The kind and blend mode of each vertex covered by the runs `q`, in
/// order
pub open spec fn run_keys(q: Seq<SemiTransparentCommand>) -> Seq<(PrimitiveType, SemiTransparencyMode)>
    decreases q.len(),
{
    if q.len() == 0 {
        Seq::empty()
    } else {
        run_keys(q.drop_last()) + Seq::new(
            q.last().len as nat,
            |i: int| (q.last().primitive_type, q.last().mode),
        )
    }
}

/// The kind of primitive of each vertex of `ps`, in order
pub open spec fn vertex_kinds(ps: Seq<Submitted>) -> Seq<PrimitiveType>
    decreases ps.len(),
{
    if ps.len() == 0 {
        Seq::empty()
    } else {
        vertex_kinds(ps.drop_last()) + Seq::new(
            ps.last().vertices.len(),
            |i: int| ps.last().primitive_type,
        )
    }
}

/// The kind of primitive and blend mode of each vertex of the
/// semi-transparent primitives among `ps`, in order
pub open spec fn vertex_keys(ps: Seq<Submitted>) -> Seq<(PrimitiveType, SemiTransparencyMode)>
    decreases ps.len(),
{
    if ps.len() == 0 {
        Seq::empty()
    } else {
        vertex_keys(ps.drop_last()) + match ps.last().mode {
            Some(m) => Seq::new(ps.last().vertices.len(), |i: int| (ps.last().primitive_type, m)),
            None => Seq::empty(),
        }
    }
}

/// The buffers fit and the runs account for every buffered vertex
pub open spec fn counts_ok(s: RendererView) -> bool {
    &&& s.opaque_vertices.len() <= VERTEX_BUFFER_LEN
    &&& s.semi_transparent_vertices.len() <= VERTEX_BUFFER_LEN
    &&& opaque_total(s.opaque_queue) + s.current_opaque.len == s.opaque_vertices.len()
    &&& semi_total(s.semi_queue) + s.current_semi.len == s.semi_transparent_vertices.len()
}

/// Invariant of the rasterizer state
pub open spec fn wf(s: RendererView) -> bool {
    &&& counts_ok(s)
    &&& s.opaque_vertices == all_vertices(s.submitted)
    &&& s.semi_transparent_vertices == semi_vertices(s.submitted)
    &&& s.order == s.submitted.len()
    &&& forall|k: int|
        0 <= k < s.submitted.len() ==> 0 < #[trigger] s.submitted[k].vertices.len() <= 3
    &&& forall|k: int, i: int|
        0 <= k < s.submitted.len() && 0 <= i < s.submitted[k].vertices.len()
            ==> #[trigger] s.submitted[k].vertices[i].order == k
    &&& run_kinds(s.opaque_queue.push(s.current_opaque)) == vertex_kinds(s.submitted)
    &&& run_keys(s.semi_queue.push(s.current_semi)) == vertex_keys(s.submitted)
}

proof fn lemma_vertices_push(ps: Seq<Submitted>, p: Submitted)
    ensures
        all_vertices(ps.push(p)) == all_vertices(ps) + p.vertices,
        semi_vertices(ps.push(p)) == semi_vertices(ps) + if p.mode is Some {
            p.vertices
        } else {
            Seq::empty()
        },
{
    assert(ps.push(p).drop_last() =~= ps);
}

pub(crate) proof fn lemma_runs_push(q: Seq<OpaqueCommand>, c: OpaqueCommand, r: Seq<SemiTransparentCommand>, d: SemiTransparentCommand)
    ensures
        run_kinds(q.push(c)) == run_kinds(q) + Seq::new(c.len as nat, |i: int| c.primitive_type),
        run_keys(r.push(d)) == run_keys(r) + Seq::new(d.len as nat, |i: int| (d.primitive_type, d.mode)),
{
    assert(q.push(c).drop_last() =~= q);
    assert(r.push(d).drop_last() =~= r);
}

proof fn lemma_kinds_push(ps: Seq<Submitted>, p: Submitted)
    ensures
        vertex_kinds(ps.push(p)) == vertex_kinds(ps) + Seq::new(
            p.vertices.len(),
            |i: int| p.primitive_type,
        ),
        vertex_keys(ps.push(p)) == vertex_keys(ps) + match p.mode {
            Some(m) => Seq::new(p.vertices.len(), |i: int| (p.primitive_type, m)),
            None => Seq::empty(),
        },
{
    assert(ps.push(p).drop_last() =~= ps);
}

proof fn lemma_new_split<A>(a: nat, b: nat, x: A)
    ensures
        Seq::new(a + b, |i: int| x) =~= Seq::new(a, |i: int| x) + Seq::new(b, |i: int| x),
{
}

/// Extending the current opaque run, or starting a new one, appends
/// the new vertices' kind to the expansion of the runs
proof fn lemma_extend_opaque(q: Seq<OpaqueCommand>, cur: OpaqueCommand, kind: PrimitiveType, n: nat)
    requires
        cur.len + n <= 0xffff_ffff,
    ensures
        ({
            let q2 = if kind != cur.primitive_type && cur.len > 0 {
                q.push(cur)
            } else {
                q
            };
            let l = if kind != cur.primitive_type {
                0
            } else {
                cur.len
            };
            run_kinds(q2.push(OpaqueCommand { primitive_type: kind, len: (l + n) as u32 }))
                == run_kinds(q.push(cur)) + Seq::new(n, |i: int| kind)
        }),
{
    let e = Seq::<SemiTransparentCommand>::empty();
    let d = SemiTransparentCommand {
        primitive_type: kind,
        mode: SemiTransparencyMode::Average,
        len: 0,
    };
    lemma_runs_push(q, cur, e, d);
    if kind == cur.primitive_type {
        lemma_runs_push(q, OpaqueCommand { primitive_type: kind, len: (cur.len + n) as u32 }, e, d);
        lemma_new_split(cur.len as nat, n, kind);
    } else if cur.len > 0 {
        lemma_runs_push(q.push(cur), OpaqueCommand { primitive_type: kind, len: n as u32 }, e, d);
    } else {
        lemma_runs_push(q, OpaqueCommand { primitive_type: kind, len: n as u32 }, e, d);
        assert(Seq::new(cur.len as nat, |i: int| cur.primitive_type) =~= Seq::<PrimitiveType>::empty());
        assert(run_kinds(q) + Seq::<PrimitiveType>::empty() =~= run_kinds(q));
    }
}

/// Extending the current semi-transparent run, or starting a new one,
/// appends the new vertices' kind and mode to the expansion of the runs
proof fn lemma_extend_semi(
    r: Seq<SemiTransparentCommand>,
    cur: SemiTransparentCommand,
    kind: PrimitiveType,
    mode: SemiTransparencyMode,
    n: nat,
)
    requires
        cur.len + n <= 0xffff_ffff,
    ensures
        ({
            let changed = kind != cur.primitive_type || mode != cur.mode;
            let r2 = if changed && cur.len > 0 {
                r.push(cur)
            } else {
                r
            };
            let l = if changed {
                0
            } else {
                cur.len
            };
            run_keys(
                r2.push(SemiTransparentCommand { primitive_type: kind, mode: mode, len: (l + n) as u32 }),
            ) == run_keys(r.push(cur)) + Seq::new(n, |i: int| (kind, mode))
        }),
{
    let e = Seq::<OpaqueCommand>::empty();
    let c = OpaqueCommand { primitive_type: kind, len: 0 };
    let changed = kind != cur.primitive_type || mode != cur.mode;
    lemma_runs_push(e, c, r, cur);
    if !changed {
        lemma_runs_push(
            e,
            c,
            r,
            SemiTransparentCommand { primitive_type: kind, mode: mode, len: (cur.len + n) as u32 },
        );
        lemma_new_split(cur.len as nat, n, (kind, mode));
    } else if cur.len > 0 {
        lemma_runs_push(
            e,
            c,
            r.push(cur),
            SemiTransparentCommand { primitive_type: kind, mode: mode, len: n as u32 },
        );
    } else {
        lemma_runs_push(
            e,
            c,
            r,
            SemiTransparentCommand { primitive_type: kind, mode: mode, len: n as u32 },
        );
        assert(Seq::new(cur.len as nat, |i: int| (cur.primitive_type, cur.mode)) =~= Seq::<
            (PrimitiveType, SemiTransparencyMode),
        >::empty());
        assert(run_keys(r) + Seq::<(PrimitiveType, SemiTransparencyMode)>::empty() =~= run_keys(r));
    }
}

pub(crate) proof fn lemma_vertex_counts(ps: Seq<Submitted>)
    requires
        forall|k: int| 0 <= k < ps.len() ==> 0 < #[trigger] ps[k].vertices.len(),
    ensures
        semi_vertices(ps).len() <= all_vertices(ps).len(),
        ps.len() <= all_vertices(ps).len(),
    decreases ps.len(),
{
    if ps.len() > 0 {
        let init = ps.drop_last();
        assert forall|k: int| 0 <= k < init.len() implies 0 < #[trigger] init[k].vertices.len() by {
            assert(init[k] == ps[k]);
        }
        lemma_vertex_counts(init);
        assert(0 < ps[ps.len() - 1].vertices.len());
    }
}

proof fn lemma_totals_push(q: Seq<OpaqueCommand>, c: OpaqueCommand, r: Seq<SemiTransparentCommand>, d: SemiTransparentCommand)
    ensures
        opaque_total(q.push(c)) == opaque_total(q) + c.len,
        semi_total(r.push(d)) == semi_total(r) + d.len,
{
    assert(q.push(c).drop_last() =~= q);
    assert(r.push(d).drop_last() =~= r);
}

/// A state with nothing buffered is well-formed
pub(crate) proof fn lemma_empty_wf(s: RendererView)
    requires
        s.submitted.len() == 0,
        s.opaque_vertices.len() == 0,
        s.semi_transparent_vertices.len() == 0,
        s.order == 0,
        s.opaque_queue.len() == 0,
        s.current_opaque.len == 0,
        s.semi_queue.len() == 0,
        s.current_semi.len == 0,
    ensures
        wf(s),
{
    assert(opaque_total(s.opaque_queue) == 0);
    assert(semi_total(s.semi_queue) == 0);
    assert(s.opaque_vertices == all_vertices(s.submitted));
    assert(s.semi_transparent_vertices == semi_vertices(s.submitted));
    lemma_runs_push(s.opaque_queue, s.current_opaque, s.semi_queue, s.current_semi);
    assert(run_kinds(s.opaque_queue.push(s.current_opaque)) =~= Seq::<PrimitiveType>::empty());
    assert(run_keys(s.semi_queue.push(s.current_semi)) =~= Seq::<
        (PrimitiveType, SemiTransparencyMode),
    >::empty());
    assert(vertex_kinds(s.submitted) == Seq::<PrimitiveType>::empty());
    assert(vertex_keys(s.submitted) == Seq::<(PrimitiveType, SemiTransparencyMode)>::empty());
}

/// A flush leaves an empty, well-formed state
pub proof fn lemma_flushed_wf(s: RendererView)
    ensures
        wf(flushed(s)),
{
    lemma_empty_wf(flushed(s));
}

/// Adding a primitive of one to three vertices keeps the state
/// well-formed
pub proof fn lemma_push_primitive_wf(
    s: RendererView,
    kind: PrimitiveType,
    vs: Seq<CommandVertex>,
    mode: SemiTransparencyMode,
)
    requires
        wf(s),
        0 < vs.len() <= 3,
    ensures
        counts_ok(
            push_opaque_spec(
                s,
                kind,
                vs,
                if is_semi_transparent(vs) {
                    Some(mode)
                } else {
                    None
                },
            ),
        ),
        wf(push_primitive_spec(s, kind, vs, mode)),
{
    let semi = is_semi_transparent(vs);
    let m = if semi {
        Some(mode)
    } else {
        None
    };
    let s1 = if overflows(s.opaque_vertices.len(), vs.len()) {
        flushed(s)
    } else {
        s
    };
    lemma_flushed_wf(s);
    assert(wf(s1));
    lemma_vertex_counts(s1.submitted);
    let stamped = stamp(vs, s1.order);
    let rec = Submitted { primitive_type: kind, vertices: stamped, mode: m };
    let s2 = push_opaque_spec(s, kind, vs, m);
    assert(s2.submitted == s1.submitted.push(rec));
    lemma_vertex_counts(s2.submitted);
    lemma_vertices_push(s1.submitted, rec);
    lemma_kinds_push(s1.submitted, rec);
    lemma_totals_push(s1.opaque_queue, s1.current_opaque, s1.semi_queue, s1.current_semi);
    lemma_extend_opaque(s1.opaque_queue, s1.current_opaque, kind, vs.len());
    assert(run_kinds(s2.opaque_queue.push(s2.current_opaque)) == vertex_kinds(s2.submitted));
    assert forall|k: int|
        0 <= k < s2.submitted.len() implies 0 < #[trigger] s2.submitted[k].vertices.len() <= 3 by {
        if k < s1.submitted.len() {
            assert(s2.submitted[k] == s1.submitted[k]);
        }
    }
    assert forall|k: int, i: int|
        0 <= k < s2.submitted.len() && 0 <= i < s2.submitted[k].vertices.len()
            implies #[trigger] s2.submitted[k].vertices[i].order == k by {
        if k < s1.submitted.len() {
            assert(s2.submitted[k] == s1.submitted[k]);
        } else {
            assert(s2.submitted[k] == rec);
        }
    }
    if semi {
        assert(s2.semi_transparent_vertices.len() + stamped.len() <= VERTEX_BUFFER_LEN);
        assert(s2.submitted.last().vertices == stamped);
        let s3 = push_semi_spec(s2, kind, stamped, mode);
        lemma_extend_semi(s2.semi_queue, s2.current_semi, kind, mode, vs.len());
        assert(run_keys(s3.semi_queue.push(s3.current_semi)) == vertex_keys(s3.submitted));
        assert(s3.semi_transparent_vertices == semi_vertices(s3.submitted));
        assert(semi_total(s3.semi_queue) + s3.current_semi.len == s3.semi_transparent_vertices.len());
    } else {
        assert(vertex_keys(s2.submitted) =~= vertex_keys(s1.submitted));
    }
}

/// In every well-formed state the runs account for every buffered
/// vertex: the lengths of the sealed runs plus that of the current run
/// give the number of vertices in each buffer.
pub proof fn lemma_runs_cover_vertices(s: RendererView)
    requires
        wf(s),
    ensures
        opaque_total(s.opaque_queue) + s.current_opaque.len == s.opaque_vertices.len(),
        semi_total(s.semi_queue) + s.current_semi.len == s.semi_transparent_vertices.len(),
{
}

/// In every well-formed state the runs follow the primitives: laid
/// end to end, the opaque runs give each buffered vertex the kind of
/// its primitive, and the semi-transparent runs give each vertex of a
/// semi-transparent primitive its kind and blend mode. One draw call
/// per run thus draws every primitive as what it is.
pub proof fn lemma_runs_follow_primitives(s: RendererView)
    requires
        wf(s),
    ensures
        run_kinds(s.opaque_queue.push(s.current_opaque)) == vertex_kinds(s.submitted),
        run_keys(s.semi_queue.push(s.current_semi)) == vertex_keys(s.submitted),
{
}

/// The k-th primitive submitted since the last flush (counting from 0)
/// has draw order k on all its vertices, and adding a primitive that
/// fits appends it as the next one, stamped with the next order.
pub proof fn lemma_draw_order(
    s: RendererView,
    kind: PrimitiveType,
    vs: Seq<CommandVertex>,
    mode: SemiTransparencyMode,
)
    requires
        wf(s),
        0 < vs.len() <= 3,
        !overflows(s.opaque_vertices.len(), vs.len()),
    ensures
        forall|k: int, i: int|
            0 <= k < s.submitted.len() && 0 <= i < s.submitted[k].vertices.len()
                ==> #[trigger] s.submitted[k].vertices[i].order == k,
        push_primitive_spec(s, kind, vs, mode).submitted == s.submitted.push(
            Submitted {
                primitive_type: kind,
                vertices: stamp(vs, s.submitted.len() as u32),
                mode: if is_semi_transparent(vs) {
                    Some(mode)
                } else {
                    None
                },
            },
        ),
        forall|i: int|
            0 <= i < vs.len() ==> #[trigger] stamp(vs, s.submitted.len() as u32)[i].order
                == s.submitted.len(),
{
    lemma_vertex_counts(s.submitted);
    let m = if is_semi_transparent(vs) {
        Some(mode)
    } else {
        None
    };
    let s2 = push_opaque_spec(s, kind, vs, m);
    assert(s2.submitted.last().vertices.len() == vs.len());
    assert(!overflows(s2.semi_transparent_vertices.len(), s2.submitted.last().vertices.len()));
}

/// A flush empties both buffers and both run queues, restarts the draw
/// order at 0, and hands exactly one batch to the backend.
pub proof fn lemma_flush_resets(s: RendererView)
    ensures
        flushed(s).opaque_vertices.len() == 0,
        flushed(s).semi_transparent_vertices.len() == 0,
        flushed(s).order == 0,
        flushed(s).opaque_queue.len() == 0,
        flushed(s).current_opaque.len == 0,
        flushed(s).semi_queue.len() == 0,
        flushed(s).current_semi.len == 0,
        flushed(s).output == s.output.push(GpuCommandView::Draw(batch_of(s))),
{
}

/// A semi-transparent primitive goes to both buffers, any other to the
/// opaque buffer only.
pub proof fn lemma_semi_transparent_in_both(
    s: RendererView,
    kind: PrimitiveType,
    vs: Seq<CommandVertex>,
    mode: SemiTransparencyMode,
)
    requires
        wf(s),
        0 < vs.len() <= 3,
        !overflows(s.opaque_vertices.len(), vs.len()),
    ensures
        push_primitive_spec(s, kind, vs, mode).opaque_vertices == s.opaque_vertices + stamp(
            vs,
            s.order,
        ),
        push_primitive_spec(s, kind, vs, mode).semi_transparent_vertices
            == s.semi_transparent_vertices + if is_semi_transparent(vs) {
            stamp(vs, s.order)
        } else {
            Seq::empty()
        },
{
    lemma_vertex_counts(s.submitted);
    assert(s.semi_transparent_vertices + Seq::<CommandVertex>::empty() =~= s.semi_transparent_vertices);
}

/// Adding a primitive flushes exactly when its vertices would not fit
/// in the opaque buffer: then one batch of the previous state goes to
/// the backend and the primitive starts the new one; otherwise nothing
/// goes to the backend.
pub proof fn lemma_flush_on_overflow(
    s: RendererView,
    kind: PrimitiveType,
    vs: Seq<CommandVertex>,
    mode: SemiTransparencyMode,
)
    requires
        wf(s),
        0 < vs.len() <= 3,
    ensures
        overflows(s.opaque_vertices.len(), vs.len()) ==> {
            &&& push_primitive_spec(s, kind, vs, mode).output == s.output.push(
                GpuCommandView::Draw(batch_of(s)),
            )
            &&& push_primitive_spec(s, kind, vs, mode).opaque_vertices == stamp(vs, 0)
        },
        !overflows(s.opaque_vertices.len(), vs.len()) ==> push_primitive_spec(
            s,
            kind,
            vs,
            mode,
        ).output == s.output,
{
    lemma_vertex_counts(s.submitted);
    lemma_flushed_wf(s);
    assert(Seq::<CommandVertex>::empty() + stamp(vs, 0) =~= stamp(vs, 0));
}

} // verus!
