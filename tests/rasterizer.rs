use rustation::gpu::load_buffer::{shuffle_components, LoadBuffer};
use rustation::gpu::model::VERTEX_BUFFER_LEN;
use rustation::gpu::renderer::Renderer;
use rustation::gpu::vertex::{
    Batch, BlendedRange, CommandVertex, DisplayArea, DrawRange, GpuCommand, ImageArea,
    PrimitiveType, Scissor,
};
use rustation::gpu::{
    blend_function, BlendEquation, BlendFactor, BlendFunction, BlendMode, DisplayDepth,
    SemiTransparencyMode, TextureDepth,
};

fn vertex(x: i16, y: i16, semi_transparent: bool) -> CommandVertex {
    CommandVertex::new(
        [x, y],
        [0x10, 0x20, 0x30],
        BlendMode::Blended,
        [64, 0],
        [1, 2],
        [0, 480],
        TextureDepth::T8Bpp,
        true,
        semi_transparent,
    )
}

fn triangle(semi: bool) -> [CommandVertex; 3] {
    [vertex(0, 0, semi), vertex(10, 0, semi), vertex(0, 10, semi)]
}

fn line(semi: bool) -> [CommandVertex; 2] {
    [vertex(0, 0, semi), vertex(10, 10, semi)]
}

fn quad(semi: bool) -> [CommandVertex; 4] {
    [vertex(0, 0, semi), vertex(10, 0, semi), vertex(0, 10, semi), vertex(10, 10, semi)]
}

fn runs_total(r: &Renderer) -> (u32, u32) {
    let opaque: u32 = r.opaque_command_queue().iter().map(|c| c.len).sum::<u32>()
        + r.current_opaque_command().len;
    let semi: u32 = r.semi_transparent_command_queue().iter().map(|c| c.len).sum::<u32>()
        + r.current_semi_transparent_command().len;
    (opaque, semi)
}

fn single_batch(r: &mut Renderer) -> Batch {
    let mut commands = r.take_commands();
    assert_eq!(commands.len(), 1);
    match commands.pop() {
        Some(GpuCommand::Draw(b)) => b,
        other => panic!("expected a batch, got {:?}", other),
    }
}

#[test]
fn scale_coords_origin_complements_y() {
    let r = Renderer::new();
    assert_eq!(r.scale_coords(0, 0), (0, 511));
}

#[test]
fn scale_coords_far_corner() {
    let r = Renderer::new();
    assert_eq!(r.scale_coords(1024, 512), (1024, 511));
    assert_eq!(r.scale_coords(1023, 511), (1023, 0));
    assert_eq!(r.scale_coords(100, 200), (100, 311));
}

#[test]
fn command_vertex_attributes() {
    let v = CommandVertex::new(
        [-3, 7],
        [1, 2, 3],
        BlendMode::Raw,
        [4, 5],
        [6, 7],
        [8, 9],
        TextureDepth::T16Bpp,
        false,
        true,
    );
    assert_eq!(v.position, [-3, 7]);
    assert_eq!(v.order, 0);
    assert_eq!(v.color, [1, 2, 3]);
    assert_eq!(v.texture_page, [4, 5]);
    assert_eq!(v.texture_coord, [6, 7]);
    assert_eq!(v.clut, [8, 9]);
    assert_eq!(v.texture_blend_mode, 1);
    assert_eq!(v.depth_shift, 0);
    assert_eq!(v.dither, 0);
    assert_eq!(v.semi_transparent, 1);
    let w = CommandVertex::new(
        [0, 0],
        [0, 0, 0],
        BlendMode::Untextured,
        [0, 0],
        [0, 0],
        [0, 0],
        TextureDepth::T4Bpp,
        true,
        false,
    );
    assert_eq!(w.texture_blend_mode, 0);
    assert_eq!(w.depth_shift, 2);
    assert_eq!(w.dither, 1);
    assert_eq!(w.semi_transparent, 0);
    assert_eq!(vertex(0, 0, false).texture_blend_mode, 2);
    assert_eq!(vertex(0, 0, false).depth_shift, 1);
}

#[test]
fn runs_cover_buffered_vertices() {
    let mut r = Renderer::new();
    let mode = SemiTransparencyMode::Add;
    r.push_triangle(triangle(false), mode);
    r.push_triangle(triangle(true), mode);
    r.push_line(line(false), mode);
    r.push_quad(quad(true), SemiTransparencyMode::Average);
    r.push_line(line(true), mode);
    r.push_triangle(triangle(false), mode);
    assert_eq!(r.opaque_vertices(), 3 + 3 + 2 + 6 + 2 + 3);
    assert_eq!(r.semi_transparent_vertices(), 3 + 6 + 2);
    assert_eq!(runs_total(&r), (r.opaque_vertices(), r.semi_transparent_vertices()));
    // Triangles, line, triangles (quad), line, then the current triangle run
    assert_eq!(r.opaque_command_queue().len(), 4);
    assert_eq!(r.current_opaque_command().primitive_type, PrimitiveType::TrianglesList);
    // Add triangle, Average quad, Add line
    assert_eq!(r.semi_transparent_command_queue().len(), 2);
    assert_eq!(r.current_semi_transparent_command().primitive_type, PrimitiveType::LinesList);
    assert_eq!(r.current_semi_transparent_command().mode, SemiTransparencyMode::Add);
}

#[test]
fn draw_order_follows_submission() {
    let mut r = Renderer::new();
    let mode = SemiTransparencyMode::Average;
    r.push_triangle(triangle(false), mode);
    r.push_line(line(true), mode);
    r.push_quad(quad(false), mode);
    assert_eq!(r.order(), 4);
    r.draw();
    let batch = single_batch(&mut r);
    let orders: Vec<u32> = batch.opaque_vertices.iter().map(|v| v.order).collect();
    assert_eq!(orders, vec![0, 0, 0, 1, 1, 2, 2, 2, 3, 3, 3]);
    let semi_orders: Vec<u32> = batch.semi_transparent_vertices.iter().map(|v| v.order).collect();
    assert_eq!(semi_orders, vec![1, 1]);
    assert_eq!(batch.max_order, 4);
}

#[test]
fn draw_resets_the_buffers() {
    let mut r = Renderer::new();
    r.push_quad(quad(true), SemiTransparencyMode::Add);
    r.push_line(line(false), SemiTransparencyMode::Add);
    r.draw();
    assert_eq!(r.opaque_vertices(), 0);
    assert_eq!(r.semi_transparent_vertices(), 0);
    assert_eq!(r.order(), 0);
    assert!(r.opaque_command_queue().is_empty());
    assert!(r.semi_transparent_command_queue().is_empty());
    assert_eq!(r.current_opaque_command().len, 0);
    assert_eq!(r.current_semi_transparent_command().len, 0);
    let batch = single_batch(&mut r);
    assert_eq!(batch.opaque_vertices.len(), 8);
    assert_eq!(batch.semi_transparent_vertices.len(), 6);
    // The next primitive starts again at order 0
    r.push_triangle(triangle(false), SemiTransparencyMode::Add);
    r.draw();
    let batch = single_batch(&mut r);
    assert!(batch.opaque_vertices.iter().all(|v| v.order == 0));
}

#[test]
fn semi_transparent_primitives_go_to_both_passes() {
    let mut r = Renderer::new();
    r.push_triangle(triangle(false), SemiTransparencyMode::Add);
    assert_eq!((r.opaque_vertices(), r.semi_transparent_vertices()), (3, 0));
    r.push_triangle(triangle(true), SemiTransparencyMode::Add);
    assert_eq!((r.opaque_vertices(), r.semi_transparent_vertices()), (6, 3));
    r.push_line(line(true), SemiTransparencyMode::SubtractSource);
    assert_eq!((r.opaque_vertices(), r.semi_transparent_vertices()), (8, 5));
    r.push_line(line(false), SemiTransparencyMode::SubtractSource);
    assert_eq!((r.opaque_vertices(), r.semi_transparent_vertices()), (10, 5));
    r.draw();
    let batch = single_batch(&mut r);
    let semi_orders: Vec<u32> = batch.semi_transparent_vertices.iter().map(|v| v.order).collect();
    assert_eq!(semi_orders, vec![1, 1, 1, 2, 2]);
    assert_eq!(batch.opaque_vertices[3].position, batch.semi_transparent_vertices[0].position);
}

#[test]
fn full_buffer_flushes_once() {
    let mut r = Renderer::new();
    let lines = VERTEX_BUFFER_LEN / 2;
    for _ in 0..lines {
        r.push_line(line(false), SemiTransparencyMode::Average);
    }
    assert_eq!(r.opaque_vertices(), VERTEX_BUFFER_LEN);
    assert!(r.take_commands().is_empty());
    r.push_line(line(false), SemiTransparencyMode::Average);
    let batch = single_batch(&mut r);
    assert_eq!(batch.opaque_vertices.len(), VERTEX_BUFFER_LEN as usize);
    assert_eq!(batch.max_order, lines);
    assert_eq!(r.opaque_vertices(), 2);
    assert_eq!(r.order(), 1);
}

#[test]
fn full_buffer_flushes_triangles() {
    let mut r = Renderer::new();
    let triangles = VERTEX_BUFFER_LEN / 3;
    for _ in 0..triangles {
        r.push_triangle(triangle(true), SemiTransparencyMode::Average);
    }
    assert!(r.take_commands().is_empty());
    r.push_triangle(triangle(true), SemiTransparencyMode::Average);
    let batch = single_batch(&mut r);
    assert_eq!(batch.opaque_vertices.len(), (triangles * 3) as usize);
    assert_eq!(batch.semi_transparent_vertices.len(), (triangles * 3) as usize);
    assert_eq!((r.opaque_vertices(), r.semi_transparent_vertices()), (3, 3));
}

#[test]
fn opaque_draws_most_recent_run_first() {
    let mut r = Renderer::new();
    let mode = SemiTransparencyMode::Average;
    r.push_triangle(triangle(false), mode);
    r.push_triangle(triangle(false), mode);
    r.push_line(line(false), mode);
    r.push_triangle(triangle(false), mode);
    r.draw();
    let batch = single_batch(&mut r);
    assert_eq!(
        batch.opaque_draws,
        vec![
            DrawRange { primitive_type: PrimitiveType::TrianglesList, start: 8, len: 3 },
            DrawRange { primitive_type: PrimitiveType::LinesList, start: 6, len: 2 },
            DrawRange { primitive_type: PrimitiveType::TrianglesList, start: 0, len: 6 },
        ]
    );
    assert!(batch.semi_transparent_draws.is_empty());
}

#[test]
fn semi_transparent_draws_split_on_mode() {
    let mut r = Renderer::new();
    r.push_triangle(triangle(true), SemiTransparencyMode::Add);
    r.push_triangle(triangle(true), SemiTransparencyMode::Add);
    r.push_triangle(triangle(true), SemiTransparencyMode::AddQuarterSource);
    r.push_line(line(true), SemiTransparencyMode::AddQuarterSource);
    r.draw();
    let batch = single_batch(&mut r);
    assert_eq!(
        batch.semi_transparent_draws,
        vec![
            BlendedRange {
                primitive_type: PrimitiveType::TrianglesList,
                mode: SemiTransparencyMode::Add,
                start: 0,
                len: 6,
            },
            BlendedRange {
                primitive_type: PrimitiveType::TrianglesList,
                mode: SemiTransparencyMode::AddQuarterSource,
                start: 6,
                len: 3,
            },
            BlendedRange {
                primitive_type: PrimitiveType::LinesList,
                mode: SemiTransparencyMode::AddQuarterSource,
                start: 9,
                len: 2,
            },
        ]
    );
    assert_eq!(batch.opaque_draws.len(), 2);
}

#[test]
fn state_changes_flush_first() {
    let mut r = Renderer::new();
    r.push_triangle(triangle(false), SemiTransparencyMode::Average);
    r.set_draw_offset(5, -3);
    assert_eq!(r.opaque_vertices(), 0);
    let batch = single_batch(&mut r);
    assert_eq!(batch.offset, (0, 0));
    assert_eq!(batch.opaque_vertices.len(), 3);
    r.push_triangle(triangle(false), SemiTransparencyMode::Average);
    r.set_drawing_area(0, 0, 319, 239);
    let batch = single_batch(&mut r);
    assert_eq!(batch.offset, (5, -3));
    assert_eq!(batch.scissor, Scissor { left: 0, bottom: 0, width: 1024, height: 512 });
    r.draw();
    let batch = single_batch(&mut r);
    assert_eq!(batch.scissor, Scissor { left: 0, bottom: 272, width: 320, height: 240 });
}

#[test]
fn crossed_drawing_area_discards_everything() {
    let mut r = Renderer::new();
    r.set_drawing_area(100, 100, 50, 200);
    r.draw();
    let mut commands = r.take_commands();
    match commands.pop() {
        Some(GpuCommand::Draw(b)) => {
            assert_eq!(b.scissor, Scissor { left: 0, bottom: 0, width: 0, height: 0 })
        },
        other => panic!("expected a batch, got {:?}", other),
    }
}

#[test]
fn fill_rect_after_flush() {
    let mut r = Renderer::new();
    r.push_line(line(false), SemiTransparencyMode::Average);
    r.fill_rect([1, 2, 3], 10, 20, 30, 40);
    let commands = r.take_commands();
    assert_eq!(commands.len(), 2);
    assert!(matches!(commands[0], GpuCommand::Draw(ref b) if b.opaque_vertices.len() == 2));
    match &commands[1] {
        GpuCommand::FillRect(v) => {
            assert_eq!(v[0].position, [20, 10]);
            assert_eq!(v[1].position, [40, 10]);
            assert_eq!(v[2].position, [20, 30]);
            assert_eq!(v[3].position, [40, 30]);
            assert!(v.iter().all(|v| v.color == [1, 2, 3] && v.texture_blend_mode == 0));
        },
        other => panic!("expected a fill, got {:?}", other),
    }
}

#[test]
fn display_region_flipped() {
    let mut r = Renderer::new();
    r.display(0, 16, 320, 240, DisplayDepth::D24Bits);
    let commands = r.take_commands();
    assert_eq!(commands.len(), 2);
    match &commands[1] {
        GpuCommand::Display(a) => assert_eq!(
            *a,
            DisplayArea { x_start: 0, x_end: 320, y_start: 256, y_end: 16, depth: DisplayDepth::D24Bits }
        ),
        other => panic!("expected a display, got {:?}", other),
    }
}

#[test]
fn load_image_drops_padding() {
    let mut r = Renderer::new();
    let mut lb = LoadBuffer::new(100, 50, 3, 1);
    lb.push_word(0x0000_8000);
    lb.push_word(0xffff_7c00);
    r.load_image(lb);
    let commands = r.take_commands();
    assert_eq!(commands.len(), 2);
    match &commands[1] {
        GpuCommand::LoadImage(area, pixels) => {
            assert_eq!(
                *area,
                ImageArea { x_start: 100, x_end: 103, y_start: 50, y_end: 51, width: 3, height: 1 }
            );
            assert_eq!(pixels, &vec![0x0001, 0x0000, 0x003e]);
        },
        other => panic!("expected an upload, got {:?}", other),
    }
}

#[test]
fn load_buffer_accessors() {
    let mut lb = LoadBuffer::new(7, 9, 2, 2);
    assert_eq!(lb.width(), 2);
    assert_eq!(lb.height(), 2);
    assert_eq!(lb.top_left(), (7, 9));
    lb.push_word(0x001f_03e0);
    assert_eq!(lb.into_pixels(), vec![shuffle_components(0x03e0), shuffle_components(0x001f)]);
    let null = LoadBuffer::null();
    assert_eq!((null.width(), null.height(), null.top_left()), (0, 0, (0, 0)));
    assert!(null.into_pixels().is_empty());
}

#[test]
fn shuffle_moves_each_channel() {
    assert_eq!(shuffle_components(0x8000), 0x0001);
    assert_eq!(shuffle_components(0x7c00), 0x003e);
    assert_eq!(shuffle_components(0x03e0), 0x07c0);
    assert_eq!(shuffle_components(0x001f), 0xf800);
    assert_eq!(shuffle_components(0xffff), 0xffff);
    assert_eq!(shuffle_components(0x0000), 0x0000);
}

#[test]
fn shuffle_keeps_channels_and_bits_for_every_color() {
    for c in 0..=u16::MAX {
        let s = shuffle_components(c);
        assert_eq!(s.count_ones(), c.count_ones());
        assert_eq!(s & 1, c >> 15);
        assert_eq!((s >> 1) & 0x1f, (c >> 10) & 0x1f);
        assert_eq!((s >> 6) & 0x1f, (c >> 5) & 0x1f);
        assert_eq!((s >> 11) & 0x1f, c & 0x1f);
    }
}

#[test]
fn blend_functions_of_each_mode() {
    assert_eq!(
        blend_function(SemiTransparencyMode::Average),
        BlendFunction {
            equation: BlendEquation::Add,
            source: BlendFactor::ConstantColor,
            destination: BlendFactor::ConstantColor,
        }
    );
    assert_eq!(
        blend_function(SemiTransparencyMode::Add),
        BlendFunction { equation: BlendEquation::Add, source: BlendFactor::One, destination: BlendFactor::One }
    );
    assert_eq!(
        blend_function(SemiTransparencyMode::SubtractSource),
        BlendFunction {
            equation: BlendEquation::ReverseSubtract,
            source: BlendFactor::One,
            destination: BlendFactor::One,
        }
    );
    assert_eq!(
        blend_function(SemiTransparencyMode::AddQuarterSource),
        BlendFunction {
            equation: BlendEquation::Add,
            source: BlendFactor::ConstantAlpha,
            destination: BlendFactor::One,
        }
    );
}

#[test]
fn fresh_renderer_state() {
    let r = Renderer::new();
    assert_eq!(r.order(), 0);
    assert_eq!(r.current_opaque_command().primitive_type, PrimitiveType::TrianglesList);
    assert_eq!(r.current_opaque_command().len, 0);
    assert_eq!(r.current_semi_transparent_command().mode, SemiTransparencyMode::Average);
    assert_eq!(r.current_semi_transparent_command().primitive_type, PrimitiveType::TrianglesList);
    assert_eq!(r.current_semi_transparent_command().len, 0);
}
