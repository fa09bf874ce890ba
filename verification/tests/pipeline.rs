//! End-to-end pipeline behaviour: frames, ordering, events and pacing.

use simple_gl::gl;
use simple_gl::DisplayBuild;
use simple_gl::Event;
use simple_gl::FrameOutcome;
use simple_gl::IndexBuffer;
use simple_gl::PrimitiveType;
use simple_gl::Program;
use simple_gl::VertexBuffer;
use simple_gl::VertexFormatBuilder;
use simple_gl::WindowBuilder;
use simple_gl::Mat4;

const VERTEX_SRC: &str = "
    uniform mat4 uMatrix ;
    attribute vec2 iPosition ;
";

const FRAGMENT_SRC: &str = "
    uniform float uAlpha ;
";

fn identity_mat4() -> Mat4 {
    let mut coefficients = [0u32; 16];
    for i in 0..4 {
        coefficients[i * 4 + i] = 1.0f32.to_bits();
    }
    Mat4 { coefficients }
}

fn triangle_vertices() -> Vec<u8> {
    let coords: [f32; 6] = [-1.0, -1.0, 0.0, 1.0, 1.0, -1.0];
    let mut bytes = Vec::new();
    for c in coords.iter() {
        bytes.extend_from_slice(&c.to_bits().to_le_bytes());
    }
    bytes
}

fn position_bindings() -> simple_gl::VertexBindings {
    let mut b = VertexFormatBuilder::new();
    b.add_field(b"iPosition".to_vec(), gl::FLOAT, 2).unwrap();
    b.build()
}

#[test]
fn end_to_end_triangle() {
    let mut display = WindowBuilder::new().build_simple_gl().unwrap();
    let vb = VertexBuffer::new_raw(&mut display, triangle_vertices(), position_bindings());
    let ib = IndexBuffer::new(&mut display, PrimitiveType::TrianglesList, &[0u8, 1, 2]);
    let program = Program::new(&mut display, VERTEX_SRC, FRAGMENT_SRC, None).unwrap();
    let mut uniforms = program.build_uniforms();
    uniforms.set_value("uMatrix", identity_mat4()).unwrap();

    let mut target = display.draw();
    target.draw(&mut display, &(&vb, &ib, &uniforms));
    target.finish(&mut display);

    let outcome = display.run_frame(Some((800, 600)), Vec::new());
    assert!(matches!(outcome, FrameOutcome::Swapped));

    // The window's back buffer was fed exactly one draw call with the
    // expected identifiers.
    let frame = display.context.gpu.frames.last().unwrap();
    assert_eq!(frame.draws.len(), 1);
    let d = &frame.draws[0];
    assert_eq!(d.fbo, 0);
    assert_eq!(d.program, program.program.id);
    assert_eq!(d.vertex_buffer, vb.id);
    assert_eq!(d.index_buffer, ib.id);
    assert_eq!(d.element_count, 3);
    assert_eq!(d.index_type, gl::UNSIGNED_BYTE);
    assert_eq!(d.primitives, gl::TRIANGLES);
    // The fixed pipeline disposition: depth test off, alpha blending on
    // with source-over factors.
    assert!(!d.depth_test);
    assert!(d.blend);
    assert_eq!(d.blend_src, gl::SRC_ALPHA);
    assert_eq!(d.blend_dst, gl::ONE_MINUS_SRC_ALPHA);
    // The one attribute the program declares was resolved and enabled.
    assert_eq!(d.enabled_attributes, vec![0]);
}

#[test]
fn commands_run_in_submission_order() {
    let mut display = WindowBuilder::new().build_simple_gl().unwrap();
    let a = IndexBuffer::new(&mut display, PrimitiveType::PointsList, &[0u8]);
    let b = IndexBuffer::new(&mut display, PrimitiveType::PointsList, &[0u8, 1]);
    let c = IndexBuffer::new(&mut display, PrimitiveType::PointsList, &[0u8, 1, 2]);
    // Names are handed out in submission order, and the executed trace
    // grows at the back only: first submitted, first applied.
    assert!(a.id < b.id && b.id < c.id);
    let n = display.context.executed.len();
    a.release(&mut display);
    b.release(&mut display);
    assert_eq!(display.context.executed.len(), n);
    display.run_frame(None, Vec::new());
    // The two deletions were applied in the order they were enqueued.
    assert!(display.context.executed.len() >= n + 2);
    c.release(&mut display);
}

#[test]
fn frame_barrier_flushes_prior_commands() {
    let mut display = WindowBuilder::new().build_simple_gl().unwrap();
    let ib = IndexBuffer::new(&mut display, PrimitiveType::PointsList, &[0u8]);
    ib.release(&mut display);
    display.swap_buffers();
    assert_eq!(display.context.pending.len(), 2);
    let outcome = display.run_frame(None, Vec::new());
    assert!(matches!(outcome, FrameOutcome::Swapped));
    // Everything enqueued before the frame-end marker was applied before
    // the swap: the queue is empty and one frame exists.
    assert_eq!(display.context.pending.len(), 0);
    assert_eq!(display.context.gpu.frames.len(), 1);
}

#[test]
fn recv_drains_without_duplication() {
    let mut display = WindowBuilder::new().build_simple_gl().unwrap();
    display.swap_buffers();
    let outcome = display.run_frame(
        None,
        vec![Event::KeyPressed(42), Event::MouseMoved(3, 4)],
    );
    assert!(matches!(outcome, FrameOutcome::Swapped));
    let first = display.poll_events();
    assert_eq!(first, vec![Event::KeyPressed(42), Event::MouseMoved(3, 4)]);
    // A second drain with no new events in between is empty.
    let second = display.poll_events();
    assert_eq!(second, Vec::new());
}

#[test]
fn frame_pacing_advances_by_a_fixed_period() {
    let mut display = WindowBuilder::new().build_simple_gl().unwrap();
    let start = display.context.next_frame_ns;
    display.swap_buffers();
    display.run_frame(None, Vec::new());
    assert_eq!(
        display.context.next_frame_ns,
        start + simple_gl::context::FRAME_PERIOD_NS
    );
    // A blocked iteration does not advance the schedule.
    let outcome = display.run_frame(None, Vec::new());
    assert!(matches!(outcome, FrameOutcome::Blocked));
    assert_eq!(
        display.context.next_frame_ns,
        start + simple_gl::context::FRAME_PERIOD_NS
    );
    // Sleeping waits until the schedule and never goes negative.
    assert_eq!(display.context.sleep_duration_ns(start), simple_gl::context::FRAME_PERIOD_NS);
    assert_eq!(display.context.sleep_duration_ns(u64::MAX), 0);
}

#[test]
fn draining_consumer_stops_cleanly() {
    let mut display = WindowBuilder::new().build_simple_gl().unwrap();
    let ib = IndexBuffer::new(&mut display, PrimitiveType::PointsList, &[0u8]);
    ib.release(&mut display);
    display.context.close();
    let outcome = display.run_frame(None, Vec::new());
    assert!(matches!(outcome, FrameOutcome::Stopped));
    assert!(matches!(
        display.context.state,
        simple_gl::LoopState::Stopped
    ));
    assert!(display.context.failure.is_none());
    assert_eq!(display.context.pending.len(), 0);
}

#[test]
fn viewport_follows_the_window_size() {
    let mut display = WindowBuilder::new()
        .with_dimensions(1024, 768)
        .build_simple_gl()
        .unwrap();
    display.swap_buffers();
    display.run_frame(Some((1024, 768)), Vec::new());
    assert_eq!(display.context.gpu.viewport, Some((1024, 768)));
}

#[test]
fn typed_vertex_records_serialize_through_their_shape() {
    let mut display = WindowBuilder::new().build_simple_gl().unwrap();
    let vertices = vec![
        simple_gl::PositionVertex { x_bits: (-1.0f32).to_bits(), y_bits: (-1.0f32).to_bits() },
        simple_gl::PositionVertex { x_bits: 0.0f32.to_bits(), y_bits: 1.0f32.to_bits() },
        simple_gl::PositionVertex { x_bits: 1.0f32.to_bits(), y_bits: (-1.0f32).to_bits() },
    ];
    let vb = display.build_vertex_buffer(vertices.clone());
    assert_eq!(vb.elements_size, 8);
    assert_eq!(vb.bindings.entries.len(), 1);
    assert_eq!(vb.bindings.entries[0].name, b"iPosition".to_vec());
    assert_eq!(vb.bindings.entries[0].elems, 2);
    assert_eq!(vb.bindings.stride, 8);
    // The uploaded bytes are the records, component by component.
    let obj = display
        .context
        .gpu
        .objects
        .iter()
        .find(|o| simple_gl::object_id(o) == vb.id)
        .unwrap();
    if let simple_gl::gpu::GpuObject::Buffer { data, .. } = obj {
        let mut expected = Vec::new();
        for v in vertices.iter() {
            expected.extend_from_slice(&v.x_bits.to_le_bytes());
            expected.extend_from_slice(&v.y_bits.to_le_bytes());
        }
        assert_eq!(data, &expected);
    } else {
        panic!("not a buffer");
    }
}
