//! Edge behaviour: futures, fatal draw-time errors, and tolerated lookups.

use simple_gl::gl;
use simple_gl::gpu::{CmdResult, GlCmd};
use simple_gl::DisplayBuild;
use simple_gl::IndexBuffer;
use simple_gl::LoopState;
use simple_gl::Mat2;
use simple_gl::PrimitiveType;
use simple_gl::Program;
use simple_gl::VertexBuffer;
use simple_gl::VertexFormatBuilder;
use simple_gl::WindowBuilder;

#[test]
fn queued_commands_resolve_by_ticket() {
    let mut display = WindowBuilder::new().build_simple_gl().unwrap();
    let ticket = display.context.exec(GlCmd::Clear);
    assert!(display.context.get_result(ticket).is_none());
    display.swap_buffers();
    display.run_frame(None, Vec::new());
    assert!(matches!(
        display.context.get_result(ticket),
        Some(CmdResult::Done)
    ));
    // The clear was counted into the finished frame.
    assert_eq!(display.context.gpu.frames.last().unwrap().clears, 1);
}

#[test]
fn unsupported_uniform_upload_kills_the_consumer() {
    let mut display = WindowBuilder::new().build_simple_gl().unwrap();
    let p = Program::new(
        &mut display,
        " uniform mat2 uSmall ; attribute vec2 iPosition ; ",
        " void main ( ) { } ",
        None,
    )
    .unwrap();
    let mut uniforms = p.build_uniforms();
    // A 2x2 matrix is a declared type the draw-time upload path does not
    // implement: storing it succeeds, drawing with it is fatal.
    uniforms
        .set_value("uSmall", Mat2 { coefficients: [0, 0, 0, 0] })
        .unwrap();
    let mut b = VertexFormatBuilder::new();
    b.add_field(b"iPosition".to_vec(), gl::FLOAT, 2).unwrap();
    let vb = VertexBuffer::new_raw(&mut display, vec![0u8; 24], b.build());
    let ib = IndexBuffer::new(&mut display, PrimitiveType::TrianglesList, &[0u8, 1, 2]);
    let mut target = display.draw();
    target.draw(&mut display, &(&vb, &ib, &uniforms));
    assert!(matches!(display.context.state, LoopState::Stopped));
    assert_eq!(
        display.context.failure.as_deref(),
        Some("Loading uniforms for this type not implemented")
    );
}

#[test]
fn integer_attributes_the_program_declares_are_fatal() {
    let mut display = WindowBuilder::new().build_simple_gl().unwrap();
    let p = Program::new(
        &mut display,
        " attribute int iIndex ; ",
        " void main ( ) { } ",
        None,
    )
    .unwrap();
    let uniforms = p.build_uniforms();
    let mut b = VertexFormatBuilder::new();
    b.add_field(b"iIndex".to_vec(), gl::INT, 1).unwrap();
    let vb = VertexBuffer::new_raw(&mut display, vec![0u8; 12], b.build());
    let ib = IndexBuffer::new(&mut display, PrimitiveType::TrianglesList, &[0u8, 1, 2]);
    let mut target = display.draw();
    target.draw(&mut display, &(&vb, &ib, &uniforms));
    assert!(matches!(display.context.state, LoopState::Stopped));
    assert_eq!(display.context.failure.as_deref(), Some("Not supported"));
}

#[test]
fn attributes_the_program_does_not_declare_are_skipped() {
    let mut display = WindowBuilder::new().build_simple_gl().unwrap();
    let p = Program::new(
        &mut display,
        " attribute vec2 iPosition ; ",
        " void main ( ) { } ",
        None,
    )
    .unwrap();
    let uniforms = p.build_uniforms();
    // The vertex shape supplies a second field the shader never declares:
    // it is simply not bound, and that is no error.
    let mut b = VertexFormatBuilder::new();
    b.add_field(b"iPosition".to_vec(), gl::FLOAT, 2).unwrap();
    b.add_field(b"iUnused".to_vec(), gl::FLOAT, 3).unwrap();
    let vb = VertexBuffer::new_raw(&mut display, vec![0u8; 60], b.build());
    let ib = IndexBuffer::new(&mut display, PrimitiveType::TrianglesList, &[0u8, 1, 2]);
    let mut target = display.draw();
    target.draw(&mut display, &(&vb, &ib, &uniforms));
    target.finish(&mut display);
    display.run_frame(None, Vec::new());
    let frame = display.context.gpu.frames.last().unwrap();
    assert_eq!(frame.draws.len(), 1);
    assert_eq!(frame.draws[0].enabled_attributes, vec![0]);
}

#[test]
fn a_dead_consumer_reports_broken_builds() {
    let mut display = WindowBuilder::new().build_simple_gl().unwrap();
    display.context.state = LoopState::Stopped;
    let r = display.context.run_one(GlCmd::GenFramebuffer);
    assert!(r.is_err());
}

#[test]
fn geometry_shaders_link_into_the_program() {
    let mut display = WindowBuilder::new().build_simple_gl().unwrap();
    let p = Program::new(
        &mut display,
        " uniform float uA ; ",
        " uniform float uC ; ",
        Some(" uniform float uB ; "),
    )
    .unwrap();
    // Reflection follows attachment order: vertex, geometry, fragment.
    let names: Vec<&[u8]> = p.program.uniforms.iter().map(|d| d.name.as_slice()).collect();
    assert_eq!(
        names,
        vec![b"uA".as_slice(), b"uB".as_slice(), b"uC".as_slice()]
    );
    assert_eq!(p.program.shaders.len(), 3);
}
