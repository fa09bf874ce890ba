//! Reference-counted resource lifetime: exactly one deletion command per
//! resource, never more.

use simple_gl::DisplayBuild;
use simple_gl::F32Bits;
use simple_gl::IndexBuffer;
use simple_gl::PrimitiveType;
use simple_gl::Program;
use simple_gl::Texture;
use simple_gl::WindowBuilder;

#[test]
fn releasing_the_last_handle_enqueues_exactly_one_deletion() {
    let mut display = WindowBuilder::new().build_simple_gl().unwrap();
    let ib = IndexBuffer::new(&mut display, PrimitiveType::PointsList, &[0u8, 1]);
    let id = ib.id;
    assert_eq!(display.delete_log.iter().filter(|&&x| x == id).count(), 0);
    ib.release(&mut display);
    // exactly one deletion command, and it is queued, not yet applied
    assert_eq!(display.delete_log.iter().filter(|&&x| x == id).count(), 1);
    assert_eq!(display.context.pending.len(), 1);
    // the deletion runs at an unspecified later time, at the next frame run
    display.run_frame(None, Vec::new());
    assert_eq!(display.delete_log.iter().filter(|&&x| x == id).count(), 1);
}

#[test]
fn a_texture_retained_by_uniforms_outlives_its_handle() {
    let mut display = WindowBuilder::new().build_simple_gl().unwrap();
    let p = Program::new(
        &mut display,
        " uniform sampler2D uSampler ; ",
        " void main ( ) { } ",
        None,
    )
    .unwrap();
    let mut uniforms = p.build_uniforms();
    let texels = vec![F32Bits { bits: 7 }; 4];
    let tex = Texture::new(&mut display, &texels, 2, 2, 1, 1).unwrap();
    let id = tex.texture.id;
    uniforms.set_texture(&mut display, "uSampler", &tex).unwrap();
    // the binding holds a second reference, so releasing the handle does
    // not retire the texture
    tex.release(&mut display);
    assert_eq!(display.delete_log.iter().filter(|&&x| x == id).count(), 0);
    assert!(display.registry.iter().any(|e| e.id == id && e.count == 1));
}

#[test]
fn every_resource_kind_is_deleted_once() {
    let mut display = WindowBuilder::new().build_simple_gl().unwrap();
    let ib = IndexBuffer::new(&mut display, PrimitiveType::PointsList, &[0u8]);
    let texels = vec![F32Bits { bits: 0 }; 1];
    let tex = Texture::new(&mut display, &texels, 1, 1, 1, 1).unwrap();
    let fbo = simple_gl::FrameBufferObject::new(&mut display);
    let rb = simple_gl::RenderBuffer::new(&mut display);
    let ids = [ib.id, tex.texture.id, fbo.id, rb.id];
    ib.release(&mut display);
    tex.release(&mut display);
    fbo.release(&mut display);
    rb.release(&mut display);
    for id in ids {
        assert_eq!(display.delete_log.iter().filter(|&&x| x == id).count(), 1);
    }
    // applying the queued deletions removes the objects from the server
    display.run_frame(None, Vec::new());
    for id in ids {
        assert!(!display
            .context
            .gpu
            .objects
            .iter()
            .any(|o| simple_gl::object_id(o) == id));
    }
}

#[test]
fn get_clone_and_get_impl_expose_the_identity() {
    let mut display = WindowBuilder::new().build_simple_gl().unwrap();
    let ib = IndexBuffer::new(&mut display, PrimitiveType::TrianglesList, &[0u16, 1, 2]);
    let (id, count, data_type, primitives) = simple_gl::get_clone(&ib);
    assert_eq!(id, ib.id);
    assert_eq!(count, 3);
    assert_eq!(data_type, simple_gl::gl::UNSIGNED_SHORT);
    assert_eq!(primitives, simple_gl::gl::TRIANGLES);
    let texels = vec![F32Bits { bits: 0 }; 1];
    let tex = Texture::new(&mut display, &texels, 1, 1, 1, 1).unwrap();
    let imp = simple_gl::get_impl(&tex);
    assert_eq!(imp.id, tex.texture.id);
    assert_eq!(imp.width, 1);
}

#[test]
fn an_empty_index_list_builds_an_empty_buffer() {
    let mut display = WindowBuilder::new().build_simple_gl().unwrap();
    let empty: [u16; 0] = [];
    let ib = IndexBuffer::new(&mut display, PrimitiveType::TrianglesList, &empty);
    assert_eq!(ib.elements_count, 0);
    assert_eq!(ib.data_type, simple_gl::gl::UNSIGNED_SHORT);
    let obj = display
        .context
        .gpu
        .objects
        .iter()
        .find(|o| simple_gl::object_id(o) == ib.id)
        .unwrap();
    if let simple_gl::gpu::GpuObject::Buffer { data, .. } = obj {
        assert!(data.is_empty());
    } else {
        panic!("not a buffer");
    }
    ib.release(&mut display);
}
