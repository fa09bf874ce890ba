//! Texture construction: size validation, shape selection, and read-back.

use simple_gl::DisplayBuild;
use simple_gl::F32Bits;
use simple_gl::Texture;
use simple_gl::TextureError;
use simple_gl::WindowBuilder;
use simple_gl::gl;

fn texels(n: usize) -> Vec<F32Bits> {
    (0..n).map(|i| F32Bits { bits: i as u32 }).collect()
}

#[test]
fn size_mismatch_is_a_fatal_construction_error() {
    let mut display = WindowBuilder::new().build_simple_gl().unwrap();
    // off by one, both ways
    assert_eq!(
        Texture::new(&mut display, &texels(5), 2, 3, 1, 1).err(),
        Some(TextureError::DataSizeMismatch)
    );
    assert_eq!(
        Texture::new(&mut display, &texels(7), 2, 3, 1, 1).err(),
        Some(TextureError::DataSizeMismatch)
    );
    // a zero dimension demands an empty texel list
    assert_eq!(
        Texture::new(&mut display, &texels(4), 0, 4, 1, 1).err(),
        Some(TextureError::DataSizeMismatch)
    );
    assert!(Texture::new(&mut display, &texels(0), 0, 4, 1, 1).is_ok());
    // the exact product is accepted
    assert!(Texture::new(&mut display, &texels(6), 2, 3, 1, 1).is_ok());
}

#[test]
fn bind_point_follows_the_dimensions() {
    let mut display = WindowBuilder::new().build_simple_gl().unwrap();
    let t = Texture::new(&mut display, &texels(4), 4, 1, 1, 1).unwrap();
    assert_eq!(t.texture.bind_point, gl::TEXTURE_1D);
    let t = Texture::new(&mut display, &texels(8), 4, 1, 1, 2).unwrap();
    assert_eq!(t.texture.bind_point, gl::TEXTURE_1D_ARRAY);
    let t = Texture::new(&mut display, &texels(8), 4, 2, 1, 1).unwrap();
    assert_eq!(t.texture.bind_point, gl::TEXTURE_2D);
    let t = Texture::new(&mut display, &texels(16), 4, 2, 1, 2).unwrap();
    assert_eq!(t.texture.bind_point, gl::TEXTURE_2D_ARRAY);
    let t = Texture::new(&mut display, &texels(16), 4, 2, 2, 1).unwrap();
    assert_eq!(t.texture.bind_point, gl::TEXTURE_3D);
}

#[test]
fn getters_report_the_shape() {
    let mut display = WindowBuilder::new().build_simple_gl().unwrap();
    let t = Texture::new(&mut display, &texels(24), 4, 3, 2, 1).unwrap();
    assert_eq!(t.get_width(), 4);
    assert_eq!(t.get_height(), 3);
    assert_eq!(t.get_depth(), 2);
    assert_eq!(t.get_array_size(), 1);
}

#[test]
fn read_returns_the_uploaded_bytes() {
    let mut display = WindowBuilder::new().build_simple_gl().unwrap();
    let data = texels(6);
    let t = Texture::new(&mut display, &data, 3, 2, 1, 1).unwrap();
    let bytes = t.read(&mut display);
    let mut expected = Vec::new();
    for x in data.iter() {
        expected.extend_from_slice(&x.bits.to_le_bytes());
    }
    assert_eq!(bytes, expected);
}

#[test]
fn unpack_alignment_rule() {
    let mut display = WindowBuilder::new().build_simple_gl().unwrap();
    let t = Texture::new(&mut display, &texels(8), 4, 2, 1, 1).unwrap();
    let obj = display
        .context
        .gpu
        .objects
        .iter()
        .find(|o| matches!(o, simple_gl::gpu::GpuObject::Texture { id, .. } if *id == t.texture.id))
        .unwrap();
    if let simple_gl::gpu::GpuObject::Texture { unpack_alignment, format, data_type, .. } = obj {
        assert_eq!(*unpack_alignment, 4);
        assert_eq!(*format, gl::RED);
        assert_eq!(*data_type, gl::FLOAT);
    }
    // width 3 and even height align to 2; both odd align to 1
    let t = Texture::new(&mut display, &texels(6), 3, 2, 1, 1).unwrap();
    let obj = display
        .context
        .gpu
        .objects
        .iter()
        .find(|o| matches!(o, simple_gl::gpu::GpuObject::Texture { id, .. } if *id == t.texture.id))
        .unwrap();
    if let simple_gl::gpu::GpuObject::Texture { unpack_alignment, .. } = obj {
        assert_eq!(*unpack_alignment, 2);
    }
    let t = Texture::new(&mut display, &texels(9), 3, 3, 1, 1).unwrap();
    let obj = display
        .context
        .gpu
        .objects
        .iter()
        .find(|o| matches!(o, simple_gl::gpu::GpuObject::Texture { id, .. } if *id == t.texture.id))
        .unwrap();
    if let simple_gl::gpu::GpuObject::Texture { unpack_alignment, .. } = obj {
        assert_eq!(*unpack_alignment, 1);
    }
}

#[test]
fn drawing_on_a_texture_goes_through_a_framebuffer() {
    let mut display = WindowBuilder::new().build_simple_gl().unwrap();
    let mut t = Texture::new(&mut display, &texels(4), 2, 2, 1, 1).unwrap();
    let target = t.draw(&mut display);
    let fbo_id = target.framebuffer.as_ref().unwrap().id;
    // The framebuffer has the texture attached as its color target.
    let obj = display
        .context
        .gpu
        .objects
        .iter()
        .find(|o| matches!(o, simple_gl::gpu::GpuObject::Framebuffer { id, .. } if *id == fbo_id))
        .unwrap();
    if let simple_gl::gpu::GpuObject::Framebuffer { attachment, .. } = obj {
        assert_eq!(*attachment, Some(t.texture.id));
    }
    // Finishing a texture target swaps nothing and releases the
    // framebuffer.
    let frames_before = display.context.gpu.frames.len();
    target.finish(&mut display);
    assert_eq!(display.context.gpu.frames.len(), frames_before);
    assert_eq!(
        display.delete_log.iter().filter(|&&id| id == fbo_id).count(),
        1
    );
}
