//! Uniform value semantics: storage round trips, silent misses, and type
//! mismatches.

use simple_gl::DisplayBuild;
use simple_gl::F32Bits;
use simple_gl::Mat2;
use simple_gl::Mat4;
use simple_gl::Program;
use simple_gl::UniformError;
use simple_gl::WindowBuilder;
use simple_gl::gl;
use simple_gl::IndexBuffer;
use simple_gl::PrimitiveType;
use simple_gl::VertexBuffer;
use simple_gl::VertexFormatBuilder;

const VERTEX_SRC: &str = "
    uniform mat4 uMatrix ;
    uniform float uAlpha ;
    uniform mat2 uSmall ;
    uniform sampler2D uSampler ;
    attribute vec2 iPosition ;
";

const FRAGMENT_SRC: &str = " void main ( ) { } ";

fn program(display: &mut simple_gl::Display) -> Program {
    Program::new(display, VERTEX_SRC, FRAGMENT_SRC, None).unwrap()
}

#[test]
fn reflected_table_lists_declarations_in_order() {
    let mut display = WindowBuilder::new().build_simple_gl().unwrap();
    let p = program(&mut display);
    let names: Vec<&[u8]> = p.program.uniforms.iter().map(|d| d.name.as_slice()).collect();
    assert_eq!(
        names,
        vec![
            b"uMatrix".as_slice(),
            b"uAlpha".as_slice(),
            b"uSmall".as_slice(),
            b"uSampler".as_slice()
        ]
    );
    let locations: Vec<i32> = p.program.uniforms.iter().map(|d| d.location).collect();
    assert_eq!(locations, vec![0, 1, 2, 3]);
    let types: Vec<u32> = p.program.uniforms.iter().map(|d| d.gltype).collect();
    assert_eq!(
        types,
        vec![gl::FLOAT_MAT4, gl::FLOAT, gl::FLOAT_MAT2, gl::SAMPLER_2D]
    );
}

#[test]
fn stored_value_reproduces_the_bits_exactly() {
    let mut display = WindowBuilder::new().build_simple_gl().unwrap();
    let p = program(&mut display);
    let mut uniforms = p.build_uniforms();
    let alpha = 0.625f32;
    uniforms
        .set_value("uAlpha", F32Bits { bits: alpha.to_bits() })
        .unwrap();
    assert_eq!(uniforms.values.len(), 1);
    let (loc, gltype, blob) = &uniforms.values[0];
    assert_eq!(*loc, 1);
    assert_eq!(*gltype, gl::FLOAT);
    assert_eq!(blob.as_slice(), &alpha.to_bits().to_le_bytes());
}

#[test]
fn uploaded_value_reproduces_the_bits_through_the_draw_path() {
    let mut display = WindowBuilder::new().build_simple_gl().unwrap();
    let p = program(&mut display);
    let mut uniforms = p.build_uniforms();
    let alpha = -3.5f32;
    uniforms
        .set_value("uAlpha", F32Bits { bits: alpha.to_bits() })
        .unwrap();

    let mut b = VertexFormatBuilder::new();
    b.add_field(b"iPosition".to_vec(), gl::FLOAT, 2).unwrap();
    let vb = VertexBuffer::new_raw(&mut display, vec![0u8; 24], b.build());
    let ib = IndexBuffer::new(&mut display, PrimitiveType::TrianglesList, &[0u8, 1, 2]);

    let mut target = display.draw();
    target.draw(&mut display, &(&vb, &ib, &uniforms));
    target.finish(&mut display);
    display.run_frame(None, Vec::new());

    let frame = display.context.gpu.frames.last().unwrap();
    let uploaded = &frame.draws[0].uniform_values;
    assert_eq!(uploaded.len(), 1);
    assert_eq!(uploaded[0].0, 1);
    assert_eq!(uploaded[0].1, gl::FLOAT);
    assert_eq!(uploaded[0].2.as_slice(), &alpha.to_bits().to_le_bytes());
}

#[test]
fn setting_an_absent_uniform_is_a_silent_no_op() {
    let mut display = WindowBuilder::new().build_simple_gl().unwrap();
    let p = program(&mut display);
    let mut uniforms = p.build_uniforms();
    let r = uniforms.set_value("uNowhere", F32Bits { bits: 0 });
    assert!(r.is_ok());
    // The uniform map is unchanged in size.
    assert_eq!(uniforms.values.len(), 0);
}

#[test]
fn mismatched_types_always_fail() {
    let mut display = WindowBuilder::new().build_simple_gl().unwrap();
    let p = program(&mut display);
    let mut uniforms = p.build_uniforms();
    // float uniform, matrix and integer values
    assert_eq!(
        uniforms.set_value("uAlpha", Mat4 { coefficients: [0; 16] }),
        Err(UniformError::TypeMismatch)
    );
    assert_eq!(
        uniforms.set_value("uAlpha", 7u8),
        Err(UniformError::TypeMismatch)
    );
    // mat4 uniform, float and mat2 values
    assert_eq!(
        uniforms.set_value("uMatrix", F32Bits { bits: 0 }),
        Err(UniformError::TypeMismatch)
    );
    assert_eq!(
        uniforms.set_value("uMatrix", Mat2 { coefficients: [0; 4] }),
        Err(UniformError::TypeMismatch)
    );
    // mat2 uniform, short value
    assert_eq!(
        uniforms.set_value("uSmall", -2i16),
        Err(UniformError::TypeMismatch)
    );
    // nothing was stored by any failed call
    assert_eq!(uniforms.values.len(), 0);
}

#[test]
fn overwriting_a_value_keeps_one_entry_per_location() {
    let mut display = WindowBuilder::new().build_simple_gl().unwrap();
    let p = program(&mut display);
    let mut uniforms = p.build_uniforms();
    uniforms.set_value("uAlpha", F32Bits { bits: 1 }).unwrap();
    uniforms.set_value("uAlpha", F32Bits { bits: 2 }).unwrap();
    assert_eq!(uniforms.values.len(), 1);
    assert_eq!(uniforms.values[0].2.as_slice(), &2u32.to_le_bytes());
}

#[test]
fn binding_a_texture_to_a_non_sampler_fails() {
    let mut display = WindowBuilder::new().build_simple_gl().unwrap();
    let p = program(&mut display);
    let mut uniforms = p.build_uniforms();
    let texels = vec![F32Bits { bits: 0 }; 4];
    let tex = simple_gl::Texture::new(&mut display, &texels, 2, 2, 1, 1).unwrap();
    assert_eq!(
        uniforms.set_texture(&mut display, "uAlpha", &tex),
        Err(UniformError::NotSampler)
    );
    assert!(uniforms
        .set_texture(&mut display, "uSampler", &tex)
        .is_ok());
    assert_eq!(uniforms.textures.len(), 1);
    assert_eq!(uniforms.textures[0], (3, tex.texture.id));
    // Missing names are tolerated for textures too.
    assert!(uniforms
        .set_texture(&mut display, "uNowhere", &tex)
        .is_ok());
    assert_eq!(uniforms.textures.len(), 1);
}

#[test]
fn shader_interface_reflection_scans_declarations() {
    let source = b"uniform float a ; attribute vec3 b ; uniform mat4 c ; uniform unknown d ;";
    let decls = simple_gl::glsl::reflect(source, b"uniform");
    let pairs: Vec<(&[u8], u32)> = decls.iter().map(|d| (d.0.as_slice(), d.1)).collect();
    assert_eq!(
        pairs,
        vec![(b"a".as_slice(), gl::FLOAT), (b"c".as_slice(), gl::FLOAT_MAT4)]
    );
    let attrs = simple_gl::glsl::reflect(source, b"attribute");
    let pairs: Vec<(&[u8], u32)> = attrs.iter().map(|d| (d.0.as_slice(), d.1)).collect();
    assert_eq!(pairs, vec![(b"b".as_slice(), gl::FLOAT_VEC3)]);
}

#[test]
fn empty_shader_source_is_a_compile_error() {
    let mut display = WindowBuilder::new().build_simple_gl().unwrap();
    let r = Program::new(&mut display, "", FRAGMENT_SRC, None);
    assert_eq!(
        r.err().unwrap(),
        "shader compilation failed: empty source".to_string()
    );
    let r = Program::new(&mut display, VERTEX_SRC, "", None);
    assert!(r.is_err());
    let r = Program::new(&mut display, VERTEX_SRC, FRAGMENT_SRC, Some(""));
    assert!(r.is_err());
    // The display keeps working after failed builds.
    assert!(Program::new(&mut display, VERTEX_SRC, FRAGMENT_SRC, None).is_ok());
}
