//! Vertex layout determinism and the data-type registry.

use simple_gl::gl;
use simple_gl::GLDataTuple;
use simple_gl::GLDataType;
use simple_gl::F32Bits;
use simple_gl::UniformValue;
use simple_gl::VertexFormatBuilder;
use simple_gl::PrimitiveType;

#[test]
fn offsets_accumulate_field_by_field() {
    // A struct with field A of 2 floats then field B of 3 floats lays out
    // as A at offset 0, B at offset 8, with a total stride of 20.
    let mut b = VertexFormatBuilder::new();
    b.add_field(b"A".to_vec(), gl::FLOAT, 2).unwrap();
    b.add_field(b"B".to_vec(), gl::FLOAT, 3).unwrap();
    let bindings = b.build();
    assert_eq!(bindings.entries.len(), 2);
    assert_eq!(bindings.entries[0].offset, 0);
    assert_eq!(bindings.entries[1].offset, 8);
    assert_eq!(bindings.stride, 20);
}

#[test]
fn mixed_component_types_lay_out_by_size() {
    let mut b = VertexFormatBuilder::new();
    b.add_field(b"a".to_vec(), gl::UNSIGNED_BYTE, 4).unwrap();
    b.add_field(b"b".to_vec(), gl::SHORT, 2).unwrap();
    b.add_field(b"c".to_vec(), gl::DOUBLE, 1).unwrap();
    let bindings = b.build();
    assert_eq!(bindings.entries[0].offset, 0);
    assert_eq!(bindings.entries[1].offset, 4);
    assert_eq!(bindings.entries[2].offset, 8);
    assert_eq!(bindings.stride, 16);
}

#[test]
fn unknown_component_types_are_refused() {
    let mut b = VertexFormatBuilder::new();
    assert!(b.add_field(b"bad".to_vec(), gl::TEXTURE_2D, 2).is_err());
    let bindings = b.build();
    assert_eq!(bindings.entries.len(), 0);
    assert_eq!(bindings.stride, 0);
}

#[test]
fn scalar_type_tags() {
    assert_eq!(GLDataType::get_gl_type(&0i8), gl::BYTE);
    assert_eq!(GLDataType::get_gl_type(&0u8), gl::UNSIGNED_BYTE);
    assert_eq!(GLDataType::get_gl_type(&0i16), gl::SHORT);
    assert_eq!(GLDataType::get_gl_type(&0u16), gl::UNSIGNED_SHORT);
}

#[test]
fn texel_shapes() {
    let t1 = F32Bits { bits: 0 };
    assert_eq!(GLDataTuple::get_gl_type(&t1), gl::FLOAT);
    assert_eq!(t1.get_num_elems(), 1);
    assert_eq!(t1.get_total_size(), 4);
    let t3 = [F32Bits { bits: 0 }; 3];
    assert_eq!(GLDataTuple::get_gl_type(&t3), gl::FLOAT);
    assert_eq!(t3.get_num_elems(), 3);
    assert_eq!(t3.get_total_size(), 12);
}

#[test]
fn uniform_value_encodings() {
    assert_eq!(UniformValue::to_byte_vec(&0x1234u16), vec![0x34, 0x12]);
    assert_eq!(UniformValue::to_byte_vec(&-1i8), vec![0xff]);
    let f = F32Bits { bits: 1.5f32.to_bits() };
    assert_eq!(
        UniformValue::to_byte_vec(&f),
        1.5f32.to_bits().to_le_bytes().to_vec()
    );
    let m = simple_gl::Mat2 { coefficients: [1, 2, 3, 4] };
    let mut expected = Vec::new();
    for c in [1u32, 2, 3, 4] {
        expected.extend_from_slice(&c.to_le_bytes());
    }
    assert_eq!(UniformValue::to_byte_vec(&m), expected);
    assert_eq!(UniformValue::get_gl_type(&m), gl::FLOAT_MAT2);
}

#[test]
fn primitive_topology_tags() {
    assert_eq!(PrimitiveType::PointsList.get_gl_enum(), 0x0000);
    assert_eq!(PrimitiveType::TrianglesList.get_gl_enum(), 0x0004);
    assert_eq!(PrimitiveType::TriangleFan.get_gl_enum(), 0x0006);
}
