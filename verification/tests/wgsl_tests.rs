use feature_extractor::textfmt::{dec_i64, dec_u64};
use feature_extractor::util::{Binding, Group, WorkgroupSize};
use feature_extractor::wgsl::buffer::OutputBufferDecl;
use feature_extractor::wgsl::compute_shader_source::ComputeShaderSource;
use feature_extractor::wgsl::declaration::{AccessMode, AddressSpace, LocalVarDecl};
use feature_extractor::wgsl::expression::Expression;
use feature_extractor::wgsl::statement::{Assignment, BufferWrite, Statement};
use feature_extractor::wgsl::texture::Texture2dDecl;
use feature_extractor::wgsl::{FVec4, IVec2, Wgsl, I32, U32};
use std::marker::PhantomData;

#[test]
fn decimal_rendering() {
    assert_eq!(dec_u64(0), "0");
    assert_eq!(dec_u64(255), "255");
    assert_eq!(dec_u64(u64::MAX), "18446744073709551615");
    assert_eq!(dec_i64(-7), "-7");
    assert_eq!(dec_i64(i64::MIN), "-9223372036854775808");
}

#[test]
fn expressions_compose_with_parentheses() {
    let a = Expression::<I32>::lit(3);
    let b = Expression::<I32>::lit(-4);
    assert_eq!(a.plus(&b).wgsl(), "(3 + -4)");
    assert_eq!(a.minus(&b).wgsl(), "(3 - -4)");
    assert_eq!(a.times(&b).wgsl(), "(3 * -4)");
}

#[test]
fn clamp_and_construct_render_exactly() {
    let v = Expression::<I32>::lit(9);
    let clamped = v.clamped(&Expression::<I32>::lit(0), &Expression::<I32>::lit(15));
    assert_eq!(clamped.wgsl(), "clamp(9, 0, 15)");
    let pair = Expression::<IVec2>::construct(&clamped, &Expression::<I32>::lit(2));
    assert_eq!(pair.wgsl(), "vec2<i32>(clamp(9, 0, 15), 2)");
}

#[test]
fn address_space_and_access_mode_words() {
    assert_eq!(AddressSpace::Storage.wgsl(), "storage");
    assert_eq!(AddressSpace::Function.wgsl(), "function");
    assert_eq!(AccessMode::Read.wgsl(), "read");
    assert_eq!(AccessMode::Write.wgsl(), "write");
    assert_eq!(AccessMode::ReadWrite.wgsl(), "read_write");
}

#[test]
fn local_var_declarations_render() {
    let bare = LocalVarDecl::<FVec4> { name: "acc".to_string(), initializer: None };
    assert_eq!(bare.wgsl(), "var acc: vec4<f32>;");
    assert_eq!(bare.as_expr().wgsl(), "acc");
    let init = LocalVarDecl::<U32> {
        name: "level".to_string(),
        initializer: Some(Expression::<U32>::lit(0)),
    };
    assert_eq!(init.wgsl(), "var level: u32 = 0;");
}

#[test]
fn texture_declaration_and_fetches() {
    let tex = Texture2dDecl { group: Group(0), binding: Binding(0), name: "img".to_string() };
    assert_eq!(tex.wgsl(), "@group(0) @binding(0) var img : texture_2d<f32>;");
    let coords = Expression::<IVec2>::construct(&Expression::<I32>::lit(1), &Expression::<I32>::lit(2));
    let sample = tex.textureLoad(&coords, &Expression::<U32>::lit(0));
    assert_eq!(sample.wgsl(), "textureLoad(img, vec2<i32>(1, 2), 0)");
    assert_eq!(tex.textureDimensions().wgsl(), "textureDimensions(img)");
}

#[test]
fn whole_kernel_source_renders_in_insertion_order() {
    let tex = Texture2dDecl { group: Group(0), binding: Binding(0), name: "img".to_string() };
    let buf = OutputBufferDecl::<FVec4> {
        group: Group(0),
        binding: Binding(1),
        name: "out_buf".to_string(),
        marker: PhantomData,
    };
    let acc = LocalVarDecl::<FVec4> { name: "acc".to_string(), initializer: None };
    let gid = ComputeShaderSource::global_invocation_id();
    let sample = tex.textureLoad(
        &Expression::<IVec2>::construct(&Expression::<I32>::lit(0), &Expression::<I32>::lit(0)),
        &Expression::<U32>::lit(0),
    );
    let source = ComputeShaderSource {
        workgroup_size: WorkgroupSize { x: 8, y: 8, z: 1 },
        main_fn_name: "main".to_string(),
        input_textures: vec![tex.duplicate()],
        output_buffers: vec![buf.duplicate()],
        statements: vec![
            Statement::Declaration(acc.duplicate()),
            Statement::Assignment(Assignment { assignee: acc.duplicate(), value: sample }),
            Statement::BufferWrite(BufferWrite {
                buffer: buf.duplicate(),
                index: gid.x(),
                value: acc.as_expr(),
            }),
        ],
    };
    let expected = "@group(0) @binding(0) var img : texture_2d<f32>;\n\n\
        @group(0) @binding(1) var<storage, write> out_buf : array<vec4<f32>>;\n\n\
        @compute @workgroup_size(8, 8, 1)\n\
        fn main(@builtin(global_invocation_id) global_invocation_id : vec3<u32>) {\n\
        var acc: vec4<f32>;\n\
        acc = textureLoad(img, vec2<i32>(0, 0), 0);\n\
        out_buf[global_invocation_id.x] = acc;\n\
        }\n";
    assert_eq!(source.wgsl(), expected);
}

#[test]
fn scalar_broadcast_multiply_is_the_one_mixed_overload() {
    let w = Expression::<feature_extractor::wgsl::F32>::new("0.5".to_string());
    let sample = Expression::<FVec4>::new("sample".to_string());
    assert_eq!(w.times_vec4(&sample).wgsl(), "(0.5 * sample)");
}
