//! A typed intermediate representation for the expressions, declarations and
//! statements of the generated WGSL compute kernel. Every building block
//! renders to deterministic source text, pinned down by `wgsl_spec`.

use vstd::prelude::*;

pub mod buffer;
pub mod compute_shader_source;
pub mod declaration;
pub mod expression;
pub mod statement;
pub mod texture;

verus! {

/// Anything that renders to a fragment of kernel source text.
pub trait Wgsl {
    /// The exact text this value renders to.
    spec fn wgsl_spec(&self) -> Seq<char>;

    /// Render the fragment.
    fn wgsl(&self) -> (r: String)
        ensures
            r@ == self.wgsl_spec(),
    ;
}

/// An element type of the kernel language: its WGSL type name and its size
/// in bytes when stored in a tightly packed buffer.
pub trait ShaderTypeExt {
    /// The WGSL name of the type, e.g. `vec4<f32>`.
    spec fn spec_type_name() -> Seq<char>;

    /// The byte size of one element in a packed buffer.
    spec fn spec_size_bytes() -> nat;

    fn wgsl_type_name() -> (r: String)
        ensures
            r@ == Self::spec_type_name(),
    ;

    fn size_bytes() -> (r: u32)
        ensures
            r as nat == Self::spec_size_bytes(),
    ;
}

/// Marker for the WGSL scalar type `f32`.
pub struct F32;

/// Marker for the WGSL scalar type `u32`.
pub struct U32;

/// Marker for the WGSL scalar type `i32`.
pub struct I32;

/// Marker for the WGSL type `vec4<f32>`.
pub struct FVec4;

/// Marker for the WGSL type `vec3<f32>`.
pub struct FVec3;

/// Marker for the WGSL type `vec3<u32>`.
pub struct UVec3;

/// Marker for the WGSL type `vec2<u32>`.
pub struct UVec2;

/// Marker for the WGSL type `vec2<i32>`.
pub struct IVec2;

impl ShaderTypeExt for F32 {
    open spec fn spec_type_name() -> Seq<char> {
        "f32"@
    }

    open spec fn spec_size_bytes() -> nat {
        4
    }

    fn wgsl_type_name() -> (r: String) {
        String::from_str("f32")
    }

    fn size_bytes() -> (r: u32) {
        4
    }
}

impl ShaderTypeExt for U32 {
    open spec fn spec_type_name() -> Seq<char> {
        "u32"@
    }

    open spec fn spec_size_bytes() -> nat {
        4
    }

    fn wgsl_type_name() -> (r: String) {
        String::from_str("u32")
    }

    fn size_bytes() -> (r: u32) {
        4
    }
}

impl ShaderTypeExt for I32 {
    open spec fn spec_type_name() -> Seq<char> {
        "i32"@
    }

    open spec fn spec_size_bytes() -> nat {
        4
    }

    fn wgsl_type_name() -> (r: String) {
        String::from_str("i32")
    }

    fn size_bytes() -> (r: u32) {
        4
    }
}

impl ShaderTypeExt for FVec4 {
    open spec fn spec_type_name() -> Seq<char> {
        "vec4<f32>"@
    }

    open spec fn spec_size_bytes() -> nat {
        16
    }

    fn wgsl_type_name() -> (r: String) {
        String::from_str("vec4<f32>")
    }

    fn size_bytes() -> (r: u32) {
        16
    }
}

impl ShaderTypeExt for FVec3 {
    open spec fn spec_type_name() -> Seq<char> {
        "vec3<f32>"@
    }

    open spec fn spec_size_bytes() -> nat {
        12
    }

    fn wgsl_type_name() -> (r: String) {
        String::from_str("vec3<f32>")
    }

    fn size_bytes() -> (r: u32) {
        12
    }
}

impl ShaderTypeExt for UVec3 {
    open spec fn spec_type_name() -> Seq<char> {
        "vec3<u32>"@
    }

    open spec fn spec_size_bytes() -> nat {
        12
    }

    fn wgsl_type_name() -> (r: String) {
        String::from_str("vec3<u32>")
    }

    fn size_bytes() -> (r: u32) {
        12
    }
}

impl ShaderTypeExt for UVec2 {
    open spec fn spec_type_name() -> Seq<char> {
        "vec2<u32>"@
    }

    open spec fn spec_size_bytes() -> nat {
        8
    }

    fn wgsl_type_name() -> (r: String) {
        String::from_str("vec2<u32>")
    }

    fn size_bytes() -> (r: u32) {
        8
    }
}

impl ShaderTypeExt for IVec2 {
    open spec fn spec_type_name() -> Seq<char> {
        "vec2<i32>"@
    }

    open spec fn spec_size_bytes() -> nat {
        8
    }

    fn wgsl_type_name() -> (r: String) {
        String::from_str("vec2<i32>")
    }

    fn size_bytes() -> (r: u32) {
        8
    }
}

} // verus!
