//! Small shared value types: binding-slot coordinates, workgroup sizing and
//! image extents, with the integer arithmetic the dispatch math needs.

use vstd::prelude::*;

use crate::textfmt::{dec_u32, spec_dec_nat};
use crate::wgsl::{ShaderTypeExt, Wgsl};

verus! {

/// A bind-group index in the generated kernel interface.
#[derive(Copy, Clone)]
pub struct Group(pub u32);

/// A binding slot inside a bind group.
#[derive(Copy, Clone)]
pub struct Binding(pub u32);

impl Wgsl for Group {
    open spec fn wgsl_spec(&self) -> Seq<char> {
        spec_dec_nat(self.0 as nat)
    }

    fn wgsl(&self) -> (r: String) {
        dec_u32(self.0)
    }
}

impl Wgsl for Binding {
    open spec fn wgsl_spec(&self) -> Seq<char> {
        spec_dec_nat(self.0 as nat)
    }

    fn wgsl(&self) -> (r: String) {
        dec_u32(self.0)
    }
}

/// The fixed number of invocations a workgroup covers, per axis.
pub struct WorkgroupSize {
    pub x: u32,
    pub y: u32,
    pub z: u32,
}

impl Wgsl for WorkgroupSize {
    open spec fn wgsl_spec(&self) -> Seq<char> {
        "@workgroup_size("@ + spec_dec_nat(self.x as nat) + ", "@ + spec_dec_nat(self.y as nat)
            + ", "@ + spec_dec_nat(self.z as nat) + ")"@
    }

    fn wgsl(&self) -> (r: String) {
        let mut r = String::new();
        r.append("@workgroup_size(");
        let x = dec_u32(self.x);
        r.append(x.as_str());
        r.append(", ");
        let y = dec_u32(self.y);
        r.append(y.as_str());
        r.append(", ");
        let z = dec_u32(self.z);
        r.append(z.as_str());
        r.append(")");
        proof {
            assert(r@ =~= self.wgsl_spec());
        }
        r
    }
}

/// Number of channels in a pixel; never zero.
pub struct NumChannels(pub u8);

impl NumChannels {
    pub fn new(value: u8) -> (r: Self)
        requires
            value > 0,
        ensures
            r.0 == value,
    {
        NumChannels(value)
    }

    pub fn as_u32(&self) -> (r: u32)
        ensures
            r == self.0 as u32,
    {
        self.0 as u32
    }
}

/// A byte count.
#[derive(Copy, Clone)]
pub struct NumBytes(pub usize);

impl NumBytes {
    /// The byte size of `count` elements of `elem_size` bytes each.
    pub fn from_count_and_size(count: usize, elem_size: usize) -> (r: Self)
        requires
            count * elem_size <= usize::MAX,
        ensures
            r.0 == count * elem_size,
    {
        NumBytes(count * elem_size)
    }
}

/// The texture formats the pipeline can upload.
#[derive(Copy, Clone, PartialEq, Eq, Structural)]
pub enum TextureFormat {
    Rgba8Unorm,
}

/// Sample types an input texture declaration can carry.
#[derive(Copy, Clone, PartialEq, Eq, Structural)]
pub enum TextureSampleType {
    Float { filterable: bool },
}

/// View dimensions the pipeline understands.
#[derive(Copy, Clone, PartialEq, Eq, Structural)]
pub enum TextureViewDimension {
    D2,
    D3,
}

/// Width, height and depth of an image, in texels.
#[derive(Copy, Clone, PartialEq, Eq, Structural, Debug)]
pub struct Extent3d {
    pub width: u32,
    pub height: u32,
    pub depth_or_array_layers: u32,
}

impl Extent3d {
    /// Workgroup counts per axis: the extent divided by the workgroup size,
    /// rounded up, so every texel is covered.
    pub fn num_dispatch_work_groups(&self, size: &WorkgroupSize) -> (r: (u32, u32, u32))
        requires
            size.x > 0,
            size.y > 0,
            size.z > 0,
            self.width + size.x <= u32::MAX,
            self.height + size.y <= u32::MAX,
            self.depth_or_array_layers + size.z <= u32::MAX,
        ensures
            r.0 == (self.width + size.x - 1) as u32 / size.x,
            r.1 == (self.height + size.y - 1) as u32 / size.y,
            r.2 == (self.depth_or_array_layers + size.z - 1) as u32 / size.z,
            // every texel is covered, per axis
            r.0 as int * size.x as int >= self.width as int,
            r.1 as int * size.y as int >= self.height as int,
            r.2 as int * size.z as int >= self.depth_or_array_layers as int,
    {
        let x = (self.width + size.x - 1) / size.x;
        let y = (self.height + size.y - 1) / size.y;
        let z = (self.depth_or_array_layers + size.z - 1) / size.z;
        proof {
            lemma_ceil_div_covers(self.width as int, size.x as int);
            lemma_ceil_div_covers(self.height as int, size.y as int);
            lemma_ceil_div_covers(self.depth_or_array_layers as int, size.z as int);
        }
        (x, y, z)
    }

    /// Size in bytes of a host-readable copy of this extent, each row padded
    /// to the next multiple of 256 bytes.
    pub fn to_padded_buffer_size(&self, format: TextureFormat) -> (r: u32)
        requires
            self.width as int * 4 + 256 <= u32::MAX,
            (self.width as int * 4 + 256) * self.height as int <= u32::MAX,
        ensures
            r as int == (self.width as int * 4 + (256 - (self.width as int * 4) % 256))
                * self.height as int,
    {
        let bytes_per_texel: u32 = match format {
            TextureFormat::Rgba8Unorm => 4,
        };
        let actual_width = self.width * bytes_per_texel;
        let missing_padding = 256 - (actual_width % 256);
        let padded_width = actual_width + missing_padding;
        proof {
            assert(padded_width as int * self.height as int <= (self.width as int * 4 + 256)
                * self.height as int) by (nonlinear_arith)
                requires
                    padded_width as int <= self.width as int * 4 + 256,
                    self.height >= 0,
            ;
        }
        padded_width * self.height
    }

    /// Size in bytes of a tightly packed buffer with one element per texel.
    pub fn to_buffer_size<ElmntTy: ShaderTypeExt>(&self) -> (r: u64)
        requires
            ElmntTy::spec_size_bytes() >= 1,
            self.depth_or_array_layers >= 1,
            self.width as int * self.height as int * self.depth_or_array_layers as int
                * ElmntTy::spec_size_bytes() <= u64::MAX,
        ensures
            r as int == self.width as int * self.height as int
                * self.depth_or_array_layers as int * ElmntTy::spec_size_bytes(),
    {
        let bytes_per_element = ElmntTy::size_bytes();
        proof {
            lemma_partial_products_bounded(
                self.width as int,
                self.height as int,
                self.depth_or_array_layers as int,
                ElmntTy::spec_size_bytes() as int,
            );
        }
        let wh = self.width as u64 * self.height as u64;
        let whd = wh * self.depth_or_array_layers as u64;
        whd * bytes_per_element as u64
    }

    /// The WGSL type of a depth-major array holding one element per texel.
    pub fn to_wgsl_array_type<ElmntTy: ShaderTypeExt>(&self) -> (r: String)
        ensures
            r@ == spec_wgsl_array_type(*self, ElmntTy::spec_type_name()),
    {
        let mut r = String::new();
        r.append("array<array<array<");
        let name = ElmntTy::wgsl_type_name();
        r.append(name.as_str());
        r.append(", ");
        let w = dec_u32(self.width);
        r.append(w.as_str());
        r.append(">, ");
        let h = dec_u32(self.height);
        r.append(h.as_str());
        r.append(">, ");
        let d = dec_u32(self.depth_or_array_layers);
        r.append(d.as_str());
        r.append(">");
        proof {
            assert(r@ =~= spec_wgsl_array_type(*self, ElmntTy::spec_type_name()));
        }
        r
    }
}

/// Text of the nested WGSL array type for an extent, innermost axis first.
pub open spec fn spec_wgsl_array_type(e: Extent3d, elem: Seq<char>) -> Seq<char> {
    "array<array<array<"@ + elem + ", "@ + spec_dec_nat(e.width as nat) + ">, "@ + spec_dec_nat(
        e.height as nat,
    ) + ">, "@ + spec_dec_nat(e.depth_or_array_layers as nat) + ">"@
}

proof fn lemma_ceil_div_covers(n: int, d: int)
    requires
        0 <= n,
        0 < d,
    ensures
        ((n + d - 1) / d) * d >= n,
{
    let q = (n + d - 1) / d;
    assert(q * d >= n) by (nonlinear_arith)
        requires
            0 <= n,
            0 < d,
            q == (n + d - 1) / d,
    ;
}

proof fn lemma_partial_products_bounded(w: int, h: int, d: int, s: int)
    requires
        0 <= w,
        0 <= h,
        1 <= d,
        1 <= s,
        w * h * d * s <= u64::MAX,
    ensures
        w * h <= u64::MAX,
        w * h * d <= u64::MAX,
{
    assert(w * h <= w * h * d * s && w * h * d <= w * h * d * s) by (nonlinear_arith)
        requires
            0 <= w,
            0 <= h,
            1 <= d,
            1 <= s,
    ;
}

} // verus!
