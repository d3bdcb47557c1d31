//! The output-buffer and kernel-weight-buffer binding slots of the fused
//! pipeline, and the sampling/accumulation loop emitted over the packed
//! weight buffer. Creating the device buffers happens outside the library,
//! against these slots' names and sizes.

use core::marker::PhantomData;

use vstd::prelude::*;

use crate::error::ConfigError;
use crate::feature_extractor_pipeline::kernel::gaussian_blur::{GaussianBlur, MAX_RADIUS};
use crate::feature_extractor_pipeline::kernel::CenterOffset;
use crate::textfmt::{dec_u32, dec_usize, spec_dec_nat};
use crate::util::{Binding, Extent3d, Group};
use crate::wgsl::{ShaderTypeExt, Wgsl};

verus! {

/// The storage-buffer slot the kernel writes per-pixel results into, sized
/// by the image extent baked in at build time.
pub struct OutputBufferSlot<T: ShaderTypeExt> {
    pub name: String,
    pub group: Group,
    pub binding: Binding,
    pub img_extent: Extent3d,
    pub marker: PhantomData<T>,
}

impl<T: ShaderTypeExt> OutputBufferSlot<T> {
    /// The triple-index expression into the depth-major output array.
    #[allow(non_snake_case)]
    pub fn wgsl_indexing_from_kernIdx_xyzOffset(&self, xyz_offset_expr: &str) -> (r: String)
        ensures
            r@ == "["@ + xyz_offset_expr@ + ".z]["@ + xyz_offset_expr@ + ".y]["@
                + xyz_offset_expr@ + ".x]"@,
    {
        let mut r = String::new();
        r.append("[");
        r.append(xyz_offset_expr);
        r.append(".z][");
        r.append(xyz_offset_expr);
        r.append(".y][");
        r.append(xyz_offset_expr);
        r.append(".x]");
        proof {
            assert(r@ =~= "["@ + xyz_offset_expr@ + ".z]["@ + xyz_offset_expr@ + ".y]["@
                + xyz_offset_expr@ + ".x]"@);
        }
        r
    }

    /// The byte size of the output buffer: one element per texel.
    pub fn output_buffer_size(&self) -> (r: u64)
        requires
            T::spec_size_bytes() >= 1,
            self.img_extent.depth_or_array_layers >= 1,
            self.img_extent.width as int * self.img_extent.height as int
                * self.img_extent.depth_or_array_layers as int * T::spec_size_bytes()
                <= u64::MAX,
        ensures
            r as int == self.img_extent.width as int * self.img_extent.height as int
                * self.img_extent.depth_or_array_layers as int * T::spec_size_bytes(),
    {
        self.img_extent.to_buffer_size::<T>()
    }

    /// The WGSL declaration of the output storage buffer.
    pub fn to_wgsl_declaration(&self) -> (r: String)
        ensures
            r@ == "@group("@ + spec_dec_nat(self.group.0 as nat) + ") @binding("@ + spec_dec_nat(
                self.binding.0 as nat,
            ) + ") var<storage, read_write> "@ + self.name@ + " : "@
                + crate::util::spec_wgsl_array_type(self.img_extent, T::spec_type_name()) + ";"@,
    {
        let mut r = String::new();
        r.append("@group(");
        let g = self.group.wgsl();
        r.append(g.as_str());
        r.append(") @binding(");
        let b = self.binding.wgsl();
        r.append(b.as_str());
        r.append(") var<storage, read_write> ");
        r.append(self.name.as_str());
        r.append(" : ");
        let array_type = self.img_extent.to_wgsl_array_type::<T>();
        r.append(array_type.as_str());
        r.append(";");
        proof {
            assert(r@ =~= "@group("@ + spec_dec_nat(self.group.0 as nat) + ") @binding("@
                + spec_dec_nat(self.binding.0 as nat) + ") var<storage, read_write> "@ + self.name@
                + " : "@ + crate::util::spec_wgsl_array_type(self.img_extent, T::spec_type_name())
                + ";"@);
        }
        r
    }
}

/// The read-only storage-buffer slot holding every kernel's packed weight
/// table, interleaved per offset: the weight of kernel `k` at the `i`-th
/// window offset sits at `i * N + k`.
pub struct KernelsInBuffSlot {
    pub name: String,
    pub group: Group,
    pub binding: Binding,
    pub kernels: Vec<GaussianBlur>,
}

/// The feature accumulator declarations of kernels `0..n`.
pub open spec fn spec_feature_decls(n: int) -> Seq<char>
    decreases n,
{
    if n <= 0 {
        Seq::<char>::empty()
    } else {
        spec_feature_decls(n - 1) + "var feature_"@ + spec_dec_nat((n - 1) as nat)
            + ": vec3<f32> = vec3(0.0, 0.0, 0.0);\n"@
    }
}

/// The per-kernel accumulate lines of one sampled offset, in bank order.
pub open spec fn spec_accum_lines(slot_name: Seq<char>, k: int) -> Seq<char>
    decreases k,
{
    if k <= 0 {
        Seq::<char>::empty()
    } else {
        spec_accum_lines(slot_name, k - 1) + "feature_"@ + spec_dec_nat((k - 1) as nat)
            + " += sample * "@ + slot_name + "[in_buf_kernels_offset + "@ + spec_dec_nat(
            (k - 1) as nat,
        ) + "] * 255.0;\n"@
    }
}

/// The whole sampling/accumulation fragment: accumulator declarations, then
/// a window loop that clamps the sample coordinates to the image bounds,
/// fetches once, accumulates every kernel, and advances the interleaved
/// weight-buffer offset by the kernel count.
pub open spec fn spec_feature_calcs(
    slot_name: Seq<char>,
    input_name: Seq<char>,
    radius: nat,
    n: int,
) -> Seq<char> {
    spec_feature_decls(n) + "var in_buf_kernels_offset: i32 = 0;\n"@ + "for (var y = -"@
        + spec_dec_nat(radius) + "; y <= "@ + spec_dec_nat(radius) + "; y++) {\n"@
        + "for (var x = -"@ + spec_dec_nat(radius) + "; x <= "@ + spec_dec_nat(radius)
        + "; x++) {\n"@ + "let offset = vec2<i32>(x, y);\n"@
        + "let sample_coords: vec2<i32> = vec2<i32>(clamp(current_coords.x + offset.x, 0, texture_upper_limit.x), clamp(current_coords.y + offset.y, 0, texture_upper_limit.y));\n"@
        + "let sample = textureLoad("@ + input_name + ", sample_coords, 0).xyz;\n"@
        + spec_accum_lines(slot_name, n) + "in_buf_kernels_offset += "@ + spec_dec_nat(n as nat)
        + ";\n}\n}\n"@
}

impl KernelsInBuffSlot {
    /// A usable slot: a non-empty bank of well-formed kernels that all share
    /// one radius, so one interleaved buffer layout fits every kernel.
    pub open spec fn wf(&self) -> bool {
        &&& 1 <= self.kernels@.len() <= 100_000
        &&& forall|k: int| 0 <= k < self.kernels@.len() ==> (#[trigger] self.kernels@[k]).wf()
        &&& forall|k: int|
            0 <= k < self.kernels@.len() ==> (#[trigger] self.kernels@[k]).radius
                == self.kernels@[0].radius
    }

    /// Build the slot, rejecting an empty or oversized bank and kernels
    /// whose radii differ.
    pub fn new(name: String, group: Group, binding: Binding, kernels: Vec<GaussianBlur>) -> (r:
        Result<KernelsInBuffSlot, ConfigError>)
        requires
            forall|k: int| 0 <= k < kernels@.len() ==> (#[trigger] kernels@[k]).wf(),
        ensures
            r is Ok <==> {
                &&& 1 <= kernels@.len() <= 100_000
                &&& forall|k: int|
                    0 <= k < kernels@.len() ==> (#[trigger] kernels@[k]).radius
                        == kernels@[0].radius
            },
            r matches Ok(s) ==> s.name@ == name@ && s.group.0 == group.0 && s.binding.0
                == binding.0 && s.kernels == kernels && s.wf(),
            kernels@.len() == 0 ==> r == Err::<KernelsInBuffSlot, ConfigError>(
                ConfigError::EmptyKernelBank,
            ),
            kernels@.len() > 100_000 ==> r == Err::<KernelsInBuffSlot, ConfigError>(
                ConfigError::OversizedKernelBank,
            ),
            1 <= kernels@.len() <= 100_000 && !(forall|k: int|
                0 <= k < kernels@.len() ==> (#[trigger] kernels@[k]).radius
                    == kernels@[0].radius) ==> r == Err::<KernelsInBuffSlot, ConfigError>(
                ConfigError::BadKernelShape,
            ),
    {
        if kernels.len() == 0 {
            return Err(ConfigError::EmptyKernelBank);
        }
        if kernels.len() > 100_000 {
            return Err(ConfigError::OversizedKernelBank);
        }
        let shared_radius = kernels[0].radius;
        let mut k: usize = 1;
        while k < kernels.len()
            invariant
                1 <= k <= kernels@.len(),
                1 <= kernels@.len() <= 100_000,
                shared_radius == kernels@[0].radius,
                forall|q: int| 0 <= q < k ==> (#[trigger] kernels@[q]).radius == shared_radius,
            decreases kernels@.len() - k,
        {
            if kernels[k].radius != shared_radius {
                return Err(ConfigError::BadKernelShape);
            }
            k += 1;
        }
        Ok(KernelsInBuffSlot { name, group, binding, kernels })
    }

    /// The kernels of the bank, in order.
    pub fn kernels(&self) -> (r: &Vec<GaussianBlur>)
        ensures
            r == self.kernels,
    {
        &self.kernels
    }

    /// The shared window radius.
    pub fn radius(&self) -> (r: u32)
        requires
            self.wf(),
        ensures
            r == self.kernels@[0].radius,
    {
        self.kernels[0].radius
    }

    /// Bytes needed for the interleaved weight buffer: one 4-byte weight per
    /// kernel per window offset.
    pub fn required_size_in_bytes(&self) -> (r: u64)
        requires
            self.wf(),
        ensures
            r == self.kernels@.len() * (2 * self.kernels@[0].radius as int + 1) * (2
                * self.kernels@[0].radius as int + 1) * 4,
    {
        let side = 2 * self.kernels[0].radius as u64 + 1;
        proof {
            assert(self.kernels@.len() * (side * side) * 4 <= 100_000 * (16383 * 16383) * 4
                && self.kernels@.len() * (side * side) <= 100_000 * (16383 * 16383))
                by (nonlinear_arith)
                requires
                    0 < side <= 16383,
                    1 <= self.kernels@.len() <= 100_000,
            ;
            assert(self.kernels@.len() * (side * side) * 4 == self.kernels@.len() as int * (2
                * self.kernels@[0].radius as int + 1) * (2 * self.kernels@[0].radius as int + 1)
                * 4) by (nonlinear_arith)
                requires
                    side == 2 * self.kernels@[0].radius as int + 1,
            ;
        }
        self.kernels.len() as u64 * (side * side) * 4
    }

    /// The destination index of kernel `k`'s weight for a window offset in
    /// the interleaved device buffer: offsets are laid out row-major, and
    /// within one offset the kernels follow in bank order, so the weight of
    /// kernel `k` at the `i`-th offset sits at `i * N + k`. This is the
    /// write-side law of the layout the emitted sampling loop reads.
    pub fn interleaved_index(&self, offset: &CenterOffset, k: usize) -> (r: u64)
        requires
            self.wf(),
            k < self.kernels@.len(),
            -(self.kernels@[0].radius as int) <= offset.x as int <= self.kernels@[0].radius as int,
            -(self.kernels@[0].radius as int) <= offset.y as int <= self.kernels@[0].radius as int,
        ensures
            r == ((offset.y as int + self.kernels@[0].radius as int) * (2
                * self.kernels@[0].radius as int + 1) + (offset.x as int
                + self.kernels@[0].radius as int)) * self.kernels@.len() + k,
    {
        let radius = self.kernels[0].radius;
        let side: u64 = 2 * radius as u64 + 1;
        let y: u64 = (offset.y as i64 + radius as i64) as u64;
        let x: u64 = (offset.x as i64 + radius as i64) as u64;
        proof {
            assert(y * side <= side * side && y * side + x < side * side && (y * side + x)
                * self.kernels@.len() + k < (side * side) * self.kernels@.len() && (side * side)
                * self.kernels@.len() <= (16383 * 16383) * 100_000) by (nonlinear_arith)
                requires
                    0 < side <= 16383,
                    y < side,
                    x < side,
                    0 <= k < self.kernels@.len(),
                    1 <= self.kernels@.len() <= 100_000,
            ;
        }
        (y * side + x) * self.kernels.len() as u64 + k as u64
    }

    /// The WGSL declaration of the read-only weight buffer.
    pub fn to_wgsl_declaration(&self) -> (r: String)
        ensures
            r@ == "@group("@ + spec_dec_nat(self.group.0 as nat) + ") @binding("@ + spec_dec_nat(
                self.binding.0 as nat,
            ) + ") var<storage, read> "@ + self.name@ + " : array<f32>;"@,
    {
        let mut r = String::new();
        r.append("@group(");
        let g = self.group.wgsl();
        r.append(g.as_str());
        r.append(") @binding(");
        let b = self.binding.wgsl();
        r.append(b.as_str());
        r.append(") var<storage, read> ");
        r.append(self.name.as_str());
        r.append(" : array<f32>;");
        proof {
            assert(r@ =~= "@group("@ + spec_dec_nat(self.group.0 as nat) + ") @binding("@
                + spec_dec_nat(self.binding.0 as nat) + ") var<storage, read> "@ + self.name@
                + " : array<f32>;"@);
        }
        r
    }

    /// Append the sampling/accumulation loop over the interleaved weight
    /// buffer, fetching from the named input texture.
    pub fn write_wgsl_feature_calcs(&self, out: &mut String, input_name: &str)
        requires
            self.wf(),
        ensures
            final(out)@ == old(out)@ + spec_feature_calcs(
                self.name@,
                input_name@,
                self.kernels@[0].radius as nat,
                self.kernels@.len() as int,
            ),
    {
        let n = self.kernels.len();
        let mut i: usize = 0;
        proof {
            assert(out@ =~= old(out)@ + spec_feature_decls(0));
        }
        while i < n
            invariant
                i <= n,
                n == self.kernels@.len(),
                out@ == old(out)@ + spec_feature_decls(i as int),
            decreases n - i,
        {
            out.append("var feature_");
            let idx = dec_usize(i);
            out.append(idx.as_str());
            out.append(": vec3<f32> = vec3(0.0, 0.0, 0.0);\n");
            proof {
                assert(out@ =~= old(out)@ + spec_feature_decls(i as int + 1));
            }
            i += 1;
        }
        let radius = dec_u32(self.kernels[0].radius);
        out.append("var in_buf_kernels_offset: i32 = 0;\n");
        out.append("for (var y = -");
        out.append(radius.as_str());
        out.append("; y <= ");
        out.append(radius.as_str());
        out.append("; y++) {\n");
        out.append("for (var x = -");
        out.append(radius.as_str());
        out.append("; x <= ");
        out.append(radius.as_str());
        out.append("; x++) {\n");
        out.append("let offset = vec2<i32>(x, y);\n");
        out.append(
            "let sample_coords: vec2<i32> = vec2<i32>(clamp(current_coords.x + offset.x, 0, texture_upper_limit.x), clamp(current_coords.y + offset.y, 0, texture_upper_limit.y));\n",
        );
        out.append("let sample = textureLoad(");
        out.append(input_name);
        out.append(", sample_coords, 0).xyz;\n");
        let ghost before_accums = out@;
        let mut k: usize = 0;
        proof {
            assert(out@ =~= before_accums + spec_accum_lines(self.name@, 0));
        }
        while k < n
            invariant
                k <= n,
                n == self.kernels@.len(),
                out@ == before_accums + spec_accum_lines(self.name@, k as int),
            decreases n - k,
        {
            out.append("feature_");
            let idx = dec_usize(k);
            out.append(idx.as_str());
            out.append(" += sample * ");
            out.append(self.name.as_str());
            out.append("[in_buf_kernels_offset + ");
            out.append(idx.as_str());
            out.append("] * 255.0;\n");
            proof {
                assert(out@ =~= before_accums + spec_accum_lines(self.name@, k as int + 1));
            }
            k += 1;
        }
        out.append("in_buf_kernels_offset += ");
        let count = dec_usize(n);
        out.append(count.as_str());
        out.append(";\n}\n}\n");
        proof {
            assert(out@ =~= old(out)@ + spec_feature_calcs(
                self.name@,
                input_name@,
                self.kernels@[0].radius as nat,
                self.kernels@.len() as int,
            ));
        }
    }
}

} // verus!
