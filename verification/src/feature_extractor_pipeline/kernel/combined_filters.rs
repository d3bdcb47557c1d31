//! The fused code generator: one sampling loop sized to the largest kernel
//! radius, shared by every kernel of the bank, followed by one buffer write
//! per kernel. The emitted statement list is pinned down exactly, statement
//! by statement, so the bank's emission laws are proved against it.

use vstd::prelude::*;

use crate::error::ConfigError;
use crate::feature_extractor_pipeline::kernel::gaussian_blur::GaussianBlur;
use crate::feature_extractor_pipeline::kernel::CenterOffset;
use crate::textfmt::{dec_usize, spec_dec_int, spec_dec_nat};
use crate::util::{Extent3d, WorkgroupSize};
use crate::wgsl::buffer::OutputBufferDecl;
use crate::wgsl::compute_shader_source::ComputeShaderSource;
use crate::wgsl::declaration::LocalVarDecl;
use crate::wgsl::expression::{spec_clamp_text, spec_infix, Expression};
use crate::wgsl::statement::{
    spec_kind, AddAssignment, Assignment, BufferWrite, Statement, StatementKind,
};
use crate::wgsl::texture::{spec_texture_load, Texture2dDecl};
use crate::wgsl::{FVec4, ShaderTypeExt, Wgsl, F32, I32, U32};

verus! {

/// A bank of Gaussian kernels fused over one input texture and one output
/// buffer, all baked to a fixed image extent.
pub struct CombinedFilters {
    pub kernels: Vec<GaussianBlur>,
    pub input_texture: Texture2dDecl,
    pub output_buffer: OutputBufferDecl<FVec4>,
    pub img_extent: Extent3d,
}

/// The largest radius among the first `n` kernels.
pub open spec fn spec_max_radius(kernels: Seq<GaussianBlur>, n: int) -> int
    decreases n,
{
    if n <= 0 {
        0
    } else if kernels[n - 1].radius as int > spec_max_radius(kernels, n - 1) {
        kernels[n - 1].radius as int
    } else {
        spec_max_radius(kernels, n - 1)
    }
}

/// Whether kernel `k`'s own window covers the offset `(dx, dy)`.
pub open spec fn spec_covered(kernels: Seq<GaussianBlur>, k: int, dx: int, dy: int) -> bool {
    &&& -(kernels[k].radius as int) <= dx <= kernels[k].radius as int
    &&& -(kernels[k].radius as int) <= dy <= kernels[k].radius as int
}

/// Name of the accumulator variable of kernel `k`.
pub open spec fn spec_acc_name(k: nat) -> Seq<char> {
    "kernel_"@ + spec_dec_nat(k) + "_acc"@
}

/// Text of kernel `k`'s accumulator declaration.
pub open spec fn spec_acc_decl_text(k: nat) -> Seq<char> {
    "var "@ + spec_acc_name(k) + ": "@ + FVec4::spec_type_name() + ";"@
}

/// Text of the shared sample variable declaration.
pub open spec fn spec_sample_decl_text() -> Seq<char> {
    "var "@ + "sample"@ + ": "@ + FVec4::spec_type_name() + ";"@
}

/// One clamped sample coordinate: the invocation coordinate plus the window
/// offset, confined to `[0, limit]`.
pub open spec fn spec_coord_text(axis: Seq<char>, d: int, limit: nat) -> Seq<char> {
    spec_clamp_text(
        spec_infix("i32("@ + "global_invocation_id"@ + axis + ")"@, " + "@, spec_dec_int(d)),
        spec_dec_nat(0),
        spec_dec_nat(limit),
    )
}

/// Text of the sample fetch statement at offset `(dx, dy)`: both clamp upper
/// bounds are exactly `width - 1` and `height - 1`.
pub open spec fn spec_sample_stmt_text(cf: CombinedFilters, dx: int, dy: int) -> Seq<char> {
    "sample"@ + " = "@ + spec_texture_load(
        cf.input_texture.name@,
        "vec2<i32>("@ + spec_coord_text(".x"@, dx, (cf.img_extent.width - 1) as nat) + ", "@
            + spec_coord_text(".y"@, dy, (cf.img_extent.height - 1) as nat) + ")"@,
        spec_dec_nat(0),
    ) + ";"@
}

/// The weight literal kernel `k` embeds at offset `(dx, dy)`.
pub open spec fn spec_weight_text(cf: CombinedFilters, k: int, dx: int, dy: int) -> Seq<char> {
    cf.kernels@[k].weights@[(dy + cf.kernels@[k].radius as int) * (2 * cf.kernels@[k].radius as int
        + 1) + (dx + cf.kernels@[k].radius as int)].text@
}

/// Text of kernel `k`'s accumulate statement at offset `(dx, dy)`.
pub open spec fn spec_acc_stmt_text(cf: CombinedFilters, k: int, dx: int, dy: int) -> Seq<char> {
    spec_acc_name(k as nat) + " += "@ + spec_infix(spec_weight_text(cf, k, dx, dy), " * "@,
        "sample"@) + ";"@
}

/// Accumulate-statement texts of kernels `0..k` at offset `(dx, dy)`: one per
/// kernel whose own window covers the offset, in bank order.
pub open spec fn spec_accs_texts_upto(cf: CombinedFilters, dx: int, dy: int, k: int) -> Seq<
    Seq<char>,
>
    decreases k,
{
    if k <= 0 {
        Seq::<Seq<char>>::empty()
    } else {
        spec_accs_texts_upto(cf, dx, dy, k - 1) + if spec_covered(cf.kernels@, k - 1, dx, dy) {
            seq![spec_acc_stmt_text(cf, k - 1, dx, dy)]
        } else {
            Seq::<Seq<char>>::empty()
        }
    }
}

/// Statement texts of one sampled offset: the fetch, then the accumulates.
pub open spec fn spec_offset_texts(cf: CombinedFilters, dx: int, dy: int) -> Seq<Seq<char>> {
    seq![spec_sample_stmt_text(cf, dx, dy)] + spec_accs_texts_upto(
        cf,
        dx,
        dy,
        cf.kernels@.len() as int,
    )
}

/// Statement texts of row `dy` for offsets `-R .. dx-1`.
pub open spec fn spec_row_texts_upto(cf: CombinedFilters, radius: int, dy: int, dx: int) -> Seq<
    Seq<char>,
>
    decreases dx + radius,
{
    if dx <= -radius {
        Seq::<Seq<char>>::empty()
    } else {
        spec_row_texts_upto(cf, radius, dy, dx - 1) + spec_offset_texts(cf, dx - 1, dy)
    }
}

/// Statement texts of rows `-R .. dy-1`, each spanning the full window.
pub open spec fn spec_grid_texts_upto(cf: CombinedFilters, radius: int, dy: int) -> Seq<Seq<char>>
    decreases dy + radius,
{
    if dy <= -radius {
        Seq::<Seq<char>>::empty()
    } else {
        spec_grid_texts_upto(cf, radius, dy - 1) + spec_row_texts_upto(cf, radius, dy - 1, radius
            + 1)
    }
}

/// Texts of the first `n` accumulator declarations.
pub open spec fn spec_decl_texts_upto(n: int) -> Seq<Seq<char>>
    decreases n,
{
    if n <= 0 {
        Seq::<Seq<char>>::empty()
    } else {
        spec_decl_texts_upto(n - 1) + seq![spec_acc_decl_text((n - 1) as nat)]
    }
}

/// The per-pixel part of the output index, baked to the image width.
pub open spec fn spec_pixel_idx_text(cf: CombinedFilters) -> Seq<char> {
    spec_infix(
        spec_infix("global_invocation_id"@ + ".y"@, " * "@, spec_dec_nat(
            cf.img_extent.width as nat,
        )),
        " + "@,
        "global_invocation_id"@ + ".x"@,
    )
}

/// The output index of kernel `k`: the output buffer is laid out
/// kernel-major, one whole image per kernel, so kernel `k`'s slot for a
/// pixel is `k * width * height` plus the per-pixel index.
pub open spec fn spec_write_idx_text(cf: CombinedFilters, k: int) -> Seq<char> {
    spec_infix(
        spec_dec_nat((k * cf.img_extent.width as int * cf.img_extent.height as int) as nat),
        " + "@,
        spec_pixel_idx_text(cf),
    )
}

/// Text of kernel `k`'s output write, into kernel `k`'s own image slice.
pub open spec fn spec_write_stmt_text(cf: CombinedFilters, k: int) -> Seq<char> {
    cf.output_buffer.name@ + "["@ + spec_write_idx_text(cf, k) + "] = "@ + spec_acc_name(k as nat)
        + ";"@
}

/// Texts of the first `n` output writes.
pub open spec fn spec_write_texts_upto(cf: CombinedFilters, n: int) -> Seq<Seq<char>>
    decreases n,
{
    if n <= 0 {
        Seq::<Seq<char>>::empty()
    } else {
        spec_write_texts_upto(cf, n - 1) + seq![spec_write_stmt_text(cf, n - 1)]
    }
}

/// The whole statement body, textually: accumulator declarations, the sample
/// declaration, the offset grid in outer-y inner-x order, then the writes.
pub open spec fn spec_body_texts(cf: CombinedFilters) -> Seq<Seq<char>> {
    spec_decl_texts_upto(cf.kernels@.len() as int) + seq![spec_sample_decl_text()]
        + spec_grid_texts_upto(
        cf,
        spec_max_radius(cf.kernels@, cf.kernels@.len() as int),
        spec_max_radius(cf.kernels@, cf.kernels@.len() as int) + 1,
    ) + spec_write_texts_upto(cf, cf.kernels@.len() as int)
}

/// Statement kinds of the accumulates of kernels `0..k` at one offset.
pub open spec fn spec_accs_kinds_upto(cf: CombinedFilters, dx: int, dy: int, k: int) -> Seq<
    StatementKind,
>
    decreases k,
{
    if k <= 0 {
        Seq::<StatementKind>::empty()
    } else {
        spec_accs_kinds_upto(cf, dx, dy, k - 1) + if spec_covered(cf.kernels@, k - 1, dx, dy) {
            seq![StatementKind::AddAssignment]
        } else {
            Seq::<StatementKind>::empty()
        }
    }
}

/// Statement kinds of one sampled offset.
pub open spec fn spec_offset_kinds(cf: CombinedFilters, dx: int, dy: int) -> Seq<StatementKind> {
    seq![StatementKind::Assignment] + spec_accs_kinds_upto(cf, dx, dy, cf.kernels@.len() as int)
}

/// Statement kinds of row `dy` for offsets `-R .. dx-1`.
pub open spec fn spec_row_kinds_upto(cf: CombinedFilters, radius: int, dy: int, dx: int) -> Seq<
    StatementKind,
>
    decreases dx + radius,
{
    if dx <= -radius {
        Seq::<StatementKind>::empty()
    } else {
        spec_row_kinds_upto(cf, radius, dy, dx - 1) + spec_offset_kinds(cf, dx - 1, dy)
    }
}

/// Statement kinds of rows `-R .. dy-1`.
pub open spec fn spec_grid_kinds_upto(cf: CombinedFilters, radius: int, dy: int) -> Seq<
    StatementKind,
>
    decreases dy + radius,
{
    if dy <= -radius {
        Seq::<StatementKind>::empty()
    } else {
        spec_grid_kinds_upto(cf, radius, dy - 1) + spec_row_kinds_upto(cf, radius, dy - 1, radius
            + 1)
    }
}

/// `n` repetitions of one statement kind.
pub open spec fn spec_repeat_kind(k: StatementKind, n: int) -> Seq<StatementKind>
    decreases n,
{
    if n <= 0 {
        Seq::<StatementKind>::empty()
    } else {
        spec_repeat_kind(k, n - 1) + seq![k]
    }
}

/// The whole statement body, by statement kind.
pub open spec fn spec_body_kinds(cf: CombinedFilters) -> Seq<StatementKind> {
    spec_repeat_kind(StatementKind::Declaration, cf.kernels@.len() as int + 1)
        + spec_grid_kinds_upto(
        cf,
        spec_max_radius(cf.kernels@, cf.kernels@.len() as int),
        spec_max_radius(cf.kernels@, cf.kernels@.len() as int) + 1,
    ) + spec_repeat_kind(StatementKind::BufferWrite, cf.kernels@.len() as int)
}


/// The rendered text of every statement, in order.
pub open spec fn texts_of(stmts: Seq<Statement>) -> Seq<Seq<char>> {
    stmts.map_values(|s: Statement| s.wgsl_spec())
}

/// The kind of every statement, in order.
pub open spec fn kinds_of(stmts: Seq<Statement>) -> Seq<StatementKind> {
    stmts.map_values(|s: Statement| spec_kind(s))
}

/// Pushing one statement appends its text and kind.
pub proof fn lemma_maps_push(stmts: Seq<Statement>, x: Statement)
    ensures
        texts_of(stmts.push(x)) == texts_of(stmts) + seq![x.wgsl_spec()],
        kinds_of(stmts.push(x)) == kinds_of(stmts) + seq![spec_kind(x)],
{
    assert(texts_of(stmts.push(x)) =~= texts_of(stmts) + seq![x.wgsl_spec()]);
    assert(kinds_of(stmts.push(x)) =~= kinds_of(stmts) + seq![spec_kind(x)]);
}

impl CombinedFilters {
    /// A well-formed bank: at least one well-formed kernel, and a 2-D image
    /// extent with at least one texel per axis.
    pub open spec fn wf(&self) -> bool {
        &&& self.kernels@.len() >= 1
        &&& forall|k: int|
            0 <= k < self.kernels@.len() ==> (#[trigger] self.kernels@[k]).wf()
        &&& 1 <= self.img_extent.width <= 0x7fffffff
        &&& 1 <= self.img_extent.height <= 0x7fffffff
        &&& self.img_extent.depth_or_array_layers == 1
        &&& self.kernels@.len() * self.img_extent.width as int * self.img_extent.height as int
            <= u32::MAX
    }

    /// The radius of the shared sampling loop: the largest kernel radius.
    pub fn max_radius(&self) -> (r: u32)
        requires
            self.wf(),
        ensures
            r == spec_max_radius(self.kernels@, self.kernels@.len() as int),
            r <= crate::feature_extractor_pipeline::kernel::gaussian_blur::MAX_RADIUS,
    {
        let mut r: u32 = 0;
        let mut k: usize = 0;
        while k < self.kernels.len()
            invariant
                k <= self.kernels@.len(),
                self.wf(),
                r == spec_max_radius(self.kernels@, k as int),
                r <= crate::feature_extractor_pipeline::kernel::gaussian_blur::MAX_RADIUS,
            decreases self.kernels@.len() - k,
        {
            if self.kernels[k].radius > r {
                r = self.kernels[k].radius;
            }
            k += 1;
        }
        r
    }

    /// Emit the fused kernel: the accumulator and sample declarations, one
    /// sampling loop over the shared window with the per-kernel accumulates,
    /// and one output write per kernel. The statement texts and kinds are
    /// pinned exactly.
    #[verifier::rlimit(100)]
    #[verifier::spinoff_prover]
    pub fn produce_shader(&self) -> (r: ComputeShaderSource)
        requires
            self.wf(),
        ensures
            texts_of(r.statements@) == spec_body_texts(*self),
            kinds_of(r.statements@) == spec_body_kinds(*self),
            r.workgroup_size.x == 16 && r.workgroup_size.y == 16 && r.workgroup_size.z == 1,
            r.main_fn_name@ == "main"@,
            r.input_textures@.len() == 1,
            r.input_textures@[0].wgsl_spec() == self.input_texture.wgsl_spec(),
            r.output_buffers@.len() == 1,
            r.output_buffers@[0].wgsl_spec() == self.output_buffer.wgsl_spec(),
    {
        let ghost cf = *self;
        let n = self.kernels.len();
        let mut statements: Vec<Statement> = Vec::new();

        // accumulator declarations, one per kernel, in bank order
        let mut i: usize = 0;
        while i < n
            invariant
                i <= n,
                n == cf.kernels@.len(),
                cf == *self,
                self.wf(),
                texts_of(statements@) == spec_decl_texts_upto(
                    i as int,
                ),
                kinds_of(statements@) == spec_repeat_kind(
                    StatementKind::Declaration,
                    i as int,
                ),
            decreases n - i,
        {
            let decl = LocalVarDecl::<FVec4> { name: acc_name(i), initializer: None };
            proof {
                assert(decl.wgsl_spec() =~= spec_acc_decl_text(i as nat));
            }
            let stmt = Statement::Declaration(decl);
            let ghost gs = stmt;
            let ghost pre = statements@;
            statements.push(stmt);
            proof {
                lemma_maps_push(pre, gs);
                assert(texts_of(statements@) =~~=
                    spec_decl_texts_upto(i as int + 1));
                assert(kinds_of(statements@) =~= spec_repeat_kind(
                    StatementKind::Declaration,
                    i as int + 1,
                ));
            }
            i += 1;
        }

        // the shared sample variable
        let sample_var = LocalVarDecl::<FVec4> {
            name: String::from_str("sample"),
            initializer: None,
        };
        proof {
            assert(sample_var.wgsl_spec() =~= spec_sample_decl_text());
        }
        let sample_decl_stmt = Statement::Declaration(sample_var.duplicate());
        let ghost g_sample_decl = sample_decl_stmt;
        let ghost pre_sample = statements@;
        statements.push(sample_decl_stmt);
        proof {
            lemma_maps_push(pre_sample, g_sample_decl);
            assert(texts_of(statements@) =~~= spec_decl_texts_upto(
                n as int,
            ) + seq![spec_sample_decl_text()]);
            assert(kinds_of(statements@) =~= spec_repeat_kind(
                StatementKind::Declaration,
                n as int + 1,
            ));
        }
        let ghost decls_texts = spec_decl_texts_upto(n as int) + seq![spec_sample_decl_text()];
        let ghost decls_kinds = spec_repeat_kind(StatementKind::Declaration, n as int + 1);

        let max_radius = self.max_radius();
        let ghost radius = max_radius as int;
        let r_i32 = max_radius as i32;
        let width_limit: u32 = self.img_extent.width - 1;
        let height_limit: u32 = self.img_extent.height - 1;
        let gid = ComputeShaderSource::global_invocation_id();

        // the shared sampling loop: outer y, inner x, over the whole window
        let mut dy: i32 = -r_i32;
        while dy <= r_i32
            invariant
                -r_i32 <= dy <= r_i32 + 1,
                r_i32 == radius,
                radius == spec_max_radius(cf.kernels@, cf.kernels@.len() as int),
                radius <= 8191,
                n == cf.kernels@.len(),
                cf == *self,
                self.wf(),
                width_limit == cf.img_extent.width - 1,
                height_limit == cf.img_extent.height - 1,
                gid@ == "global_invocation_id"@,
                sample_var.name@ == "sample"@,
                texts_of(statements@) == decls_texts
                    + spec_grid_texts_upto(cf, radius, dy as int),
                kinds_of(statements@) == decls_kinds
                    + spec_grid_kinds_upto(cf, radius, dy as int),
                decls_texts == spec_decl_texts_upto(n as int) + seq![spec_sample_decl_text()],
                decls_kinds == spec_repeat_kind(StatementKind::Declaration, n as int + 1),
            decreases r_i32 + 1 - dy,
        {
            let mut dx: i32 = -r_i32;
            while dx <= r_i32
                invariant
                    -r_i32 <= dx <= r_i32 + 1,
                    -r_i32 <= dy <= r_i32,
                    r_i32 == radius,
                    radius == spec_max_radius(cf.kernels@, cf.kernels@.len() as int),
                    radius <= 8191,
                    n == cf.kernels@.len(),
                    cf == *self,
                    self.wf(),
                    width_limit == cf.img_extent.width - 1,
                    height_limit == cf.img_extent.height - 1,
                    gid@ == "global_invocation_id"@,
                    sample_var.name@ == "sample"@,
                    texts_of(statements@) == decls_texts
                        + spec_grid_texts_upto(cf, radius, dy as int) + spec_row_texts_upto(
                        cf,
                        radius,
                        dy as int,
                        dx as int,
                    ),
                    kinds_of(statements@) == decls_kinds
                        + spec_grid_kinds_upto(cf, radius, dy as int) + spec_row_kinds_upto(
                        cf,
                        radius,
                        dy as int,
                        dx as int,
                    ),
                    decls_texts == spec_decl_texts_upto(n as int) + seq![spec_sample_decl_text()],
                    decls_kinds == spec_repeat_kind(StatementKind::Declaration, n as int + 1),
                decreases r_i32 + 1 - dx,
            {
                // one fetch, clamped to the image bounds baked at build time
                let x_coord = gid.x().as_i32().plus(&Expression::<I32>::lit(dx)).clamped(
                    &Expression::<I32>::lit(0),
                    &Expression::<I32>::lit(width_limit as i32),
                );
                let y_coord = gid.y().as_i32().plus(&Expression::<I32>::lit(dy)).clamped(
                    &Expression::<I32>::lit(0),
                    &Expression::<I32>::lit(height_limit as i32),
                );
                let coords = Expression::<crate::wgsl::IVec2>::construct(&x_coord, &y_coord);
                let sample_value = self.input_texture.textureLoad(
                    &coords,
                    &Expression::<U32>::lit(0),
                );
                let fetch = Assignment { assignee: sample_var.duplicate(), value: sample_value };
                proof {
                    assert(x_coord@ =~= spec_coord_text(
                        ".x"@,
                        dx as int,
                        (cf.img_extent.width - 1) as nat,
                    ));
                    assert(y_coord@ =~= spec_coord_text(
                        ".y"@,
                        dy as int,
                        (cf.img_extent.height - 1) as nat,
                    ));
                    assert(fetch.wgsl_spec() =~= spec_sample_stmt_text(cf, dx as int, dy as int));
                }
                let fetch_stmt = Statement::Assignment(fetch);
                let ghost g_fetch = fetch_stmt;
                let ghost pre_fetch = statements@;
                statements.push(fetch_stmt);
                proof {
                    lemma_maps_push(pre_fetch, g_fetch);
                    assert(texts_of(statements@) =~~= decls_texts
                        + spec_grid_texts_upto(cf, radius, dy as int) + spec_row_texts_upto(
                        cf,
                        radius,
                        dy as int,
                        dx as int,
                    ) + seq![spec_sample_stmt_text(cf, dx as int, dy as int)]
                        + spec_accs_texts_upto(cf, dx as int, dy as int, 0));
                    assert(kinds_of(statements@) =~= decls_kinds
                        + spec_grid_kinds_upto(cf, radius, dy as int) + spec_row_kinds_upto(
                        cf,
                        radius,
                        dy as int,
                        dx as int,
                    ) + seq![StatementKind::Assignment] + spec_accs_kinds_upto(
                        cf,
                        dx as int,
                        dy as int,
                        0,
                    ));
                }

                // one accumulate per kernel whose own window covers the offset
                let mut k: usize = 0;
                while k < n
                    invariant
                        k <= n,
                        -r_i32 <= dx <= r_i32,
                        -r_i32 <= dy <= r_i32,
                        r_i32 == radius,
                        radius <= 8191,
                        n == cf.kernels@.len(),
                        cf == *self,
                        self.wf(),
                        sample_var.name@ == "sample"@,
                        texts_of(statements@) == decls_texts
                            + spec_grid_texts_upto(cf, radius, dy as int) + spec_row_texts_upto(
                            cf,
                            radius,
                            dy as int,
                            dx as int,
                        ) + seq![spec_sample_stmt_text(cf, dx as int, dy as int)]
                            + spec_accs_texts_upto(cf, dx as int, dy as int, k as int),
                        kinds_of(statements@) == decls_kinds
                            + spec_grid_kinds_upto(cf, radius, dy as int) + spec_row_kinds_upto(
                            cf,
                            radius,
                            dy as int,
                            dx as int,
                        ) + seq![StatementKind::Assignment] + spec_accs_kinds_upto(
                            cf,
                            dx as int,
                            dy as int,
                            k as int,
                        ),
                    decreases n - k,
                {
                    let kernel = &self.kernels[k];
                    let rad = kernel.radius;
                    if -(rad as i64) <= dx as i64 && dx as i64 <= rad as i64 && -(rad as i64)
                        <= dy as i64 && dy as i64 <= rad as i64 {
                        let weight = kernel.kernel_at(&CenterOffset { x: dx, y: dy, z: 0 });
                        let value = Expression::<F32>::new(weight.text.clone()).times_vec4(
                            &sample_var.as_expr(),
                        );
                        let acc = AddAssignment {
                            assignee: LocalVarDecl::<FVec4> {
                                name: acc_name(k),
                                initializer: None,
                            },
                            value,
                        };
                        proof {
                            assert(spec_covered(cf.kernels@, k as int, dx as int, dy as int));
                            assert(acc.wgsl_spec() =~= spec_acc_stmt_text(
                                cf,
                                k as int,
                                dx as int,
                                dy as int,
                            ));
                        }
                        let acc_stmt = Statement::AddAssignment(acc);
                        let ghost g_acc = acc_stmt;
                        let ghost pre_acc = statements@;
                        statements.push(acc_stmt);
                        proof {
                            lemma_maps_push(pre_acc, g_acc);
                            assert(texts_of(statements@) =~~=
                                decls_texts + spec_grid_texts_upto(cf, radius, dy as int)
                                + spec_row_texts_upto(cf, radius, dy as int, dx as int)
                                + seq![spec_sample_stmt_text(cf, dx as int, dy as int)]
                                + spec_accs_texts_upto(cf, dx as int, dy as int, k as int + 1));
                            assert(kinds_of(statements@) =~=
                                decls_kinds + spec_grid_kinds_upto(cf, radius, dy as int)
                                + spec_row_kinds_upto(cf, radius, dy as int, dx as int)
                                + seq![StatementKind::Assignment] + spec_accs_kinds_upto(
                                cf,
                                dx as int,
                                dy as int,
                                k as int + 1,
                            ));
                        }
                    } else {
                        proof {
                            assert(!spec_covered(cf.kernels@, k as int, dx as int, dy as int));
                            assert(spec_accs_texts_upto(cf, dx as int, dy as int, k as int + 1)
                                =~= spec_accs_texts_upto(cf, dx as int, dy as int, k as int));
                            assert(spec_accs_kinds_upto(cf, dx as int, dy as int, k as int + 1)
                                =~= spec_accs_kinds_upto(cf, dx as int, dy as int, k as int));
                        }
                    }
                    k += 1;
                }
                proof {
                    assert(texts_of(statements@) =~~= decls_texts
                        + spec_grid_texts_upto(cf, radius, dy as int) + spec_row_texts_upto(
                        cf,
                        radius,
                        dy as int,
                        dx as int + 1,
                    ));
                    assert(kinds_of(statements@) =~= decls_kinds
                        + spec_grid_kinds_upto(cf, radius, dy as int) + spec_row_kinds_upto(
                        cf,
                        radius,
                        dy as int,
                        dx as int + 1,
                    ));
                }
                dx += 1;
            }
            proof {
                assert(texts_of(statements@) =~~= decls_texts
                    + spec_grid_texts_upto(cf, radius, dy as int + 1));
                assert(kinds_of(statements@) =~= decls_kinds
                    + spec_grid_kinds_upto(cf, radius, dy as int + 1));
            }
            dy += 1;
        }

        // one output write per kernel, in bank order, each into its own
        // image-sized slice of the output buffer
        let pixel_idx = gid.y().times(&Expression::<U32>::lit(self.img_extent.width)).plus(
            &gid.x(),
        );
        proof {
            assert(pixel_idx@ =~= spec_pixel_idx_text(cf));
        }
        let mut w: usize = 0;
        while w < n
            invariant
                w <= n,
                n == cf.kernels@.len(),
                cf == *self,
                self.wf(),
                pixel_idx@ == spec_pixel_idx_text(cf),
                texts_of(statements@) == decls_texts
                    + spec_grid_texts_upto(
                    cf,
                    spec_max_radius(cf.kernels@, cf.kernels@.len() as int),
                    spec_max_radius(cf.kernels@, cf.kernels@.len() as int) + 1,
                ) + spec_write_texts_upto(cf, w as int),
                kinds_of(statements@) == decls_kinds
                    + spec_grid_kinds_upto(
                    cf,
                    spec_max_radius(cf.kernels@, cf.kernels@.len() as int),
                    spec_max_radius(cf.kernels@, cf.kernels@.len() as int) + 1,
                ) + spec_repeat_kind(StatementKind::BufferWrite, w as int),
                decls_texts == spec_decl_texts_upto(n as int) + seq![spec_sample_decl_text()],
                decls_kinds == spec_repeat_kind(StatementKind::Declaration, n as int + 1),
            decreases n - w,
        {
            proof {
                assert(w as int * cf.img_extent.width as int <= w as int
                    * cf.img_extent.width as int * cf.img_extent.height as int && w as int
                    * cf.img_extent.width as int * cf.img_extent.height as int
                    <= cf.kernels@.len() * cf.img_extent.width as int
                    * cf.img_extent.height as int) by (nonlinear_arith)
                    requires
                        0 <= w as int <= cf.kernels@.len(),
                        cf.img_extent.width as int >= 1,
                        cf.img_extent.height as int >= 1,
                ;
            }
            let slice_base: u64 = w as u64 * self.img_extent.width as u64
                * self.img_extent.height as u64;
            let write = BufferWrite {
                buffer: self.output_buffer.duplicate(),
                index: Expression::<U32>::lit(slice_base as u32).plus(&pixel_idx),
                value: Expression::<FVec4>::new(acc_name(w)),
            };
            proof {
                assert(write.wgsl_spec() =~= spec_write_stmt_text(cf, w as int));
            }
            let write_stmt = Statement::BufferWrite(write);
            let ghost g_write = write_stmt;
            let ghost pre_write = statements@;
            statements.push(write_stmt);
            proof {
                lemma_maps_push(pre_write, g_write);
                assert(texts_of(statements@) =~~= decls_texts
                    + spec_grid_texts_upto(
                    cf,
                    spec_max_radius(cf.kernels@, cf.kernels@.len() as int),
                    spec_max_radius(cf.kernels@, cf.kernels@.len() as int) + 1,
                ) + spec_write_texts_upto(cf, w as int + 1));
                assert(kinds_of(statements@) =~= decls_kinds
                    + spec_grid_kinds_upto(
                    cf,
                    spec_max_radius(cf.kernels@, cf.kernels@.len() as int),
                    spec_max_radius(cf.kernels@, cf.kernels@.len() as int) + 1,
                ) + spec_repeat_kind(StatementKind::BufferWrite, w as int + 1));
            }
            w += 1;
        }
        proof {
            assert(texts_of(statements@) =~~= spec_body_texts(cf));
            assert(kinds_of(statements@) =~= spec_body_kinds(cf));
        }

        ComputeShaderSource {
            workgroup_size: WorkgroupSize { x: 16, y: 16, z: 1 },
            main_fn_name: String::from_str("main"),
            input_textures: vec![self.input_texture.duplicate()],
            output_buffers: vec![self.output_buffer.duplicate()],
            statements,
        }
    }
}

/// The accumulator variable name of kernel `k`.
fn acc_name(k: usize) -> (r: String)
    ensures
        r@ == spec_acc_name(k as nat),
{
    let mut r = String::new();
    r.append("kernel_");
    let digits = dec_usize(k);
    r.append(digits.as_str());
    r.append("_acc");
    proof {
        assert(r@ =~= spec_acc_name(k as nat));
    }
    r
}


/// How many statements of one kind a kind-sequence holds.
pub open spec fn spec_count(kinds: Seq<StatementKind>, k: StatementKind) -> int
    decreases kinds.len(),
{
    if kinds.len() == 0 {
        0
    } else {
        spec_count(kinds.drop_last(), k) + if kinds.last() == k {
            1int
        } else {
            0int
        }
    }
}

/// How many of the first `k` kernels cover the offset `(dx, dy)`.
pub open spec fn spec_covered_count(cf: CombinedFilters, dx: int, dy: int, k: int) -> int
    decreases k,
{
    if k <= 0 {
        0
    } else {
        spec_covered_count(cf, dx, dy, k - 1) + if spec_covered(cf.kernels@, k - 1, dx, dy) {
            1int
        } else {
            0int
        }
    }
}

/// Counting distributes over concatenation.
pub proof fn lemma_count_concat(a: Seq<StatementKind>, b: Seq<StatementKind>, k: StatementKind)
    ensures
        spec_count(a + b, k) == spec_count(a, k) + spec_count(b, k),
    decreases b.len(),
{
    if b.len() == 0 {
        assert(a + b =~= a);
    } else {
        lemma_count_concat(a, b.drop_last(), k);
        assert((a + b).drop_last() =~= a + b.drop_last());
    }
}

/// Counting a one-element sequence.
proof fn lemma_count_singleton(k: StatementKind, other: StatementKind)
    ensures
        spec_count(seq![k], other) == if k == other {
            1int
        } else {
            0int
        },
{
    assert(spec_count(Seq::<StatementKind>::empty(), other) == 0);
    assert(seq![k].drop_last() =~= Seq::<StatementKind>::empty());
    assert(seq![k].last() == k);
}

/// A run of one kind counts as its length, and holds no other kind.
pub proof fn lemma_count_repeat(k: StatementKind, other: StatementKind, n: int)
    requires
        n >= 0,
    ensures
        spec_count(spec_repeat_kind(k, n), other) == if k == other {
            n
        } else {
            0
        },
    decreases n,
{
    if n > 0 {
        lemma_count_repeat(k, other, n - 1);
        lemma_count_singleton(k, other);
        lemma_count_concat(spec_repeat_kind(k, n - 1), seq![k], other);
    }
}

/// At one offset, the accumulates of the first `k` kernels number exactly the
/// kernels whose window covers the offset, and hold no write or assignment.
pub proof fn lemma_accs_counts(cf: CombinedFilters, dx: int, dy: int, k: int)
    requires
        k >= 0,
    ensures
        spec_count(spec_accs_kinds_upto(cf, dx, dy, k), StatementKind::AddAssignment)
            == spec_covered_count(cf, dx, dy, k),
        spec_count(spec_accs_kinds_upto(cf, dx, dy, k), StatementKind::BufferWrite) == 0,
        spec_count(spec_accs_kinds_upto(cf, dx, dy, k), StatementKind::Assignment) == 0,
    decreases k,
{
    if k > 0 {
        lemma_accs_counts(cf, dx, dy, k - 1);
        let prev = spec_accs_kinds_upto(cf, dx, dy, k - 1);
        if spec_covered(cf.kernels@, k - 1, dx, dy) {
            lemma_count_singleton(StatementKind::AddAssignment, StatementKind::AddAssignment);
            lemma_count_singleton(StatementKind::AddAssignment, StatementKind::BufferWrite);
            lemma_count_singleton(StatementKind::AddAssignment, StatementKind::Assignment);
            lemma_count_concat(prev, seq![StatementKind::AddAssignment],
                StatementKind::AddAssignment);
            lemma_count_concat(prev, seq![StatementKind::AddAssignment],
                StatementKind::BufferWrite);
            lemma_count_concat(prev, seq![StatementKind::AddAssignment],
                StatementKind::Assignment);
        } else {
            assert(prev + Seq::<StatementKind>::empty() =~= prev);
        }
    }
}

/// One sampled offset holds exactly one fetch, one accumulate per covering
/// kernel, and no buffer write. This is the per-offset half of the bank
/// round-trip law: with every kernel sharing the loop radius, a bank of N
/// kernels emits exactly N accumulate statements at every sampled offset.
pub proof fn law_accumulates_per_offset(cf: CombinedFilters, dx: int, dy: int)
    requires
        cf.wf(),
    ensures
        spec_count(spec_offset_kinds(cf, dx, dy), StatementKind::Assignment) == 1,
        spec_count(spec_offset_kinds(cf, dx, dy), StatementKind::AddAssignment)
            == spec_covered_count(cf, dx, dy, cf.kernels@.len() as int),
        spec_count(spec_offset_kinds(cf, dx, dy), StatementKind::BufferWrite) == 0,
{
    let n = cf.kernels@.len() as int;
    lemma_accs_counts(cf, dx, dy, n);
    lemma_count_singleton(StatementKind::Assignment, StatementKind::Assignment);
    lemma_count_singleton(StatementKind::Assignment, StatementKind::AddAssignment);
    lemma_count_singleton(StatementKind::Assignment, StatementKind::BufferWrite);
    lemma_count_concat(seq![StatementKind::Assignment], spec_accs_kinds_upto(cf, dx, dy, n),
        StatementKind::Assignment);
    lemma_count_concat(seq![StatementKind::Assignment], spec_accs_kinds_upto(cf, dx, dy, n),
        StatementKind::AddAssignment);
    lemma_count_concat(seq![StatementKind::Assignment], spec_accs_kinds_upto(cf, dx, dy, n),
        StatementKind::BufferWrite);
}

/// When every kernel of the bank has one shared radius, every kernel covers
/// every offset the loop samples, so each sampled offset gets one accumulate
/// per kernel: N accumulates for a bank of N.
pub proof fn law_all_kernels_covered(cf: CombinedFilters, dx: int, dy: int, k: int)
    requires
        cf.wf(),
        0 <= k <= cf.kernels@.len(),
        forall|j: int|
            0 <= j < cf.kernels@.len() ==> (#[trigger] cf.kernels@[j].radius) as int
                == spec_max_radius(cf.kernels@, cf.kernels@.len() as int),
        -spec_max_radius(cf.kernels@, cf.kernels@.len() as int) <= dx <= spec_max_radius(
            cf.kernels@,
            cf.kernels@.len() as int,
        ),
        -spec_max_radius(cf.kernels@, cf.kernels@.len() as int) <= dy <= spec_max_radius(
            cf.kernels@,
            cf.kernels@.len() as int,
        ),
    ensures
        spec_covered_count(cf, dx, dy, k) == k,
    decreases k,
{
    if k > 0 {
        law_all_kernels_covered(cf, dx, dy, k - 1);
    }
}

/// No row of the sampling loop emits a buffer write.
proof fn lemma_row_no_writes(cf: CombinedFilters, radius: int, dy: int, dx: int)
    requires
        cf.wf(),
    ensures
        spec_count(spec_row_kinds_upto(cf, radius, dy, dx), StatementKind::BufferWrite) == 0,
    decreases dx + radius,
{
    if dx > -radius {
        lemma_row_no_writes(cf, radius, dy, dx - 1);
        law_accumulates_per_offset(cf, dx - 1, dy);
        lemma_count_concat(spec_row_kinds_upto(cf, radius, dy, dx - 1), spec_offset_kinds(
            cf,
            dx - 1,
            dy,
        ), StatementKind::BufferWrite);
    }
}

/// The whole sampling grid emits no buffer write.
proof fn lemma_grid_no_writes(cf: CombinedFilters, radius: int, dy: int)
    requires
        cf.wf(),
    ensures
        spec_count(spec_grid_kinds_upto(cf, radius, dy), StatementKind::BufferWrite) == 0,
    decreases dy + radius,
{
    if dy > -radius {
        lemma_grid_no_writes(cf, radius, dy - 1);
        lemma_row_no_writes(cf, radius, dy - 1, radius + 1);
        lemma_count_concat(spec_grid_kinds_upto(cf, radius, dy - 1), spec_row_kinds_upto(
            cf,
            radius,
            dy - 1,
            radius + 1,
        ), StatementKind::BufferWrite);
    }
}

/// The total-writes half of the bank round-trip law: a bank of N kernels
/// emits exactly N buffer-write statements in the whole body, independent of
/// any kernel's radius.
pub proof fn law_bank_buffer_writes(cf: CombinedFilters)
    requires
        cf.wf(),
    ensures
        spec_count(spec_body_kinds(cf), StatementKind::BufferWrite) == cf.kernels@.len(),
{
    let n = cf.kernels@.len() as int;
    let radius = spec_max_radius(cf.kernels@, n);
    let decls = spec_repeat_kind(StatementKind::Declaration, n + 1);
    let grid = spec_grid_kinds_upto(cf, radius, radius + 1);
    let writes = spec_repeat_kind(StatementKind::BufferWrite, n);
    lemma_count_repeat(StatementKind::Declaration, StatementKind::BufferWrite, n + 1);
    lemma_grid_no_writes(cf, radius, radius + 1);
    lemma_count_repeat(StatementKind::BufferWrite, StatementKind::BufferWrite, n);
    lemma_count_concat(decls, grid, StatementKind::BufferWrite);
    lemma_count_concat(decls + grid, writes, StatementKind::BufferWrite);
    assert(spec_body_kinds(cf) =~= (decls + grid) + writes);
}


/// The per-offset half of the bank round-trip law, in its direct form: when
/// every kernel of the bank shares the loop radius, each sampled offset gets
/// exactly one fetch and one accumulate statement per kernel -- N accumulates
/// for a bank of N -- and no buffer write.
pub proof fn law_bank_round_trip_per_offset(cf: CombinedFilters, dx: int, dy: int)
    requires
        cf.wf(),
        forall|j: int|
            0 <= j < cf.kernels@.len() ==> (#[trigger] cf.kernels@[j].radius) as int
                == spec_max_radius(cf.kernels@, cf.kernels@.len() as int),
        -spec_max_radius(cf.kernels@, cf.kernels@.len() as int) <= dx <= spec_max_radius(
            cf.kernels@,
            cf.kernels@.len() as int,
        ),
        -spec_max_radius(cf.kernels@, cf.kernels@.len() as int) <= dy <= spec_max_radius(
            cf.kernels@,
            cf.kernels@.len() as int,
        ),
    ensures
        spec_count(spec_offset_kinds(cf, dx, dy), StatementKind::Assignment) == 1,
        spec_count(spec_offset_kinds(cf, dx, dy), StatementKind::AddAssignment)
            == cf.kernels@.len(),
        spec_count(spec_offset_kinds(cf, dx, dy), StatementKind::BufferWrite) == 0,
{
    law_accumulates_per_offset(cf, dx, dy);
    law_all_kernels_covered(cf, dx, dy, cf.kernels@.len() as int);
}


/// Distinct kernels write to disjoint output slots: the output buffer is
/// laid out kernel-major with one whole image per kernel, so no kernel's
/// result is overwritten by another's.
pub proof fn law_write_slots_disjoint(cf: CombinedFilters, k1: int, k2: int, p1: int, p2: int)
    requires
        cf.wf(),
        0 <= k1 < cf.kernels@.len(),
        0 <= k2 < cf.kernels@.len(),
        k1 != k2,
        0 <= p1 < cf.img_extent.width as int * cf.img_extent.height as int,
        0 <= p2 < cf.img_extent.width as int * cf.img_extent.height as int,
    ensures
        k1 * (cf.img_extent.width as int * cf.img_extent.height as int) + p1 != k2 * (
        cf.img_extent.width as int * cf.img_extent.height as int) + p2,
{
    let pixels = cf.img_extent.width as int * cf.img_extent.height as int;
    assert(k1 * pixels + p1 != k2 * pixels + p2) by (nonlinear_arith)
        requires
            k1 != k2,
            0 <= p1 < pixels,
            0 <= p2 < pixels,
    ;
}

/// Integer clamping, the semantics of the emitted `clamp` builtin.
pub open spec fn spec_clamp_int(v: int, lo: int, hi: int) -> int {
    if v < lo {
        lo
    } else if v > hi {
        hi
    } else {
        v
    }
}

/// The boundary law: the fetch emitted at any window offset clamps both
/// sample coordinates with lower bound 0 and upper bounds exactly
/// `width - 1` and `height - 1`, so a pixel at the image corner (0, 0) -- or
/// any pixel -- never sources a sample outside
/// `[0, width-1] x [0, height-1]`.
pub proof fn law_sample_stays_in_bounds(cf: CombinedFilters, dx: int, dy: int, px: int, py: int)
    requires
        cf.wf(),
    ensures
        spec_sample_stmt_text(cf, dx, dy) == "sample"@ + " = "@ + spec_texture_load(
            cf.input_texture.name@,
            "vec2<i32>("@ + spec_clamp_text(
                spec_infix("i32("@ + "global_invocation_id"@ + ".x"@ + ")"@, " + "@,
                    spec_dec_int(dx)),
                spec_dec_nat(0),
                spec_dec_nat((cf.img_extent.width - 1) as nat),
            ) + ", "@ + spec_clamp_text(
                spec_infix("i32("@ + "global_invocation_id"@ + ".y"@ + ")"@, " + "@,
                    spec_dec_int(dy)),
                spec_dec_nat(0),
                spec_dec_nat((cf.img_extent.height - 1) as nat),
            ) + ")"@,
            spec_dec_nat(0),
        ) + ";"@,
        0 <= spec_clamp_int(px + dx, 0, cf.img_extent.width - 1) <= cf.img_extent.width - 1,
        0 <= spec_clamp_int(py + dy, 0, cf.img_extent.height - 1) <= cf.img_extent.height - 1,
{
}

} // verus!
