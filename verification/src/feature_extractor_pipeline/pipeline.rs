//! The pipeline orchestrator's build phase: validate the kernel bank and the
//! forest's feature coverage, then emit the one fused kernel source --
//! resource declarations, bounds-check prologue, sampling/accumulation loop,
//! classifier code, and the final class-decision write. The emitted source
//! is a function of the build inputs alone, so byte-identical inputs yield
//! byte-identical source.

use core::marker::PhantomData;

use vstd::prelude::*;

use crate::decision_tree::{spec_forest_wgsl, DecisionNode, DecisionTree, RandomForest};
use crate::error::ConfigError;
use crate::feature_extractor_pipeline::input_texture::{spec_texture_slot_decl, InputTextureSlot};
use crate::feature_extractor_pipeline::kernel::gaussian_blur::GaussianBlur;
use crate::feature_extractor_pipeline::output_buffer::{
    spec_feature_calcs, KernelsInBuffSlot, OutputBufferSlot,
};
use crate::textfmt::{dec_u32, dec_usize, spec_dec_nat};
use crate::util::{
    Binding, Extent3d, Group, TextureSampleType, TextureViewDimension, WorkgroupSize,
};
use crate::wgsl::{FVec4, ShaderTypeExt, Wgsl};

verus! {

/// The per-class score variable declarations for classes `0..n`.
pub open spec fn spec_score_decls(n: int) -> Seq<char>
    decreases n,
{
    if n <= 0 {
        Seq::<char>::empty()
    } else {
        spec_score_decls(n - 1) + "var class_"@ + spec_dec_nat((n - 1) as nat)
            + "_score: i32 = 0;\n"@
    }
}

/// The largest class index any of the first `n` trees predicts.
pub open spec fn spec_forest_max_class(trees: Seq<DecisionTree>, n: int) -> int
    decreases n,
{
    if n <= 0 {
        0
    } else if trees[n - 1].root.spec_max_class() > spec_forest_max_class(trees, n - 1) {
        trees[n - 1].root.spec_max_class()
    } else {
        spec_forest_max_class(trees, n - 1)
    }
}

/// How many class scores the kernel declares: every class any tree votes
/// for, and at least the two the final decision compares.
pub open spec fn spec_num_classes(trees: Seq<DecisionTree>) -> int {
    if spec_forest_max_class(trees, trees.len() as int) < 1 {
        2
    } else {
        spec_forest_max_class(trees, trees.len() as int) + 1
    }
}

/// The complete fused kernel source, determined by the build inputs alone.
pub open spec fn spec_pipeline_source(
    kernels: Seq<GaussianBlur>,
    trees: Seq<DecisionTree>,
    extent: Extent3d,
    wgs: WorkgroupSize,
) -> Seq<char> {
    spec_texture_slot_decl(
        "input_image"@,
        0,
        0,
        if extent.depth_or_array_layers == 1 {
            TextureViewDimension::D2
        } else {
            TextureViewDimension::D3
        },
    ) + "\n"@ + "@group("@ + spec_dec_nat(0) + ") @binding("@ + spec_dec_nat(1)
        + ") var<storage, read_write> "@ + "output_features_buf"@ + " : "@
        + crate::util::spec_wgsl_array_type(extent, FVec4::spec_type_name()) + ";"@ + "\n"@
        + "@group("@ + spec_dec_nat(1) + ") @binding("@ + spec_dec_nat(0)
        + ") var<storage, read> "@ + "in_buf_kernels"@ + " : array<f32>;"@ + "\n\n@compute "@
        + wgs.wgsl_spec() + "\nfn extract_features(@builtin(global_invocation_id) global_id : vec3<u32>) {\n"@
        + "let dimensions = vec2<u32>("@ + spec_dec_nat(extent.width as nat) + ", "@
        + spec_dec_nat(extent.height as nat) + ");\n"@ + "let texture_upper_limit = vec2<i32>("@
        + spec_dec_nat((extent.width - 1) as nat) + ", "@ + spec_dec_nat(
        (extent.height - 1) as nat,
    ) + ");\n"@ + "let current_coords = vec2<i32>(global_id.xy);\n"@
        + "if (global_id.x >= dimensions.x || global_id.y >= dimensions.y) {\nreturn;\n}\n"@
        + spec_feature_calcs(
        "in_buf_kernels"@,
        "input_image"@,
        kernels[0].radius as nat,
        kernels.len() as int,
    ) + spec_score_decls(spec_num_classes(trees)) + spec_forest_wgsl(trees, trees.len() as int)
        + "if class_0_score > class_1_score {\noutput_features_buf[global_id.z][global_id.y][global_id.x] = vec4(255.0, 0.0, 0.0, 1.0);\n} else {\noutput_features_buf[global_id.z][global_id.y][global_id.x] = vec4(0.0, 255.0, 0.0, 1.0);\n}\n}\n"@
}

/// A built pipeline: the binding slots, the workgroup sizing, and the fused
/// kernel source handed to the external kernel compiler. The device objects
/// compiled from it live outside the library.
pub struct FeatureExtractorPipeline {
    pub workgroup_size: WorkgroupSize,
    pub input_texture_slot: InputTextureSlot,
    pub output_buffer_slot: OutputBufferSlot<FVec4>,
    pub kernel_buffer_slot: KernelsInBuffSlot,
    pub shader_source: String,
}

impl FeatureExtractorPipeline {
    /// Build a pipeline: reject an unusable kernel bank and a forest whose
    /// highest feature index reaches past the bank's 3-channel coverage,
    /// then emit the fused source.
    #[verifier::rlimit(100)]
    #[verifier::spinoff_prover]
    pub fn new(
        workgroup_size: WorkgroupSize,
        kernels: Vec<GaussianBlur>,
        forest: &RandomForest,
        img_extent: Extent3d,
    ) -> (r: Result<FeatureExtractorPipeline, ConfigError>)
        requires
            forall|k: int| 0 <= k < kernels@.len() ==> (#[trigger] kernels@[k]).wf(),
            forest.wf(),
            forall|q: int|
                0 <= q < forest.trees@.len() ==> (#[trigger] forest.trees@[q]).root.spec_height()
                    <= 1_000_000,
            1 <= img_extent.width <= 0x7fffffff,
            1 <= img_extent.height <= 0x7fffffff,
            1 <= img_extent.depth_or_array_layers,
            spec_forest_max_class(forest.trees@, forest.trees@.len() as int) < usize::MAX,
        ensures
            r is Ok <==> {
                &&& 1 <= kernels@.len() <= 100_000
                &&& forall|k: int|
                    0 <= k < kernels@.len() ==> (#[trigger] kernels@[k]).radius
                        == kernels@[0].radius
                &&& forest.spec_features_lt(3 * kernels@.len() as int)
            },
            r matches Ok(p) ==> {
                &&& p.shader_source@ == spec_pipeline_source(
                    kernels@,
                    forest.trees@,
                    img_extent,
                    workgroup_size,
                )
                &&& p.output_buffer_slot.img_extent == img_extent
                &&& p.kernel_buffer_slot.kernels@ == kernels@
                &&& p.kernel_buffer_slot.wf()
                &&& p.workgroup_size == workgroup_size
            },
            kernels@.len() == 0 ==> r == Err::<FeatureExtractorPipeline, ConfigError>(
                ConfigError::EmptyKernelBank,
            ),
            kernels@.len() > 100_000 ==> r == Err::<FeatureExtractorPipeline, ConfigError>(
                ConfigError::OversizedKernelBank,
            ),
            1 <= kernels@.len() <= 100_000 && !(forall|k: int|
                0 <= k < kernels@.len() ==> (#[trigger] kernels@[k]).radius
                    == kernels@[0].radius) ==> r == Err::<FeatureExtractorPipeline, ConfigError>(
                ConfigError::BadKernelShape,
            ),
            1 <= kernels@.len() <= 100_000 && (forall|k: int|
                0 <= k < kernels@.len() ==> (#[trigger] kernels@[k]).radius
                    == kernels@[0].radius) && !forest.spec_features_lt(3 * kernels@.len() as int)
                ==> (r matches Err(e) && e is FeatureIndexOutOfRange),
    {
        let num_kernels = kernels.len();
        let input_texture_view_dimension = if img_extent.depth_or_array_layers == 1 {
            TextureViewDimension::D2
        } else {
            TextureViewDimension::D3
        };
        let input_texture_slot = InputTextureSlot::new(
            String::from_str("input_image"),
            Group(0),
            Binding(0),
            TextureSampleType::Float { filterable: false },
            input_texture_view_dimension,
        );
        let output_buffer_slot = OutputBufferSlot::<FVec4> {
            name: String::from_str("output_features_buf"),
            group: Group(0),
            binding: Binding(1),
            img_extent,
            marker: PhantomData,
        };
        let kernel_buffer_slot = match KernelsInBuffSlot::new(
            String::from_str("in_buf_kernels"),
            Group(1),
            Binding(0),
            kernels,
        ) {
            Err(e) => {
                return Err(e);
            },
            Ok(s) => s,
        };
        if !forest.check_features_lt(3 * num_kernels) {
            let highest = match forest.highest_feature_idx() {
                Some(h) => h,
                None => 0,
            };
            return Err(ConfigError::FeatureIndexOutOfRange { highest, num_kernels });
        }

        let mut code = String::new();
        let input_decl = input_texture_slot.to_wgsl_declaration();
        code.append(input_decl.as_str());
        code.append("\n");
        let output_decl = output_buffer_slot.to_wgsl_declaration();
        code.append(output_decl.as_str());
        code.append("\n");
        let kernels_decl = kernel_buffer_slot.to_wgsl_declaration();
        code.append(kernels_decl.as_str());
        code.append("\n\n@compute ");
        let wgs_text = workgroup_size.wgsl();
        code.append(wgs_text.as_str());
        code.append("\nfn extract_features(@builtin(global_invocation_id) global_id : vec3<u32>) {\n");
        let ghost head = spec_texture_slot_decl(
            "input_image"@,
            0,
            0,
            if img_extent.depth_or_array_layers == 1 {
                TextureViewDimension::D2
            } else {
                TextureViewDimension::D3
            },
        ) + "\n"@ + "@group("@ + spec_dec_nat(0) + ") @binding("@ + spec_dec_nat(1)
            + ") var<storage, read_write> "@ + "output_features_buf"@ + " : "@
            + crate::util::spec_wgsl_array_type(img_extent, FVec4::spec_type_name()) + ";"@
            + "\n"@ + "@group("@ + spec_dec_nat(1) + ") @binding("@ + spec_dec_nat(0)
            + ") var<storage, read> "@ + "in_buf_kernels"@ + " : array<f32>;"@ + "\n\n@compute "@
            + workgroup_size.wgsl_spec()
            + "\nfn extract_features(@builtin(global_invocation_id) global_id : vec3<u32>) {\n"@;
        proof {
            assert(code@ =~= head);
        }
        code.append("let dimensions = vec2<u32>(");
        let w_text = dec_u32(img_extent.width);
        code.append(w_text.as_str());
        code.append(", ");
        let h_text = dec_u32(img_extent.height);
        code.append(h_text.as_str());
        code.append(");\n");
        code.append("let texture_upper_limit = vec2<i32>(");
        let w_limit_text = dec_u32(img_extent.width - 1);
        code.append(w_limit_text.as_str());
        code.append(", ");
        let h_limit_text = dec_u32(img_extent.height - 1);
        code.append(h_limit_text.as_str());
        code.append(");\n");
        code.append("let current_coords = vec2<i32>(global_id.xy);\n");
        code.append("if (global_id.x >= dimensions.x || global_id.y >= dimensions.y) {\nreturn;\n}\n");
        let ghost prologue = "let dimensions = vec2<u32>("@ + spec_dec_nat(
            img_extent.width as nat,
        ) + ", "@ + spec_dec_nat(img_extent.height as nat) + ");\n"@
            + "let texture_upper_limit = vec2<i32>("@ + spec_dec_nat(
            (img_extent.width - 1) as nat,
        ) + ", "@ + spec_dec_nat((img_extent.height - 1) as nat) + ");\n"@
            + "let current_coords = vec2<i32>(global_id.xy);\n"@
            + "if (global_id.x >= dimensions.x || global_id.y >= dimensions.y) {\nreturn;\n}\n"@;
        proof {
            assert(code@ =~= head + prologue);
        }
        kernel_buffer_slot.write_wgsl_feature_calcs(&mut code, "input_image");
        let ghost calcs = spec_feature_calcs(
            "in_buf_kernels"@,
            "input_image"@,
            kernel_buffer_slot.kernels@[0].radius as nat,
            kernel_buffer_slot.kernels@.len() as int,
        );
        proof {
            assert(code@ =~= (head + prologue) + calcs);
        }

        // one score variable per class, at least the two the epilogue reads
        let max_class = forest_max_class(forest);
        let num_classes = if max_class < 1 {
            2
        } else {
            max_class + 1
        };
        let ghost before_scores = code@;
        let mut c: usize = 0;
        proof {
            assert(code@ =~= before_scores + spec_score_decls(0));
        }
        while c < num_classes
            invariant
                c <= num_classes,
                code@ == before_scores + spec_score_decls(c as int),
            decreases num_classes - c,
        {
            code.append("var class_");
            let c_text = dec_usize(c);
            code.append(c_text.as_str());
            code.append("_score: i32 = 0;\n");
            proof {
                assert(code@ =~= before_scores + spec_score_decls(c as int + 1));
            }
            c += 1;
        }

        let ghost scores = spec_score_decls(spec_num_classes(forest.trees@));
        proof {
            assert(num_classes as int == spec_num_classes(forest.trees@));
            assert(code@ =~= ((head + prologue) + calcs) + scores);
        }
        forest.write_wgsl(&mut code);
        let ghost forest_code = spec_forest_wgsl(forest.trees@, forest.trees@.len() as int);
        code.append(
            "if class_0_score > class_1_score {\noutput_features_buf[global_id.z][global_id.y][global_id.x] = vec4(255.0, 0.0, 0.0, 1.0);\n} else {\noutput_features_buf[global_id.z][global_id.y][global_id.x] = vec4(0.0, 255.0, 0.0, 1.0);\n}\n}\n",
        );
        proof {
            assert(code@ =~= ((((head + prologue) + calcs) + scores) + forest_code)
                + "if class_0_score > class_1_score {\noutput_features_buf[global_id.z][global_id.y][global_id.x] = vec4(255.0, 0.0, 0.0, 1.0);\n} else {\noutput_features_buf[global_id.z][global_id.y][global_id.x] = vec4(0.0, 255.0, 0.0, 1.0);\n}\n}\n"@);
            assert(code@ =~= spec_pipeline_source(
                kernel_buffer_slot.kernels@,
                forest.trees@,
                img_extent,
                workgroup_size,
            ));
        }
        Ok(
            FeatureExtractorPipeline {
                workgroup_size,
                input_texture_slot,
                output_buffer_slot,
                kernel_buffer_slot,
                shader_source: code,
            },
        )
    }

    /// Check an image's extent against the extent the pipeline was built
    /// for; on a mismatch no device work may be issued, and the error names
    /// both the expected and the found extent.
    pub fn validate_extent(&self, found: Extent3d) -> (r: Result<(), ConfigError>)
        ensures
            r is Ok <==> found == self.output_buffer_slot.img_extent,
            r is Err ==> r == Err::<(), ConfigError>(
                (ConfigError::ExtentMismatch {
                    expected: self.output_buffer_slot.img_extent,
                    found,
                }),
            ),
    {
        if found == self.output_buffer_slot.img_extent {
            Ok(())
        } else {
            Err(
                ConfigError::ExtentMismatch {
                    expected: self.output_buffer_slot.img_extent,
                    found,
                },
            )
        }
    }

    /// The fused kernel source handed to the external kernel compiler.
    pub fn produce_shader(&self) -> (r: &str)
        ensures
            r@ == self.shader_source@,
    {
        self.shader_source.as_str()
    }
}

/// The largest class index any tree of the forest predicts: an executable
/// check that discharges the class bound the build asks for.
pub fn forest_max_class(forest: &RandomForest) -> (r: usize)
    ensures
        r == spec_forest_max_class(forest.trees@, forest.trees@.len() as int),
{
    let mut r: usize = 0;
    let mut i: usize = 0;
    while i < forest.trees.len()
        invariant
            i <= forest.trees@.len(),
            r == spec_forest_max_class(forest.trees@, i as int),
        decreases forest.trees@.len() - i,
    {
        let m = forest.trees[i].root.max_class();
        if m > r {
            r = m;
        }
        i += 1;
    }
    r
}

/// Building a pipeline twice from byte-identical inputs -- the same kernels,
/// the same forest, the same extent and workgroup sizing -- yields
/// byte-identical generated source, because the emitted source is a function
/// of those inputs alone.
pub proof fn law_build_idempotent(
    first: Seq<char>,
    second: Seq<char>,
    kernels: Seq<GaussianBlur>,
    trees: Seq<DecisionTree>,
    extent: Extent3d,
    wgs: WorkgroupSize,
)
    requires
        first == spec_pipeline_source(kernels, trees, extent, wgs),
        second == spec_pipeline_source(kernels, trees, extent, wgs),
    ensures
        first == second,
{
}

} // verus!
