use feature_extractor::error::ConfigError;
use feature_extractor::feature_extractor_pipeline::kernel::combined_filters::CombinedFilters;
use feature_extractor::feature_extractor_pipeline::kernel::gaussian_blur::{
    GaussianBlur, KernelWeight,
};
use feature_extractor::feature_extractor_pipeline::output_buffer::KernelsInBuffSlot;
use feature_extractor::feature_extractor_pipeline::kernel::CenterOffset;
use feature_extractor::util::{Binding, Extent3d, Group};
use feature_extractor::wgsl::buffer::OutputBufferDecl;
use feature_extractor::wgsl::statement::Statement;
use feature_extractor::wgsl::texture::Texture2dDecl;
use feature_extractor::wgsl::Wgsl;
use std::marker::PhantomData;

// The truncated-window Gaussian weights for a sigma and radius, each carried
// as its fixed-precision source literal and its nano-unit fixed-point value.
fn gaussian_weights(sigma: f32, radius: i32) -> Vec<KernelWeight> {
    let mut out = Vec::new();
    for y in -radius..=radius {
        for x in -radius..=radius {
            let two_sigma_2 = 2f32 * sigma * sigma;
            let exponent = -((x * x + y * y) as f32) / two_sigma_2;
            let value = (1f32 / (std::f32::consts::PI * two_sigma_2))
                * std::f32::consts::E.powf(exponent);
            out.push(KernelWeight {
                text: format!("{value:.20e}"),
                nano: (value as f64 * 1e9).round() as u64,
            });
        }
    }
    out
}

fn kernel(sigma: f32, sigma_micro: u32, radius: u32) -> GaussianBlur {
    GaussianBlur::new(sigma_micro, radius, gaussian_weights(sigma, radius as i32)).unwrap()
}

fn two_kernel_bank() -> CombinedFilters {
    CombinedFilters {
        kernels: vec![kernel(0.3, 300_000, 3), kernel(0.7, 700_000, 3)],
        input_texture: Texture2dDecl {
            group: Group(0),
            binding: Binding(0),
            name: "my_texture".to_string(),
        },
        output_buffer: OutputBufferDecl {
            group: Group(0),
            binding: Binding(1),
            name: "my_output".to_string(),
            marker: PhantomData,
        },
        img_extent: Extent3d { width: 16, height: 16, depth_or_array_layers: 1 },
    }
}

#[test]
fn produce_shader() {
    let shader_code = two_kernel_bank().produce_shader().wgsl();
    println!("Shader code:\n{shader_code}");
}

#[test]
fn normalization_holds_for_the_scenario_kernels() {
    // sigma 0.3 and 0.7 at radius 3: the truncated window reaches 1.0
    assert!(GaussianBlur::new(300_000, 3, gaussian_weights(0.3, 3)).is_ok());
    assert!(GaussianBlur::new(700_000, 3, gaussian_weights(0.7, 3)).is_ok());
}

#[test]
fn normalization_fails_when_the_radius_is_too_small() {
    // sigma 10 truncated at radius 1 loses almost all of its mass
    assert!(matches!(
        GaussianBlur::new(10_000_000, 1, gaussian_weights(10.0, 1)),
        Err(ConfigError::KernelNotNormalized)
    ));
}

#[test]
fn wrong_weight_count_is_rejected() {
    assert!(matches!(
        GaussianBlur::new(300_000, 3, gaussian_weights(0.3, 2)),
        Err(ConfigError::WrongWeightCount)
    ));
}

#[test]
fn zero_sigma_is_rejected() {
    assert!(matches!(
        GaussianBlur::new(0, 3, gaussian_weights(0.3, 3)),
        Err(ConfigError::BadKernelShape)
    ));
}

#[test]
fn bank_emits_one_write_per_kernel_and_one_accumulate_per_kernel_per_offset() {
    let shader = two_kernel_bank().produce_shader();
    let mut declarations = 0;
    let mut assignments = 0;
    let mut accumulates = 0;
    let mut writes = 0;
    for statement in &shader.statements {
        match statement {
            Statement::Declaration(_) => declarations += 1,
            Statement::Assignment(_) => assignments += 1,
            Statement::AddAssignment(_) => accumulates += 1,
            Statement::BufferWrite(_) => writes += 1,
        }
    }
    // two accumulators plus the sample variable
    assert_eq!(declarations, 3);
    // one fetch per offset of the 7x7 window
    assert_eq!(assignments, 49);
    // both kernels share radius 3, so two accumulates per sampled offset
    assert_eq!(accumulates, 2 * 49);
    // exactly one buffer write per kernel, independent of the radius
    assert_eq!(writes, 2);
}

#[test]
fn bank_with_differing_radii_accumulates_only_inside_each_window() {
    let mut bank = two_kernel_bank();
    bank.kernels = vec![kernel(0.3, 300_000, 1), kernel(0.7, 700_000, 3)];
    let shader = bank.produce_shader();
    let mut accumulates = 0;
    for statement in &shader.statements {
        if matches!(statement, Statement::AddAssignment(_)) {
            accumulates += 1;
        }
    }
    // the radius-3 kernel covers all 49 offsets, the radius-1 kernel only 9
    assert_eq!(accumulates, 49 + 9);
}

#[test]
fn corner_pixel_clamp_bounds_equal_the_extent_minus_one() {
    let shader = two_kernel_bank().produce_shader();
    let text = shader.wgsl();
    // the extent is 16x16, so every sample clamps to [0, 15] on both axes
    assert!(text.contains("clamp((i32(global_invocation_id.x) + -3), 0, 15)"));
    assert!(text.contains("clamp((i32(global_invocation_id.y) + 3), 0, 15)"));
    assert!(!text.contains(", 0, 16)"));
}

#[test]
fn kernel_at_returns_the_packed_weight() {
    let k = kernel(0.7, 700_000, 3);
    let center = k.kernel_at(&CenterOffset { x: 0, y: 0, z: 0 });
    let expected = gaussian_weights(0.7, 3)[3 * 7 + 3].text.clone();
    assert_eq!(center.text, expected);
    assert_eq!(k.linear_idx_from_yx_offset(&CenterOffset { x: 0, y: 0, z: 0 }), 24);
    assert_eq!(k.linear_idx_from_yx_offset(&CenterOffset { x: -3, y: -3, z: 0 }), 0);
    assert_eq!(k.kernel_side_len(), 7);
    assert_eq!(k.required_size_in_bytes(), 49 * 4);
}

#[test]
fn wgsl_linear_index_text() {
    let k = kernel(0.7, 700_000, 3);
    assert_eq!(
        k.wgsl_linear_idx_from_yx_offset("offset"),
        "( (offset.y + 3) * 7  + (offset.x + 3) )"
    );
}

#[test]
fn asymmetric_weight_table_is_rejected() {
    // a normalized 3x3 table with one tampered corner: sums fine, not a
    // Gaussian shape
    let mut weights: Vec<KernelWeight> = (0..9)
        .map(|_| KernelWeight { text: "0.111".to_string(), nano: 111_111_200 })
        .collect();
    weights[0].nano += 7;
    assert!(matches!(
        GaussianBlur::new(500_000, 1, weights),
        Err(ConfigError::AsymmetricKernel)
    ));
}

#[test]
fn each_kernel_writes_its_own_output_slice() {
    // extent 16x16: kernel 1's writes start at slot 256, after kernel 0's
    // whole image
    let text = two_kernel_bank().produce_shader().wgsl();
    assert!(text.contains(
        "my_output[(0 + ((global_invocation_id.y * 16) + global_invocation_id.x))] = kernel_0_acc;"
    ));
    assert!(text.contains(
        "my_output[(256 + ((global_invocation_id.y * 16) + global_invocation_id.x))] = kernel_1_acc;"
    ));
}

#[test]
fn interleaved_weight_buffer_index_is_offset_major() {
    let slot = KernelsInBuffSlot::new(
        "in_buf_kernels".to_string(),
        Group(1),
        Binding(0),
        vec![kernel(0.3, 300_000, 1), kernel(0.35, 350_000, 1)],
    )
    .unwrap();
    // offset (-1, -1) is the first window cell; kernel 1 follows kernel 0
    assert_eq!(slot.interleaved_index(&CenterOffset { x: -1, y: -1, z: 0 }, 0), 0);
    assert_eq!(slot.interleaved_index(&CenterOffset { x: -1, y: -1, z: 0 }, 1), 1);
    // offset (0, -1) is the second cell of the first row
    assert_eq!(slot.interleaved_index(&CenterOffset { x: 0, y: -1, z: 0 }, 0), 2);
    assert_eq!(slot.interleaved_index(&CenterOffset { x: 1, y: 1, z: 0 }, 1), 17);
}

#[test]
fn oversized_kernel_bank_is_rejected() {
    let flat = || KernelWeight { text: "1.0".to_string(), nano: 1_000_000_000 };
    let kernels: Vec<GaussianBlur> = (0..100_001)
        .map(|_| GaussianBlur::new(1, 0, vec![flat()]).unwrap())
        .collect();
    let slot = KernelsInBuffSlot::new(
        "in_buf_kernels".to_string(),
        Group(1),
        Binding(0),
        kernels,
    );
    assert!(matches!(
        slot,
        Err(ConfigError::OversizedKernelBank)
    ));
}
