use feature_extractor::decision_tree::{DecisionTree, RandomForest};
use feature_extractor::error::ConfigError;
use feature_extractor::feature_extractor_pipeline::download_buffer::{
    copy_bytes, BufferMapState, DownloadBuffer, PixelRecord,
};
use feature_extractor::feature_extractor_pipeline::kernel::gaussian_blur::{
    GaussianBlur, KernelWeight,
};
use feature_extractor::feature_extractor_pipeline::pipeline::FeatureExtractorPipeline;
use feature_extractor::util::{Extent3d, WorkgroupSize};

fn scenario_weights(sigma: f32, radius: i32) -> Vec<KernelWeight> {
    let mut out = Vec::new();
    for y in -radius..=radius {
        for x in -radius..=radius {
            let two_sigma_2 = 2f32 * sigma * sigma;
            let exponent = -((x * x + y * y) as f32) / two_sigma_2;
            let value = (1f32 / (std::f32::consts::PI * two_sigma_2))
                * std::f32::consts::E.powf(exponent);
            out.push(KernelWeight {
                text: format!("{value:.20e}"),
                nano: (value as f64 * 1e9).round() as u64,
            });
        }
    }
    out
}

fn scenario_kernels() -> Vec<GaussianBlur> {
    vec![
        GaussianBlur::new(300_000, 3, scenario_weights(0.3, 3)).unwrap(),
        GaussianBlur::new(700_000, 3, scenario_weights(0.7, 3)).unwrap(),
    ]
}

fn scenario_forest() -> RandomForest {
    let tree = DecisionTree::parse(
        r#"digraph{0[label="x[0] <= 5"]; 1[label="class = 0"]; 2[label="class = 1"]; 0->1; 0->2;}"#,
    )
    .unwrap();
    RandomForest { trees: vec![tree] }
}

fn workgroup() -> WorkgroupSize {
    WorkgroupSize { x: 16, y: 16, z: 1 }
}

fn extent() -> Extent3d {
    Extent3d { width: 8, height: 8, depth_or_array_layers: 1 }
}

#[test]
fn pipeline_builds_for_the_scenario_inputs() {
    let p = FeatureExtractorPipeline::new(
        workgroup(),
        scenario_kernels(),
        &scenario_forest(),
        extent(),
    )
    .unwrap();
    let source = p.produce_shader();
    assert!(source.contains("fn extract_features"));
    assert!(source.contains("@workgroup_size(16, 16, 1)"));
    assert!(source.contains("if feature_0[0] <= 5 {"));
    assert!(source.contains("var class_0_score: i32 = 0;"));
    assert!(source.contains("var class_1_score: i32 = 0;"));
    // bounds check and clamp bounds baked to the extent
    assert!(source.contains("let dimensions = vec2<u32>(8, 8);"));
    assert!(source.contains("let texture_upper_limit = vec2<i32>(7, 7);"));
}

#[test]
fn building_twice_from_identical_inputs_yields_identical_source() {
    let p1 = FeatureExtractorPipeline::new(
        workgroup(),
        scenario_kernels(),
        &scenario_forest(),
        extent(),
    )
    .unwrap();
    let p2 = FeatureExtractorPipeline::new(
        workgroup(),
        scenario_kernels(),
        &scenario_forest(),
        extent(),
    )
    .unwrap();
    assert_eq!(p1.produce_shader(), p2.produce_shader());
}

#[test]
fn forest_reaching_past_the_bank_coverage_is_rejected() {
    let tree = DecisionTree::parse(
        r#"digraph{0[label="x[6] <= 5"]; 1[label="class = 0"]; 2[label="class = 1"]; 0->1; 0->2;}"#,
    )
    .unwrap();
    let forest = RandomForest { trees: vec![tree] };
    // two kernels cover features 0..5; x[6] is out of range
    let r = FeatureExtractorPipeline::new(workgroup(), scenario_kernels(), &forest, extent());
    assert!(matches!(
        r,
        Err(ConfigError::FeatureIndexOutOfRange { highest: 6, num_kernels: 2 })
    ));
}

#[test]
fn empty_kernel_bank_is_rejected() {
    let r = FeatureExtractorPipeline::new(workgroup(), Vec::new(), &scenario_forest(), extent());
    assert!(matches!(r, Err(ConfigError::EmptyKernelBank)));
}

#[test]
fn kernels_with_differing_radii_are_rejected() {
    let kernels = vec![
        GaussianBlur::new(300_000, 1, scenario_weights(0.3, 1)).unwrap(),
        GaussianBlur::new(700_000, 3, scenario_weights(0.7, 3)).unwrap(),
    ];
    let tree = DecisionTree::parse(r#"digraph{0[label="class = 0"];}"#).unwrap();
    let forest = RandomForest { trees: vec![tree] };
    let r = FeatureExtractorPipeline::new(workgroup(), kernels, &forest, extent());
    assert!(matches!(r, Err(ConfigError::BadKernelShape)));
}

#[test]
fn mismatched_extent_issues_no_work() {
    let p = FeatureExtractorPipeline::new(
        workgroup(),
        scenario_kernels(),
        &scenario_forest(),
        extent(),
    )
    .unwrap();
    assert_eq!(p.validate_extent(extent()), Ok(()));
    let wrong = Extent3d { width: 9, height: 8, depth_or_array_layers: 1 };
    assert_eq!(
        p.validate_extent(wrong),
        Err(ConfigError::ExtentMismatch { expected: extent(), found: wrong })
    );
}

#[test]
fn copied_records_assemble_little_endian_words() {
    let mut bytes = vec![0u8; 32];
    bytes[0] = 1;
    bytes[5] = 2;
    bytes[16] = 0xff;
    bytes[31] = 0x80;
    let records = copy_bytes(&bytes).unwrap();
    assert_eq!(records.len(), 2);
    assert_eq!(records[0], PixelRecord { x: 1, y: 2 * 256, z: 0, w: 0 });
    assert_eq!(records[1], PixelRecord { x: 0xff, y: 0, z: 0, w: 0x8000_0000 });
}

#[test]
fn odd_byte_count_fails_reconstruction() {
    let bytes = vec![0u8; 10];
    let r = copy_bytes(&bytes);
    assert!(matches!(
        r,
        Err(feature_extractor::error::ReadbackError::UnexpectedByteCount { found: 10 })
    ));
}

#[test]
fn download_lifecycle_reads_after_signal_and_unmaps_once() {
    let buffer = DownloadBuffer::new(64);
    assert_eq!(buffer.state, BufferMapState::Unmapped);
    assert_eq!(buffer.size_in_bytes(), 64 * 16);
    let mut guard = buffer.map_async();
    assert_eq!(guard.dl_buffer.state, BufferMapState::MapRequested);
    guard.completion_signalled();
    assert_eq!(guard.dl_buffer.state, BufferMapState::MappedReady);
    let (returned, do_unmap) = guard.readback();
    assert!(do_unmap);
    assert_eq!(returned.state, BufferMapState::ReadAndUnmapped);
    assert_eq!(returned.count, 64);
}

#[test]
fn early_dropped_guard_still_unmaps_exactly_once() {
    let guard = DownloadBuffer::new(8).map_async();
    assert!(guard.release());
}

#[test]
fn dispatch_covers_every_texel() {
    let e = Extent3d { width: 33, height: 17, depth_or_array_layers: 1 };
    let counts = e.num_dispatch_work_groups(&workgroup());
    assert_eq!(counts, (3, 2, 1));
}

#[test]
fn buffer_sizes_follow_the_extent() {
    let e = Extent3d { width: 100, height: 2, depth_or_array_layers: 1 };
    assert_eq!(
        e.to_padded_buffer_size(feature_extractor::util::TextureFormat::Rgba8Unorm),
        512 * 2
    );
    assert_eq!(e.to_buffer_size::<feature_extractor::wgsl::FVec4>(), 100 * 2 * 16);
    assert_eq!(
        e.to_wgsl_array_type::<feature_extractor::wgsl::FVec4>(),
        "array<array<array<vec4<f32>, 100>, 2>, 1>"
    );
}

#[test]
fn workgroup_size_renders_exactly() {
    assert_eq!(
        feature_extractor::wgsl::Wgsl::wgsl(&workgroup()),
        "@workgroup_size(16, 16, 1)"
    );
}
