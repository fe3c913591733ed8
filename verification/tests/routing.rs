use ufc::errors::CoreError;
use ufc::format::{
    Capabilities, EmbeddedAssetSupport, FormatId, MetadataSupport, PluginManifest, SandboxMode, StructureSupport,
};
use ufc::router::{determine_ir_type, ConversionRouter};

fn make_manifest(id: &str, inputs: Vec<FormatId>, outputs: Vec<FormatId>) -> PluginManifest {
    PluginManifest {
        id: id.to_string(),
        version: semver::Version::new(1, 0, 0),
        api_version: semver::Version::new(1, 0, 0),
        author: "test".to_string(),
        license: "MIT".to_string(),
        description: "test".to_string(),
        input_formats: inputs,
        output_formats: outputs,
        capabilities: Capabilities {
            metadata: MetadataSupport::ReadWrite,
            structure: StructureSupport::Flat,
            embedded_assets: EmbeddedAssetSupport::NotSupported,
            color_spaces: vec![],
            max_dimension: None,
            max_bit_depth: None,
            supports_animation: false,
            supports_transparency: false,
            supports_multi_page: false,
        },
        dependencies: vec![],
        priority: 0,
        fidelity_score: 90,
        known_limitations: vec![],
        sandbox_mode: SandboxMode::Wasm,
    }
}

fn ranked(id: &str, inputs: Vec<FormatId>, outputs: Vec<FormatId>, priority: i32, fidelity: u8) -> PluginManifest {
    let mut m = make_manifest(id, inputs, outputs);
    m.priority = priority;
    m.fidelity_score = fidelity;
    m
}

#[test]
fn test_find_path() {
    let mut router = ConversionRouter::new();

    let png = FormatId::new("image/png", &["png"], "PNG");
    let jpeg = FormatId::new("image/jpeg", &["jpg", "jpeg"], "JPEG");

    router.register_plugin(make_manifest("png-decoder", vec![png.clone()], vec![]));
    router.register_plugin(make_manifest("jpeg-encoder", vec![], vec![jpeg.clone()]));

    let path = router.find_path(&png, &jpeg).unwrap();
    assert_eq!(path.decode_plugin, "png-decoder");
    assert_eq!(path.encode_plugin, "jpeg-encoder");
    assert_eq!(path.ir_type, "Image");
}

#[test]
fn test_no_decoder() {
    let mut router = ConversionRouter::new();
    let png = FormatId::new("image/png", &["png"], "PNG");
    let jpeg = FormatId::new("image/jpeg", &["jpg", "jpeg"], "JPEG");

    let result = router.find_path(&png, &jpeg);
    assert!(result.is_err());
}

#[test]
fn missing_decoder_and_encoder_are_named() {
    let mut router = ConversionRouter::new();
    let png = FormatId::new("image/png", &["png"], "PNG");
    let jpeg = FormatId::new("image/jpeg", &["jpg"], "JPEG");
    match router.find_path(&png, &jpeg) {
        Err(CoreError::NoPluginFound(msg)) => assert_eq!(msg, "No decoder for image/png"),
        _ => panic!("expected a missing decoder"),
    }
    router.register_plugin(make_manifest("png-decoder", vec![png.clone()], vec![]));
    match router.find_path(&png, &jpeg) {
        Err(CoreError::NoPluginFound(msg)) => assert_eq!(msg, "No encoder for image/jpeg"),
        _ => panic!("expected a missing encoder"),
    }
}

#[test]
fn best_path_prefers_fidelity_then_priority() {
    let mut router = ConversionRouter::new();
    let png = FormatId::new("image/png", &["png"], "PNG");
    let webp = FormatId::new("image/webp", &["webp"], "WebP");
    router.register_plugin(ranked("dec-low", vec![png.clone()], vec![], 5, 70));
    router.register_plugin(ranked("dec-high", vec![png.clone()], vec![], 1, 95));
    router.register_plugin(ranked("dec-high-prio", vec![png.clone()], vec![], 9, 95));
    router.register_plugin(ranked("enc", vec![], vec![webp.clone()], 0, 99));
    let path = router.find_path(&png, &webp).unwrap();
    assert_eq!(path.decode_plugin, "dec-high-prio");
    assert_eq!(path.encode_plugin, "enc");
    assert_eq!(path.fidelity_estimate, 95);
    assert_eq!(path.steps, 1);
    let again = router.find_path(&png, &webp).unwrap();
    assert_eq!(again.decode_plugin, "dec-high-prio");
}

#[test]
fn unregistering_forgets_routes() {
    let mut router = ConversionRouter::new();
    let png = FormatId::new("image/png", &["png"], "PNG");
    let jpeg = FormatId::new("image/jpeg", &["jpg"], "JPEG");
    router.register_plugin(make_manifest("png-decoder", vec![png.clone()], vec![]));
    router.register_plugin(make_manifest("jpeg-encoder", vec![], vec![jpeg.clone()]));
    assert!(router.find_path(&png, &jpeg).is_ok());
    router.unregister_plugin("png-decoder");
    assert_eq!(router.plugins().len(), 1);
    assert!(router.find_path(&png, &jpeg).is_err());
}

#[test]
fn decoders_and_encoders_are_listed_in_order() {
    let mut router = ConversionRouter::default();
    let png = FormatId::new("image/png", &["png"], "PNG");
    router.register_plugin(make_manifest("a", vec![png.clone()], vec![png.clone()]));
    router.register_plugin(make_manifest("b", vec![], vec![png.clone()]));
    router.register_plugin(make_manifest("c", vec![png.clone()], vec![]));
    let decoders: Vec<&str> = router.find_decoders(&png).iter().map(|m| m.id.as_str()).collect();
    let encoders: Vec<&str> = router.find_encoders(&png).iter().map(|m| m.id.as_str()).collect();
    assert_eq!(decoders, vec!["a", "c"]);
    assert_eq!(encoders, vec!["a", "b"]);
}

#[test]
fn ir_type_follows_source_category() {
    let f = |m: &str| FormatId::new(m, &[], m);
    let t = f("image/png");
    assert_eq!(determine_ir_type(&f("image/gif"), &t), "Image");
    assert_eq!(determine_ir_type(&f("application/ogg"), &t), "Audio");
    assert_eq!(determine_ir_type(&f("video/mp4"), &t), "Video");
    assert_eq!(determine_ir_type(&f("text/csv"), &t), "Table");
    assert_eq!(determine_ir_type(&f("application/json"), &t), "Table");
    assert_eq!(determine_ir_type(&f("text/markdown"), &t), "Document");
    assert_eq!(determine_ir_type(&f("application/x-7z-compressed"), &t), "Archive");
    assert_eq!(determine_ir_type(&f("application/x-yaml"), &t), "Table");
    assert_eq!(determine_ir_type(&f("font/ttf"), &t), "Font");
    assert_eq!(determine_ir_type(&f("application/octet-stream"), &t), "Unknown");
}

#[test]
fn supported_conversions_are_sorted_without_repeats() {
    let mut router = ConversionRouter::new();
    let png = FormatId::new("image/png", &["png"], "PNG");
    let jpeg = FormatId::new("image/jpeg", &["jpg"], "JPEG");
    let gif = FormatId::new("image/gif", &["gif"], "GIF");
    router.register_plugin(make_manifest("p1", vec![png.clone(), jpeg.clone()], vec![png.clone(), gif.clone()]));
    router.register_plugin(make_manifest("p2", vec![png.clone()], vec![jpeg.clone()]));
    let pairs: Vec<(String, String)> =
        router.supported_conversions().into_iter().map(|(a, b)| (a.mime, b.mime)).collect();
    let expected: Vec<(String, String)> = vec![
        ("image/jpeg", "image/gif"),
        ("image/jpeg", "image/png"),
        ("image/png", "image/gif"),
        ("image/png", "image/jpeg"),
    ]
    .into_iter()
    .map(|(a, b)| (a.to_string(), b.to_string()))
    .collect();
    assert_eq!(pairs, expected);
}
