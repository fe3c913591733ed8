use ufc::format::{Capabilities, FormatId, PluginManifest, SandboxMode};
use ufc::registry::{Direction, PluginRegistry};

fn manifest(id: &str, inputs: Vec<FormatId>, outputs: Vec<FormatId>) -> PluginManifest {
    PluginManifest {
        id: id.to_string(),
        version: semver::Version::new(1, 0, 0),
        api_version: semver::Version::new(1, 0, 0),
        author: "test".to_string(),
        license: "MIT".to_string(),
        description: "test".to_string(),
        input_formats: inputs,
        output_formats: outputs,
        capabilities: Capabilities::default(),
        dependencies: vec![],
        priority: 0,
        fidelity_score: 90,
        known_limitations: vec![],
        sandbox_mode: SandboxMode::InProcess,
    }
}

#[test]
fn test_registry_lookup() {
    let mut registry = PluginRegistry::new();
    let png = FormatId::new("image/png", &["png"], "PNG");
    let jpeg = FormatId::new("image/jpeg", &["jpg"], "JPEG");

    registry.register("png-dec", manifest("png-dec", vec![png.clone()], vec![]));
    registry.register("jpeg-enc", manifest("jpeg-enc", vec![], vec![jpeg.clone()]));

    let decoders = registry.plugins_for_format(&png, Direction::Decode);
    assert_eq!(decoders.len(), 1);

    let encoders = registry.plugins_for_format(&jpeg, Direction::Encode);
    assert_eq!(encoders.len(), 1);

    assert_eq!(registry.len(), 2);
}

#[test]
fn best_plugin_prefers_highest_rank_then_registration() {
    let mut registry = PluginRegistry::default();
    let png = FormatId::new("image/png", &["png"], "PNG");
    let mut low = manifest("low", vec![png.clone()], vec![]);
    low.priority = 1;
    let mut high_a = manifest("high-a", vec![png.clone()], vec![]);
    high_a.priority = 3;
    high_a.fidelity_score = 80;
    let mut high_b = manifest("high-b", vec![png.clone()], vec![]);
    high_b.priority = 3;
    high_b.fidelity_score = 95;
    let mut high_c = manifest("high-c", vec![png.clone()], vec![]);
    high_c.priority = 3;
    high_c.fidelity_score = 95;
    registry.register(1u32, low);
    registry.register(2u32, high_a);
    registry.register(3u32, high_b);
    registry.register(4u32, high_c);
    assert_eq!(registry.best_plugin(&png, Direction::Decode), Some(&3u32));
    assert_eq!(registry.best_plugin(&png, Direction::Encode), None);
}

#[test]
fn best_plugin_ranks_by_priority_times_fidelity() {
    let mut registry = PluginRegistry::new();
    let png = FormatId::new("image/png", &["png"], "PNG");
    let mut a = manifest("a", vec![png.clone()], vec![]);
    a.priority = 2;
    a.fidelity_score = 10;
    let mut b = manifest("b", vec![png.clone()], vec![]);
    b.priority = 1;
    b.fidelity_score = 90;
    registry.register("a", a);
    registry.register("b", b);
    assert_eq!(registry.best_plugin(&png, Direction::Decode), Some(&"b"));
}

#[test]
fn unregister_removes_first_plugin_with_id() {
    let mut registry = PluginRegistry::new();
    let png = FormatId::new("image/png", &["png"], "PNG");
    registry.register("a", manifest("dup", vec![png.clone()], vec![]));
    registry.register("b", manifest("dup", vec![png.clone()], vec![]));
    registry.register("c", manifest("other", vec![], vec![png.clone()]));
    assert_eq!(registry.get("dup"), Some(&"a"));
    assert!(registry.unregister("dup"));
    assert_eq!(registry.get("dup"), Some(&"b"));
    assert_eq!(registry.plugins_for_format(&png, Direction::Decode), vec![&"b"]);
    assert_eq!(registry.plugins_for_format(&png, Direction::Encode), vec![&"c"]);
    assert!(!registry.unregister("missing"));
    assert_eq!(registry.len(), 2);
    assert!(!registry.is_empty());
}

#[test]
fn plugin_listing_a_mime_twice_is_found_twice() {
    let mut registry = PluginRegistry::new();
    let png = FormatId::new("image/png", &["png"], "PNG");
    registry.register("a", manifest("a", vec![png.clone(), png.clone()], vec![]));
    assert_eq!(registry.plugins_for_format(&png, Direction::Decode).len(), 2);
}

#[test]
fn supported_formats_are_sorted_without_repeats() {
    let mut registry = PluginRegistry::new();
    let png = FormatId::new("image/png", &["png"], "PNG");
    let jpeg = FormatId::new("image/jpeg", &["jpg"], "JPEG");
    let png_again = FormatId::new("image/png", &["png"], "Portable Network Graphics");
    registry.register(0, manifest("a", vec![png.clone(), jpeg.clone()], vec![jpeg.clone()]));
    registry.register(1, manifest("b", vec![png_again], vec![png.clone()]));
    let (inputs, outputs) = registry.supported_formats();
    let input_names: Vec<&str> = inputs.iter().map(|f| f.display_name.as_str()).collect();
    let output_mimes: Vec<&str> = outputs.iter().map(|f| f.mime.as_str()).collect();
    assert_eq!(input_names, vec!["JPEG", "PNG"]);
    assert_eq!(output_mimes, vec!["image/jpeg", "image/png"]);
    let ids: Vec<String> = registry.manifests().into_iter().map(|m| m.id).collect();
    assert_eq!(ids, vec!["a".to_string(), "b".to_string()]);
}

#[test]
fn manifests_answer_can_decode_and_can_encode() {
    let png = FormatId::new("image/png", &["png"], "PNG");
    let jpeg = FormatId::new("image/jpeg", &["jpg"], "JPEG");
    let m = manifest("m", vec![png.clone()], vec![jpeg.clone()]);
    assert!(m.can_decode(&png));
    assert!(!m.can_decode(&jpeg));
    assert!(m.can_encode(&jpeg));
    assert!(!m.can_encode(&png));
}
