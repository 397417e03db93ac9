use inferbench::bridge::{normalize_separators, CapabilityBridge};
use inferbench::cache::{CacheDecision, ModuleCache};

fn byte_path(s: &str) -> Vec<u8> {
    s.as_bytes().to_vec()
}

#[test]
fn unchanged_source_is_never_recompiled() {
    let mut cache = ModuleCache::new();
    let mut compile_count: u32 = 0;
    let key: u64 = 1;

    // First load: nothing cached, so the compiler runs once.
    let module = match cache.load_or_compile(key) {
        CacheDecision::UseCached(m) => m,
        CacheDecision::Recompile => {
            compile_count += 1;
            let compiled = vec![0xde, 0xad, 0xbe, 0xef];
            cache.install(key, compiled.clone());
            compiled
        }
    };
    assert_eq!(compile_count, 1);

    // Second load with the source unchanged: the artifact comes from the
    // cache and the compiler is not invoked again.
    match cache.load_or_compile(key) {
        CacheDecision::UseCached(m) => assert_eq!(m, module),
        CacheDecision::Recompile => compile_count += 1,
    }
    assert_eq!(compile_count, 1);
}

#[test]
fn install_overwrites_and_leaves_other_keys_alone() {
    let mut cache = ModuleCache::new();
    cache.install(1, vec![1, 1]);
    cache.install(2, vec![2, 2]);
    cache.install(1, vec![9, 9]);
    match cache.load_or_compile(1) {
        CacheDecision::UseCached(m) => assert_eq!(m, vec![9, 9]),
        CacheDecision::Recompile => panic!("key 1 must be cached"),
    }
    match cache.load_or_compile(2) {
        CacheDecision::UseCached(m) => assert_eq!(m, vec![2, 2]),
        CacheDecision::Recompile => panic!("key 2 must be cached"),
    }
    assert!(matches!(cache.load_or_compile(3), CacheDecision::Recompile));
}

fn two_root_bridge() -> CapabilityBridge {
    CapabilityBridge::new(vec![byte_path("models"), byte_path("images")])
        .expect("plain relative roots are valid")
}

#[test]
fn paths_under_a_declared_root_are_permitted() {
    let bridge = two_root_bridge();
    assert!(bridge.permits(&byte_path("models/mobilenetv2-10.onnx")));
    assert!(bridge.permits(&byte_path("images/husky.jpg")));
    assert!(bridge.permits(&byte_path("images/deep/nested/file.png")));
}

#[test]
fn paths_outside_every_declared_root_must_fail() {
    let bridge = two_root_bridge();
    assert!(!bridge.permits(&byte_path("etc/passwd")));
    assert!(!bridge.permits(&byte_path("modelsx/file.onnx")));
    assert!(!bridge.permits(&byte_path("model/file.onnx")));
    assert!(!bridge.permits(&byte_path("")));
}

#[test]
fn absolute_and_parent_escaping_paths_must_fail() {
    let bridge = two_root_bridge();
    assert!(!bridge.permits(&byte_path("/models/file.onnx")));
    assert!(!bridge.permits(&byte_path("/etc/passwd")));
    assert!(!bridge.permits(&byte_path("models/../secrets.txt")));
    assert!(!bridge.permits(&byte_path("models/a/../../secrets.txt")));
    assert!(!bridge.permits(&byte_path("..")));
    assert!(!bridge.permits(&byte_path("../models/file.onnx")));
}

#[test]
fn the_root_itself_is_not_a_readable_file() {
    let bridge = two_root_bridge();
    assert!(!bridge.permits(&byte_path("models")));
    assert!(!bridge.permits(&byte_path("models/")));
}

#[test]
fn dots_inside_names_are_not_parent_segments() {
    let bridge = two_root_bridge();
    assert!(bridge.permits(&byte_path("models/v2..final.onnx")));
    assert!(bridge.permits(&byte_path("images/a..b/c.png")));
}

#[test]
fn invalid_roots_are_rejected_at_construction() {
    assert!(CapabilityBridge::new(vec![byte_path("/models")]).is_err());
    assert!(CapabilityBridge::new(vec![byte_path("models/")]).is_err());
    assert!(CapabilityBridge::new(vec![byte_path("")]).is_err());
    assert!(CapabilityBridge::new(vec![byte_path("models/../other")]).is_err());
    assert!(CapabilityBridge::new(Vec::new()).is_ok());
}

#[test]
fn normalize_separators_turns_backslashes_into_slashes() {
    let normalized = normalize_separators(&byte_path("models\\sub\\file.onnx"));
    assert_eq!(normalized, byte_path("models/sub/file.onnx"));
    let untouched = normalize_separators(&byte_path("images/husky.jpg"));
    assert_eq!(untouched, byte_path("images/husky.jpg"));
}
