use inferbench::catalog::{Catalogs, ResourceCatalog};

fn names(list: &[&str]) -> Vec<String> {
    list.iter().map(|s| s.to_string()).collect()
}

#[test]
fn resolve_assigns_one_based_handles_in_scan_order() {
    let catalog = ResourceCatalog::from_names(names(&[
        "models/mobilenetv2-10.onnx",
        "models/mobilenetv2-12.onnx",
    ]));
    assert_eq!(catalog.resolve("models/mobilenetv2-10.onnx"), Some(1));
    assert_eq!(catalog.resolve("models/mobilenetv2-12.onnx"), Some(2));
}

#[test]
fn reverse_of_resolve_returns_the_name() {
    let list = [
        "images/landrover.jpg",
        "images/husky.jpg",
        "images/golden-retriever.jpg",
        "images/bigmac.png",
    ];
    let catalog = ResourceCatalog::from_names(names(&list));
    for name in list.iter() {
        let handle = catalog.resolve(name).expect("catalogued name must resolve");
        assert_eq!(catalog.reverse(handle).as_deref(), Some(*name));
    }
}

#[test]
fn handles_are_unique() {
    let list = ["images/a.png", "images/b.png", "images/c.png"];
    let catalog = ResourceCatalog::from_names(names(&list));
    let mut handles: Vec<i32> = list.iter().map(|n| catalog.resolve(n).unwrap()).collect();
    handles.sort();
    handles.dedup();
    assert_eq!(handles.len(), list.len());
}

#[test]
fn resolve_miss_returns_none() {
    let catalog = ResourceCatalog::from_names(names(&["models/mobilenetv2-10.onnx"]));
    assert_eq!(catalog.resolve("nonexistent.onnx"), None);
}

#[test]
fn handle_zero_is_reserved_and_out_of_range_misses() {
    let catalog = ResourceCatalog::from_names(names(&["models/a.onnx"]));
    assert_eq!(catalog.reverse(0), None);
    assert_eq!(catalog.reverse(2), None);
    assert_eq!(catalog.reverse(-1), None);
}

#[test]
fn empty_scan_yields_empty_catalog_not_an_error() {
    let catalog = ResourceCatalog::new();
    assert_eq!(catalog.len(), 0);
    assert_eq!(catalog.resolve("anything"), None);
}

#[test]
fn duplicate_scan_entries_keep_their_first_handle() {
    let catalog =
        ResourceCatalog::from_names(names(&["images/a.png", "images/b.png", "images/a.png"]));
    assert_eq!(catalog.len(), 2);
    assert_eq!(catalog.resolve("images/a.png"), Some(1));
    assert_eq!(catalog.resolve("images/b.png"), Some(2));
}

#[test]
fn paired_catalogs_answer_for_their_own_root() {
    let catalogs = Catalogs::new(
        ResourceCatalog::from_names(names(&["models/m1.onnx", "models/m2.onnx"])),
        ResourceCatalog::from_names(names(&["images/i1.jpg"])),
    );
    assert_eq!(catalogs.get_model_index("models/m2.onnx"), Some(2));
    assert_eq!(catalogs.get_model_name(1).as_deref(), Some("models/m1.onnx"));
    assert_eq!(catalogs.get_image_index("images/i1.jpg"), Some(1));
    assert_eq!(catalogs.get_image_name(1).as_deref(), Some("images/i1.jpg"));
    assert_eq!(catalogs.get_model_index("images/i1.jpg"), None);
    assert_eq!(catalogs.get_image_name(2), None);
}

#[test]
fn lookup_run_targets_maps_misses_to_documented_codes() {
    let catalogs = Catalogs::new(
        ResourceCatalog::from_names(names(&["models/m1.onnx"])),
        ResourceCatalog::from_names(names(&["images/i1.jpg"])),
    );
    let ok = catalogs.lookup_run_targets(1, 1).unwrap();
    assert_eq!(ok.0, "models/m1.onnx");
    assert_eq!(ok.1, "images/i1.jpg");
    // A model handle that misses is a model-load failure.
    assert_eq!(catalogs.lookup_run_targets(9, 1), Err(-4));
    // An image handle that misses is an image-load failure.
    assert_eq!(catalogs.lookup_run_targets(1, 9), Err(-5));
}
