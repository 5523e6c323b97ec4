use icon_composer::batch::{
    build_tasks, clone_strings, find_folder, resolve_folders, AssetEntry, Category, FolderEntry,
};
use icon_composer::compose::{compose_asset, AssetTask};
use icon_composer::diagnostics::{Diagnostic, DiagnosticsLog, MissingLayers};
use icon_composer::layers::LayerImage;
use icon_composer::raster::RgbaImage;
use icon_composer::tint::TintMode;
use rayon::iter::{IntoParallelRefIterator, ParallelIterator};
use std::sync::Mutex;

fn strings(items: &[&str]) -> Vec<String> {
    items.iter().map(|s| s.to_string()).collect()
}

fn asset(asset_id: &str, specs: &[&str]) -> AssetEntry {
    AssetEntry { asset_id: asset_id.to_string(), layer_specs: strings(specs) }
}

fn category(element_type: &str, assets: Vec<AssetEntry>) -> Category {
    Category { element_type: element_type.to_string(), assets }
}

fn folder(element_type: &str, folder: &str) -> FolderEntry {
    FolderEntry { element_type: element_type.to_string(), folder: folder.to_string() }
}

fn sorted_log(log: &DiagnosticsLog) -> (Vec<String>, Vec<MissingLayers>) {
    let mut skipped = log.skipped_assets().clone();
    skipped.sort();
    let mut missing = log.missing_layers().clone();
    missing.sort_by(|a, b| (&a.asset_id, &a.paths).cmp(&(&b.asset_id, &b.paths)));
    (skipped, missing)
}

#[test]
fn copies_strings() {
    assert_eq!(clone_strings(&strings(&["a", "", "b#c"])), strings(&["a", "", "b#c"]));
    assert_eq!(clone_strings(&vec![]), Vec::<String>::new());
}

#[test]
fn first_folder_entry_of_a_category_counts() {
    let folders = vec![
        folder("items", "layers/items"),
        folder("blocks", "layers/blocks"),
        folder("items", "x"),
    ];
    assert_eq!(find_folder(&folders, &"items".to_string()), Some("layers/items".to_string()));
    assert_eq!(find_folder(&folders, &"blocks".to_string()), Some("layers/blocks".to_string()));
    assert_eq!(find_folder(&folders, &"mobs".to_string()), None);
    assert_eq!(find_folder(&vec![], &"items".to_string()), None);
}

#[test]
fn one_task_for_each_asset_of_each_category() {
    let config = vec![
        category(
            "items",
            vec![asset("sword", &["frame#FF0000", "none", "glow"]), asset("bow", &[])],
        ),
        category("empty", vec![]),
        category("blocks", vec![asset("stone", &["rim"])]),
    ];
    let folders = vec![folder("items", "layers/items"), folder("blocks", "")];
    let tasks = build_tasks(&config, &folders);
    assert_eq!(
        tasks,
        vec![
            AssetTask {
                element_type: "items".to_string(),
                asset_id: "sword".to_string(),
                layer_specs: strings(&["frame#FF0000", "none", "glow"]),
                layer_folder: Some("layers/items".to_string()),
            },
            AssetTask {
                element_type: "items".to_string(),
                asset_id: "bow".to_string(),
                layer_specs: vec![],
                layer_folder: Some("layers/items".to_string()),
            },
            AssetTask {
                element_type: "blocks".to_string(),
                asset_id: "stone".to_string(),
                layer_specs: strings(&["rim"]),
                layer_folder: Some("".to_string()),
            },
        ]
    );
}

#[test]
fn category_without_folder_keeps_its_tasks() {
    let config = vec![category("mobs", vec![asset("cow", &["spots"]), asset("pig", &["mud"])])];
    let tasks = build_tasks(&config, &vec![folder("items", "layers/items")]);
    assert_eq!(tasks.len(), 2);
    assert!(tasks.iter().all(|t| t.layer_folder.is_none()));
    assert_eq!(tasks[0].asset_id, "cow");
    assert_eq!(tasks[1].asset_id, "pig");
}

#[test]
fn folders_resolve_to_full_paths() {
    let folders =
        vec![folder("items", "~/layers"), folder("blocks", "packs/b"), folder("mobs", "/m")];
    assert_eq!(
        resolve_folders(&folders, Some("/home/u"), Some("/work")),
        vec![
            folder("items", "/home/u/layers"),
            folder("blocks", "/work/packs/b"),
            folder("mobs", "/m"),
        ]
    );
    assert_eq!(
        resolve_folders(&folders, None, None),
        vec![folder("items", "./~/layers"), folder("blocks", "./packs/b"), folder("mobs", "/m")]
    );
    assert_eq!(resolve_folders(&vec![], Some("/home/u"), None), vec![]);
}

#[test]
fn empty_configuration_has_no_tasks() {
    assert_eq!(build_tasks(&vec![], &vec![folder("items", "x")]), vec![]);
}

#[test]
fn new_log_is_empty() {
    let log = DiagnosticsLog::new();
    assert!(log.skipped_assets().is_empty());
    assert!(log.missing_layers().is_empty());
}

#[test]
fn skipped_asset_goes_to_skipped_assets_only() {
    let mut log = DiagnosticsLog::new();
    log.record(Diagnostic::Skipped { asset_id: "sword".to_string() });
    assert_eq!(log.skipped_assets(), &strings(&["sword"]));
    assert!(log.missing_layers().is_empty());
}

#[test]
fn missing_layers_go_to_missing_layers_as_one_entry() {
    let mut log = DiagnosticsLog::new();
    log.record(Diagnostic::MissingLayers {
        asset_id: "sword".to_string(),
        paths: strings(&["layers/a.png", "layers/b.png"]),
    });
    assert!(log.skipped_assets().is_empty());
    assert_eq!(
        log.missing_layers(),
        &vec![MissingLayers {
            asset_id: "sword".to_string(),
            paths: strings(&["layers/a.png", "layers/b.png"]),
        }]
    );
}

#[test]
fn log_only_grows() {
    let mut log = DiagnosticsLog::new();
    log.record(Diagnostic::Skipped { asset_id: "a".to_string() });
    log.record(Diagnostic::MissingLayers { asset_id: "b".to_string(), paths: strings(&["x"]) });
    log.record(Diagnostic::Skipped { asset_id: "a".to_string() });
    assert_eq!(log.skipped_assets(), &strings(&["a", "a"]));
    assert_eq!(log.missing_layers().len(), 1);
}

#[test]
fn order_of_recording_does_not_change_the_contents() {
    let diagnostics = vec![
        Diagnostic::Skipped { asset_id: "sword".to_string() },
        Diagnostic::MissingLayers { asset_id: "bow".to_string(), paths: strings(&["l/a.png"]) },
        Diagnostic::Skipped { asset_id: "axe".to_string() },
        Diagnostic::MissingLayers {
            asset_id: "gem".to_string(),
            paths: strings(&["l/b.png", "l/c.png"]),
        },
        Diagnostic::Skipped { asset_id: "sword".to_string() },
    ];
    let mut forward = DiagnosticsLog::new();
    for d in diagnostics.iter() {
        forward.record(d.clone());
    }
    let mut backward = DiagnosticsLog::new();
    for d in diagnostics.iter().rev() {
        backward.record(d.clone());
    }
    let mut shuffled = DiagnosticsLog::new();
    for i in [3usize, 0, 4, 2, 1] {
        shuffled.record(diagnostics[i].clone());
    }
    assert_ne!(forward.skipped_assets(), shuffled.skipped_assets());
    assert_ne!(forward.missing_layers(), backward.missing_layers());
    assert_eq!(sorted_log(&forward), sorted_log(&backward));
    assert_eq!(sorted_log(&forward), sorted_log(&shuffled));
    assert_eq!(sorted_log(&forward).0, strings(&["axe", "sword", "sword"]));
}

#[test]
fn concurrent_run_reports_what_a_sequential_run_reports() {
    let mut assets = Vec::new();
    for i in 0..40 {
        assets.push(asset(&format!("asset{}", i), &["frame#FF0000", "none", "glow"]));
    }
    let tasks = build_tasks(&vec![category("items", assets)], &vec![folder("items", "layers")]);
    let base = RgbaImage::from_raw(1, 1, vec![1, 2, 3, 255]).unwrap();
    let layer = LayerImage::new(RgbaImage::from_raw(1, 1, vec![9, 9, 9, 100]).unwrap());
    let run = |index: usize, task: &AssetTask| {
        let has_base = index % 3 != 0;
        let glow = if index % 2 == 0 { Some(layer.clone()) } else { None };
        let loaded = vec![Some(layer.clone()), None, glow];
        let base = if has_base { Some(&base) } else { None };
        compose_asset(task, "out", base, &loaded, TintMode::Plain)
    };
    let mut sequential = DiagnosticsLog::new();
    for (index, task) in tasks.iter().enumerate() {
        if let Some(d) = run(index, task).diagnostic {
            sequential.record(d);
        }
    }
    let shared = Mutex::new(DiagnosticsLog::new());
    let indexed: Vec<(usize, &AssetTask)> = tasks.iter().enumerate().collect();
    indexed.par_iter().for_each(|(index, task)| {
        if let Some(d) = run(*index, task).diagnostic {
            shared.lock().unwrap().record(d);
        }
    });
    let concurrent = shared.into_inner().unwrap();
    assert_eq!(sorted_log(&concurrent), sorted_log(&sequential));
    assert_eq!(sequential.skipped_assets().len(), 14);
    assert_eq!(sequential.missing_layers().len(), 13);
    assert!(sequential
        .missing_layers()
        .iter()
        .all(|m| m.paths == vec!["layers/glow.png".to_string()]));
}
