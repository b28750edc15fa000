use llama_setup::model_picker::{
    cache_roots, model_display, model_items, model_is_installed, ordered_models, repo_cache_dir_name,
    snapshot_dir, sort_model_entries, ModelEntry,
};

fn entry(model: &str, installed: bool) -> ModelEntry {
    ModelEntry { model: model.to_string(), installed }
}

fn strings(items: &[&str]) -> Vec<String> {
    items.iter().map(|s| s.to_string()).collect()
}

#[test]
fn ordered_models_put_installed_items_first() {
    let mut entries = vec![
        ModelEntry {
            model: "org/uninstalled-a".to_string(),
            installed: false,
        },
        ModelEntry {
            model: "org/installed-a".to_string(),
            installed: true,
        },
        ModelEntry {
            model: "org/uninstalled-b".to_string(),
            installed: false,
        },
        ModelEntry {
            model: "org/installed-b".to_string(),
            installed: true,
        },
    ];

    sort_model_entries(&mut entries);

    let ordered: Vec<_> = entries.into_iter().map(|entry| entry.model).collect();

    assert_eq!(
        ordered,
        vec![
            "org/installed-a".to_string(),
            "org/installed-b".to_string(),
            "org/uninstalled-a".to_string(),
            "org/uninstalled-b".to_string(),
        ]
    );
}

#[test]
fn sorting_empty_and_uniform_lists_changes_nothing() {
    let mut empty: Vec<ModelEntry> = Vec::new();
    sort_model_entries(&mut empty);
    assert!(empty.is_empty());

    let mut all = vec![entry("a", true), entry("b", true), entry("c", true)];
    sort_model_entries(&mut all);
    let names: Vec<String> = all.into_iter().map(|e| e.model).collect();
    assert_eq!(names, strings(&["a", "b", "c"]));

    let mut none = vec![entry("c", false), entry("a", false)];
    sort_model_entries(&mut none);
    let names: Vec<String> = none.into_iter().map(|e| e.model).collect();
    assert_eq!(names, strings(&["c", "a"]));
}

#[test]
fn sorting_twice_equals_sorting_once() {
    let mut once = vec![
        entry("x", false),
        entry("y", true),
        entry("z", false),
        entry("w", true),
    ];
    sort_model_entries(&mut once);
    let first: Vec<(String, bool)> = once.iter().map(|e| (e.model.clone(), e.installed)).collect();
    sort_model_entries(&mut once);
    let second: Vec<(String, bool)> = once.iter().map(|e| (e.model.clone(), e.installed)).collect();
    assert_eq!(first, second);
    assert_eq!(
        first,
        vec![
            ("y".to_string(), true),
            ("w".to_string(), true),
            ("x".to_string(), false),
            ("z".to_string(), false),
        ]
    );
}

#[test]
fn cache_directory_name_replaces_every_slash() {
    assert_eq!(repo_cache_dir_name("org/model"), "models--org--model");
    assert_eq!(repo_cache_dir_name("a/b/c"), "models--a--b--c");
    assert_eq!(repo_cache_dir_name("plain"), "models--plain");
    assert_eq!(repo_cache_dir_name(""), "models--");
    assert!(!repo_cache_dir_name("x/y//z").contains('/'));
}

#[test]
fn snapshot_directory_joins_like_paths() {
    assert_eq!(
        snapshot_dir("/home/u/.cache/huggingface/hub", "org/m"),
        "/home/u/.cache/huggingface/hub/models--org--m/snapshots"
    );
    assert_eq!(snapshot_dir("/cache/", "m"), "/cache/models--m/snapshots");
    assert_eq!(snapshot_dir("", "m"), "models--m/snapshots");
}

#[test]
fn cache_roots_follow_the_environment_in_order() {
    let roots = cache_roots(
        Some("/hub-cache".to_string()),
        Some("/hf-home".to_string()),
        Some("/xdg/".to_string()),
        Some("/home/u".to_string()),
    );
    assert_eq!(
        roots,
        strings(&[
            "/hub-cache",
            "/hf-home/hub",
            "/xdg/huggingface/hub",
            "/home/u/.cache/huggingface/hub",
        ])
    );
    let only_home = cache_roots(None, None, None, Some("/root".to_string()));
    assert_eq!(only_home, strings(&["/root/.cache/huggingface/hub"]));
    assert!(cache_roots(None, None, None, None).is_empty());
}

#[test]
fn installed_means_a_populated_snapshot_directory_under_some_root() {
    let roots = strings(&["/a", "/b"]);
    let populated = strings(&["/b/models--org--m/snapshots"]);
    assert!(model_is_installed("org/m", &roots, &populated));
    assert!(!model_is_installed("org/other", &roots, &populated));
    assert!(!model_is_installed("org/m", &strings(&["/a"]), &populated));
    assert!(!model_is_installed("org/m", &Vec::new(), &populated));
}

#[test]
fn ordered_models_marks_and_orders() {
    let models = strings(&["org/one", "org/two", "org/three"]);
    let roots = strings(&["/hub"]);
    let populated = strings(&["/hub/models--org--three/snapshots"]);
    let ordered = ordered_models(&models, &roots, &populated);
    let view: Vec<(String, bool)> = ordered.iter().map(|e| (e.model.clone(), e.installed)).collect();
    assert_eq!(
        view,
        vec![
            ("org/three".to_string(), true),
            ("org/one".to_string(), false),
            ("org/two".to_string(), false),
        ]
    );
}

#[test]
fn installed_models_are_listed_with_a_note() {
    assert_eq!(model_display(&entry("org/m", true)), "org/m (installed)");
    assert_eq!(model_display(&entry("org/m", false)), "org/m");
}

#[test]
fn picker_items_highlight_installed_models() {
    let items = model_items(&vec![entry("org/a", true), entry("org/b", false)]);
    assert_eq!(items.len(), 2);
    assert_eq!(items[0].display, "org/a (installed)");
    assert_eq!(items[0].value, "org/a");
    assert!(items[0].highlighted);
    assert_eq!(items[1].display, "org/b");
    assert_eq!(items[1].value, "org/b");
    assert!(!items[1].highlighted);
}
