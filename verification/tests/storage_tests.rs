use kmrp::storage::{
    MacroEntry, select_user, macro_dir_for_user, macro_file_name, join_path, macro_path_candidates,
    get_macro_path, has_json_extension, macro_stem, macro_listing, latest_macro, default_macro_name,
    choose_macro_path, resolve_macro_path,
};

fn on_disk(files: &'static [&'static str]) -> impl Fn(&str) -> bool {
    move |p: &str| files.iter().any(|f| *f == p)
}

fn entry(name: &str, modified: Option<i128>) -> MacroEntry {
    MacroEntry { file_name: name.to_string(), modified, size: 0 }
}

#[test]
fn picks_the_storage_user() {
    assert_eq!(select_user(Some("alice".to_string()), Some("root".to_string())), "alice");
    assert_eq!(select_user(None, Some("bob".to_string())), "bob");
    assert_eq!(select_user(None, None), "lucas");
}

#[test]
fn places_the_storage_directory() {
    assert_eq!(macro_dir_for_user("root"), "/root/.local/share/kmrp");
    assert_eq!(macro_dir_for_user("alice"), "/home/alice/.local/share/kmrp");
}

#[test]
fn names_macro_files() {
    assert_eq!(macro_file_name("demo"), "demo.json");
    assert_eq!(macro_file_name("demo.json"), "demo.json");
    assert_eq!(macro_file_name("demo.txt"), "demo.txt.json");
    assert_eq!(default_macro_name("20240102_030405"), "macro_20240102_030405");
}

#[test]
fn joins_paths_like_pathbuf_push() {
    for (base, rel) in [("/a/b", "c.json"), ("/a/b/", "c.json"), ("", "c.json"), ("/a", "/etc/x"), ("a", "")] {
        let mut p = std::path::PathBuf::from(base);
        p.push(rel);
        assert_eq!(join_path(base, rel), p.to_string_lossy(), "{:?} {:?}", base, rel);
    }
}

#[test]
fn lists_the_candidate_paths() {
    let (stored, direct, with_json) = macro_path_candidates("demo", "/data/kmrp");
    assert_eq!(stored, "/data/kmrp/demo.json");
    assert_eq!(direct, "demo");
    assert_eq!(with_json, "demo.json");
    let (_, _, with_json) = macro_path_candidates("clips/take.txt", "/data/kmrp");
    assert_eq!(with_json, "clips/take.json");
}

#[test]
fn resolves_macro_paths() {
    assert_eq!(get_macro_path("/", "/no/such/dir/kmrp"), "/");
    assert_eq!(get_macro_path("no-such-macro-xyz", "/no/such/dir/kmrp"), "/no/such/dir/kmrp/no-such-macro-xyz.json");
    let s = || "s".to_string();
    assert_eq!(choose_macro_path(s(), "d".to_string(), "j".to_string(), false, false, true), "j");
    assert_eq!(choose_macro_path(s(), "d".to_string(), "j".to_string(), true, true, true), "s");
    assert_eq!(choose_macro_path(s(), "d".to_string(), "j".to_string(), false, false, false), "s");
}

#[test]
fn recognises_json_files() {
    assert!(has_json_extension("a.json"));
    assert!(has_json_extension("a.b.json"));
    assert!(!has_json_extension(".json"));
    assert!(!has_json_extension("a.JSON"));
    assert!(!has_json_extension("a.json.bak"));
    assert_eq!(macro_stem("take.one.json"), "take.one");
}

#[test]
fn lists_macros_most_recent_first() {
    let entries = vec![
        entry("old.json", Some(10)),
        entry("notes.txt", Some(99)),
        entry("undated.json", None),
        entry("new.json", Some(30)),
        entry("tie.json", Some(10)),
    ];
    let names: Vec<String> = macro_listing(entries).into_iter().map(|e| e.file_name).collect();
    assert_eq!(names, vec!["new.json", "old.json", "tie.json", "undated.json"]);
}

#[test]
fn finds_the_latest_macro() {
    let entries = vec![
        entry("a.json", Some(5)),
        entry("b.json", Some(7)),
        entry("c.txt", Some(9)),
        entry("d.json", None),
        entry("e.json", Some(7)),
    ];
    assert_eq!(latest_macro(&entries), Some("b.json".to_string()));
    assert_eq!(latest_macro(&vec![entry("d.json", None), entry("x.txt", Some(1))]), None);
    assert_eq!(latest_macro(&Vec::new()), None);
}

#[test]
fn the_latest_macro_heads_the_listing() {
    let make = || {
        vec![
            entry("x.json", Some(3)),
            entry("y.json", Some(8)),
            entry("z.json", None),
            entry("w.json", Some(8)),
        ]
    };
    let latest = latest_macro(&make()).unwrap();
    let listing = macro_listing(make());
    assert_eq!(listing[0].file_name, latest);
}

#[test]
fn resolves_candidates_in_order() {
    let dir = "/data/kmrp";
    let all = on_disk(&["/data/kmrp/demo.json", "demo", "demo.json"]);
    assert_eq!(resolve_macro_path("demo", dir, all), "/data/kmrp/demo.json");
    let local = on_disk(&["demo", "demo.json"]);
    assert_eq!(resolve_macro_path("demo", dir, local), "demo");
    let json_only = on_disk(&["demo.json"]);
    assert_eq!(resolve_macro_path("demo", dir, json_only), "demo.json");
    let none = on_disk(&[]);
    assert_eq!(resolve_macro_path("demo", dir, none), "/data/kmrp/demo.json");
    let other = on_disk(&["clips/take.json"]);
    assert_eq!(resolve_macro_path("clips/take.txt", dir, other), "clips/take.json");
}

#[test]
fn asks_only_until_a_candidate_exists() {
    let asked = std::cell::RefCell::new(Vec::new());
    let probe = |p: &str| {
        asked.borrow_mut().push(p.to_string());
        p == "demo"
    };
    assert_eq!(resolve_macro_path("demo", "/data/kmrp", probe), "demo");
    assert_eq!(*asked.borrow(), vec!["/data/kmrp/demo.json".to_string(), "demo".to_string()]);
}

#[test]
fn bare_and_json_names_resolve_alike() {
    let dir = "/data/kmrp";
    let disks: [&[&str]; 4] = [
        &["/data/kmrp/demo.json"],
        &["demo.json"],
        &["/data/kmrp/demo.json", "demo.json"],
        &[],
    ];
    for files in disks {
        let probe = |p: &str| files.iter().any(|f| *f == p);
        assert_eq!(resolve_macro_path("demo", dir, probe), resolve_macro_path("demo.json", dir, probe));
    }
}

#[test]
fn keeps_a_json_extension_that_is_there() {
    let (_, _, with_json) = macro_path_candidates("a/b.json", "/data/kmrp");
    assert_eq!(with_json, "a/b.json");
    let (stored, _, with_json) = macro_path_candidates("x.y.json", "/data/kmrp");
    assert_eq!(stored, "/data/kmrp/x.y.json");
    assert_eq!(with_json, "x.y.json");
    let (_, _, with_json) = macro_path_candidates("a/..json", "/data/kmrp");
    assert_eq!(with_json, "a/..json");
    let none = on_disk(&[]);
    assert_eq!(resolve_macro_path("x.y.json", "/data/kmrp", none), "/data/kmrp/x.y.json");
    let local = on_disk(&["x.y.json"]);
    assert_eq!(resolve_macro_path("x.y.json", "/data/kmrp", local), "x.y.json");
}
