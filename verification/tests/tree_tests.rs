use seisbox::file_tree::{
    assemble_dir, collect_seismic_files, display_order, file_kind, is_hidden_name, node_matches_search,
    node_shown, sort_entries, trace_listed, FileKind, FileNode, ScannedEntry,
};
use seisbox::paths::{find_pick_file, is_pick_file, is_seismic_file, pick_file_candidates, pick_file_path};
use seisbox::selection::{click_file, context_select, index_in, Selection};

fn leaf(path: &str) -> FileNode {
    let name = path.rsplit('/').next().unwrap().to_string();
    FileNode { path: path.to_string(), name, is_dir: false, children: Vec::new() }
}

fn dir(path: &str, children: Vec<FileNode>) -> FileNode {
    let name = path.rsplit('/').next().unwrap().to_string();
    FileNode { path: path.to_string(), name, is_dir: true, children }
}

#[test]
fn file_type_rules() {
    assert!(is_seismic_file("/data/ST01.BHZ.sac"));
    assert!(is_seismic_file("/data/ST01.BHZ.SAC"));
    assert!(is_seismic_file("x/y.MSeed"));
    assert!(!is_seismic_file("x/y.picks"));
    assert!(!is_seismic_file("x/sac"));
    assert!(!is_seismic_file("x/.sac"));
    assert!(is_pick_file("a/b.PICKS"));
    assert!(is_pick_file("a/b.txt"));
    assert!(!is_pick_file("a/b.csv"));
}

#[test]
fn pick_file_paths() {
    assert_eq!(pick_file_path("/data/ST01.BHZ.sac"), "/data/ST01.BHZ.picks");
    assert_eq!(pick_file_path("/data/trace"), "/data/trace.picks");
    let c = pick_file_candidates("/d/a.mseed");
    assert_eq!(c, vec!["/d/a.picks".to_string(), "/d/a.txt".to_string()]);
    assert_eq!(find_pick_file(c.clone(), &vec![false, true]), Some("/d/a.txt".to_string()));
    assert_eq!(find_pick_file(c.clone(), &vec![true, true]), Some("/d/a.picks".to_string()));
    assert_eq!(find_pick_file(c, &vec![false, false]), None);
}

#[test]
fn collects_seismic_files_in_tree_order() {
    let tree = dir("/r", vec![
        dir("/r/a", vec![leaf("/r/a/x.sac"), leaf("/r/a/x.picks")]),
        leaf("/r/b.mseed"),
        leaf("/r/notes.txt"),
    ]);
    assert_eq!(collect_seismic_files(&tree), vec!["/r/a/x.sac".to_string(), "/r/b.mseed".to_string()]);
    assert_eq!(collect_seismic_files(&leaf("/q.txt")), Vec::<String>::new());
}

#[test]
fn search_matches_names_case_insensitively() {
    let tree = dir("/r", vec![dir("/r/a", vec![leaf("/r/a/STA01.sac")]), leaf("/r/b.mseed")]);
    assert!(node_matches_search(&tree, "sta01"));
    assert!(node_matches_search(&tree, "b.m"));
    assert!(!node_matches_search(&tree, "zzz"));
    assert!(!node_matches_search(&dir("/e", vec![]), ""));
    assert!(node_shown(&dir("/e", vec![]), ""));
    assert!(!node_shown(&dir("/e", vec![]), "x"));
    assert!(trace_listed("ANMO.BHZ", "bhz"));
    assert!(!trace_listed("ANMO.BHZ", "bhn"));
    assert!(trace_listed("ANMO.BHZ", ""));
}

#[test]
fn scanned_directory_keeps_relevant_entries() {
    let sub = assemble_dir("/r/s".to_string(), "s".to_string(), vec![
        ScannedEntry::File { path: "/r/s/k.sac".to_string(), name: "k.sac".to_string() },
    ]);
    let empty = assemble_dir("/r/e".to_string(), "e".to_string(), vec![
        ScannedEntry::File { path: "/r/e/readme.md".to_string(), name: "readme.md".to_string() },
    ]);
    assert!(empty.children.is_empty());
    let root = assemble_dir("/r".to_string(), "r".to_string(), vec![
        ScannedEntry::File { path: "/r/.hidden.sac".to_string(), name: ".hidden.sac".to_string() },
        ScannedEntry::File { path: "/r/a.sac".to_string(), name: "a.sac".to_string() },
        ScannedEntry::File { path: "/r/a.csv".to_string(), name: "a.csv".to_string() },
        ScannedEntry::Dir { name: "e".to_string(), node: Some(empty) },
        ScannedEntry::Dir { name: "s".to_string(), node: Some(sub) },
        ScannedEntry::Dir { name: "u".to_string(), node: None },
        ScannedEntry::File { path: "/r/a.txt".to_string(), name: "a.txt".to_string() },
    ]);
    assert!(root.is_dir);
    let names: Vec<&str> = root.children.iter().map(|c| c.name.as_str()).collect();
    assert_eq!(names, vec!["a.sac", "s", "a.txt"]);
    assert!(is_hidden_name(".git"));
    assert!(!is_hidden_name("git"));
}

#[test]
fn entries_sort_by_name() {
    let sorted = sort_entries(vec![
        ScannedEntry::File { path: "/b".to_string(), name: "b".to_string() },
        ScannedEntry::Dir { name: "a".to_string(), node: None },
        ScannedEntry::File { path: "/B".to_string(), name: "B".to_string() },
        ScannedEntry::File { path: "/ab".to_string(), name: "ab".to_string() },
    ]);
    let names: Vec<String> = sorted.iter().map(|e| e.name().clone()).collect();
    assert_eq!(names, vec!["B", "a", "ab", "b"]);
}

#[test]
fn children_display_directories_first() {
    let children = vec![
        leaf("/r/z.sac"),
        dir("/r/b", vec![leaf("/r/b/q.sac")]),
        leaf("/r/a.sac"),
        dir("/r/a", vec![leaf("/r/a/q.sac")]),
        dir("/r/c", vec![]),
    ];
    assert_eq!(display_order(&children), vec![3, 1, 2, 4, 0]);
}

#[test]
fn file_kinds() {
    assert_eq!(file_kind("a.SAC"), FileKind::Seismic);
    assert_eq!(file_kind("a.picks"), FileKind::Pick);
    assert_eq!(file_kind("a.png"), FileKind::Other);
}

#[test]
fn clicks_change_the_selection() {
    let all: Vec<String> = ["/a.sac", "/b.sac", "/c.sac", "/d.sac"].iter().map(|s| s.to_string()).collect();
    let mut sel = Selection::new();
    let mut last: Option<String> = None;
    click_file(&mut sel, &mut last, &all, "/b.sac", false, false);
    assert_eq!(sel.files(), vec!["/b.sac".to_string()]);
    assert_eq!(last.as_deref(), Some("/b.sac"));
    click_file(&mut sel, &mut last, &all, "/d.sac", true, false);
    let mut f = sel.files();
    f.sort();
    assert_eq!(f, vec!["/b.sac", "/c.sac", "/d.sac"]);
    assert_eq!(last.as_deref(), Some("/b.sac"));
    click_file(&mut sel, &mut last, &all, "/c.sac", false, true);
    assert!(!sel.contains("/c.sac"));
    assert_eq!(sel.len(), 2);
    click_file(&mut sel, &mut last, &all, "/notes.txt", false, false);
    assert_eq!(sel.len(), 2);
    click_file(&mut sel, &mut last, &all, "/a.sac", false, false);
    assert_eq!(sel.files(), vec!["/a.sac".to_string()]);
    context_select(&mut sel, &mut last, "/d.sac");
    assert_eq!(sel.files(), vec!["/d.sac".to_string()]);
    context_select(&mut sel, &mut last, "/d.sac");
    assert_eq!(sel.len(), 1);
    sel.clear();
    assert!(sel.is_empty());
}

#[test]
fn range_selection_backwards_and_unknown_anchor() {
    let all: Vec<String> = ["/a.sac", "/b.sac", "/c.sac"].iter().map(|s| s.to_string()).collect();
    let mut sel = Selection::new();
    sel.select_range(&all, "/c.sac", "/a.sac");
    assert_eq!(sel.len(), 3);
    let mut sel2 = Selection::new();
    sel2.select_range(&all, "/zzz.sac", "/a.sac");
    assert!(sel2.is_empty());
    assert_eq!(index_in(&all, "/b.sac"), Some(1));
    assert_eq!(index_in(&all, "/q"), None);
}

#[test]
fn range_selection_is_symmetric() {
    let all: Vec<String> = ["/a.sac", "/b.sac", "/c.sac", "/d.sac"].iter().map(|s| s.to_string()).collect();
    let mut one = Selection::new();
    one.select_range(&all, "/b.sac", "/d.sac");
    let mut other = Selection::new();
    other.select_range(&all, "/d.sac", "/b.sac");
    let mut f1 = one.files();
    let mut f2 = other.files();
    f1.sort();
    f2.sort();
    assert_eq!(f1, vec!["/b.sac", "/c.sac", "/d.sac"]);
    assert_eq!(f1, f2);
    let mut single = Selection::new();
    single.select_range(&all, "/c.sac", "/c.sac");
    assert_eq!(single.files(), vec!["/c.sac"]);
}
