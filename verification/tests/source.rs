use conga_gasket::source::{is_wanted, rel_of, sort_entries, DirSource, FileEntry, SourceConfig, Walked};

fn cfg(path: &str, wanted: &[&str], exclude: &[&str]) -> SourceConfig {
    SourceConfig {
        kind: "dir".into(),
        path: path.into(),
        included: wanted.iter().map(|s| s.to_string()).collect(),
        exclude: exclude.iter().map(|s| s.to_string()).collect(),
    }
}

fn file(path: &str) -> Walked {
    Walked { path: path.into(), is_file: true }
}

fn dir(path: &str) -> Walked {
    Walked { path: path.into(), is_file: false }
}

fn scan(src: &DirSource, walk: &Vec<Walked>) -> Vec<FileEntry> {
    src.scan(walk, &None).unwrap()
}

fn rels(list: Vec<FileEntry>) -> Vec<String> {
    list.into_iter().map(|f| f.rel).collect()
}

#[test]
fn scans_matching_files_with_rel_paths() {
    let src = DirSource::new("notes", &cfg("/r", &["**/*.md"], &[]), true).ok().unwrap();
    assert_eq!(src.name(), "notes");
    assert_eq!(src.root(), "/r");
    let walk = vec![dir("/r"), file("/r/c.txt"), dir("/r/sub"), file("/r/sub/b.md"), file("/r/a.md")];
    assert_eq!(rels(scan(&src, &walk)), vec!["a.md", "sub/b.md"]);
}

#[test]
fn empty_include_matches_everything() {
    let src = DirSource::new("s", &cfg("/r", &[], &[]), true).ok().unwrap();
    assert_eq!(scan(&src, &vec![dir("/r"), file("/r/anything.bin")]).len(), 1);
}

#[test]
fn exclude_wins_over_include() {
    let src = DirSource::new("s", &cfg("/r", &["**/*.md"], &["**/drafts/**"]), true).ok().unwrap();
    let walk = vec![file("/r/keep.md"), file("/r/drafts/skip.md")];
    assert_eq!(rels(scan(&src, &walk)), vec!["keep.md"]);
}

#[test]
fn missing_root_is_error() {
    let err = DirSource::new("s", &cfg("/nonexistent-xyz-123", &[], &[]), false).err().unwrap();
    assert!(err.contains("不存在") || err.contains("not exist"), "{err}");
    assert_eq!(err, "源 s 目录不存在: /nonexistent-xyz-123");
}

#[test]
fn a_text_that_is_no_glob_is_an_error() {
    let err = DirSource::new("s", &cfg("/r", &["*.md", "[z-"], &["{"]), true).err().unwrap();
    assert_eq!(err, "非法 glob: [z-");
    let err = DirSource::new("s", &cfg("/r", &[], &["a{b"]), true).err().unwrap();
    assert_eq!(err, "非法 glob: a{b");
}

#[test]
fn files_sort_by_components() {
    let src = DirSource::new("s", &cfg("/r", &[], &[]), true).ok().unwrap();
    let walk = vec![file("/r/a-b"), file("/r/a/z"), file("/r/a"), file("/r/b")];
    assert_eq!(rels(scan(&src, &walk)), vec!["a", "a/z", "a-b", "b"]);
    assert_eq!(src.walk_error(), "遍历 /r 失败");
}

#[test]
fn paths_sort_as_the_standard_library_sorts_them() {
    let paths = ["", ".", "..", "/", "/a", "a", "a/", "./a", "a/./b", "a//b", "a/b", "a-b", "../x", "/a/../b", "\u{e4}"];
    let mut want: Vec<std::path::PathBuf> = paths.iter().map(std::path::PathBuf::from).collect();
    want.sort();
    let got: Vec<std::path::PathBuf> = sort_entries(
        paths.iter().map(|p| FileEntry { path: p.to_string(), rel: String::new() }).collect(),
    )
    .into_iter()
    .map(|e| std::path::PathBuf::from(e.path))
    .collect();
    assert_eq!(got, want);
}

#[test]
fn rel_paths() {
    for (root, path, want) in [
        ("/r", "/r/a/b", "a/b"),
        ("/r/", "/r/a", "a"),
        ("/r", "/r//a", "a"),
        ("/", "/a", "a"),
        ("./docs", "./docs/a", "a"),
        ("/r", "/rest/a", "/rest/a"),
        ("/r", "/r", ""),
        ("/r/", "/r", ""),
    ] {
        assert_eq!(rel_of(root, path), want, "{root} {path}");
    }
}

#[test]
fn wanted_files() {
    assert!(is_wanted(None, false));
    assert!(!is_wanted(None, true));
    assert!(is_wanted(Some(true), false));
    assert!(!is_wanted(Some(true), true));
    assert!(!is_wanted(Some(false), false));
}

#[test]
fn found_paths_are_absolute() {
    let src = DirSource::new("s", &cfg("docs", &["**/*.md"], &[]), true).ok().unwrap();
    let walk = vec![dir("docs"), file("docs/a.md"), file("docs/b.txt")];
    let found = src.scan(&walk, &Some("/w".into())).unwrap();
    assert_eq!(found.len(), 1);
    assert_eq!(found[0].path, "/w/docs/a.md");
    assert_eq!(found[0].rel, "a.md");
    assert_eq!(src.scan(&walk, &None).err().as_deref(), Some("遍历 docs 失败"));
    assert_eq!(src.scan(&vec![dir("docs")], &None).unwrap().len(), 0);
}
