use hostfs::listing::sort_files;
use hostfs::models::FileInfo;

fn entry(name: &str, is_dir: bool) -> FileInfo {
    FileInfo {
        name: name.to_string(),
        path: format!("/{}", name),
        is_dir,
        size: 0,
        modified: None,
    }
}

#[test]
fn directories_first_then_lexicographic() {
    let mut files = vec![entry("b.txt", false), entry("a.txt", false), entry("z", true)];
    sort_files(&mut files);
    let names: Vec<&str> = files.iter().map(|f| f.name.as_str()).collect();
    assert_eq!(names, ["z", "a.txt", "b.txt"]);
    assert!(files[0].is_dir);
}

#[test]
fn sort_is_case_sensitive() {
    // byte order: uppercase letters sort before lowercase
    let mut files = vec![entry("alpha", false), entry("Beta", false), entry("Zeta", false)];
    sort_files(&mut files);
    let names: Vec<&str> = files.iter().map(|f| f.name.as_str()).collect();
    assert_eq!(names, ["Beta", "Zeta", "alpha"]);
}

#[test]
fn sort_keeps_every_entry() {
    let mut files = vec![
        entry("c", false),
        entry("a", true),
        entry("b", false),
        entry("a", false),
        entry("d", true),
    ];
    sort_files(&mut files);
    let names: Vec<(String, bool)> =
        files.iter().map(|f| (f.name.clone(), f.is_dir)).collect();
    assert_eq!(
        names,
        [
            ("a".to_string(), true),
            ("d".to_string(), true),
            ("a".to_string(), false),
            ("b".to_string(), false),
            ("c".to_string(), false),
        ]
    );
}

#[test]
fn sort_empty_and_single() {
    let mut empty: Vec<FileInfo> = vec![];
    sort_files(&mut empty);
    assert!(empty.is_empty());

    let mut one = vec![entry("only", false)];
    sort_files(&mut one);
    assert_eq!(one.len(), 1);
    assert_eq!(one[0].name, "only");
}

#[test]
fn sort_duplicate_names() {
    let mut files = vec![entry("x", false), entry("x", true), entry("x", false)];
    sort_files(&mut files);
    assert!(files[0].is_dir);
    assert!(!files[1].is_dir);
    assert!(!files[2].is_dir);
    assert!(files.iter().all(|f| f.name == "x"));
}
