use windows_toolchain_builder::package::copy_strings;
use windows_toolchain_builder::package::PackageIndex;
use windows_toolchain_builder::package::PackageMetadata;

fn record(name: &str, base: Option<&str>, version: &str) -> PackageMetadata {
    PackageMetadata {
        name: name.to_string(),
        base: base.map(|b| b.to_string()),
        version: version.to_string(),
        depends: vec!["dep".to_string()],
        file_name: format!("{}.pkg", name),
        compressed_size: 7,
    }
}

#[test]
fn new_index_is_empty() {
    let index = PackageIndex::new();
    assert_eq!(index.len(), 0);
    assert!(index.lookup("a").is_none());
    assert!(index.root("a").is_none());
}

#[test]
fn insert_appends_new_names() {
    let mut index = PackageIndex::new();
    index.insert(record("a", None, "1"));
    index.insert(record("b", None, "1"));
    assert_eq!(index.len(), 2);
    assert_eq!(index.get(0).name, "a");
    assert_eq!(index.get(1).name, "b");
}

#[test]
fn insert_replaces_a_record_of_the_same_name_in_place() {
    let mut index = PackageIndex::new();
    index.insert(record("a", None, "1"));
    index.insert(record("b", None, "1"));
    index.insert(record("a", None, "2"));
    assert_eq!(index.len(), 2);
    assert_eq!(index.get(0), &record("a", None, "2"));
    assert_eq!(index.lookup("a").unwrap().version, "2");
}

#[test]
fn lookup_finds_by_exact_name_only() {
    let mut index = PackageIndex::new();
    index.insert(record("gtk", Some("gtk-base"), "3"));
    assert_eq!(index.lookup("gtk"), Some(&record("gtk", Some("gtk-base"), "3")));
    assert!(index.lookup("gtk-base").is_none());
    assert!(index.lookup("gtk-3").is_none());
    assert!(index.lookup("gt").is_none());
    assert!(index.lookup("").is_none());
}

#[test]
fn root_prefers_base_then_name_then_name_and_version() {
    let mut index = PackageIndex::new();
    index.insert(record("x", Some("shared"), "1"));
    index.insert(record("shared", None, "2"));
    index.insert(record("y", Some("shared"), "3"));
    index.insert(record("z", None, "4.0-1"));
    assert_eq!(index.root("shared").unwrap().name, "x");
    assert_eq!(index.root("y").unwrap().name, "y");
    assert_eq!(index.root("z-4.0-1").unwrap().name, "z");
    assert_eq!(index.root("shared-2").unwrap().name, "shared");
    assert!(index.root("z-4.0").is_none());
    assert!(index.root("z-").is_none());
}

#[test]
fn clone_keeps_every_field() {
    let first = record("a", Some("b"), "1.2");
    assert_eq!(first.clone(), first);
}

#[test]
fn copy_strings_keeps_texts_and_order() {
    let texts = vec!["b".to_string(), "".to_string(), "a".to_string()];
    assert_eq!(copy_strings(&texts), texts);
    assert_eq!(copy_strings(&Vec::new()), Vec::<String>::new());
}
