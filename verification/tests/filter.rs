use regex::Regex;
use windows_toolchain_builder::filter::filter_verdict;
use windows_toolchain_builder::filter::is_hidden;
use windows_toolchain_builder::filter::matches_any_rule;
use windows_toolchain_builder::filter::names_directory;
use windows_toolchain_builder::filter::select_entries;
use windows_toolchain_builder::filter::should_extract;

fn rules(patterns: &[&str]) -> Vec<Regex> {
    patterns.iter().map(|p| Regex::new(p).unwrap()).collect()
}

#[test]
fn entry_outside_excluded_folder_is_extracted() {
    assert!(should_extract("include/foo.txt", &rules(&["^exclude/"]), &rules(&[])));
}

#[test]
fn entry_in_excluded_folder_is_skipped() {
    assert!(!should_extract("exclude/bar.txt", &rules(&["^exclude/"]), &rules(&[])));
}

#[test]
fn hidden_entry_is_skipped_whatever_the_rules() {
    assert!(!should_extract(".git/config", &rules(&[]), &rules(&[])));
    assert!(!should_extract(".git/config", &rules(&["^exclude/"]), &rules(&[])));
    assert!(!should_extract(".git/config", &rules(&[]), &rules(&["^\\.git/"])));
    assert!(!should_extract(".PKGINFO", &rules(&[]), &rules(&[".*"])));
}

#[test]
fn directory_entry_is_skipped_whatever_the_rules() {
    assert!(!should_extract("mingw64/bin/", &rules(&[]), &rules(&[])));
    assert!(!should_extract("mingw64/bin/", &rules(&[]), &rules(&["bin"])));
    assert!(!should_extract("/", &rules(&[]), &rules(&[])));
}

#[test]
fn include_rules_restrict_what_is_extracted() {
    let only = rules(&["\\.dll$", "\\.exe$"]);
    assert!(should_extract("mingw64/bin/a.dll", &rules(&[]), &only));
    assert!(should_extract("mingw64/bin/a.exe", &rules(&[]), &only));
    assert!(!should_extract("mingw64/share/doc.txt", &rules(&[]), &only));
}

#[test]
fn exclude_wins_over_include() {
    let exclude = rules(&["^mingw64/bin/"]);
    let only = rules(&["\\.dll$"]);
    assert!(!should_extract("mingw64/bin/a.dll", &exclude, &only));
    assert!(should_extract("mingw64/lib/a.dll", &exclude, &only));
}

#[test]
fn rule_matches_anywhere_in_the_path() {
    assert!(!should_extract("a/exclude/b", &rules(&["exclude"]), &rules(&[])));
    assert!(should_extract("a/b", &rules(&[]), &rules(&["b$"])));
}

#[test]
fn empty_path_is_neither_directory_nor_hidden() {
    assert!(!names_directory(""));
    assert!(!is_hidden(""));
    assert!(should_extract("", &rules(&[]), &rules(&[])));
}

#[test]
fn directory_and_hidden_go_by_last_and_first_character() {
    assert!(names_directory("a/"));
    assert!(names_directory("\u{e9}/"));
    assert!(!names_directory("a/b"));
    assert!(!names_directory("/a"));
    assert!(is_hidden(".a"));
    assert!(is_hidden("."));
    assert!(!is_hidden("a/.b"));
    assert!(!is_hidden("\u{e9}."));
}

#[test]
fn matches_any_rule_asks_every_rule() {
    let some = rules(&["^a", "b$", "c"]);
    assert!(matches_any_rule(&some, "xxb"));
    assert!(matches_any_rule(&some, "xcx"));
    assert!(matches_any_rule(&some, "ax"));
    assert!(!matches_any_rule(&some, "xax"));
    assert!(!matches_any_rule(&rules(&[]), "anything"));
}

#[test]
fn verdict_table() {
    for unwritable in [false, true] {
        for excluded in [false, true] {
            for count in [0usize, 1, 2] {
                for included in [false, true] {
                    let expected = !unwritable && !excluded && (count == 0 || included);
                    assert_eq!(filter_verdict(unwritable, excluded, count, included), expected);
                }
            }
        }
    }
}

#[test]
fn select_entries_keeps_accepted_entries_in_order() {
    let files: Vec<String> = [
        ".PKGINFO",
        "mingw64/",
        "mingw64/bin/",
        "mingw64/bin/tool.exe",
        "mingw64/share/doc/readme.txt",
        "mingw64/bin/lib.dll",
        "mingw64/bin/tool.exe",
    ]
    .iter()
    .map(|f| f.to_string())
    .collect();
    let chosen = select_entries(&files, &rules(&["/share/"]), &rules(&[]));
    assert_eq!(
        chosen,
        vec!["mingw64/bin/tool.exe", "mingw64/bin/lib.dll", "mingw64/bin/tool.exe"]
    );
    let only_dll = select_entries(&files, &rules(&[]), &rules(&["\\.dll$"]));
    assert_eq!(only_dll, vec!["mingw64/bin/lib.dll"]);
    assert!(select_entries(&Vec::new(), &rules(&[]), &rules(&[])).is_empty());
}
