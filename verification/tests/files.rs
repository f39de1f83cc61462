use mcp_trap_generator::files::{has_extension, stem_with_extension};
use std::path::Path;

#[test]
fn has_extension_looks_behind_the_last_dot() {
    assert!(has_extension("IERC20.json", "json"));
    assert!(has_extension("a.b.json", "json"));
    assert!(has_extension("Trap.t.sol", "sol"));
    assert!(has_extension("page.md", "md"));
    assert!(has_extension("a.", ""));
    assert!(!has_extension("IERC20.json", "md"));
    assert!(!has_extension("IERC20.JSON", "json"));
    assert!(!has_extension("IERC20.json.bak", "json"));
    assert!(!has_extension("json", "json"));
    assert!(!has_extension("IERC20json", "json"));
    assert!(!has_extension("", "json"));
    assert!(!has_extension("", ""));
}

#[test]
fn a_leading_dot_begins_no_extension() {
    assert!(!has_extension(".json", "json"));
    assert!(!has_extension(".", ""));
    assert!(has_extension(".hidden.json", "json"));
    assert!(has_extension("..json", "json"));
}

#[test]
fn stem_is_what_stands_before_the_extension() {
    assert_eq!(stem_with_extension("IERC20.json", "json"), Some("IERC20".to_string()));
    assert_eq!(stem_with_extension("a.b.json", "json"), Some("a.b".to_string()));
    assert_eq!(stem_with_extension("getting-started.md", "md"), Some("getting-started".to_string()));
    assert_eq!(stem_with_extension(".hidden.json", "json"), Some(".hidden".to_string()));
    assert_eq!(stem_with_extension("é.json", "json"), Some("é".to_string()));
    assert_eq!(stem_with_extension("a.", ""), Some("a".to_string()));
}

#[test]
fn a_file_of_another_extension_has_no_stem_to_give() {
    assert_eq!(stem_with_extension("IERC20.json", "md"), None);
    assert_eq!(stem_with_extension("README", "md"), None);
    assert_eq!(stem_with_extension(".md", "md"), None);
    assert_eq!(stem_with_extension("", "md"), None);
    assert_eq!(stem_with_extension("notes.md.txt", "md"), None);
}

#[test]
fn stems_and_extensions_are_those_of_paths() {
    let names = [
        "IERC20.json", "a.b.json", ".json", ".hidden.json", "json", "a.", "..json", "README.md",
        "x.sol", "Trap.t.sol", "é.ñ", "noext", ".", "a..b",
    ];
    for name in names {
        let path = Path::new(name);
        let extension = path.extension().and_then(|e| e.to_str());
        for wanted in ["json", "md", "sol", "", "b", "ñ"] {
            assert_eq!(has_extension(name, wanted), extension == Some(wanted));
            let stem = stem_with_extension(name, wanted);
            if extension == Some(wanted) {
                assert_eq!(stem.as_deref(), path.file_stem().and_then(|s| s.to_str()));
            } else {
                assert_eq!(stem, None);
            }
        }
    }
}
