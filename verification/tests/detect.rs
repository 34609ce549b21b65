use code_optimizer_core::detect::language_for_extension;
use code_optimizer_core::{detect_language_from_path, Language};
use std::path::PathBuf;

#[test]
fn extensions_stand_for_their_languages() {
    assert_eq!(language_for_extension("js"), Some(Language::JavaScript));
    assert_eq!(language_for_extension("ts"), Some(Language::JavaScript));
    assert_eq!(language_for_extension("py"), Some(Language::Python));
    assert_eq!(language_for_extension("rs"), Some(Language::Rust));
}

#[test]
fn other_extensions_stand_for_no_language() {
    for extension in ["", "txt", "JS", "Rs", "jsx", "j", "s", "pyc", ".rs", "rs ", "c", "tsx"] {
        assert_eq!(language_for_extension(extension), None, "{:?}", extension);
    }
}

#[test]
fn language_is_told_from_the_file_name() {
    assert_eq!(detect_language_from_path(&PathBuf::from("app.js")), Some(Language::JavaScript));
    assert_eq!(detect_language_from_path(&PathBuf::from("src/app.ts")), Some(Language::JavaScript));
    assert_eq!(detect_language_from_path(&PathBuf::from("/a/b/tool.py")), Some(Language::Python));
    assert_eq!(detect_language_from_path(&PathBuf::from("main.rs")), Some(Language::Rust));
    assert_eq!(detect_language_from_path(&PathBuf::from("archive.tar.rs")), Some(Language::Rust));
    assert_eq!(detect_language_from_path(&PathBuf::from("dir.py/main.rs")), Some(Language::Rust));
}

#[test]
fn a_name_without_a_known_extension_has_no_language() {
    for path in ["", "Makefile", "notes.txt", ".rs", "src/.py", "main.rs.bak", "main.", "rs", "a.RS", "dir.rs/file"] {
        assert_eq!(detect_language_from_path(&PathBuf::from(path)), None, "{:?}", path);
    }
}
