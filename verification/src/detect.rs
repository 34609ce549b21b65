//! The language of a file, told from the extension of its name.

use crate::matcher::same_text;
use crate::model::Language;
use crate::text::to_chars;
use std::path::PathBuf;
use vstd::prelude::*;

verus! {

/// `std::path::PathBuf` of the standard library, a path in the file system.
/// It is passed on as it is; of what it holds only `path_extension` speaks.
#[verifier::external_type_specification]
#[verifier::external_body]
pub struct ExPathBuf(PathBuf);

/// The language that files with the extension `extension` are written in:
/// `js` and `ts` stand for JavaScript, `py` for Python, `rs` for Rust. Any
/// other extension stands for no language.
pub open spec fn language_of_extension(extension: Seq<char>) -> Option<Language> {
    if extension == "js"@ || extension == "ts"@ {
        Some(Language::JavaScript)
    } else if extension == "py"@ {
        Some(Language::Python)
    } else if extension == "rs"@ {
        Some(Language::Rust)
    } else {
        None
    }
}

/// Tells the language that files with the extension `extension` are written
/// in.
pub fn language_for_extension(extension: &str) -> (language: Option<Language>)
    ensures
        language == language_of_extension(extension@),
{
    let text = to_chars(extension);
    let js = to_chars("js");
    let ts = to_chars("ts");
    let py = to_chars("py");
    let rs = to_chars("rs");
    if same_text(text.as_slice(), js.as_slice()) || same_text(text.as_slice(), ts.as_slice()) {
        Some(Language::JavaScript)
    } else if same_text(text.as_slice(), py.as_slice()) {
        Some(Language::Python)
    } else if same_text(text.as_slice(), rs.as_slice()) {
        Some(Language::Rust)
    } else {
        None
    }
}

/// The extension of the file name that `path` ends with, as text; nothing
/// where the path has no file name, the file name has no extension, or the
/// extension is not valid Unicode. This is the name of what
/// `Path::extension` of the standard library gives, read as text by
/// `OsStr::to_str`. It depends on the path alone; how a path falls into its
/// parts is the standard library's matter and is not spelled out here.
pub uninterp spec fn path_extension(path: PathBuf) -> Option<Seq<char>>;

/// The language of the file at `path`: what `language_of_extension` says of
/// the extension of its name, and no language where the name has no
/// extension.
pub open spec fn language_of_path(path: PathBuf) -> Option<Language> {
    match path_extension(path) {
        Some(extension) => language_of_extension(extension),
        None => None,
    }
}

/// `Path::extension` of the standard library, then `OsStr::to_str`, taken on
/// trust: the result is the text that `path_extension` names, and nothing
/// where `path_extension` names nothing.
#[verifier::external_body]
fn extension_text(path: &PathBuf) -> (extension: Option<String>)
    ensures
        match extension {
            Some(text) => path_extension(*path) == Some(text@),
            None => path_extension(*path) is None,
        },
{
    Some(path.extension()?.to_str()?.to_string())
}

/// Tells the language of the file at `path` from the extension of its name:
/// what `language_for_extension` says of the extension, and no language
/// where the name has no extension.
pub fn detect_language_from_path(path: &PathBuf) -> (language: Option<Language>)
    ensures
        language == language_of_path(*path),
{
    match extension_text(path) {
        Some(extension) => language_for_extension(extension.as_str()),
        None => None,
    }
}

} // verus!
