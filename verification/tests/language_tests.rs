use snix::language::{SnippetLanguage, get_available_languages};

#[test]
fn rust_extension_and_names() {
    let l = SnippetLanguage::Rust;
    assert_eq!(l.file_extension(), "rs");
    assert_eq!(l.display_name(), "Rust");
}

#[test]
fn available_languages_are_listed() {
    let langs = get_available_languages();
    assert!(langs.len() > 10);
}
