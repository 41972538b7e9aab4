use epigen::policy::{may_write, validate_file_extension};
use epigen::text::same_text;

#[test]
fn interface_extension_is_accepted() {
    assert!(validate_file_extension(Some("epi"), false));
    assert!(validate_file_extension(Some("epi"), true));
}

#[test]
fn other_extension_needs_force() {
    assert!(!validate_file_extension(Some("txt"), false));
    assert!(!validate_file_extension(Some("EPI"), false));
    assert!(!validate_file_extension(Some("epic"), false));
    assert!(!validate_file_extension(Some("ep"), false));
    assert!(!validate_file_extension(Some(""), false));
    assert!(!validate_file_extension(None, false));
    assert!(validate_file_extension(Some("txt"), true));
    assert!(validate_file_extension(None, true));
}

#[test]
fn existing_file_is_kept_unless_overwritten() {
    assert!(may_write(false, false));
    assert!(may_write(false, true));
    assert!(!may_write(true, false));
    assert!(may_write(true, true));
}

#[test]
fn same_text_compares_characters() {
    assert!(same_text("", ""));
    assert!(same_text("abc", "abc"));
    assert!(!same_text("abc", "abd"));
    assert!(!same_text("abc", "ab"));
    assert!(!same_text("ab", "abc"));
}
