use minicms::errors::Error;
use minicms::slug::{derive_or_validate_slug, is_valid_url, title_to_url};

#[test]
fn derivation_collapses_whitespace_and_strips_punctuation() {
    // Comma and exclamation mark are removed, each white-space run becomes
    // one hyphen, and the result is folded to lower case.
    assert_eq!(title_to_url("Hello, World!  Foo"), "hello-world-foo");
}

#[test]
fn derivation_of_only_hyphens_collapses_to_one() {
    // No letters or digits survive, but the hyphen run collapses to a single
    // hyphen rather than vanishing.
    assert_eq!(title_to_url("---"), "-");
}

#[test]
fn derivation_of_no_alphanumerics_yields_empty() {
    assert_eq!(title_to_url("!!!"), "");
    assert_eq!(title_to_url(""), "");
}

#[test]
fn derivation_is_idempotent_on_samples() {
    for title in [
        "Hello, World!  Foo",
        "---",
        "  Leading and trailing  ",
        "Ünïcode Text 42",
        "already-a-slug",
        "A--B--C",
        "tabs\tand\nnewlines",
    ] {
        let once = title_to_url(title);
        let twice = title_to_url(&once);
        assert_eq!(twice, once);
    }
}

#[test]
fn derivation_keeps_digits_and_interior_hyphens() {
    assert_eq!(title_to_url("Release 2.0 - the big one"), "release-20-the-big-one");
    assert_eq!(title_to_url("a - b"), "a-b");
}

#[test]
fn valid_urls_are_accepted() {
    assert!(is_valid_url("abc"));
    assert!(is_valid_url("ABC-123"));
    assert!(is_valid_url("-"));
    assert!(!is_valid_url(""));
    assert!(!is_valid_url("a b"));
    assert!(!is_valid_url("a_b"));
    assert!(!is_valid_url("caf\u{e9}"));
}

#[test]
fn explicit_url_is_taken_unchanged() {
    // Validation does not fold case or otherwise touch a valid explicit URL.
    let r = derive_or_validate_slug("Some Title", "My-URL-7").unwrap();
    assert_eq!(r, "My-URL-7");
}

#[test]
fn invalid_explicit_url_is_rejected() {
    assert_eq!(derive_or_validate_slug("Some Title", "my url"), Err(Error::InvalidSlug));
    assert_eq!(derive_or_validate_slug("Some Title", "a/b"), Err(Error::InvalidSlug));
}

#[test]
fn empty_explicit_url_falls_back_to_derivation() {
    let r = derive_or_validate_slug("Some Title", "").unwrap();
    assert_eq!(r, "some-title");
}
