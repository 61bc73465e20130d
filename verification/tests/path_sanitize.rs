//! Cleaning page paths.

use ai_memory::path_sanitize::{slugify_page_path, PATH_ILLEGAL_CHARS};

#[test]
fn slugify_page_path_replaces_illegal_chars_and_keeps_slashes() {
    assert_eq!(
        slugify_page_path("concepts/build(sandbox): orchestrate the run.md"),
        "concepts/build(sandbox)- orchestrate the run.md"
    );
    assert_eq!(
        slugify_page_path("a/b<c>d:e\"f|g?h*i\\j.md"),
        "a/b-c-d-e-f-g-h-i-j.md"
    );
    assert_eq!(
        slugify_page_path("concepts/clean-path.md"),
        "concepts/clean-path.md",
        "an already-portable path must be left unchanged"
    );
}

#[test]
fn slugify_page_path_appends_md_when_the_model_omits_it() {
    // A bare model path with no extension lands as a portable page.
    let slug = slugify_page_path("decisions/smart-model-luna");
    assert!(
        slug.ends_with("-luna.md"),
        "bare model path must gain a .md extension, got {slug:?}"
    );
    assert_eq!(slug, "decisions/smart-model-luna.md");
}

#[test]
fn slugify_page_path_extension_append_is_idempotent() {
    // A path already ending in `.md` (any casing) keeps its single extension.
    assert_eq!(
        slugify_page_path("decisions/smart-model-luna.md"),
        "decisions/smart-model-luna.md"
    );
    assert_eq!(
        slugify_page_path("decisions/SHOUTING.MD"),
        "decisions/SHOUTING.MD",
        "an existing .MD extension is recognized case-insensitively"
    );
}

#[test]
fn slugify_page_path_does_not_fabricate_a_filename_from_an_empty_path() {
    // An empty path stays empty, and a trailing slash keeps its empty final
    // component, so the missing file name can still be rejected.
    assert_eq!(slugify_page_path(""), "");
    assert_eq!(slugify_page_path("decisions/"), "decisions/");
}

#[test]
fn control_characters_are_replaced_and_others_kept() {
    assert_eq!(slugify_page_path("a\tb\nc\u{1f}d e\u{7f}é"), "a-b-c-d e-é.md");
    assert_eq!(slugify_page_path("a\u{7f}b.md"), "a-b.md");
    assert_eq!(slugify_page_path("a\u{80}b.md"), "a\u{80}b.md");
    assert_eq!(slugify_page_path("x/.md"), "x/.md");
    assert_eq!(slugify_page_path("md"), "md.md");
    assert_eq!(slugify_page_path("a.mD"), "a.mD");
    assert_eq!(slugify_page_path("a.md/b"), "a.md/b.md");
    assert_eq!(slugify_page_path(":/"), "-/");
}

#[test]
fn cleaning_twice_changes_nothing_more() {
    for raw in ["", "/", "a", "a/b:c", "x.md", "é?.MD", "\u{0}/\u{7f}"] {
        let once = slugify_page_path(raw);
        assert_eq!(slugify_page_path(&once), once);
        assert!(!once.chars().any(|c| PATH_ILLEGAL_CHARS.contains(&c) || c.is_ascii_control()));
        assert_eq!(once.matches('/').count(), raw.matches('/').count());
    }
}
