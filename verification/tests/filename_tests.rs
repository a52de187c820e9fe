//! Filename derivation: Content-Disposition parsing, sanitization, and the
//! URL fallback.

use leaf::filename::{
    derive_download_filename, parse_content_disposition_filename, sanitize_filename,
};

#[test]
fn quoted_content_disposition_yields_filename() {
    let r = parse_content_disposition_filename("attachment; filename=\"example.zip\"");
    assert_eq!(r, Some("example.zip".to_string()));
}

#[test]
fn unquoted_content_disposition_stops_at_semicolon() {
    let r = parse_content_disposition_filename("attachment; filename=foo.tar.gz; size=12");
    assert_eq!(r, Some("foo.tar.gz".to_string()));
}

#[test]
fn extended_content_disposition_is_percent_decoded() {
    let r = parse_content_disposition_filename("attachment; filename*=UTF-8''my%20file.zip");
    assert_eq!(r, Some("my file.zip".to_string()));
}

#[test]
fn extended_form_takes_precedence_over_plain() {
    let r = parse_content_disposition_filename(
        "attachment; filename=\"plain.zip\"; filename*=UTF-8''ext.zip",
    );
    assert_eq!(r, Some("ext.zip".to_string()));
}

#[test]
fn header_without_filename_yields_nothing() {
    assert_eq!(parse_content_disposition_filename("attachment"), None);
}

#[test]
fn extended_marker_without_encoding_quotes_yields_nothing() {
    // `filename*=` is present but carries no `''`, and the plain marker
    // `filename=` occurs nowhere, so no filename is derived.
    let r = parse_content_disposition_filename("attachment; filename*=broken.zip");
    assert_eq!(r, None);
}

#[test]
fn sanitize_replaces_reserved_characters_only_on_windows() {
    let name = "a<b>c:d\"e|f?g*h\\i/j";
    assert_eq!(sanitize_filename(name, true), "a_b_c_d_e_f_g_h_i_j");
    assert_eq!(sanitize_filename(name, false), name);
}

#[test]
fn sanitize_keeps_ordinary_names() {
    assert_eq!(sanitize_filename("ripgrep-14.tar.gz", true), "ripgrep-14.tar.gz");
    assert_eq!(sanitize_filename("ripgrep-14.tar.gz", false), "ripgrep-14.tar.gz");
}

#[test]
fn sanitize_empty_name_falls_back_to_default() {
    assert_eq!(sanitize_filename("", true), "download");
    assert_eq!(sanitize_filename("", false), "download");
}

#[test]
fn derive_prefers_header_over_url() {
    let r = derive_download_filename(
        Some("attachment; filename=\"named.tar.gz\""),
        "http://example.com/path/other.tar.gz",
        false,
    );
    assert_eq!(r, "named.tar.gz");
}

#[test]
fn derive_falls_back_to_url_segment_without_header() {
    let r = derive_download_filename(None, "http://example.com/dl/foo.tar.gz", false);
    assert_eq!(r, "foo.tar.gz");
}

#[test]
fn derive_falls_back_to_url_segment_when_header_names_nothing() {
    let r = derive_download_filename(Some("attachment"), "http://example.com/dl/foo.tgz", false);
    assert_eq!(r, "foo.tgz");
}

#[test]
fn derive_uses_default_for_trailing_slash_url() {
    let r = derive_download_filename(None, "http://example.com/dl/", false);
    assert_eq!(r, "download");
}

#[test]
fn derive_sanitizes_header_names_for_windows() {
    let r = derive_download_filename(
        Some("attachment; filename=\"a:b.zip\""),
        "http://example.com/x.zip",
        true,
    );
    assert_eq!(r, "a_b.zip");
    let untouched = derive_download_filename(
        Some("attachment; filename=\"a:b.zip\""),
        "http://example.com/x.zip",
        false,
    );
    assert_eq!(untouched, "a:b.zip");
}
