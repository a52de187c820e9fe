//! Judging a manifest body: a local copy is rejected when it is blank or
//! looks like an HTML error page, and a freshly fetched body replaces the
//! stored copy only when the HTTP status succeeded and the body is JSON.

use vstd::prelude::*;
use crate::error::LeafError;
use crate::text::{has_prefix, is_blank, is_blank_seq, starts_with, trim_start_seq, trim_start_ws};

verus! {

/// The heuristic for an HTML error page standing in for the manifest: after
/// leading whitespace the body opens with an HTML doctype or tag.
pub open spec fn spec_looks_like_html(h: Seq<char>) -> bool {
    has_prefix(trim_start_seq(h), "<!DOCTYPE html>"@) || has_prefix(trim_start_seq(h), "<html"@)
}

/// Whether a manifest body reads as HTML rather than JSON.
pub fn looks_like_html(content: &str) -> (r: bool)
    ensures
        r == spec_looks_like_html(content@),
{
    let trimmed = trim_start_ws(content);
    starts_with(trimmed, "<!DOCTYPE html>") || starts_with(trimmed, "<html")
}

/// How a stored manifest copy reads: blank, an HTML page, or a candidate to
/// parse.
#[derive(PartialEq, Eq, Structural, Debug, Clone, Copy)]
pub enum ManifestTextClass {
    Blank,
    Html,
    Candidate,
}

/// Classify a stored manifest copy before parsing it: a blank copy is
/// reported and kept, an HTML copy is reported and deleted, anything else
/// goes to the JSON parser.
pub fn classify_manifest_text(content: &str) -> (r: ManifestTextClass)
    ensures
        r == ManifestTextClass::Blank <==> is_blank_seq(content@),
        r == ManifestTextClass::Html <==> (!is_blank_seq(content@) && spec_looks_like_html(
            content@,
        )),
        r == ManifestTextClass::Candidate <==> (!is_blank_seq(content@) && !spec_looks_like_html(
            content@,
        )),
{
    if is_blank(content) {
        ManifestTextClass::Blank
    } else if looks_like_html(content) {
        ManifestTextClass::Html
    } else {
        ManifestTextClass::Candidate
    }
}

/// What `serde_json` says of a text: whether it parses as JSON is a function
/// of the text alone.
pub uninterp spec fn json_valid(s: Seq<char>) -> bool;

/// Relies on `serde_json::from_str::<serde_json::Value>`: it accepts exactly
/// the texts that are valid JSON documents, deterministically in the text.
#[verifier::external_body]
fn parses_as_json(s: &str) -> (r: bool)
    ensures
        r == json_valid(s@),
{
    serde_json::from_str::<serde_json::Value>(s).is_ok()
}

/// What becomes of a fetched manifest body.
#[derive(PartialEq, Eq, Structural, Debug, Clone, Copy)]
pub enum UpdateOutcome {
    /// The body replaces the stored manifest copy.
    Accept,
    /// The HTTP status did not succeed; the stored copy stays untouched.
    RejectStatus,
    /// The body is not valid JSON; the stored copy stays untouched.
    RejectBody,
}

/// Decide whether a fetched manifest body may replace the stored copy: only
/// a successful status with a JSON body is accepted.
pub fn update_decision(status_ok: bool, body: &str) -> (r: UpdateOutcome)
    ensures
        r == UpdateOutcome::Accept <==> (status_ok && json_valid(body@)),
        r == UpdateOutcome::RejectStatus <==> !status_ok,
        r == UpdateOutcome::RejectBody <==> (status_ok && !json_valid(body@)),
{
    if !status_ok {
        UpdateOutcome::RejectStatus
    } else if parses_as_json(body) {
        UpdateOutcome::Accept
    } else {
        UpdateOutcome::RejectBody
    }
}

/// The error a rejected refresh reports; a refusal never touches the stored
/// manifest copy.
pub fn update_error(outcome: UpdateOutcome, detail: String) -> (r: Option<LeafError>)
    requires
        outcome != UpdateOutcome::Accept,
    ensures
        outcome == UpdateOutcome::RejectStatus ==> (r matches Some(e) && (e matches
            LeafError::NetworkError(d) && d@ == detail@)),
        outcome == UpdateOutcome::RejectBody ==> (r matches Some(e) && (e matches
            LeafError::InvalidManifest(d) && d@ == detail@)),
{
    match outcome {
        UpdateOutcome::RejectStatus => Some(LeafError::NetworkError(detail)),
        UpdateOutcome::RejectBody => Some(LeafError::InvalidManifest(detail)),
        UpdateOutcome::Accept => None,
    }
}

} // verus!
