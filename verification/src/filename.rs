//! Deriving the cache filename for a download: prefer a Content-Disposition
//! header (quoted or extended form), fall back to the URL's final path
//! segment, and sanitize the result for the target platform.

use vstd::prelude::*;
use vstd::string::StringExecFns;
use vstd::string::StrSliceExecFns;
use crate::text::{
    after_last_char, prefix_before_char, replace_seq, replace_sub, segment_after_first,
    split_first, split_last, split_nth1_seq, trim_char_seq, trim_matching,
};

verus! {

/// The filename a Content-Disposition header carries: the extended form
/// (`filename*=...''name`, with `%20` decoded) when present, else the plain
/// form (`filename=name`, up to any `;`, quotes stripped), else nothing.
pub open spec fn spec_cd_filename(h: Seq<char>) -> Option<Seq<char>> {
    let extended = match split_nth1_seq(h, "filename*="@) {
        Some(enc) => split_nth1_seq(enc, "''"@),
        None => None,
    };
    match extended {
        Some(fp) => Some(replace_seq(fp, "%20"@, " "@)),
        None => match split_nth1_seq(h, "filename="@) {
            Some(reg) => Some(trim_char_seq(prefix_before_char(reg, ';'), '"')),
            None => None,
        },
    }
}

/// Parse a filename from a Content-Disposition header, handling both the
/// plain and the extended (`filename*=`) form.
pub fn parse_content_disposition_filename(content_disposition: &str) -> (r: Option<String>)
    ensures
        match r {
            Some(f) => spec_cd_filename(content_disposition@) == Some(f@),
            None => spec_cd_filename(content_disposition@) is None,
        },
{
    if let Some(encoded_part) = segment_after_first(content_disposition, "filename*=") {
        if let Some(filename_part) = segment_after_first(encoded_part, "''") {
            proof {
                reveal_strlit("%20");
            }
            return Some(replace_sub(filename_part, "%20", " "));
        }
    }
    if let Some(regular_part) = segment_after_first(content_disposition, "filename=") {
        let filename = split_first(regular_part, ';');
        return Some(trim_matching(filename, '"').to_owned());
    }
    None
}

/// Whether the target filesystem reserves this character.
pub open spec fn is_reserved_char(c: char) -> bool {
    c == '<' || c == '>' || c == ':' || c == '"' || c == '|' || c == '?' || c == '*' || c == '\\'
        || c == '/'
}

/// A character with filesystem-reserved characters substituted.
pub open spec fn sanitize_char(c: char) -> char {
    if is_reserved_char(c) {
        '_'
    } else {
        c
    }
}

/// The sanitized filename: on the Windows platform each reserved character
/// becomes `_`; an empty name falls back to a fixed default.
pub open spec fn spec_sanitize(h: Seq<char>, windows: bool) -> Seq<char> {
    let mapped = if windows {
        h.map_values(|c: char| sanitize_char(c))
    } else {
        h
    };
    if mapped.len() == 0 {
        "download"@
    } else {
        mapped
    }
}

/// Sanitize a filename for the platform being targeted; only the Windows
/// platform substitutes its reserved characters.
pub fn sanitize_filename(filename: &str, windows: bool) -> (r: String)
    ensures
        r@ == spec_sanitize(filename@, windows),
{
    let len = filename.unicode_len();
    if len == 0 {
        let r: String = "download".to_owned();
        return r;
    }
    if !windows {
        return filename.to_owned();
    }
    let mut out = String::new();
    let mut i: usize = 0;
    while i < len
        invariant
            len == filename@.len(),
            0 < len,
            i <= len,
            out@.len() == i,
            forall|j: int| 0 <= j < i ==> out@[j] == sanitize_char(#[trigger] filename@[j]),
        decreases len - i,
    {
        let c = filename.get_char(i);
        if c == '<' || c == '>' || c == ':' || c == '"' || c == '|' || c == '?' || c == '*'
            || c == '\\' || c == '/' {
            proof {
                reveal_strlit("_");
            }
            out.append("_");
        } else {
            let piece = filename.substring_char(i, i + 1);
            out.append(piece);
        }
        i += 1;
    }
    proof {
        assert(out@ =~= filename@.map_values(|c: char| sanitize_char(c)));
    }
    out
}

/// The filename a download is cached under: what the Content-Disposition
/// header names when it names one, else the URL's final path segment, the
/// whole sanitized for the platform.
pub open spec fn spec_derive_filename(
    cd: Option<Seq<char>>,
    url: Seq<char>,
    windows: bool,
) -> Seq<char> {
    let base = match cd {
        Some(h) => match spec_cd_filename(h) {
            Some(f) => f,
            None => after_last_char(url, '/'),
        },
        None => after_last_char(url, '/'),
    };
    spec_sanitize(base, windows)
}

/// Derive the cache filename for a download from the response's
/// Content-Disposition header (when present) and the request URL.
pub fn derive_download_filename(content_disposition: Option<&str>, url: &str, windows: bool) -> (r:
    String)
    ensures
        r@ == spec_derive_filename(
            match content_disposition {
                Some(h) => Some(h@),
                None => None,
            },
            url@,
            windows,
        ),
{
    let base: String = match content_disposition {
        Some(cd) => match parse_content_disposition_filename(cd) {
            Some(f) => f,
            None => split_last(url, '/').to_owned(),
        },
        None => split_last(url, '/').to_owned(),
    };
    sanitize_filename(base.as_str(), windows)
}

} // verus!
