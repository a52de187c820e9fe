//! Dispatching a cached artifact to the right decoder, purely by filename
//! suffix. An unrecognized suffix is rejected before anything touches the
//! destination directory.

use vstd::prelude::*;
use crate::error::LeafError;
use crate::text::{ends_with, has_suffix};

verus! {

/// The decoders an artifact can be dispatched to.
#[derive(PartialEq, Eq, Structural, Debug, Clone, Copy)]
pub enum ArchiveFormat {
    /// gzip + tar, for `.tar.gz` and `.tgz`.
    TarGz,
    /// xz + tar, for `.tar.xz`.
    TarXz,
    /// zip, for `.zip`.
    Zip,
}

/// The decoder a filename's suffix selects, if any.
pub open spec fn spec_classify(name: Seq<char>) -> Option<ArchiveFormat> {
    if has_suffix(name, ".tar.gz"@) || has_suffix(name, ".tgz"@) {
        Some(ArchiveFormat::TarGz)
    } else if has_suffix(name, ".tar.xz"@) {
        Some(ArchiveFormat::TarXz)
    } else if has_suffix(name, ".zip"@) {
        Some(ArchiveFormat::Zip)
    } else {
        None
    }
}

/// Pick the decoder for an archive by its filename suffix; any other suffix
/// is `UnsupportedArchiveFormat`, and nothing is extracted for it.
pub fn classify_archive(filename: &str) -> (r: Result<ArchiveFormat, LeafError>)
    ensures
        match r {
            Ok(f) => spec_classify(filename@) == Some(f),
            Err(e) => spec_classify(filename@) is None && (e matches
                LeafError::UnsupportedArchiveFormat(n) && n@ == filename@),
        },
{
    if ends_with(filename, ".tar.gz") || ends_with(filename, ".tgz") {
        Ok(ArchiveFormat::TarGz)
    } else if ends_with(filename, ".tar.xz") {
        Ok(ArchiveFormat::TarXz)
    } else if ends_with(filename, ".zip") {
        Ok(ArchiveFormat::Zip)
    } else {
        Err(LeafError::UnsupportedArchiveFormat(filename.to_owned()))
    }
}

} // verus!
