//! Format dispatch: each recognized suffix selects its decoder; anything
//! else is refused before extraction.

use leaf::archive::{classify_archive, ArchiveFormat};
use leaf::error::LeafError;

#[test]
fn tar_gz_dispatches_to_gzip_tar() {
    assert_eq!(classify_archive("tool-1.2.tar.gz").unwrap(), ArchiveFormat::TarGz);
}

#[test]
fn tgz_dispatches_to_gzip_tar() {
    assert_eq!(classify_archive("tool.tgz").unwrap(), ArchiveFormat::TarGz);
}

#[test]
fn tar_xz_dispatches_to_xz_tar() {
    assert_eq!(classify_archive("tool.tar.xz").unwrap(), ArchiveFormat::TarXz);
}

#[test]
fn zip_dispatches_to_zip() {
    assert_eq!(classify_archive("tool.zip").unwrap(), ArchiveFormat::Zip);
}

#[test]
fn other_suffixes_are_unsupported() {
    let err = classify_archive("tool.tar.bz2").unwrap_err();
    assert_eq!(err, LeafError::UnsupportedArchiveFormat("tool.tar.bz2".to_string()));
    assert!(!err.is_warning());
}

#[test]
fn suffix_must_be_a_proper_suffix() {
    // "tar.gz" alone does not end with ".tar.gz".
    assert!(classify_archive("tar.gz").is_err());
    assert!(classify_archive("").is_err());
}
