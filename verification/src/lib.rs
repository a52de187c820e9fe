//! A sudo-free package manager core: resolving platform variants from a
//! manifest, deriving and caching download filenames, dispatching archive
//! extraction by suffix, sequencing source builds, linking executables under
//! aliases, and keeping the installed-state records that decide what is
//! installed.
//!
//! Everything here is pure logic over plain values; the surrounding binary
//! performs the network, filesystem and subprocess work and feeds the results
//! back in.

pub mod archive;
pub mod builder;
pub mod config;
pub mod error;
pub mod filename;
pub mod manager;
pub mod package;
pub mod refresh;
pub mod state;
pub mod strmap;
pub mod text;
