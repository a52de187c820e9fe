//! The directory layout every component is handed explicitly: where packages
//! are materialized, where downloads are cached, and where executables are
//! exposed. The paths are fixed functions of the home directory.

use vstd::prelude::*;
use crate::text::path_join;

verus! {

pub struct Config {
    pub version: String,
    pub install_dir: String,
    pub bin_dir: String,
    pub packages_dir: String,
    pub cache_dir: String,
}

impl Config {
    /// The layout rooted under a home directory: everything lives under
    /// `.local/leaf`, except the shared bin directory `.local/bin`.
    pub fn under_home(home: &str) -> (r: Config)
        ensures
            r.install_dir@ == home@ + "/"@ + ".local"@ + "/"@ + "leaf"@,
            r.bin_dir@ == home@ + "/"@ + ".local"@ + "/"@ + "bin"@,
            r.packages_dir@ == r.install_dir@ + "/"@ + "packages"@,
            r.cache_dir@ == r.install_dir@ + "/"@ + "cache"@,
            r.version@ == "1.0.0"@,
    {
        let local = path_join(home, ".local");
        let install_dir = path_join(local.as_str(), "leaf");
        let bin_dir = path_join(local.as_str(), "bin");
        let packages_dir = path_join(install_dir.as_str(), "packages");
        let cache_dir = path_join(install_dir.as_str(), "cache");
        Config { version: "1.0.0".to_owned(), install_dir, bin_dir, packages_dir, cache_dir }
    }

    /// Where the resolved paths are persisted.
    pub fn config_file(&self) -> (r: String)
        ensures
            r@ == self.install_dir@ + "/"@ + "config.json"@,
    {
        path_join(self.install_dir.as_str(), "config.json")
    }

    /// Where the last-fetched manifest copy is kept.
    pub fn packages_file(&self) -> (r: String)
        ensures
            r@ == self.install_dir@ + "/"@ + "packages.json"@,
    {
        path_join(self.install_dir.as_str(), "packages.json")
    }

    /// The install directory of one package.
    pub fn package_dir(&self, name: &str) -> (r: String)
        ensures
            r@ == self.packages_dir@ + "/"@ + name@,
    {
        path_join(self.packages_dir.as_str(), name)
    }
}

/// Where a package directory keeps its installed record; the record's
/// presence, not the directory's, is what makes the package installed.
pub fn record_path(package_dir: &str) -> (r: String)
    ensures
        r@ == package_dir@ + "/"@ + "leaf-package.json"@,
{
    path_join(package_dir, "leaf-package.json")
}

} // verus!
