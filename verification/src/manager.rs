//! The package manager's decisions: resolving a platform variant, planning
//! an install or a removal, recording installed state, and filtering the
//! manifest for listing and searching. Everything here is pure; the caller
//! carries the plans out on disk and over the network.

use vstd::prelude::*;
use crate::config::{record_path, Config};
use crate::error::LeafError;
use crate::package::{
    infos_view, spec_executables, ExecInfoView, ExecutableInfo, Package, PlatformDetails,
};
use crate::strmap::StrMap;
use crate::text::{
    after_last_char, contains_seq, contains_sub, lower_of, lowercase, path_join, split_last,
    str_eq, strip_suffix_rec, trim_end_matches_str,
};

verus! {

/// The platform keys variant resolution recognizes.
pub open spec fn recognized_platform(p: Seq<char>) -> bool {
    p == "linux-x86_64"@ || p == "macos-x86_64"@ || p == "macos-aarch64"@ || p
        == "windows-x86_64"@
}

/// Whether the running platform is one of the recognized keys.
pub fn platform_is_recognized(p: &str) -> (r: bool)
    ensures
        r == recognized_platform(p@),
{
    str_eq(p, "linux-x86_64") || str_eq(p, "macos-x86_64") || str_eq(p, "macos-aarch64") || str_eq(
        p,
        "windows-x86_64",
    )
}

/// The view of an optional string.
pub open spec fn opt_str_view(o: Option<String>) -> Option<Seq<char>> {
    match o {
        Some(s) => Some(s@),
        None => None,
    }
}

/// Every package value of the map has a well-formed platform map.
pub open spec fn values_wf(m: StrMap<Package>) -> bool {
    forall|k: Seq<char>| #[trigger] m@.contains_key(k) ==> m@[k].wf()
}

/// The alias an executable is exposed under in the bin directory: its
/// declared name, or the final segment of its path.
pub open spec fn spec_alias(e: ExecInfoView) -> Seq<char> {
    match e.name {
        Some(n) => n,
        None => after_last_char(e.path, '/'),
    }
}

/// The aliases of a canonical executable list, in order.
pub open spec fn spec_alias_seq(execs: Seq<ExecInfoView>) -> Seq<Seq<char>> {
    execs.map_values(|e: ExecInfoView| spec_alias(e))
}

/// One intended bin entry: a link (or copy) at `link_path` resolving to
/// `target` inside the package directory, exposed under `alias`.
#[derive(Debug)]
pub struct LinkAction {
    pub target: String,
    pub alias: String,
    pub link_path: String,
}

/// The intended bin entries for a package's canonical executables, in
/// order. An entry whose target is missing on disk is skipped with a
/// warning; an existing entry at the alias is removed first, so running the
/// step twice produces the same end state.
pub fn link_actions(package_dir: &str, bin_dir: &str, execs: &Vec<ExecutableInfo>) -> (r: Vec<
    LinkAction,
>)
    ensures
        r@.len() == execs@.len(),
        forall|i: int|
            0 <= i < r@.len() ==> {
                &&& (#[trigger] r@[i]).target@ == package_dir@ + "/"@ + execs@[i]@.path
                &&& r@[i].alias@ == spec_alias(execs@[i]@)
                &&& r@[i].link_path@ == bin_dir@ + "/"@ + spec_alias(execs@[i]@)
            },
{
    let n = execs.len();
    let mut r: Vec<LinkAction> = Vec::new();
    let mut i: usize = 0;
    while i < n
        invariant
            n == execs@.len(),
            i <= n,
            r@.len() == i,
            forall|j: int|
                0 <= j < i ==> {
                    &&& (#[trigger] r@[j]).target@ == package_dir@ + "/"@ + execs@[j]@.path
                    &&& r@[j].alias@ == spec_alias(execs@[j]@)
                    &&& r@[j].link_path@ == bin_dir@ + "/"@ + spec_alias(execs@[j]@)
                },
        decreases n - i,
    {
        let target = path_join(package_dir, execs[i].path.as_str());
        let alias: String = match &execs[i].name {
            Some(n2) => n2.clone(),
            None => split_last(execs[i].path.as_str(), '/').to_owned(),
        };
        let link_path = path_join(bin_dir, alias.as_str());
        r.push(LinkAction { target, alias, link_path });
        i += 1;
    }
    r
}

/// The three ways an artifact is materialized.
#[derive(PartialEq, Eq, Structural, Debug, Clone, Copy)]
pub enum MaterializeKind {
    /// The artifact is an archive, extracted into the package directory.
    Archive,
    /// The artifact is the executable itself, copied into place.
    Binary,
    /// The artifact is a source archive, built and then copied.
    Build,
}

/// The kind a variant's `type` field declares; absent means archive.
pub open spec fn spec_kind(t: Option<Seq<char>>) -> Option<MaterializeKind> {
    match t {
        None => Some(MaterializeKind::Archive),
        Some(s) => if s == "archive"@ {
            Some(MaterializeKind::Archive)
        } else if s == "binary"@ {
            Some(MaterializeKind::Binary)
        } else if s == "build"@ {
            Some(MaterializeKind::Build)
        } else {
            None
        },
    }
}

/// Everything an install needs, resolved up front from the manifest: where
/// the artifact comes from, where it is cached and materialized, and which
/// bin entries it gets. The steps run strictly in order: fetch, materialize,
/// link, record.
#[derive(Debug)]
pub struct InstallPlan {
    pub name: String,
    pub url: String,
    pub package_dir: String,
    pub cache_dir: String,
    pub package_type: Option<String>,
    pub executables: Vec<ExecutableInfo>,
    pub build_commands: Vec<String>,
    pub links: Vec<LinkAction>,
}

impl InstallPlan {
    /// The package kind the variant declares; any other declaration is
    /// refused once the caller asks, with nothing materialized for it.
    pub fn resolve_kind(&self) -> (r: Result<MaterializeKind, LeafError>)
        ensures
            match r {
                Ok(k) => spec_kind(opt_str_view(self.package_type)) == Some(k),
                Err(e) => spec_kind(opt_str_view(self.package_type)) is None && (e matches
                    LeafError::UnsupportedPackageType(t) && opt_str_view(self.package_type)
                    == Some(t@)),
            },
    {
        match &self.package_type {
            None => Ok(MaterializeKind::Archive),
            Some(t) => {
                if str_eq(t.as_str(), "archive") {
                    Ok(MaterializeKind::Archive)
                } else if str_eq(t.as_str(), "binary") {
                    Ok(MaterializeKind::Binary)
                } else if str_eq(t.as_str(), "build") {
                    Ok(MaterializeKind::Build)
                } else {
                    Err(LeafError::UnsupportedPackageType(t.clone()))
                }
            },
        }
    }

    /// Where a binary-kind artifact is copied: the first declared
    /// executable's path under the package directory; a binary variant that
    /// declares none is refused.
    pub fn binary_dest(&self) -> (r: Result<String, LeafError>)
        ensures
            match r {
                Ok(d) => self.executables@.len() > 0 && d@ == self.package_dir@ + "/"@
                    + self.executables@[0]@.path,
                Err(e) => self.executables@.len() == 0 && (e matches LeafError::NoExecutables(n)
                    && n@ == self.name@),
            },
    {
        if self.executables.len() == 0 {
            return Err(LeafError::NoExecutables(self.name.clone()));
        }
        Ok(path_join(self.package_dir.as_str(), self.executables[0].path.as_str()))
    }
}

/// One step of a removal, to be carried out in the order handed out: the
/// record first, so an interruption leaves the package classified as not
/// installed; then the bin entries; the package directory last.
#[derive(Debug, PartialEq, Eq)]
pub enum RemoveAction {
    DeleteRecord(String),
    RemoveBinEntry(String),
    DeletePackageDir(String),
}

/// The bin aliases a removal clears: those of the package's variant for the
/// resolved platform; none when the platform does not resolve.
pub open spec fn spec_remove_aliases(pkg: Package, platform: Seq<char>) -> Seq<Seq<char>> {
    if recognized_platform(platform) && pkg.platforms@.contains_key(platform) {
        spec_alias_seq(spec_executables(pkg.platforms@[platform].executables))
    } else {
        Seq::empty()
    }
}

/// One line of `list`: an installed package with its description and
/// version.
#[derive(Debug)]
pub struct ListEntry {
    pub name: String,
    pub description: String,
    pub version: String,
}

/// One search hit: the matching package and whether it is installed.
#[derive(Debug)]
pub struct SearchResult {
    pub name: String,
    pub description: String,
    pub version: String,
    pub tags: Vec<String>,
    pub installed: bool,
}

/// Whether a search for `term` surfaces the package: it must have a variant
/// for the resolved platform, and the term must occur (case-folded) in its
/// name, its description, or one of its tags.
pub open spec fn search_hit(
    name: Seq<char>,
    pkg: Package,
    platform: Seq<char>,
    term: Seq<char>,
) -> bool {
    &&& pkg.platforms@.contains_key(platform)
    &&& (contains_seq(lower_of(name), lower_of(term)) || contains_seq(
        lower_of(pkg.description@),
        lower_of(term),
    ) || (match pkg.tags {
        Some(tags) => exists|j: int|
            0 <= j < tags@.len() && contains_seq(lower_of((#[trigger] tags@[j])@), lower_of(term)),
        None => false,
    }))
}

/// The manifest entries from index `i` on that a search for `term`
/// surfaces, in manifest order.
pub open spec fn spec_search_from(
    pairs: Seq<(String, Package)>,
    platform: Seq<char>,
    term: Seq<char>,
    i: int,
) -> Seq<(String, Package)>
    decreases pairs.len() - i,
{
    if i < 0 || i >= pairs.len() {
        Seq::empty()
    } else {
        (if search_hit(pairs[i].0@, pairs[i].1, platform, term) {
            seq![pairs[i]]
        } else {
            Seq::empty()
        }) + spec_search_from(pairs, platform, term, i + 1)
    }
}

/// Platform filtering: every package a search surfaces has a variant for
/// the resolved platform key.
pub proof fn lemma_search_platform_filtered(
    pairs: Seq<(String, Package)>,
    platform: Seq<char>,
    term: Seq<char>,
    i: int,
)
    ensures
        forall|j: int|
            0 <= j < spec_search_from(pairs, platform, term, i).len() ==> (#[trigger] spec_search_from(
                pairs,
                platform,
                term,
                i,
            )[j]).1.platforms@.contains_key(platform),
    decreases pairs.len() - i,
{
    if i < 0 || i >= pairs.len() {
    } else {
        lemma_search_platform_filtered(pairs, platform, term, i + 1);
    }
}

/// The installed entries from index `i` on that a listing surfaces: those
/// with a variant for the resolved platform, in record order.
pub open spec fn spec_list_from(
    pairs: Seq<(String, Package)>,
    platform: Seq<char>,
    i: int,
) -> Seq<(String, Package)>
    decreases pairs.len() - i,
{
    if i < 0 || i >= pairs.len() {
        Seq::empty()
    } else {
        (if pairs[i].1.platforms@.contains_key(platform) {
            seq![pairs[i]]
        } else {
            Seq::empty()
        }) + spec_list_from(pairs, platform, i + 1)
    }
}

/// Platform filtering: every package a listing surfaces has a variant for
/// the resolved platform key.
pub proof fn lemma_list_platform_filtered(
    pairs: Seq<(String, Package)>,
    platform: Seq<char>,
    i: int,
)
    ensures
        forall|j: int|
            0 <= j < spec_list_from(pairs, platform, i).len() ==> (#[trigger] spec_list_from(
                pairs,
                platform,
                i,
            )[j]).1.platforms@.contains_key(platform),
    decreases pairs.len() - i,
{
    if i < 0 || i >= pairs.len() {
    } else {
        lemma_list_platform_filtered(pairs, platform, i + 1);
    }
}

/// One search hit as handed to the caller, compared with the manifest entry
/// it came from.
pub open spec fn result_matches(rr: SearchResult, pair: (String, Package), inst: bool) -> bool {
    &&& rr.name@ == pair.0@
    &&& rr.description@ == pair.1.description@
    &&& rr.version@ == pair.1.version@
    &&& (match pair.1.tags {
        Some(t) => rr.tags@ == t@,
        None => rr.tags@.len() == 0,
    })
    &&& rr.installed == inst
}

/// The manager's in-memory state: the resolved directory layout, the
/// available manifest, the installed records, and the resolved platform key.
pub struct PackageManager {
    pub config: Config,
    pub packages: StrMap<Package>,
    pub installed: StrMap<Package>,
    pub platform: String,
}

impl PackageManager {
    pub open spec fn wf(self) -> bool {
        &&& self.packages.wf()
        &&& self.installed.wf()
        &&& values_wf(self.packages)
        &&& values_wf(self.installed)
    }

    /// A manager over an already-loaded manifest and installed set.
    pub fn new(
        config: Config,
        packages: StrMap<Package>,
        installed: StrMap<Package>,
        platform: String,
    ) -> (r: PackageManager)
        requires
            packages.wf(),
            installed.wf(),
            values_wf(packages),
            values_wf(installed),
        ensures
            r.wf(),
            r.config == config,
            r.packages == packages,
            r.installed == installed,
            r.platform == platform,
    {
        PackageManager { config, packages, installed, platform }
    }

    /// Replace the available manifest (after a refresh).
    pub fn set_packages(&mut self, packages: StrMap<Package>)
        requires
            old(self).wf(),
            packages.wf(),
            values_wf(packages),
        ensures
            final(self).wf(),
            final(self).packages == packages,
            final(self).installed == old(self).installed,
            final(self).config == old(self).config,
            final(self).platform == old(self).platform,
    {
        self.packages = packages;
    }

    /// The variant of `pkg` for the resolved platform: the platform must be
    /// a recognized key and the package must carry an entry for it.
    pub fn get_platform_details<'a>(&self, pkg: &'a Package) -> (r: Result<
        &'a PlatformDetails,
        LeafError,
    >)
        requires
            pkg.wf(),
        ensures
            match r {
                Ok(d) => recognized_platform(self.platform@) && pkg.platforms@.contains_key(
                    self.platform@,
                ) && *d == pkg.platforms@[self.platform@],
                Err(e) => match e {
                    LeafError::PlatformUnsupported(p) => !recognized_platform(self.platform@)
                        && p@ == self.platform@,
                    LeafError::VariantUnavailable(p) => recognized_platform(self.platform@)
                        && !pkg.platforms@.contains_key(self.platform@) && p@ == self.platform@,
                    _ => false,
                },
            },
    {
        if !platform_is_recognized(self.platform.as_str()) {
            return Err(LeafError::PlatformUnsupported(self.platform.clone()));
        }
        match pkg.platforms.get(self.platform.as_str()) {
            Some(d) => Ok(d),
            None => Err(LeafError::VariantUnavailable(self.platform.clone())),
        }
    }

    /// Plan an install. Installing an already-installed package is the
    /// already-installed warning — a successful exit — and hands the caller
    /// no plan, so no filesystem mutation follows. Otherwise the package
    /// must exist in the manifest and carry a variant for the platform, and
    /// the plan fixes the fetch, materialization and link steps.
    pub fn install_package(&self, name: &str) -> (r: Result<InstallPlan, LeafError>)
        requires
            self.wf(),
        ensures
            self.installed@.contains_key(name@) ==> (r matches Err(e) && e.spec_is_warning()),
            match r {
                Err(e) => match e {
                    LeafError::AlreadyInstalled(n) => self.installed@.contains_key(name@) && n@
                        == name@,
                    LeafError::PackageNotFound(n) => !self.installed@.contains_key(name@)
                        && !self.packages@.contains_key(name@) && n@ == name@,
                    LeafError::PlatformUnsupported(p) => !self.installed@.contains_key(name@)
                        && self.packages@.contains_key(name@) && !recognized_platform(
                        self.platform@,
                    ) && p@ == self.platform@,
                    LeafError::VariantUnavailable(p) => !self.installed@.contains_key(name@)
                        && self.packages@.contains_key(name@) && recognized_platform(
                        self.platform@,
                    ) && !self.packages@[name@].platforms@.contains_key(self.platform@) && p@
                        == self.platform@,
                    _ => false,
                },
                Ok(plan) => ({
                    let pkg = self.packages@[name@];
                    let d = pkg.platforms@[self.platform@];
                    &&& !self.installed@.contains_key(name@)
                    &&& self.packages@.contains_key(name@)
                    &&& recognized_platform(self.platform@)
                    &&& pkg.platforms@.contains_key(self.platform@)
                    &&& plan.name@ == name@
                    &&& plan.url@ == d.url@
                    &&& plan.package_dir@ == self.config.packages_dir@ + "/"@ + name@
                    &&& plan.cache_dir@ == self.config.cache_dir@
                    &&& opt_str_view(plan.package_type) == opt_str_view(d.package_type)
                    &&& infos_view(plan.executables@) == spec_executables(d.executables)
                    &&& (match d.build_commands {
                        Some(v) => plan.build_commands@ == v@,
                        None => plan.build_commands@.len() == 0,
                    })
                    &&& plan.links@.len() == plan.executables@.len()
                    &&& forall|i: int|
                        0 <= i < plan.links@.len() ==> {
                            &&& (#[trigger] plan.links@[i]).target@ == plan.package_dir@ + "/"@
                                + plan.executables@[i]@.path
                            &&& plan.links@[i].alias@ == spec_alias(plan.executables@[i]@)
                            &&& plan.links@[i].link_path@ == self.config.bin_dir@ + "/"@
                                + spec_alias(plan.executables@[i]@)
                        }
                }),
            },
    {
        if self.installed.contains_key(name) {
            return Err(LeafError::AlreadyInstalled(name.to_owned()));
        }
        let pkg = match self.packages.get(name) {
            Some(p) => p,
            None => {
                return Err(LeafError::PackageNotFound(name.to_owned()));
            },
        };
        proof {
            lemma_value_wf(self.packages, name@);
        }
        let details = match self.get_platform_details(pkg) {
            Ok(d) => d,
            Err(e) => {
                return Err(e);
            },
        };
        let package_dir = self.config.package_dir(name);
        let executables = details.get_executables();
        let links = link_actions(package_dir.as_str(), self.config.bin_dir.as_str(), &executables);
        let package_type: Option<String> = match &details.package_type {
            Some(t) => Some(t.clone()),
            None => None,
        };
        Ok(
            InstallPlan {
                name: name.to_owned(),
                url: details.url.clone(),
                package_dir,
                cache_dir: self.config.cache_dir.clone(),
                package_type,
                executables,
                build_commands: details.get_build_commands(),
                links,
            },
        )
    }

    /// Record a completed install: written only after fetching,
    /// materializing and linking all succeeded, so "installed" means "fully
    /// linked".
    pub fn record_installed(&mut self, name: String, package: Package)
        requires
            old(self).wf(),
            package.wf(),
        ensures
            final(self).wf(),
            final(self).installed@ == old(self).installed@.insert(name@, package),
            final(self).packages == old(self).packages,
            final(self).config == old(self).config,
            final(self).platform == old(self).platform,
    {
        self.installed.insert(name, package);
        proof {
            assert forall|k: Seq<char>| #[trigger]
                self.installed@.contains_key(k) implies self.installed@[k].wf() by {
                if k != name@ {
                    assert(old(self).installed@.contains_key(k));
                }
            }
        }
    }

    /// Plan a removal: the ordered steps for an installed package, its
    /// record deleted first so an interruption leaves it classified as not
    /// installed, then its bin entries, the package directory last.
    /// Removing a package with no installed record is the not-installed
    /// warning — a successful exit with nothing changed on disk.
    pub fn remove_package(&self, name: &str) -> (r: Result<Vec<RemoveAction>, LeafError>)
        requires
            self.wf(),
        ensures
            match r {
                Err(e) => !self.installed@.contains_key(name@) && (e matches
                    LeafError::NotInstalled(n) && n@ == name@) && e.spec_is_warning(),
                Ok(actions) => ({
                    let pkg = self.installed@[name@];
                    let aliases = spec_remove_aliases(pkg, self.platform@);
                    let pd = self.config.packages_dir@ + "/"@ + name@;
                    &&& self.installed@.contains_key(name@)
                    &&& actions@.len() == aliases.len() + 2
                    &&& (actions@[0] matches RemoveAction::DeleteRecord(p) && p@ == pd + "/"@
                        + "leaf-package.json"@)
                    &&& forall|i: int|
                        1 <= i < actions@.len() - 1 ==> (#[trigger] actions@[i] matches
                            RemoveAction::RemoveBinEntry(b) && b@ == self.config.bin_dir@ + "/"@
                            + aliases[i - 1])
                    &&& (actions@[actions@.len() - 1] matches RemoveAction::DeletePackageDir(p)
                        && p@ == pd)
                }),
            },
    {
        let pkg = match self.installed.get(name) {
            Some(p) => p,
            None => {
                return Err(LeafError::NotInstalled(name.to_owned()));
            },
        };
        proof {
            lemma_value_wf(self.installed, name@);
        }
        let package_dir = self.config.package_dir(name);
        let mut actions: Vec<RemoveAction> = Vec::new();
        actions.push(RemoveAction::DeleteRecord(record_path(package_dir.as_str())));
        let ghost aliases = spec_remove_aliases(self.installed@[name@], self.platform@);
        match self.get_platform_details(pkg) {
            Ok(details) => {
                let execs = details.get_executables();
                proof {
                    assert(aliases =~= spec_alias_seq(infos_view(execs@)));
                }
                let n = execs.len();
                let mut i: usize = 0;
                while i < n
                    invariant
                        n == execs@.len(),
                        i <= n,
                        aliases == spec_alias_seq(infos_view(execs@)),
                        aliases.len() == n,
                        actions@.len() == i + 1,
                        actions@[0] matches RemoveAction::DeleteRecord(p) && p@
                            == self.config.packages_dir@ + "/"@ + name@ + "/"@
                            + "leaf-package.json"@,
                        forall|j: int|
                            1 <= j < actions@.len() ==> (#[trigger] actions@[j] matches
                                RemoveAction::RemoveBinEntry(b) && b@ == self.config.bin_dir@
                                + "/"@ + aliases[j - 1]),
                    decreases n - i,
                {
                    let alias: String = match &execs[i].name {
                        Some(n2) => n2.clone(),
                        None => split_last(execs[i].path.as_str(), '/').to_owned(),
                    };
                    proof {
                        assert(aliases[i as int] == spec_alias(execs@[i as int]@));
                    }
                    actions.push(
                        RemoveAction::RemoveBinEntry(
                            path_join(self.config.bin_dir.as_str(), alias.as_str()),
                        ),
                    );
                    i += 1;
                }
            },
            Err(_) => {
                proof {
                    assert(aliases =~= Seq::<Seq<char>>::empty());
                }
            },
        }
        actions.push(RemoveAction::DeletePackageDir(package_dir));
        Ok(actions)
    }

    /// Forget a removed package's record.
    pub fn record_removed(&mut self, name: &str)
        requires
            old(self).wf(),
        ensures
            final(self).wf(),
            final(self).installed@ == old(self).installed@.remove(name@),
            final(self).packages == old(self).packages,
            final(self).config == old(self).config,
            final(self).platform == old(self).platform,
    {
        self.installed.remove(name);
        proof {
            assert forall|k: Seq<char>| #[trigger]
                self.installed@.contains_key(k) implies self.installed@[k].wf() by {
                assert(old(self).installed@.contains_key(k));
            }
        }
    }

    /// The installed packages a listing surfaces, in record order: only
    /// those whose platform map holds the resolved platform key, each with
    /// its description and version.
    pub fn list_packages(&self) -> (r: Vec<ListEntry>)
        requires
            self.wf(),
        ensures
            ({
                let hits = spec_list_from(self.installed.spec_pairs(), self.platform@, 0);
                &&& r@.len() == hits.len()
                &&& forall|j: int|
                    0 <= j < hits.len() ==> {
                        &&& (#[trigger] r@[j]).name@ == hits[j].0@
                        &&& r@[j].description@ == hits[j].1.description@
                        &&& r@[j].version@ == hits[j].1.version@
                    }
            }),
    {
        let entries = self.installed.entries();
        let n = entries.len();
        let ghost pairs = self.installed.spec_pairs();
        let ghost platform = self.platform@;
        let mut r: Vec<ListEntry> = Vec::new();
        let ghost mut taken: Seq<(String, Package)> = Seq::empty();
        let mut i: usize = 0;
        proof {
            assert(taken + spec_list_from(pairs, platform, 0) =~= spec_list_from(
                pairs,
                platform,
                0,
            ));
        }
        while i < n
            invariant
                self.wf(),
                n == pairs.len(),
                entries@ == pairs,
                pairs == self.installed.spec_pairs(),
                platform == self.platform@,
                i <= n,
                spec_list_from(pairs, platform, 0) == taken + spec_list_from(
                    pairs,
                    platform,
                    i as int,
                ),
                r@.len() == taken.len(),
                forall|j: int|
                    0 <= j < taken.len() ==> {
                        &&& (#[trigger] r@[j]).name@ == taken[j].0@
                        &&& r@[j].description@ == taken[j].1.description@
                        &&& r@[j].version@ == taken[j].1.version@
                    },
            decreases n - i,
        {
            let ghost taken_before = taken;
            let pkg = &entries[i].1;
            proof {
                self.installed.lemma_entry_in_view(i as int);
                assert(self.installed@.contains_key(pairs[i as int].0@));
                assert(pkg.wf());
            }
            if pkg.platforms.contains_key(self.platform.as_str()) {
                r.push(
                    ListEntry {
                        name: entries[i].0.clone(),
                        description: pkg.description.clone(),
                        version: pkg.version.clone(),
                    },
                );
                proof {
                    taken = taken_before.push(pairs[i as int]);
                    assert(taken_before + (seq![pairs[i as int]] + spec_list_from(
                        pairs,
                        platform,
                        i + 1,
                    )) =~= taken + spec_list_from(pairs, platform, i + 1));
                }
            } else {
                proof {
                    assert(taken_before + (Seq::<(String, Package)>::empty() + spec_list_from(
                        pairs,
                        platform,
                        i + 1,
                    )) =~= taken + spec_list_from(pairs, platform, i + 1));
                }
            }
            i += 1;
        }
        proof {
            assert(spec_list_from(pairs, platform, n as int) =~= Seq::<(String, Package)>::empty());
            assert(taken + Seq::<(String, Package)>::empty() =~= taken);
        }
        r
    }

    /// The manifest entries a search for `term` surfaces, in manifest
    /// order: packages with a variant for the resolved platform whose name,
    /// description or tags contain the term case-folded.
    pub fn search_packages(&self, term: &str) -> (r: Vec<SearchResult>)
        requires
            self.wf(),
        ensures
            ({
                let hits = spec_search_from(
                    self.packages.spec_pairs(),
                    self.platform@,
                    term@,
                    0,
                );
                &&& r@.len() == hits.len()
                &&& forall|j: int|
                    0 <= j < hits.len() ==> result_matches(
                        #[trigger] r@[j],
                        hits[j],
                        self.installed@.contains_key(hits[j].0@),
                    )
            }),
    {
        let term_lower = lowercase(term);
        let entries = self.packages.entries();
        let n = entries.len();
        let ghost pairs = self.packages.spec_pairs();
        let ghost platform = self.platform@;
        let mut r: Vec<SearchResult> = Vec::new();
        let ghost mut taken: Seq<(String, Package)> = Seq::empty();
        let mut i: usize = 0;
        proof {
            assert(taken + spec_search_from(pairs, platform, term@, 0) =~= spec_search_from(
                pairs,
                platform,
                term@,
                0,
            ));
        }
        while i < n
            invariant
                self.wf(),
                n == pairs.len(),
                entries@ == pairs,
                pairs == self.packages.spec_pairs(),
                platform == self.platform@,
                i <= n,
                term_lower@ == lower_of(term@),
                spec_search_from(pairs, platform, term@, 0) == taken + spec_search_from(
                    pairs,
                    platform,
                    term@,
                    i as int,
                ),
                r@.len() == taken.len(),
                forall|j: int|
                    0 <= j < taken.len() ==> result_matches(
                        #[trigger] r@[j],
                        taken[j],
                        self.installed@.contains_key(taken[j].0@),
                    ),
            decreases n - i,
        {
            let ghost taken_before = taken;
            let name = &entries[i].0;
            let pkg = &entries[i].1;
            proof {
                self.packages.lemma_entry_in_view(i as int);
                assert(self.packages@.contains_key(pairs[i as int].0@));
                assert(pkg.wf());
            }
            let hit: bool = if pkg.platforms.contains_key(self.platform.as_str()) {
                let name_low = lowercase(name.as_str());
                let desc_low = lowercase(pkg.description.as_str());
                if contains_sub(name_low.as_str(), term_lower.as_str()) || contains_sub(
                    desc_low.as_str(),
                    term_lower.as_str(),
                ) {
                    true
                } else {
                    match &pkg.tags {
                        Some(tags) => tags_match(tags, term_lower.as_str(), Ghost(term@)),
                        None => false,
                    }
                }
            } else {
                false
            };
            proof {
                assert(hit == search_hit(pairs[i as int].0@, pairs[i as int].1, platform, term@));
                assert(spec_search_from(pairs, platform, term@, i as int) == (if search_hit(
                    pairs[i as int].0@,
                    pairs[i as int].1,
                    platform,
                    term@,
                ) {
                    seq![pairs[i as int]]
                } else {
                    Seq::<(String, Package)>::empty()
                }) + spec_search_from(pairs, platform, term@, i + 1));
            }
            if hit {
                let installed = self.installed.contains_key(name.as_str());
                let tags: Vec<String> = match &pkg.tags {
                    Some(t) => clone_string_vec(t),
                    None => Vec::new(),
                };
                r.push(
                    SearchResult {
                        name: name.clone(),
                        description: pkg.description.clone(),
                        version: pkg.version.clone(),
                        tags,
                        installed,
                    },
                );
                proof {
                    taken = taken_before.push(pairs[i as int]);
                    assert(taken_before + (seq![pairs[i as int]] + spec_search_from(
                        pairs,
                        platform,
                        term@,
                        i + 1,
                    )) =~= taken + spec_search_from(pairs, platform, term@, i + 1));
                }
            } else {
                proof {
                    assert(taken_before + (Seq::<(String, Package)>::empty() + spec_search_from(
                        pairs,
                        platform,
                        term@,
                        i + 1,
                    )) =~= taken + spec_search_from(pairs, platform, term@, i + 1));
                }
            }
            i += 1;
        }
        proof {
            assert(spec_search_from(pairs, platform, term@, n as int) =~= Seq::<(
                String,
                Package,
            )>::empty());
            assert(taken + Seq::<(String, Package)>::empty() =~= taken);
        }
        r
    }

    /// Whether a bin-directory file carries the name of an installed
    /// package, once any `.exe` suffix is stripped.
    pub fn owns_bin_file(&self, file_name: &str) -> (r: bool)
        requires
            self.wf(),
        ensures
            r == self.installed@.contains_key(strip_suffix_rec(file_name@, ".exe"@)),
    {
        proof {
            reveal_strlit(".exe");
        }
        let base = trim_end_matches_str(file_name, ".exe");
        self.installed.contains_key(base)
    }
}

/// Install and removal agree on the bin directory: the aliases an install
/// plan's link actions bind are exactly the aliases the removal of the same
/// package clears, in the same order. Together with the disk model's round
/// trip, removing an installed package restores the bin directory.
pub proof fn lemma_install_remove_aliases_agree(
    links: Seq<LinkAction>,
    execs: Seq<ExecutableInfo>,
    pkg: Package,
    platform: Seq<char>,
)
    requires
        recognized_platform(platform),
        pkg.platforms@.contains_key(platform),
        infos_view(execs) == spec_executables(pkg.platforms@[platform].executables),
        links.len() == execs.len(),
        forall|i: int| 0 <= i < links.len() ==> (#[trigger] links[i]).alias@ == spec_alias(execs[i]@),
    ensures
        spec_remove_aliases(pkg, platform) == Seq::new(links.len(), |i: int| links[i].alias@),
{
    assert(spec_remove_aliases(pkg, platform) =~= Seq::new(
        links.len(),
        |i: int| links[i].alias@,
    ));
}

/// Under a well-formed map every looked-up package is well-formed.
pub proof fn lemma_value_wf(m: StrMap<Package>, k: Seq<char>)
    requires
        m.wf(),
        values_wf(m),
        m@.contains_key(k),
    ensures
        m@[k].wf(),
{
}

/// Whether any tag contains the case-folded term.
fn tags_match(tags: &Vec<String>, term_lower: &str, term: Ghost<Seq<char>>) -> (r: bool)
    requires
        term_lower@ == lower_of(term@),
    ensures
        r == exists|j: int|
            0 <= j < tags@.len() && contains_seq(lower_of((#[trigger] tags@[j])@), lower_of(term@)),
{
    let n = tags.len();
    let mut i: usize = 0;
    while i < n
        invariant
            n == tags@.len(),
            i <= n,
            term_lower@ == lower_of(term@),
            forall|j: int|
                0 <= j < i ==> !contains_seq(lower_of((#[trigger] tags@[j])@), lower_of(term@)),
        decreases n - i,
    {
        let tag_low = lowercase(tags[i].as_str());
        if contains_sub(tag_low.as_str(), term_lower) {
            return true;
        }
        i += 1;
    }
    false
}

/// A fresh vector holding the same strings.
pub fn clone_string_vec(v: &Vec<String>) -> (r: Vec<String>)
    ensures
        r@ == v@,
{
    let n = v.len();
    let mut r: Vec<String> = Vec::new();
    let mut i: usize = 0;
    while i < n
        invariant
            n == v@.len(),
            i <= n,
            r@ == v@.subrange(0, i as int),
        decreases n - i,
    {
        r.push(v[i].clone());
        proof {
            assert(r@ =~= v@.subrange(0, i + 1));
        }
        i += 1;
    }
    proof {
        assert(v@.subrange(0, n as int) =~= v@);
    }
    r
}

/// Whether a bin-directory symlink belongs to this manager: its target
/// points into the packages tree.
pub fn should_remove_bin_symlink(target: &str) -> (r: bool)
    ensures
        r == contains_seq(target@, "leaf/packages"@),
{
    contains_sub(target, "leaf/packages")
}

} // verus!
