//! The manifest data model: packages, their platform variants, and the
//! polymorphic executables field, normalized once into a canonical list of
//! `(path, optional alias)` pairs that everything downstream works from.

use vstd::prelude::*;
use crate::strmap::StrMap;

verus! {

/// One entry of the canonical executable list: a path relative to the
/// package's install directory, and an optional alias for the bin directory.
#[derive(Debug)]
pub struct ExecutableInfo {
    pub path: String,
    pub name: Option<String>,
}

/// The character-level content of an `ExecutableInfo`.
pub struct ExecInfoView {
    pub path: Seq<char>,
    pub name: Option<Seq<char>>,
}

impl View for ExecutableInfo {
    type V = ExecInfoView;

    open spec fn view(&self) -> ExecInfoView {
        ExecInfoView {
            path: self.path@,
            name: match self.name {
                Some(n) => Some(n@),
                None => None,
            },
        }
    }
}

/// One item of an executables list as the manifest wrote it: a plain path,
/// an object with `path` and optional `name` (each `None` when absent or not
/// text), or something else entirely.
#[derive(Debug)]
pub enum ExecutablesItem {
    Path(String),
    Entry { path: Option<String>, name: Option<String> },
    Other,
}

/// The executables field as the manifest wrote it: absent, a single path,
/// a list of items, or some other shape (which yields no executables).
#[derive(Debug)]
pub enum ExecutablesValue {
    Absent,
    Text(String),
    Items(Vec<ExecutablesItem>),
    OtherShape,
}

/// What one list item contributes to the canonical list: items without a
/// usable path are dropped.
pub open spec fn item_view(it: ExecutablesItem) -> Option<ExecInfoView> {
    match it {
        ExecutablesItem::Path(p) => Some(ExecInfoView { path: p@, name: None }),
        ExecutablesItem::Entry { path, name } => match path {
            Some(p) => Some(
                ExecInfoView {
                    path: p@,
                    name: match name {
                        Some(n) => Some(n@),
                        None => None,
                    },
                },
            ),
            None => None,
        },
        ExecutablesItem::Other => None,
    }
}

/// The canonical list contributed by the items from index `i` on.
pub open spec fn normalize_from(items: Seq<ExecutablesItem>, i: int) -> Seq<ExecInfoView>
    decreases items.len() - i,
{
    if i < 0 || i >= items.len() {
        Seq::empty()
    } else {
        (match item_view(items[i]) {
            Some(v) => seq![v],
            None => Seq::empty(),
        }) + normalize_from(items, i + 1)
    }
}

/// The canonical executable list of a variant's executables field.
pub open spec fn spec_executables(v: ExecutablesValue) -> Seq<ExecInfoView> {
    match v {
        ExecutablesValue::Absent => Seq::empty(),
        ExecutablesValue::Text(p) => seq![ExecInfoView { path: p@, name: None }],
        ExecutablesValue::Items(items) => normalize_from(items@, 0),
        ExecutablesValue::OtherShape => Seq::empty(),
    }
}

/// The views of a list of canonical entries.
pub open spec fn infos_view(s: Seq<ExecutableInfo>) -> Seq<ExecInfoView> {
    s.map_values(|e: ExecutableInfo| e@)
}

/// A platform-specific variant of a package: where its artifact lives, what
/// kind of package it is, which executables it exposes, and (for source
/// packages) the shell steps that build it.
pub struct PlatformDetails {
    pub url: String,
    pub package_type: Option<String>,
    pub executables: ExecutablesValue,
    pub build_commands: Option<Vec<String>>,
}

/// A package of the manifest: descriptive text plus a map from platform key
/// to variant.
pub struct Package {
    pub description: String,
    pub version: String,
    pub tags: Option<Vec<String>>,
    pub platforms: StrMap<PlatformDetails>,
}

impl Package {
    /// The platform map carries distinct keys.
    pub open spec fn wf(self) -> bool {
        self.platforms.wf()
    }
}

impl PlatformDetails {
    /// The canonical executable list: a single path stands alone, a list is
    /// normalized item by item, anything else yields nothing.
    pub fn get_executables(&self) -> (r: Vec<ExecutableInfo>)
        ensures
            infos_view(r@) == spec_executables(self.executables),
    {
        match &self.executables {
            ExecutablesValue::Absent => {
                let r = Vec::new();
                proof {
                    assert(infos_view(r@) =~= spec_executables(self.executables));
                }
                r
            },
            ExecutablesValue::OtherShape => {
                let r = Vec::new();
                proof {
                    assert(infos_view(r@) =~= spec_executables(self.executables));
                }
                r
            },
            ExecutablesValue::Text(p) => {
                let mut r: Vec<ExecutableInfo> = Vec::new();
                r.push(ExecutableInfo { path: p.clone(), name: None });
                proof {
                    assert(infos_view(r@) =~= spec_executables(self.executables));
                }
                r
            },
            ExecutablesValue::Items(items) => {
                let n = items.len();
                let mut r: Vec<ExecutableInfo> = Vec::new();
                let mut i: usize = 0;
                proof {
                    assert(infos_view(r@) + normalize_from(items@, 0) =~= normalize_from(
                        items@,
                        0,
                    ));
                }
                while i < n
                    invariant
                        n == items@.len(),
                        i <= n,
                        normalize_from(items@, 0) == infos_view(r@) + normalize_from(
                            items@,
                            i as int,
                        ),
                    decreases n - i,
                {
                    let ghost r_before = r@;
                    let ghost tail = normalize_from(items@, i + 1);
                    match &items[i] {
                        ExecutablesItem::Path(p) => {
                            r.push(ExecutableInfo { path: p.clone(), name: None });
                            proof {
                                assert(infos_view(r@) =~= infos_view(r_before).push(
                                    ExecInfoView { path: p@, name: None },
                                ));
                                assert(infos_view(r_before) + (seq![
                                    ExecInfoView { path: p@, name: None },
                                ] + tail) =~= infos_view(r@) + tail);
                            }
                        },
                        ExecutablesItem::Entry { path, name } => {
                            match path {
                                Some(p) => {
                                    let alias = match name {
                                        Some(n) => Some(n.clone()),
                                        None => None,
                                    };
                                    r.push(ExecutableInfo { path: p.clone(), name: alias });
                                    proof {
                                        let v = item_view(items@[i as int]).unwrap();
                                        assert(infos_view(r@) =~= infos_view(r_before).push(v));
                                        assert(infos_view(r_before) + (seq![v] + tail)
                                            =~= infos_view(r@) + tail);
                                    }
                                },
                                None => {
                                    proof {
                                        assert(infos_view(r_before) + (Seq::empty() + tail)
                                            =~= infos_view(r@) + tail);
                                    }
                                },
                            }
                        },
                        ExecutablesItem::Other => {
                            proof {
                                assert(infos_view(r_before) + (Seq::empty() + tail) =~= infos_view(
                                    r@,
                                ) + tail);
                            }
                        },
                    }
                    i += 1;
                }
                proof {
                    assert(normalize_from(items@, n as int) =~= Seq::<ExecInfoView>::empty());
                    assert(infos_view(r@) + Seq::<ExecInfoView>::empty() =~= infos_view(r@));
                }
                r
            },
        }
    }

    /// The variant's build steps, in order; empty when none are declared.
    pub fn get_build_commands(&self) -> (r: Vec<String>)
        ensures
            match self.build_commands {
                Some(v) => r@ == v@,
                None => r@.len() == 0,
            },
    {
        match &self.build_commands {
            Some(v) => {
                let n = v.len();
                let mut r: Vec<String> = Vec::new();
                let mut i: usize = 0;
                while i < n
                    invariant
                        n == v@.len(),
                        i <= n,
                        r@ == v@.subrange(0, i as int),
                    decreases n - i,
                {
                    r.push(v[i].clone());
                    proof {
                        assert(r@ =~= v@.subrange(0, i + 1));
                    }
                    i += 1;
                }
                proof {
                    assert(v@.subrange(0, n as int) =~= v@);
                }
                r
            },
            None => Vec::new(),
        }
    }
}

} // verus!
