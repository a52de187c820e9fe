//! A model of the disk state the manager owns: the bin directory as a map
//! from alias to target, and the package directory tree as a map from
//! package name to directory contents. Applying an install plan and then the
//! matching removal provably restores the initial state.

use vstd::prelude::*;
use crate::manager::LinkAction;
use crate::strmap::StrMap;

verus! {

/// One package directory: the files materialized into it and whether its
/// installed record is present. Only the record decides installed status.
#[derive(Debug)]
pub struct PackageDirModel {
    pub files: Vec<String>,
    pub has_record: bool,
}

/// The filesystem state install and remove touch.
pub struct DiskModel {
    pub bin: StrMap<String>,
    pub pkgs: StrMap<PackageDirModel>,
}

/// The bin map after binding the links from index `i` on, first to last;
/// a later binding replaces an earlier entry under the same alias.
pub open spec fn bin_after_links(
    bin: Map<Seq<char>, String>,
    links: Seq<LinkAction>,
    i: int,
) -> Map<Seq<char>, String>
    decreases links.len() - i,
{
    if i < 0 || i >= links.len() {
        bin
    } else {
        bin_after_links(bin.insert(links[i].alias@, links[i].target), links, i + 1)
    }
}

/// The bin map after clearing the aliases from index `i` on.
pub open spec fn bin_without_aliases(
    bin: Map<Seq<char>, String>,
    aliases: Seq<String>,
    i: int,
) -> Map<Seq<char>, String>
    decreases aliases.len() - i,
{
    if i < 0 || i >= aliases.len() {
        bin
    } else {
        bin_without_aliases(bin.remove(aliases[i]@), aliases, i + 1)
    }
}

impl DiskModel {
    pub open spec fn wf(self) -> bool {
        self.bin.wf() && self.pkgs.wf()
    }

    /// An empty bin directory and no package directories.
    pub fn empty() -> (r: DiskModel)
        ensures
            r.wf(),
            r.bin@ == Map::<Seq<char>, String>::empty(),
            r.pkgs@ == Map::<Seq<char>, PackageDirModel>::empty(),
    {
        DiskModel { bin: StrMap::new(), pkgs: StrMap::new() }
    }

    /// Install: materialize the package directory (record included) and bind
    /// each planned link, in order.
    pub fn apply_install(&mut self, name: &str, dir: PackageDirModel, links: &Vec<LinkAction>)
        requires
            old(self).wf(),
        ensures
            final(self).wf(),
            final(self).pkgs@ == old(self).pkgs@.insert(name@, dir),
            final(self).bin@ == bin_after_links(old(self).bin@, links@, 0),
    {
        self.pkgs.insert(name.to_owned(), dir);
        let ghost bin0 = self.bin@;
        let n = links.len();
        let mut i: usize = 0;
        while i < n
            invariant
                n == links@.len(),
                i <= n,
                self.bin.wf(),
                self.pkgs.wf(),
                self.pkgs@ == old(self).pkgs@.insert(name@, dir),
                bin_after_links(bin0, links@, 0) == bin_after_links(self.bin@, links@, i as int),
            decreases n - i,
        {
            let ghost bin_before = self.bin@;
            self.bin.insert(links[i].alias.clone(), links[i].target.clone());
            proof {
                assert(bin_after_links(bin_before, links@, i as int) == bin_after_links(
                    bin_before.insert(links@[i as int].alias@, links@[i as int].target),
                    links@,
                    i + 1,
                ));
            }
            i += 1;
        }
    }

    /// Remove: clear each alias, then drop the package directory with its
    /// record and files.
    pub fn apply_remove(&mut self, name: &str, aliases: &Vec<String>)
        requires
            old(self).wf(),
        ensures
            final(self).wf(),
            final(self).pkgs@ == old(self).pkgs@.remove(name@),
            final(self).bin@ == bin_without_aliases(old(self).bin@, aliases@, 0),
    {
        let ghost bin0 = self.bin@;
        let n = aliases.len();
        let mut i: usize = 0;
        while i < n
            invariant
                n == aliases@.len(),
                i <= n,
                self.bin.wf(),
                self.pkgs.wf(),
                self.pkgs@ == old(self).pkgs@,
                bin_without_aliases(bin0, aliases@, 0) == bin_without_aliases(
                    self.bin@,
                    aliases@,
                    i as int,
                ),
            decreases n - i,
        {
            let ghost bin_before = self.bin@;
            self.bin.remove(aliases[i].as_str());
            proof {
                assert(bin_without_aliases(bin_before, aliases@, i as int)
                    == bin_without_aliases(
                    bin_before.remove(aliases@[i as int]@),
                    aliases@,
                    i + 1,
                ));
            }
            i += 1;
        }
        self.pkgs.remove(name);
    }
}

/// A key none of the remaining links bind is untouched by binding them.
proof fn lemma_links_leave_key(
    bin: Map<Seq<char>, String>,
    links: Seq<LinkAction>,
    i: int,
    k: Seq<char>,
)
    requires
        forall|j: int| i <= j < links.len() ==> (#[trigger] links[j]).alias@ != k,
    ensures
        bin_after_links(bin, links, i).contains_key(k) == bin.contains_key(k),
        bin.contains_key(k) ==> bin_after_links(bin, links, i)[k] == bin[k],
    decreases links.len() - i,
{
    if i < 0 || i >= links.len() {
    } else {
        lemma_links_leave_key(bin.insert(links[i].alias@, links[i].target), links, i + 1, k);
    }
}

/// A key some remaining link binds ends up bound, with a value that depends
/// on the links alone, not on the starting map.
proof fn lemma_links_settle_key(
    b1: Map<Seq<char>, String>,
    b2: Map<Seq<char>, String>,
    links: Seq<LinkAction>,
    i: int,
    k: Seq<char>,
)
    requires
        0 <= i,
        exists|j: int| i <= j < links.len() && (#[trigger] links[j]).alias@ == k,
    ensures
        bin_after_links(b1, links, i).contains_key(k),
        bin_after_links(b1, links, i)[k] == bin_after_links(b2, links, i)[k],
    decreases links.len() - i,
{
    let c1 = b1.insert(links[i].alias@, links[i].target);
    let c2 = b2.insert(links[i].alias@, links[i].target);
    if exists|j: int| i + 1 <= j < links.len() && (#[trigger] links[j]).alias@ == k {
        lemma_links_settle_key(c1, c2, links, i + 1, k);
    } else {
        assert(links[i].alias@ == k);
        lemma_links_leave_key(c1, links, i + 1, k);
        lemma_links_leave_key(c2, links, i + 1, k);
    }
}

/// Linking is safely re-runnable: binding the same links a second time
/// leaves the bin directory exactly as the first pass left it.
pub proof fn lemma_link_idempotent(bin: Map<Seq<char>, String>, links: Seq<LinkAction>)
    ensures
        bin_after_links(bin_after_links(bin, links, 0), links, 0) =~= bin_after_links(
            bin,
            links,
            0,
        ),
{
    let once = bin_after_links(bin, links, 0);
    let twice = bin_after_links(once, links, 0);
    assert forall|k: Seq<char>| twice.dom().contains(k) == once.dom().contains(k) by {
        if exists|j: int| 0 <= j < links.len() && (#[trigger] links[j]).alias@ == k {
            lemma_links_settle_key(once, bin, links, 0, k);
            lemma_links_settle_key(bin, bin, links, 0, k);
        } else {
            lemma_links_leave_key(once, links, 0, k);
        }
    }
    assert forall|k: Seq<char>| once.dom().contains(k) implies twice[k] == once[k] by {
        if exists|j: int| 0 <= j < links.len() && (#[trigger] links[j]).alias@ == k {
            lemma_links_settle_key(once, bin, links, 0, k);
        } else {
            lemma_links_leave_key(once, links, 0, k);
        }
    }
    assert(twice =~= once);
}

/// A key none of the remaining aliases name is untouched by clearing them.
proof fn lemma_removes_leave_key(
    bin: Map<Seq<char>, String>,
    aliases: Seq<String>,
    i: int,
    k: Seq<char>,
)
    requires
        forall|j: int| i <= j < aliases.len() ==> (#[trigger] aliases[j])@ != k,
    ensures
        bin_without_aliases(bin, aliases, i).contains_key(k) == bin.contains_key(k),
        bin.contains_key(k) ==> bin_without_aliases(bin, aliases, i)[k] == bin[k],
    decreases aliases.len() - i,
{
    if i < 0 || i >= aliases.len() {
    } else {
        lemma_removes_leave_key(bin.remove(aliases[i]@), aliases, i + 1, k);
    }
}

/// Clearing aliases never adds a key.
proof fn lemma_removes_never_add(
    bin: Map<Seq<char>, String>,
    aliases: Seq<String>,
    i: int,
    k: Seq<char>,
)
    ensures
        bin_without_aliases(bin, aliases, i).contains_key(k) ==> bin.contains_key(k),
    decreases aliases.len() - i,
{
    if i < 0 || i >= aliases.len() {
    } else {
        lemma_removes_never_add(bin.remove(aliases[i]@), aliases, i + 1, k);
    }
}

/// A key some remaining alias names is gone once they are cleared.
proof fn lemma_removes_clear_key(
    bin: Map<Seq<char>, String>,
    aliases: Seq<String>,
    i: int,
    k: Seq<char>,
)
    requires
        0 <= i,
        exists|j: int| i <= j < aliases.len() && (#[trigger] aliases[j])@ == k,
    ensures
        !bin_without_aliases(bin, aliases, i).contains_key(k),
    decreases aliases.len() - i,
{
    let shrunk = bin.remove(aliases[i]@);
    if aliases[i]@ == k {
        lemma_removes_never_add(shrunk, aliases, i + 1, k);
    } else {
        lemma_removes_clear_key(shrunk, aliases, i + 1, k);
    }
}

/// Round trip: installing a package and then removing it restores the bin
/// directory and the package directory tree to their pre-install state,
/// provided the package was absent, its aliases were unclaimed, and the
/// removal clears exactly the aliases the install bound.
pub proof fn lemma_install_remove_round_trip(
    bin: Map<Seq<char>, String>,
    pkgs: Map<Seq<char>, PackageDirModel>,
    name: Seq<char>,
    dir: PackageDirModel,
    links: Seq<LinkAction>,
    aliases: Seq<String>,
)
    requires
        !pkgs.contains_key(name),
        aliases.len() == links.len(),
        forall|j: int| 0 <= j < links.len() ==> (#[trigger] aliases[j])@ == links[j].alias@,
        forall|j: int| 0 <= j < links.len() ==> !bin.contains_key((#[trigger] links[j]).alias@),
    ensures
        bin_without_aliases(bin_after_links(bin, links, 0), aliases, 0) =~= bin,
        pkgs.insert(name, dir).remove(name) =~= pkgs,
{
    let once = bin_after_links(bin, links, 0);
    let back = bin_without_aliases(once, aliases, 0);
    assert forall|k: Seq<char>| back.dom().contains(k) == bin.dom().contains(k) by {
        if exists|j: int| 0 <= j < aliases.len() && (#[trigger] aliases[j])@ == k {
            lemma_removes_clear_key(once, aliases, 0, k);
            let j = choose|j: int| 0 <= j < aliases.len() && (#[trigger] aliases[j])@ == k;
            assert(links[j].alias@ == k);
            assert(!bin.contains_key(k));
        } else {
            assert forall|j: int|
                0 <= j < links.len() implies (#[trigger] links[j]).alias@ != k by {
                assert(aliases[j]@ == links[j].alias@);
            }
            lemma_links_leave_key(bin, links, 0, k);
            lemma_removes_leave_key(once, aliases, 0, k);
        }
    }
    assert forall|k: Seq<char>| bin.dom().contains(k) implies back[k] == bin[k] by {
        if exists|j: int| 0 <= j < aliases.len() && (#[trigger] aliases[j])@ == k {
            let j = choose|j: int| 0 <= j < aliases.len() && (#[trigger] aliases[j])@ == k;
            assert(links[j].alias@ == k);
            assert(!bin.contains_key(k));
        } else {
            assert forall|j: int|
                0 <= j < links.len() implies (#[trigger] links[j]).alias@ != k by {
                assert(aliases[j]@ == links[j].alias@);
            }
            lemma_links_leave_key(bin, links, 0, k);
            lemma_removes_leave_key(once, aliases, 0, k);
        }
    }
    assert(back =~= bin);
}

} // verus!
