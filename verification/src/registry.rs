//! The registry of installed packages: at most one package per name,
//! with the decisions of install, delete, revert and bulk update.

use vstd::prelude::*;
use vstd::string::*;

use crate::installer::{ops_of, op_of, Archived, Compression, FileOp, FileOpView, Installer, InstallerView};
use crate::package::{Package, PackageView};
use crate::path::{join, joined};
use crate::term::{bold, bold_text, reset, reset_text};
use crate::text::same_text;

verus! {

broadcast use vstd::string::group_string_axioms;

/// The views of a list of packages.
pub open spec fn views_of(list: Seq<Package>) -> Seq<PackageView> {
    list.map_values(|p: Package| p@)
}

/// No two packages of `list` carry the same name.
pub open spec fn names_distinct(list: Seq<PackageView>) -> bool {
    forall|i: int, j: int| 0 <= i < j < list.len() ==> list[i].name != list[j].name
}

/// Whether a package of `list` is named `name`.
pub open spec fn has_name(list: Seq<PackageView>, name: Seq<char>) -> bool {
    exists|i: int| 0 <= i < list.len() && (#[trigger] list[i]).name == name
}

/// The package of `list` that is named `name`.
pub open spec fn entry(list: Seq<PackageView>, name: Seq<char>) -> Option<PackageView> {
    if has_name(list, name) {
        Some(list[choose|i: int| 0 <= i < list.len() && (#[trigger] list[i]).name == name])
    } else {
        None
    }
}

/// `list` without the packages named `name`.
pub open spec fn without(list: Seq<PackageView>, name: Seq<char>) -> Seq<PackageView>
    decreases list.len(),
{
    if list.len() == 0 {
        list
    } else if list.last().name == name {
        without(list.drop_last(), name)
    } else {
        without(list.drop_last(), name).push(list.last())
    }
}

/// `list` with the package `package` in place of the one of its name: the
/// old entry leaves and the new one comes last. A list that has no
/// package of that name stays as it is.
pub open spec fn replaced(list: Seq<PackageView>, package: PackageView) -> Seq<PackageView> {
    if has_name(list, package.name) {
        without(list, package.name).push(package)
    } else {
        list
    }
}

/// The first package of each name in `list`, in the order of `list`.
pub open spec fn first_of_each(list: Seq<PackageView>) -> Seq<PackageView>
    decreases list.len(),
{
    if list.len() == 0 {
        list
    } else {
        let kept = first_of_each(list.drop_last());
        if has_name(kept, list.last().name) {
            kept
        } else {
            kept.push(list.last())
        }
    }
}

/// In a list of distinct names, the package named `name` is the one at
/// the place where that name stands.
pub proof fn lemma_entry_at(list: Seq<PackageView>, i: int)
    requires
        names_distinct(list),
        0 <= i < list.len(),
    ensures
        entry(list, list[i].name) == Some(list[i]),
{
    let name = list[i].name;
    let j = choose|j: int| 0 <= j < list.len() && (#[trigger] list[j]).name == name;
    if j < i {
        assert(list[j].name != list[i].name);
    } else if i < j {
        assert(list[i].name != list[j].name);
    }
}

/// Taking a name out of a list of distinct names removes the one entry
/// that carries it, and nothing where none does.
pub proof fn lemma_without(list: Seq<PackageView>, name: Seq<char>)
    requires
        names_distinct(list),
    ensures
        !has_name(list, name) ==> without(list, name) == list,
        forall|i: int|
            0 <= i < list.len() && (#[trigger] list[i]).name == name ==> without(list, name)
                == list.remove(i),
    decreases list.len(),
{
    if list.len() > 0 {
        let front = list.drop_last();
        assert(names_distinct(front)) by {
            assert forall|i: int, j: int| 0 <= i < j < front.len() implies front[i].name
                != front[j].name by {
                assert(list[i].name != list[j].name);
            }
        }
        lemma_without(front, name);
        if !has_name(list, name) {
            assert(!has_name(front, name)) by {
                if has_name(front, name) {
                    let k = choose|k: int| 0 <= k < front.len() && (#[trigger] front[k]).name == name;
                    assert(list[k].name == name);
                }
            }
            assert(list.last().name != name);
            assert(front.push(list.last()) =~= list);
        }
        assert forall|i: int| 0 <= i < list.len() && (#[trigger] list[i]).name == name implies without(
            list,
            name,
        ) == list.remove(i) by {
            if i == list.len() - 1 {
                assert(!has_name(front, name)) by {
                    if has_name(front, name) {
                        let k = choose|k: int|
                            0 <= k < front.len() && (#[trigger] front[k]).name == name;
                        assert(list[k].name != list[i].name);
                    }
                }
                assert(list.remove(i) =~= front);
            } else {
                assert(list[i].name != list.last().name);
                assert(front[i].name == name);
                assert(front.remove(i).push(list.last()) =~= list.remove(i));
            }
        }
    }
}

/// How the registry takes the request to install a package.
#[derive(Debug)]
pub enum Admission {
    /// No package of that name is installed: install this one.
    Fresh(Package),
    /// A package of that name is installed and the request is forced: install this one over it.
    Replace(Package),
    /// A package of that name is installed: ask the user, and install
    /// this one over it only if `confirms` accepts the answer.
    Confirm(Package),
}

/// The package that a request to install builds: nothing is known of it
/// yet but its name, its address, the formats named and its destination
/// in `bin_dir`.
pub open spec fn requested(
    name: Seq<char>,
    url: Seq<char>,
    compression: Option<Compression>,
    archive: Option<Archived>,
    bin_dir: Seq<char>,
) -> PackageView {
    PackageView {
        name: name,
        installer: InstallerView {
            url: url,
            path: joined(bin_dir, name),
            compression: compression,
            archive: archive,
            backup: None,
        },
        release: None,
        last_update: None,
        github: None,
    }
}

/// What a revert of a package comes to.
#[derive(Debug, PartialEq, Eq)]
pub enum Reverted {
    /// No package of that name is installed.
    NotInstalled,
    /// The package has no backup: nothing is done.
    NoBackup,
    /// The backup is to be moved back with this operation.
    Restore(FileOp),
}

/// The state of a package's worker in a bulk update.
#[derive(Debug)]
pub enum Worker {
    /// The package was not asked for.
    Skipped,
    /// The package is being updated; the worker holds its own copy of it.
    Running(Package),
    /// The update succeeded, with this package as its result.
    Succeeded(Package),
    /// The update failed.
    Failed,
}

/// What a `Worker` stands for in contracts.
pub enum WorkerView {
    Skipped,
    Running(PackageView),
    Succeeded(PackageView),
    Failed,
}

impl View for Worker {
    type V = WorkerView;

    open spec fn view(&self) -> WorkerView {
        match *self {
            Worker::Skipped => WorkerView::Skipped,
            Worker::Running(p) => WorkerView::Running(p@),
            Worker::Succeeded(p) => WorkerView::Succeeded(p@),
            Worker::Failed => WorkerView::Failed,
        }
    }
}

/// The views of a list of workers.
pub open spec fn workers_of(list: Seq<Worker>) -> Seq<WorkerView> {
    list.map_values(|w: Worker| w@)
}

/// The views of a list of names.
pub open spec fn names_of(list: Seq<String>) -> Seq<Seq<char>> {
    list.map_values(|n: String| n@)
}

/// Whether a bulk update for `wanted` takes the package named `name`:
/// every package where no name is given, else the packages named.
pub open spec fn is_wanted(wanted: Seq<Seq<char>>, name: Seq<char>) -> bool {
    wanted.len() == 0 || wanted.contains(name)
}

/// The worker that a bulk update for `wanted` starts for `package`.
pub open spec fn started(wanted: Seq<Seq<char>>, package: PackageView) -> WorkerView {
    if is_wanted(wanted, package.name) {
        WorkerView::Running(package)
    } else {
        WorkerView::Skipped
    }
}

/// The registry `list` after the results of `workers` were merged into
/// it, one after the other: the package of a worker that succeeded takes
/// the place of the entry of its name; no other worker changes anything.
pub open spec fn merged(list: Seq<PackageView>, workers: Seq<WorkerView>) -> Seq<PackageView>
    decreases workers.len(),
{
    if workers.len() == 0 {
        list
    } else {
        match workers.last() {
            WorkerView::Succeeded(p) => replaced(merged(list, workers.drop_last()), p),
            _ => merged(list, workers.drop_last()),
        }
    }
}

/// The number of workers that failed.
pub open spec fn failures(workers: Seq<WorkerView>) -> nat
    decreases workers.len(),
{
    if workers.len() == 0 {
        0
    } else {
        failures(workers.drop_last()) + if workers.last() is Failed {
            1nat
        } else {
            0nat
        }
    }
}

/// Whether a worker of `workers` succeeded with a package named `name`.
pub open spec fn succeeded_for(workers: Seq<WorkerView>, name: Seq<char>) -> bool {
    exists|i: int|
        0 <= i < workers.len() && (#[trigger] workers[i] matches WorkerView::Succeeded(p) && p.name
            == name)
}

/// The line of `package` in the list of installed packages: its name in
/// bold, then the repository it came from or else its address.
pub open spec fn list_line(package: PackageView) -> Seq<char> {
    bold_text() + package.name + reset_text() + seq![' '] + (match package.github {
        Some(repo) => repo,
        None => package.installer.url,
    })
}

/// Replacing a package keeps the names distinct, puts the new package
/// under its name and leaves every other name's package untouched: it is
/// the update of a mapping keyed by name.
pub proof fn lemma_replaced(list: Seq<PackageView>, package: PackageView)
    requires
        names_distinct(list),
    ensures
        names_distinct(replaced(list, package)),
        replaced(list, package).len() == list.len(),
        has_name(list, package.name) ==> entry(replaced(list, package), package.name) == Some(
            package,
        ),
        forall|name: Seq<char>|
            name != package.name ==> entry(replaced(list, package), name) == entry(list, name),
        forall|name: Seq<char>| has_name(replaced(list, package), name) == has_name(list, name),
{
    if has_name(list, package.name) {
        let i = choose|i: int| 0 <= i < list.len() && (#[trigger] list[i]).name == package.name;
        lemma_without(list, package.name);
        let rest = list.remove(i);
        let next = rest.push(package);
        assert(replaced(list, package) == next);
        assert forall|a: int| 0 <= a < rest.len() implies (#[trigger] rest[a]).name
            != package.name by {
            if a < i {
                assert(rest[a] == list[a]);
                assert(list[a].name != list[i].name);
            } else {
                assert(rest[a] == list[a + 1]);
                assert(list[i].name != list[a + 1].name);
            }
        }
        assert(names_distinct(next)) by {
            assert forall|a: int, b: int| 0 <= a < b < next.len() implies next[a].name
                != next[b].name by {
                if b == next.len() - 1 {
                    assert(rest[a].name != package.name);
                } else {
                    let a0 = if a < i { a } else { a + 1 };
                    let b0 = if b < i { b } else { b + 1 };
                    assert(next[a] == list[a0]);
                    assert(next[b] == list[b0]);
                    assert(list[a0].name != list[b0].name);
                }
            }
        }
        lemma_entry_at(next, next.len() - 1);
        assert forall|name: Seq<char>| has_name(next, name) == has_name(list, name) by {
            if has_name(next, name) {
                let k = choose|k: int| 0 <= k < next.len() && (#[trigger] next[k]).name == name;
                if k == next.len() - 1 {
                    assert(list[i].name == name);
                } else {
                    let k0 = if k < i { k } else { k + 1 };
                    assert(next[k] == list[k0]);
                    assert(list[k0].name == name);
                }
            }
            if has_name(list, name) {
                let k = choose|k: int| 0 <= k < list.len() && (#[trigger] list[k]).name == name;
                if k == i {
                    assert(next[next.len() - 1].name == name);
                } else {
                    let k1 = if k < i { k } else { k - 1 };
                    assert(next[k1] == list[k]);
                    assert(next[k1].name == name);
                }
            }
        }
        assert forall|name: Seq<char>| name != package.name implies entry(next, name) == entry(
            list,
            name,
        ) by {
            if has_name(list, name) {
                let k = choose|k: int| 0 <= k < list.len() && (#[trigger] list[k]).name == name;
                let k1 = if k < i { k } else { k - 1 };
                assert(next[k1] == list[k]);
                lemma_entry_at(next, k1);
                lemma_entry_at(list, k);
            }
        }
    }
}

/// Merging the results of a bulk update keeps the names distinct and
/// changes only the packages of workers that succeeded: a package whose
/// worker failed or was skipped stays as it was, with all others.
pub proof fn lemma_merged(list: Seq<PackageView>, workers: Seq<WorkerView>)
    requires
        names_distinct(list),
    ensures
        names_distinct(merged(list, workers)),
        merged(list, workers).len() == list.len(),
        forall|name: Seq<char>| has_name(merged(list, workers), name) == has_name(list, name),
        forall|name: Seq<char>|
            !succeeded_for(workers, name) ==> entry(merged(list, workers), name) == entry(
                list,
                name,
            ),
    decreases workers.len(),
{
    if workers.len() > 0 {
        let front = workers.drop_last();
        lemma_merged(list, front);
        let before = merged(list, front);
        assert forall|name: Seq<char>| succeeded_for(front, name) implies succeeded_for(
            workers,
            name,
        ) by {
            let i = choose|i: int|
                0 <= i < front.len() && (#[trigger] front[i] matches WorkerView::Succeeded(p)
                    && p.name == name);
            assert(workers[i] == front[i]);
        }
        match workers.last() {
            WorkerView::Succeeded(p) => {
                lemma_replaced(before, p);
                assert(workers[workers.len() - 1] matches WorkerView::Succeeded(q) && q.name
                    == p.name);
                assert(succeeded_for(workers, p.name));
            },
            _ => {},
        }
    }
}

/// The last success wins: right after the result of a worker that
/// succeeded is merged, the registry holds that worker's package under
/// its name, if it held a package of that name at all.
pub proof fn lemma_merged_last(list: Seq<PackageView>, workers: Seq<WorkerView>, package: PackageView)
    requires
        names_distinct(list),
        has_name(list, package.name),
    ensures
        entry(merged(list, workers.push(WorkerView::Succeeded(package))), package.name) == Some(
            package,
        ),
{
    let all = workers.push(WorkerView::Succeeded(package));
    assert(all.drop_last() =~= workers);
    lemma_merged(list, workers);
    lemma_replaced(merged(list, workers), package);
}

/// The registry: the installed packages, each known by its name.
#[derive(Debug)]
pub struct BSPM {
    packages: Vec<Package>,
}

impl View for BSPM {
    type V = Seq<PackageView>;

    closed spec fn view(&self) -> Seq<PackageView> {
        views_of(self.packages@)
    }
}

impl BSPM {
    /// The registry is sound: no name occurs twice in it.
    pub open spec fn wf(&self) -> bool {
        names_distinct(self@)
    }

    /// The place of the package named `name`.
    fn find(&self, name: &str) -> (r: Option<usize>)
        ensures
            match r {
                Some(i) => i < self@.len() && self@[i as int].name == name@ && forall|k: int|
                    0 <= k < i ==> self@[k].name != name@,
                None => !has_name(self@, name@),
            },
    {
        let mut i: usize = 0;
        while i < self.packages.len()
            invariant
                i <= self.packages.len(),
                forall|k: int| 0 <= k < i ==> self@[k].name != name@,
            decreases self.packages.len() - i,
        {
            if same_text(self.packages[i].name.as_str(), name) {
                return Some(i);
            }
            i += 1;
        }
        None
    }

    /// The registry of the packages `packages`, as they were loaded.
    /// Where a name occurs more than once, its first package stays.
    pub fn new(packages: Vec<Package>) -> (r: BSPM)
        ensures
            r.wf(),
            r@ == first_of_each(views_of(packages@)),
    {
        let mut kept = BSPM { packages: Vec::new() };
        let mut i: usize = 0;
        assert(views_of(packages@).take(0) =~= Seq::<PackageView>::empty());
        while i < packages.len()
            invariant
                i <= packages.len(),
                kept.wf(),
                kept@ == first_of_each(views_of(packages@).take(i as int)),
            decreases packages.len() - i,
        {
            let ghost seen = views_of(packages@).take(i as int + 1);
            assert(seen.drop_last() =~= views_of(packages@).take(i as int));
            assert(seen.last() == packages@[i as int]@);
            let ghost before = kept@;
            if kept.find(packages[i].name.as_str()).is_none() {
                kept.packages.push(packages[i].clone());
                assert(kept@ =~= before.push(packages@[i as int]@));
                assert(names_distinct(kept@)) by {
                    assert forall|a: int, b: int| 0 <= a < b < kept@.len() implies kept@[a].name
                        != kept@[b].name by {
                        if b == kept@.len() - 1 {
                            assert(before[a].name != packages@[i as int]@.name);
                        } else {
                            assert(before[a].name != before[b].name);
                        }
                    }
                }
            }
            i += 1;
        }
        assert(views_of(packages@).take(i as int) =~= views_of(packages@));
        kept
    }

    /// The installed packages, in the order in which they are kept.
    pub fn packages(&self) -> (r: &Vec<Package>)
        ensures
            views_of(r@) == self@,
    {
        &self.packages
    }

    /// Whether no package is installed.
    pub fn is_empty(&self) -> (r: bool)
        ensures
            r == (self@.len() == 0),
    {
        self.packages.len() == 0
    }

    /// Takes the request to install `url` as the package `name`, with its
    /// destination in `bin_dir`: builds the package and says whether it can
    /// be installed at once. The registry changes only when `add` records
    /// the package, after its install has succeeded.
    pub fn install(
        &self,
        name: String,
        url: String,
        force: bool,
        compression: Option<Compression>,
        archive: Option<Archived>,
        bin_dir: &str,
    ) -> (r: Admission)
        ensures
            match r {
                Admission::Fresh(p) => !has_name(self@, name@) && p@ == requested(
                    name@,
                    url@,
                    compression,
                    archive,
                    bin_dir@,
                ),
                Admission::Replace(p) => has_name(self@, name@) && force && p@ == requested(
                    name@,
                    url@,
                    compression,
                    archive,
                    bin_dir@,
                ),
                Admission::Confirm(p) => has_name(self@, name@) && !force && p@ == requested(
                    name@,
                    url@,
                    compression,
                    archive,
                    bin_dir@,
                ),
            },
    {
        let path = join(bin_dir, name.as_str());
        self.admission(
            Package {
                name,
                installer: Installer { url, path, compression, archive, backup: None },
                release: None,
                last_update: None,
                github: None,
            },
            force,
        )
    }

    /// Says whether `package` can be installed at once: it can where its
    /// name is free or the request is forced, and else the user is to be
    /// asked first.
    pub fn admission(&self, package: Package, force: bool) -> (r: Admission)
        ensures
            match r {
                Admission::Fresh(p) => !has_name(self@, package@.name) && p == package,
                Admission::Replace(p) => has_name(self@, package@.name) && force && p == package,
                Admission::Confirm(p) => has_name(self@, package@.name) && !force && p == package,
            },
    {
        let known = self.find(package.name.as_str()).is_some();
        if !known {
            Admission::Fresh(package)
        } else if force {
            Admission::Replace(package)
        } else {
            Admission::Confirm(package)
        }
    }

    /// Whether `answer` consents to an install over an installed package:
    /// only the answer `y` does.
    pub fn confirms(answer: &str) -> (r: bool)
        ensures
            r == (answer@ == seq!['y']),
    {
        proof {
            reveal_strlit("y");
            assert("y"@ =~= seq!['y']);
        }
        same_text(answer, "y")
    }

    /// Takes the package at `i` out of the registry.
    fn take_out(&mut self, i: usize) -> (r: Package)
        requires
            old(self).wf(),
            i < old(self)@.len(),
        ensures
            final(self).wf(),
            r@ == old(self)@[i as int],
            final(self)@ == old(self)@.remove(i as int),
            final(self)@ == without(old(self)@, old(self)@[i as int].name),
    {
        let ghost before = self@;
        let pkg = self.packages.remove(i);
        assert(self@ =~= before.remove(i as int));
        proof {
            lemma_without(before, before[i as int].name);
            assert forall|a: int, b: int| 0 <= a < b < self@.len() implies self@[a].name
                != self@[b].name by {
                let a0 = if a < i { a } else { a + 1 };
                let b0 = if b < i { b } else { b + 1 };
                assert(self@[a] == before[a0]);
                assert(self@[b] == before[b0]);
                assert(before[a0].name != before[b0].name);
            }
        }
        pkg
    }

    /// Records the package `package` as installed: it takes the place of
    /// any package of its name and comes last.
    pub fn add(&mut self, package: Package)
        requires
            old(self).wf(),
        ensures
            final(self).wf(),
            final(self)@ == without(old(self)@, package@.name).push(package@),
            entry(final(self)@, package@.name) == Some(package@),
    {
        let ghost before = self@;
        match self.find(package.name.as_str()) {
            Some(i) => {
                self.take_out(i);
            },
            None => {
                proof {
                    lemma_without(before, package@.name);
                }
            },
        }
        let ghost rest = self@;
        assert(!has_name(rest, package@.name)) by {
            if has_name(rest, package@.name) {
                let k = choose|k: int|
                    0 <= k < rest.len() && (#[trigger] rest[k]).name == package@.name;
                if has_name(before, package@.name) {
                    let i = choose|i: int|
                        0 <= i < before.len() && (#[trigger] before[i]).name == package@.name;
                    lemma_without(before, package@.name);
                    let k0 = if k < i { k } else { k + 1 };
                    assert(before.remove(i)[k] == before[k0]);
                    if k0 < i {
                        assert(before[k0].name != before[i].name);
                    } else {
                        assert(before[i].name != before[k0].name);
                    }
                }
            }
        }
        self.packages.push(package);
        assert(self@ =~= rest.push(package@));
        proof {
            assert forall|a: int, b: int| 0 <= a < b < self@.len() implies self@[a].name
                != self@[b].name by {
                if b == self@.len() - 1 {
                    assert(rest[a].name != package@.name);
                } else {
                    assert(rest[a].name != rest[b].name);
                }
            }
            lemma_entry_at(self@, self@.len() - 1);
        }
    }

    /// Deletes the package named `name`: it leaves the registry, and the
    /// removals that take it off the disk are returned. Nothing happens
    /// and none is returned where no such package is installed. The
    /// registry is as it is to be stored when the removals have succeeded.
    pub fn delete(&mut self, name: &str) -> (r: Option<Vec<FileOp>>)
        requires
            old(self).wf(),
        ensures
            final(self).wf(),
            final(self)@ == without(old(self)@, name@),
            match entry(old(self)@, name@) {
                Some(p) => r matches Some(ops) && ops_of(ops@) == p.installer.removals(),
                None => r is None && final(self)@ == old(self)@,
            },
    {
        match self.find(name) {
            None => {
                proof {
                    lemma_without(self@, name@);
                }
                None
            },
            Some(i) => {
                proof {
                    lemma_entry_at(self@, i as int);
                }
                let pkg = self.take_out(i);
                Some(pkg.installer.uninstall())
            },
        }
    }

    /// Reverts the package named `name` to its backup: the backup is
    /// spent, and the move that restores it is returned. The registry is
    /// as it is to be stored when the move has succeeded.
    pub fn revert(&mut self, name: &str) -> (r: Reverted)
        requires
            old(self).wf(),
        ensures
            final(self).wf(),
            final(self)@.len() == old(self)@.len(),
            forall|i: int|
                0 <= i < old(self)@.len() ==> #[trigger] final(self)@[i] == (if old(self)@[i].name
                    == name@ {
                    PackageView { installer: old(self)@[i].installer.after_revert(), ..old(self)@[i] }
                } else {
                    old(self)@[i]
                }),
            match entry(old(self)@, name@) {
                None => r is NotInstalled,
                Some(p) => match p.installer.restoration() {
                    None => r is NoBackup,
                    Some(op) => r matches Reverted::Restore(o) && o@ == op,
                },
            },
    {
        match self.find(name) {
            None => Reverted::NotInstalled,
            Some(i) => {
                let ghost before = self@;
                proof {
                    lemma_entry_at(before, i as int);
                }
                let mut pkg = self.packages[i].clone();
                let op = pkg.installer.revert();
                self.packages.set(i, pkg);
                proof {
                    assert forall|k: int| 0 <= k < before.len() implies #[trigger] self@[k] == (
                    if before[k].name == name@ {
                        PackageView { installer: before[k].installer.after_revert(), ..before[k] }
                    } else {
                        before[k]
                    }) by {
                        if k < i {
                            assert(before[k].name != before[i as int].name);
                        } else if k > i {
                            assert(before[i as int].name != before[k].name);
                        }
                    }
                    assert forall|a: int, b: int| 0 <= a < b < self@.len() implies self@[a].name
                        != self@[b].name by {
                        assert(self@[a].name == before[a].name);
                        assert(self@[b].name == before[b].name);
                    }
                }
                match op {
                    None => Reverted::NoBackup,
                    Some(o) => Reverted::Restore(o),
                }
            },
        }
    }

    /// Starts a bulk update for the names `wanted`: one worker per
    /// package, in the registry's order. Each package that is wanted gets
    /// a running worker with a copy of it; the others are skipped.
    pub fn update(&self, wanted: &Vec<String>) -> (r: Vec<Worker>)
        ensures
            r@.len() == self@.len(),
            forall|i: int|
                0 <= i < r@.len() ==> (#[trigger] r@[i])@ == started(names_of(wanted@), self@[i]),
    {
        let mut workers: Vec<Worker> = Vec::new();
        let mut i: usize = 0;
        while i < self.packages.len()
            invariant
                i <= self.packages.len(),
                workers@.len() == i,
                forall|k: int|
                    0 <= k < i ==> (#[trigger] workers@[k])@ == started(names_of(wanted@), self@[k]),
            decreases self.packages.len() - i,
        {
            let mut found = wanted.len() == 0;
            let mut j: usize = 0;
            while j < wanted.len() && !found
                invariant
                    j <= wanted.len(),
                    i < self.packages.len(),
                    wanted.len() == 0 ==> found,
                    found ==> is_wanted(names_of(wanted@), self@[i as int].name),
                    !found ==> forall|k: int| 0 <= k < j ==> names_of(wanted@)[k] != self@[i as int].name,
                decreases wanted.len() - j + (if found { 0int } else { 1int }),
            {
                if wanted[j] == self.packages[i].name {
                    assert(names_of(wanted@)[j as int] == self@[i as int].name);
                    found = true;
                }
                j += 1;
            }
            if found {
                workers.push(Worker::Running(self.packages[i].clone()));
            } else {
                workers.push(Worker::Skipped);
            }
            i += 1;
        }
        workers
    }

    /// Merges the results of a bulk update into the registry and counts
    /// the workers that failed. The package of each worker that succeeded
    /// replaces the entry of its name; nothing else changes.
    pub fn merge(&mut self, workers: &Vec<Worker>) -> (r: usize)
        requires
            old(self).wf(),
        ensures
            final(self).wf(),
            final(self)@ == merged(old(self)@, workers_of(workers@)),
            r == failures(workers_of(workers@)),
    {
        let ghost all = workers_of(workers@);
        let mut failed: usize = 0;
        let mut i: usize = 0;
        assert(all.take(0) =~= Seq::<WorkerView>::empty());
        while i < workers.len()
            invariant
                self.wf(),
                all == workers_of(workers@),
                i <= workers.len(),
                self@ == merged(old(self)@, all.take(i as int)),
                failed == failures(all.take(i as int)),
                failed <= i,
            decreases workers.len() - i,
        {
            let ghost upto = all.take(i + 1);
            assert(upto.drop_last() =~= all.take(i as int));
            assert(upto.last() == workers@[i as int]@);
            match &workers[i] {
                Worker::Succeeded(package) => {
                    let ghost before = self@;
                    match self.find(package.name.as_str()) {
                        Some(at) => {
                            self.take_out(at);
                            self.packages.push(package.clone());
                            proof {
                                assert(has_name(before, package@.name));
                                lemma_replaced(before, package@);
                                assert(self@ =~= replaced(before, package@));
                            }
                        },
                        None => {},
                    }
                },
                Worker::Failed => {
                    failed += 1;
                },
                _ => {},
            }
            i += 1;
        }
        assert(all.take(i as int) =~= all);
        failed
    }

    /// The lines of the list of installed packages, in the registry's order.
    pub fn list(&self) -> (r: Vec<String>)
        ensures
            r@.len() == self@.len(),
            forall|i: int| 0 <= i < r@.len() ==> (#[trigger] r@[i])@ == list_line(self@[i]),
    {
        proof {
            reveal_strlit(" ");
            assert(" "@ =~= seq![' ']);
        }
        let mut lines: Vec<String> = Vec::new();
        let mut i: usize = 0;
        while i < self.packages.len()
            invariant
                i <= self.packages.len(),
                " "@ == seq![' '],
                lines@.len() == i,
                forall|k: int| 0 <= k < i ==> (#[trigger] lines@[k])@ == list_line(self@[k]),
            decreases self.packages.len() - i,
        {
            let pkg = &self.packages[i];
            let mut line = bold();
            line.append(pkg.name.as_str());
            line.append(reset().as_str());
            line.append(" ");
            match &pkg.github {
                Some(repo) => line.append(repo.as_str()),
                None => line.append(pkg.installer.url.as_str()),
            }
            lines.push(line);
            i += 1;
        }
        lines
    }
}

impl Default for BSPM {
    /// The registry without any package.
    fn default() -> (r: Self)
        ensures
            r.wf(),
            r@.len() == 0,
    {
        BSPM { packages: Vec::new() }
    }
}

} // verus!
