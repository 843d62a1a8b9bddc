//! The installation configuration: the packages to install with each
//! package manager, and custom packages installed by shell commands.
use crate::text::{is_word, opt_string_view, owned, strings_view};
use vstd::prelude::*;

verus! {

/// The configuration.
///
/// `package_managers` maps the name of a package manager to its packages;
/// each name occurs once (see [`Config::wf`]).
#[derive(Debug)]
pub struct Config {
    pub package_managers: Vec<(String, PackageManager)>,
    pub custom_packages: Vec<CustomPackage>,
}

/// The packages of one package manager.
#[derive(Debug)]
pub struct PackageManager {
    pub os: String,
    pub packages: Vec<RepoPackage>,
}

/// A package of a package manager's repository.
#[derive(Debug)]
pub struct RepoPackage {
    pub name: String,
    pub version: Option<String>,
    pub repo_name: String,
}

/// A package installed by shell commands.
#[derive(Debug)]
pub struct CustomPackage {
    pub name: String,
    pub version: Option<String>,
    pub install_steps: Vec<String>,
    pub post_install: Vec<String>,
}

/// Model of a [`RepoPackage`].
pub struct RepoView {
    pub name: Seq<char>,
    pub version: Option<Seq<char>>,
    pub repo_name: Seq<char>,
}

/// Model of a [`PackageManager`].
pub struct ManagerView {
    pub os: Seq<char>,
    pub packages: Seq<RepoView>,
}

/// Model of a [`CustomPackage`].
pub struct CustomView {
    pub name: Seq<char>,
    pub version: Option<Seq<char>>,
    pub install_steps: Seq<Seq<char>>,
    pub post_install: Seq<Seq<char>>,
}

/// Model of a [`Config`]: the named package managers in order, and the
/// custom packages.
pub struct ConfigView {
    pub managers: Seq<(Seq<char>, ManagerView)>,
    pub custom: Seq<CustomView>,
}

impl View for RepoPackage {
    type V = RepoView;

    open spec fn view(&self) -> RepoView {
        RepoView {
            name: self.name@,
            version: opt_string_view(self.version),
            repo_name: self.repo_name@,
        }
    }
}

impl View for PackageManager {
    type V = ManagerView;

    open spec fn view(&self) -> ManagerView {
        ManagerView { os: self.os@, packages: self.packages@.map_values(|p: RepoPackage| p@) }
    }
}

impl View for CustomPackage {
    type V = CustomView;

    open spec fn view(&self) -> CustomView {
        CustomView {
            name: self.name@,
            version: opt_string_view(self.version),
            install_steps: strings_view(self.install_steps@),
            post_install: strings_view(self.post_install@),
        }
    }
}

/// The models of named package managers.
pub open spec fn managers_view(ms: Seq<(String, PackageManager)>) -> Seq<(Seq<char>, ManagerView)> {
    ms.map_values(|e: (String, PackageManager)| (e.0@, e.1@))
}

impl View for Config {
    type V = ConfigView;

    open spec fn view(&self) -> ConfigView {
        ConfigView {
            managers: managers_view(self.package_managers@),
            custom: self.custom_packages@.map_values(|c: CustomPackage| c@),
        }
    }
}

/// No package manager name occurs twice.
pub open spec fn names_distinct(ms: Seq<(Seq<char>, ManagerView)>) -> bool {
    forall|i: int, j: int| 0 <= i < j < ms.len() ==> ms[i].0 != ms[j].0
}

/// `i` is the first position of the package manager `name`.
pub open spec fn is_first_index(ms: Seq<(Seq<char>, ManagerView)>, name: Seq<char>, i: int) -> bool {
    &&& 0 <= i < ms.len()
    &&& ms[i].0 == name
    &&& forall|j: int| 0 <= j < i ==> ms[j].0 != name
}

/// The position of the package manager `name`, if it is there.
pub open spec fn manager_position(ms: Seq<(Seq<char>, ManagerView)>, name: Seq<char>) -> Option<int> {
    if exists|i: int| is_first_index(ms, name, i) {
        Some(choose|i: int| is_first_index(ms, name, i))
    } else {
        None
    }
}

/// The first position of a name is unique.
pub proof fn lemma_first_index_unique(
    ms: Seq<(Seq<char>, ManagerView)>,
    name: Seq<char>,
    i: int,
    k: int,
)
    requires
        is_first_index(ms, name, i),
        is_first_index(ms, name, k),
    ensures
        i == k,
{
}

/// The package `package`, as [`Config::add_package`] records it.
pub open spec fn new_repo(package: Seq<char>) -> RepoView {
    RepoView { name: package, version: None, repo_name: package }
}

/// The configuration `c` after adding `package` to the package manager
/// `pkg_man`: appended to its packages where the manager is there, else
/// under a new manager entry at the end that records the operating system
/// `os`.
pub open spec fn spec_add_package(
    c: ConfigView,
    package: Seq<char>,
    pkg_man: Seq<char>,
    os: Seq<char>,
) -> ConfigView {
    match manager_position(c.managers, pkg_man) {
        Some(i) => ConfigView {
            managers: c.managers.update(
                i,
                (
                    pkg_man,
                    ManagerView {
                        os: c.managers[i].1.os,
                        packages: c.managers[i].1.packages.push(new_repo(package)),
                    },
                ),
            ),
            custom: c.custom,
        },
        None => ConfigView {
            managers: c.managers.push(
                (pkg_man, ManagerView { os: os, packages: seq![new_repo(package)] }),
            ),
            custom: c.custom,
        },
    }
}

impl Config {
    /// The configuration is well formed: each package manager is named once.
    pub open spec fn wf(&self) -> bool {
        names_distinct(self@.managers)
    }

    /// An empty configuration.
    pub fn new() -> (r: Self)
        ensures
            r@.managers.len() == 0,
            r@.custom.len() == 0,
            r.wf(),
    {
        Self { package_managers: Vec::new(), custom_packages: Vec::new() }
    }

    /// The position of the package manager `name` in `package_managers`, if
    /// it is there.
    pub fn manager_index(&self, name: &str) -> (r: Option<usize>)
        ensures
            match r {
                Some(i) => manager_position(self@.managers, name@) == Some(i as int),
                None => manager_position(self@.managers, name@) is None,
            },
    {
        let ghost ms = self@.managers;
        let n = self.package_managers.len();
        let mut i: usize = 0;
        while i < n
            invariant
                i <= n,
                n == self.package_managers@.len(),
                ms == self@.managers,
                forall|j: int| 0 <= j < i ==> ms[j].0 != name@,
            decreases n - i,
        {
            if is_word(&self.package_managers[i].0, name) {
                proof {
                    assert(is_first_index(ms, name@, i as int));
                    let k = choose|k: int| is_first_index(ms, name@, k);
                    lemma_first_index_unique(ms, name@, i as int, k);
                }
                return Some(i);
            }
            i = i + 1;
        }
        proof {
            assert forall|k: int| !is_first_index(ms, name@, k) by {
                if is_first_index(ms, name@, k) {
                    assert(ms[k].0 == name@);
                }
            }
        }
        None
    }

    /// Adds `package` to the packages of `pkg_man`, creating an entry for
    /// `pkg_man` (which records the operating system `os`) when there is none.
    pub fn add_package(&mut self, package: &str, pkg_man: &str, os: &str)
        ensures
            final(self)@ == spec_add_package(old(self)@, package@, pkg_man@, os@),
            old(self).wf() ==> final(self).wf(),
    {
        let repo = RepoPackage { name: owned(package), version: None, repo_name: owned(package) };
        match self.manager_index(pkg_man) {
            Some(i) => {
                let ghost before = self@;
                self.package_managers[i].1.packages.push(repo);
                proof {
                    let e = self.package_managers@[i as int];
                    assert(e.1.packages@.map_values(|p: RepoPackage| p@) =~= before.managers[i as int].1.packages.push(new_repo(package@)));
                    assert(e.0@ == pkg_man@);
                    assert(e.1.os@ == before.managers[i as int].1.os);
                    assert(self@.managers =~= before.managers.update(
                        i as int,
                        (
                            pkg_man@,
                            ManagerView {
                                os: before.managers[i as int].1.os,
                                packages: before.managers[i as int].1.packages.push(
                                    new_repo(package@),
                                ),
                            },
                        ),
                    ));
                }
            },
            None => {
                let ghost before = self@;
                let entry = PackageManager { os: owned(os), packages: vec![repo] };
                self.package_managers.push((owned(pkg_man), entry));
                proof {
                    assert(self@.managers[before.managers.len() as int].1.packages =~= seq![
                        new_repo(package@),
                    ]);
                    assert(self@.managers =~= before.managers.push(
                        (pkg_man@, ManagerView { os: os@, packages: seq![new_repo(package@)] }),
                    ));
                    if old(self).wf() {
                        assert forall|j: int| 0 <= j < before.managers.len() implies before.managers[j].0
                            != pkg_man@ by {
                            if before.managers[j].0 == pkg_man@ {
                                lemma_first_index_exists(before.managers, pkg_man@, j);
                            }
                        }
                    }
                }
            },
        }
    }
}


/// A name that occurs has a first position.
pub proof fn lemma_first_index_exists(ms: Seq<(Seq<char>, ManagerView)>, name: Seq<char>, j: int)
    requires
        0 <= j < ms.len(),
        ms[j].0 == name,
    ensures
        exists|i: int| is_first_index(ms, name, i),
    decreases j,
{
    if forall|k: int| 0 <= k < j ==> ms[k].0 != name {
        assert(is_first_index(ms, name, j));
    } else {
        let k = choose|k: int| 0 <= k < j && ms[k].0 == name;
        lemma_first_index_exists(ms, name, k);
    }
}

/// Law: adding a package keeps everything that was there: every package
/// manager keeps its name, its operating system and its packages in order,
/// and the custom packages are unchanged; the package manager `pkg_man` is
/// then there, with `package` as its last package; and no name occurs twice
/// if none did before.
pub proof fn law_add_package_keeps_configuration(
    c: ConfigView,
    package: Seq<char>,
    pkg_man: Seq<char>,
    os: Seq<char>,
)
    ensures
        ({
            let d = spec_add_package(c, package, pkg_man, os);
            &&& d.custom == c.custom
            &&& c.managers.len() <= d.managers.len() <= c.managers.len() + 1
            &&& forall|j: int|
                0 <= j < c.managers.len() ==> {
                    &&& (#[trigger] d.managers[j]).0 == c.managers[j].0
                    &&& d.managers[j].1.os == c.managers[j].1.os
                    &&& d.managers[j].1.packages.take(c.managers[j].1.packages.len() as int)
                        == c.managers[j].1.packages
                }
            &&& manager_position(d.managers, pkg_man) matches Some(i) && d.managers[i].1.packages.last()
                == new_repo(package)
            &&& names_distinct(c.managers) ==> names_distinct(d.managers)
        }),
{
    let d = spec_add_package(c, package, pkg_man, os);
    match manager_position(c.managers, pkg_man) {
        Some(i) => {
            assert(is_first_index(c.managers, pkg_man, i));
            assert(is_first_index(d.managers, pkg_man, i));
            let k = choose|k: int| is_first_index(d.managers, pkg_man, k);
            lemma_first_index_unique(d.managers, pkg_man, i, k);
            assert(d.managers[i].1.packages.take(c.managers[i].1.packages.len() as int)
                =~= c.managers[i].1.packages);
            assert forall|j: int| 0 <= j < c.managers.len() implies {
                &&& (#[trigger] d.managers[j]).0 == c.managers[j].0
                &&& d.managers[j].1.os == c.managers[j].1.os
                &&& d.managers[j].1.packages.take(c.managers[j].1.packages.len() as int)
                    == c.managers[j].1.packages
            } by {
                if j != i {
                    assert(d.managers[j] == c.managers[j]);
                    assert(c.managers[j].1.packages.take(c.managers[j].1.packages.len() as int)
                        =~= c.managers[j].1.packages);
                }
            }
        },
        None => {
            let n = c.managers.len() as int;
            assert forall|j: int| 0 <= j < n implies c.managers[j].0 != pkg_man by {
                if c.managers[j].0 == pkg_man {
                    lemma_first_index_exists(c.managers, pkg_man, j);
                }
            }
            assert(is_first_index(d.managers, pkg_man, n));
            let k = choose|k: int| is_first_index(d.managers, pkg_man, k);
            lemma_first_index_unique(d.managers, pkg_man, n, k);
            assert forall|j: int| 0 <= j < c.managers.len() implies {
                &&& (#[trigger] d.managers[j]).0 == c.managers[j].0
                &&& d.managers[j].1.os == c.managers[j].1.os
                &&& d.managers[j].1.packages.take(c.managers[j].1.packages.len() as int)
                    == c.managers[j].1.packages
            } by {
                assert(d.managers[j] == c.managers[j]);
                assert(c.managers[j].1.packages.take(c.managers[j].1.packages.len() as int)
                    =~= c.managers[j].1.packages);
            }
        },
    }
}


/// Law: adding a package under a package manager that the configuration
/// does not have appends one entry at the end, named `pkg_man`, which
/// records the given operating system `os` and holds only that package;
/// adding it under a package manager that is there records no operating
/// system and adds no entry.
pub proof fn law_new_manager_records_given_os(
    c: ConfigView,
    package: Seq<char>,
    pkg_man: Seq<char>,
    os: Seq<char>,
)
    ensures
        ({
            let d = spec_add_package(c, package, pkg_man, os);
            let repo = RepoView { name: package, version: None, repo_name: package };
            &&& (forall|j: int| 0 <= j < c.managers.len() ==> c.managers[j].0 != pkg_man) ==> {
                &&& d.managers.len() == c.managers.len() + 1
                &&& d.managers.last() == (pkg_man, ManagerView { os: os, packages: seq![repo] })
            }
            &&& (exists|j: int| 0 <= j < c.managers.len() && c.managers[j].0 == pkg_man) ==> {
                &&& d.managers.len() == c.managers.len()
                &&& forall|j: int|
                    0 <= j < c.managers.len() ==> (#[trigger] d.managers[j]).1.os == c.managers[j].1.os
            }
        }),
{
    let d = spec_add_package(c, package, pkg_man, os);
    if forall|j: int| 0 <= j < c.managers.len() ==> c.managers[j].0 != pkg_man {
        assert(!exists|i: int| is_first_index(c.managers, pkg_man, i));
    }
    if exists|j: int| 0 <= j < c.managers.len() && c.managers[j].0 == pkg_man {
        let j = choose|j: int| 0 <= j < c.managers.len() && c.managers[j].0 == pkg_man;
        lemma_first_index_exists(c.managers, pkg_man, j);
        law_add_package_keeps_configuration(c, package, pkg_man, os);
    }
}

} // verus!
