//! Installation of the packages of a configuration, and the installer's own
//! update, as plans of outside work.
use crate::plan::{
    append_plan, lemma_no_skips, lemma_skips_within_add, plan_view, push_action, skips_within,
    spec_next_step, spec_skip_after, Action, ActionView, Notice, NoticeView, OutcomeView,
};
use crate::text::{copy_string, owned, strings_view};
use crate::utils::config_parser::{
    manager_position, Config, ConfigView, CustomPackage, CustomView, ManagerView, PackageManager,
    RepoPackage, RepoView,
};
use vstd::prelude::*;

verus! {

/// The repository names of packages, in order.
pub open spec fn repo_names(pkgs: Seq<RepoView>) -> Seq<Seq<char>> {
    pkgs.map_values(|p: RepoView| p.repo_name)
}

/// Installing the packages of one named package manager: nothing when it
/// has no packages, else one run of the manager on all their repository
/// names.
pub open spec fn manager_job(e: (Seq<char>, ManagerView)) -> Seq<ActionView> {
    if e.1.packages.len() == 0 {
        seq![]
    } else {
        seq![ActionView::InstallManager { pkg_man: e.0, packages: repo_names(e.1.packages) }]
    }
}

/// Installing the packages of the package managers `ms`, in order.
pub open spec fn manager_jobs(ms: Seq<(Seq<char>, ManagerView)>) -> Seq<ActionView>
    decreases ms.len(),
{
    if ms.len() == 0 {
        seq![]
    } else {
        manager_jobs(ms.drop_last()) + manager_job(ms.last())
    }
}

/// The install steps of a custom package, numbered from 1.
pub open spec fn install_steps_plan(steps: Seq<Seq<char>>) -> Seq<ActionView> {
    Seq::new(
        steps.len(),
        |k: int| ActionView::InstallStep { cmd: steps[k], number: (k + 1) as nat, total: steps.len() },
    )
}

/// The post-install commands of a custom package.
pub open spec fn post_install_plan(cmds: Seq<Seq<char>>) -> Seq<ActionView> {
    Seq::new(cmds.len(), |k: int| ActionView::PostInstall { cmd: cmds[k] })
}

/// Installing one custom package: announce it, run its install steps, then
/// its post-install commands.
pub open spec fn custom_package_plan(p: CustomView) -> Seq<ActionView> {
    seq![ActionView::Say(NoticeView::InstallingCustom(p.name))] + install_steps_plan(
        p.install_steps,
    ) + post_install_plan(p.post_install)
}

/// Installing the custom packages `ps`, in order.
pub open spec fn custom_plan(ps: Seq<CustomView>) -> Seq<ActionView>
    decreases ps.len(),
{
    if ps.len() == 0 {
        seq![]
    } else {
        custom_plan(ps.drop_last()) + custom_package_plan(ps.last())
    }
}

/// Installing everything in the configuration `c`: the packages of every
/// package manager, then the custom packages.
pub open spec fn install_all_plan(c: ConfigView) -> Seq<ActionView> {
    manager_jobs(c.managers) + custom_plan(c.custom)
}

/// Installing the packages of the package manager `name` only.
pub open spec fn install_pkg_man_plan(c: ConfigView, name: Seq<char>) -> Seq<ActionView> {
    match manager_position(c.managers, name) {
        Some(i) => manager_job(c.managers[i]),
        None => seq![ActionView::Say(NoticeView::ManagerNotFound(name))],
    }
}

/// Updating the installer: enter its source directory, pull, build the
/// release binary, copy it to its destination, and return.
pub open spec fn self_install_plan() -> Seq<ActionView> {
    seq![
        ActionView::EnterInstallDir,
        ActionView::PullSources,
        ActionView::BuildRelease,
        ActionView::CopyBinary,
        ActionView::ReturnToStartDir,
    ]
}

/// Installs the packages of a configuration.
pub struct Executor<'a> {
    config: &'a Config,
}

/// The repository names of `pkgs`.
fn repo_name_list(pkgs: &Vec<RepoPackage>) -> (r: Vec<String>)
    ensures
        strings_view(r@) == repo_names(pkgs@.map_values(|p: RepoPackage| p@)),
{
    let ghost model = pkgs@.map_values(|p: RepoPackage| p@);
    let mut r: Vec<String> = Vec::new();
    let mut i: usize = 0;
    while i < pkgs.len()
        invariant
            i <= pkgs@.len(),
            r@.len() == i,
            model == pkgs@.map_values(|p: RepoPackage| p@),
            strings_view(r@) == repo_names(model).take(i as int),
        decreases pkgs@.len() - i,
    {
        let ghost before = r@;
        r.push(copy_string(&pkgs[i].repo_name));
        proof {
            assert(r@ == before.push(r@[i as int]));
            assert(strings_view(r@) =~= repo_names(model).take(i + 1));
        }
        i = i + 1;
    }
    proof {
        assert(repo_names(model).take(i as int) =~= repo_names(model));
    }
    r
}

/// The plan of installing the packages of the manager `name`.
fn manager_job_plan(name: &String, pm: &PackageManager) -> (r: Vec<Action>)
    ensures
        plan_view(r@) == manager_job((name@, pm@)),
{
    let mut r: Vec<Action> = Vec::new();
    if pm.packages.len() == 0 {
        proof {
            assert(plan_view(r@) =~= seq![]);
        }
        return r;
    }
    let packages = repo_name_list(&pm.packages);
    let ghost before = r@;
    push_action(&mut r, Action::InstallManager { pkg_man: copy_string(name), packages });
    proof {
        assert(plan_view(r@) =~= manager_job((name@, pm@)));
    }
    r
}

/// The plan of installing one custom package.
fn custom_package_actions(p: &CustomPackage) -> (r: Vec<Action>)
    ensures
        plan_view(r@) == custom_package_plan(p@),
{
    let mut r: Vec<Action> = Vec::new();
    push_action(&mut r, Action::Say(Notice::InstallingCustom(copy_string(&p.name))));
    let total = p.install_steps.len();
    let ghost steps = p@.install_steps;
    let ghost head = seq![ActionView::Say(NoticeView::InstallingCustom(p@.name))];
    let mut k: usize = 0;
    while k < total
        invariant
            k <= total,
            total == p.install_steps@.len(),
            steps == p@.install_steps,
            plan_view(r@) == head + install_steps_plan(steps).take(k as int),
        decreases total - k,
    {
        push_action(
            &mut r,
            Action::InstallStep { cmd: copy_string(&p.install_steps[k]), number: k + 1, total },
        );
        proof {
            assert(install_steps_plan(steps).take(k + 1) =~= install_steps_plan(steps).take(
                k as int,
            ).push(install_steps_plan(steps)[k as int]));
        }
        k = k + 1;
    }
    proof {
        assert(install_steps_plan(steps).take(k as int) =~= install_steps_plan(steps));
    }
    let ghost mid = plan_view(r@);
    let ghost post = p@.post_install;
    let mut j: usize = 0;
    while j < p.post_install.len()
        invariant
            j <= p.post_install@.len(),
            post == p@.post_install,
            plan_view(r@) == mid + post_install_plan(post).take(j as int),
        decreases p.post_install@.len() - j,
    {
        push_action(&mut r, Action::PostInstall { cmd: copy_string(&p.post_install[j]) });
        proof {
            assert(post_install_plan(post).take(j + 1) =~= post_install_plan(post).take(
                j as int,
            ).push(post_install_plan(post)[j as int]));
        }
        j = j + 1;
    }
    proof {
        assert(post_install_plan(post).take(j as int) =~= post_install_plan(post));
    }
    r
}

impl<'a> Executor<'a> {
    /// The configuration this executor installs from.
    pub closed spec fn config(&self) -> ConfigView {
        self.config@
    }

    /// An executor for the configuration `config`.
    pub fn new(config: &'a Config) -> (r: Self)
        ensures
            r.config() == config@,
    {
        Self { config }
    }

    /// The plan of installing everything in the configuration: each package
    /// manager with packages runs once on all of them, in order, then the
    /// custom packages are installed.
    pub fn install_all(&self) -> (plan: Vec<Action>)
        ensures
            plan_view(plan@) == install_all_plan(self.config()),
    {
        let ghost ms = self.config@.managers;
        let mut plan: Vec<Action> = Vec::new();
        let n = self.config.package_managers.len();
        let mut i: usize = 0;
        while i < n
            invariant
                i <= n,
                n == self.config.package_managers@.len(),
                ms == self.config@.managers,
                plan_view(plan@) == manager_jobs(ms.take(i as int)),
            decreases n - i,
        {
            let entry = &self.config.package_managers[i];
            let job = manager_job_plan(&entry.0, &entry.1);
            append_plan(&mut plan, job);
            proof {
                assert(ms.take(i + 1).drop_last() =~= ms.take(i as int));
                assert(ms.take(i + 1).last() == ms[i as int]);
            }
            i = i + 1;
        }
        proof {
            assert(ms.take(i as int) =~= ms);
        }
        let custom = self.install_custom_packages();
        append_plan(&mut plan, custom);
        plan
    }

    /// The plan of installing the packages of the package manager `pkg_man`
    /// only: nothing when it has no packages, and a notice when the
    /// configuration does not have it.
    pub fn install_pkg_man(&self, pkg_man: &str) -> (plan: Vec<Action>)
        ensures
            plan_view(plan@) == install_pkg_man_plan(self.config(), pkg_man@),
    {
        match self.config.manager_index(pkg_man) {
            Some(i) => {
                let entry = &self.config.package_managers[i];
                manager_job_plan(&entry.0, &entry.1)
            },
            None => {
                let mut plan: Vec<Action> = Vec::new();
                push_action(&mut plan, Action::Say(Notice::ManagerNotFound(owned(pkg_man))));
                proof {
                    assert(plan_view(plan@) =~= seq![
                        ActionView::Say(NoticeView::ManagerNotFound(pkg_man@)),
                    ]);
                }
                plan
            },
        }
    }

    /// The plan of installing the custom packages, in order: each is
    /// announced, then its install steps run (a step that cannot run ends the
    /// steps of its package), then its post-install commands.
    pub fn install_custom_packages(&self) -> (plan: Vec<Action>)
        ensures
            plan_view(plan@) == custom_plan(self.config().custom),
    {
        let ghost ps = self.config@.custom;
        let mut plan: Vec<Action> = Vec::new();
        let n = self.config.custom_packages.len();
        let mut i: usize = 0;
        while i < n
            invariant
                i <= n,
                n == self.config.custom_packages@.len(),
                ps == self.config@.custom,
                plan_view(plan@) == custom_plan(ps.take(i as int)),
            decreases n - i,
        {
            let actions = custom_package_actions(&self.config.custom_packages[i]);
            append_plan(&mut plan, actions);
            proof {
                assert(ps.take(i + 1).drop_last() =~= ps.take(i as int));
                assert(ps.take(i + 1).last() == ps[i as int]);
            }
            i = i + 1;
        }
        proof {
            assert(ps.take(i as int) =~= ps);
        }
        plan
    }

    /// The plan of updating the installer from its sources.
    pub fn self_install() -> (plan: Vec<Action>)
        ensures
            plan_view(plan@) == self_install_plan(),
    {
        let plan = vec![
            Action::EnterInstallDir,
            Action::PullSources,
            Action::BuildRelease,
            Action::CopyBinary,
            Action::ReturnToStartDir,
        ];
        proof {
            assert(plan_view(plan@) =~= self_install_plan());
        }
        plan
    }
}


/// The plan of installing one custom package has its skips inside it.
pub proof fn lemma_custom_package_skips_within(p: CustomView)
    ensures
        skips_within(custom_package_plan(p)),
{
    let plan = custom_package_plan(p);
    let n = p.install_steps.len();
    assert forall|i: int, o: OutcomeView| 0 <= i < plan.len() implies i + 1
        + #[trigger] spec_skip_after(plan[i], o) <= plan.len() by {
        if 1 <= i <= n {
            assert(plan[i] == install_steps_plan(p.install_steps)[i - 1]);
        } else if i > n {
            assert(plan[i] == post_install_plan(p.post_install)[i - 1 - n]);
        }
    }
}

/// The plan of installing custom packages has its skips inside it.
pub proof fn lemma_custom_plan_skips_within(ps: Seq<CustomView>)
    ensures
        skips_within(custom_plan(ps)),
    decreases ps.len(),
{
    if ps.len() > 0 {
        lemma_custom_plan_skips_within(ps.drop_last());
        lemma_custom_package_skips_within(ps.last());
        lemma_skips_within_add(custom_plan(ps.drop_last()), custom_package_plan(ps.last()));
    }
}

/// Running package managers never skips.
pub proof fn lemma_manager_jobs_skips_within(ms: Seq<(Seq<char>, ManagerView)>)
    ensures
        skips_within(manager_jobs(ms)),
    decreases ms.len(),
{
    if ms.len() > 0 {
        lemma_manager_jobs_skips_within(ms.drop_last());
        lemma_no_skips(manager_job(ms.last()));
        lemma_skips_within_add(manager_jobs(ms.drop_last()), manager_job(ms.last()));
    }
}

/// Law: carrying out the plan of installing a configuration never jumps
/// past its end, whatever the outcomes.
pub proof fn law_install_all_skips_within(c: ConfigView)
    ensures
        skips_within(install_all_plan(c)),
{
    lemma_manager_jobs_skips_within(c.managers);
    lemma_custom_plan_skips_within(c.custom);
    lemma_skips_within_add(manager_jobs(c.managers), custom_plan(c.custom));
}

/// Law: carrying out the plan of updating the installer never jumps past
/// its end, whatever the outcomes.
pub proof fn law_self_install_skips_within()
    ensures
        skips_within(self_install_plan()),
{
    let plan = self_install_plan();
    assert forall|i: int, o: OutcomeView| 0 <= i < plan.len() implies i + 1
        + #[trigger] spec_skip_after(plan[i], o) <= plan.len() by {
    }
}

/// Law: an install step of a custom package that cannot be run ends the
/// install steps of that package: wherever the package's plan stands in a
/// larger plan, the run goes on with its first post-install command (or
/// with what follows the package, when it has none). An install step that
/// runs, successfully or not, is followed by the next action.
pub proof fn law_failed_step_goes_to_post_install(
    pre: Seq<ActionView>,
    p: CustomView,
    post: Seq<ActionView>,
    k: int,
    o: OutcomeView,
)
    requires
        0 <= k < p.install_steps.len(),
    ensures
        ({
            let plan = pre + custom_package_plan(p) + post;
            let at = pre.len() + 1 + k;
            &&& plan[at] == ActionView::InstallStep {
                cmd: p.install_steps[k],
                number: (k + 1) as nat,
                total: p.install_steps.len(),
            }
            &&& o is Error ==> spec_next_step(plan, at, o) == pre.len() + 1 + p.install_steps.len()
            &&& !(o is Error) ==> spec_next_step(plan, at, o) == at + 1
            &&& p.post_install.len() > 0 ==> plan[(pre.len() + 1 + p.install_steps.len()) as int]
                == ActionView::PostInstall { cmd: p.post_install[0] }
        }),
{
    let plan = pre + custom_package_plan(p) + post;
    let at = pre.len() + 1 + k;
    let cp = custom_package_plan(p);
    assert(plan[at] == cp[1 + k]);
    assert(cp[1 + k] == install_steps_plan(p.install_steps)[k]);
    if p.post_install.len() > 0 {
        assert(plan[(pre.len() + 1 + p.install_steps.len()) as int] == cp[(1 + p.install_steps.len()) as int]);
        assert(cp[(1 + p.install_steps.len()) as int] == post_install_plan(p.post_install)[0]);
    }
}


/// Whether a named package manager has packages to install.
pub open spec fn has_packages(e: (Seq<char>, ManagerView)) -> bool {
    e.1.packages.len() > 0
}

/// The run of a named package manager on all its packages.
pub open spec fn manager_run(e: (Seq<char>, ManagerView)) -> ActionView {
    ActionView::InstallManager { pkg_man: e.0, packages: repo_names(e.1.packages) }
}

/// Law: installing the package managers of a configuration runs each
/// package manager that has packages exactly once, on all its packages, in
/// the order of the configuration, and runs no other.
pub proof fn law_each_manager_runs_once(ms: Seq<(Seq<char>, ManagerView)>)
    ensures
        manager_jobs(ms) == ms.filter(|e: (Seq<char>, ManagerView)| has_packages(e)).map_values(
            |e: (Seq<char>, ManagerView)| manager_run(e),
        ),
    decreases ms.len(),
{
    let pred = |e: (Seq<char>, ManagerView)| has_packages(e);
    let run = |e: (Seq<char>, ManagerView)| manager_run(e);
    reveal_with_fuel(Seq::<_>::filter, 1);
    if ms.len() == 0 {
        assert(ms.filter(pred) =~= Seq::<(Seq<char>, ManagerView)>::empty());
        assert(ms.filter(pred).map_values(run) =~= Seq::<ActionView>::empty());
    } else {
        law_each_manager_runs_once(ms.drop_last());
        let sub = ms.drop_last().filter(pred);
        if has_packages(ms.last()) {
            assert(ms.filter(pred) == sub.push(ms.last()));
            assert(sub.push(ms.last()).map_values(run) =~= sub.map_values(run).push(run(ms.last())));
            assert(manager_job(ms.last()) =~= seq![manager_run(ms.last())]);
            assert(manager_jobs(ms) =~= sub.map_values(run).push(run(ms.last())));
        } else {
            assert(ms.filter(pred) == sub);
            assert(manager_jobs(ms) =~= manager_jobs(ms.drop_last()));
        }
    }
}


/// The position in `manager_jobs(ms)` of the run of the package manager at
/// `j`, which has packages.
pub proof fn lemma_manager_run_position(ms: Seq<(Seq<char>, ManagerView)>, j: int) -> (i: int)
    requires
        0 <= j < ms.len(),
        ms[j].1.packages.len() > 0,
    ensures
        0 <= i < manager_jobs(ms).len(),
        manager_jobs(ms)[i] == (ActionView::InstallManager {
            pkg_man: ms[j].0,
            packages: ms[j].1.packages.map_values(|r: RepoView| r.repo_name),
        }),
    decreases ms.len(),
{
    let front = manager_jobs(ms.drop_last());
    if j == ms.len() - 1 {
        front.len() as int
    } else {
        assert(ms.drop_last()[j] == ms[j]);
        let i = lemma_manager_run_position(ms.drop_last(), j);
        assert((front + manager_job(ms.last()))[i] == front[i]);
        i
    }
}

/// The position in `custom_plan(ps)` where the custom package at `p`
/// begins.
pub proof fn lemma_custom_package_position(ps: Seq<CustomView>, p: int) -> (i: int)
    requires
        0 <= p < ps.len(),
    ensures
        0 <= i,
        i + custom_package_plan(ps[p]).len() <= custom_plan(ps).len(),
        forall|k: int|
            0 <= k < custom_package_plan(ps[p]).len() ==> custom_plan(ps)[i + k]
                == #[trigger] custom_package_plan(ps[p])[k],
    decreases ps.len(),
{
    let front = custom_plan(ps.drop_last());
    let whole = front + custom_package_plan(ps.last());
    if p == ps.len() - 1 {
        let i = front.len() as int;
        assert forall|k: int| 0 <= k < custom_package_plan(ps[p]).len() implies custom_plan(ps)[i + k]
            == #[trigger] custom_package_plan(ps[p])[k] by {
            assert(whole[i + k] == custom_package_plan(ps.last())[k]);
        }
        i
    } else {
        assert(ps.drop_last()[p] == ps[p]);
        let i = lemma_custom_package_position(ps.drop_last(), p);
        assert forall|k: int| 0 <= k < custom_package_plan(ps[p]).len() implies custom_plan(ps)[i + k]
            == #[trigger] custom_package_plan(ps[p])[k] by {
            assert(whole[i + k] == front[i + k]);
        }
        i
    }
}


/// Law: updating the installer copies the binary only after a successful
/// build: a build that fails or cannot run goes straight to returning to
/// the start directory, and a successful one goes on to the copy.
pub proof fn law_failed_build_skips_copy(o: OutcomeView)
    ensures
        self_install_plan()[2] == ActionView::BuildRelease,
        self_install_plan()[3] == ActionView::CopyBinary,
        self_install_plan()[4] == ActionView::ReturnToStartDir,
        o is Success ==> spec_next_step(self_install_plan(), 2, o) == 3,
        !(o is Success) ==> spec_next_step(self_install_plan(), 2, o) == 4,
{
}

/// Law: updating the installer returns to the start directory when the
/// sources cannot be pulled, and stops at once when the installation
/// directory cannot be entered.
pub proof fn law_failed_pull_or_enter_stops_update(o: OutcomeView)
    ensures
        self_install_plan()[0] == ActionView::EnterInstallDir,
        self_install_plan()[1] == ActionView::PullSources,
        o is Success ==> spec_next_step(self_install_plan(), 0, o) == 1,
        !(o is Success) ==> spec_next_step(self_install_plan(), 0, o) == 5,
        o is Error ==> spec_next_step(self_install_plan(), 1, o) == 4,
        !(o is Error) ==> spec_next_step(self_install_plan(), 1, o) == 2,
{
}

} // verus!
