//! Plans of outside work.
//!
//! Every operation of the installer that touches the outside world (running
//! a package manager or a shell command, changing directory, building or
//! copying the binary, printing) is described here as a list of [`Action`]s.
//! Whoever carries out a plan performs the action at the current position,
//! prints its [`Action::announcement`] before and its [`report`] after, and
//! moves on to [`next_step`], which is where the outcome of the action decides
//! what is left out.
use crate::text::{copy_string, strings_view};
use vstd::prelude::*;

verus! {

/// How an action that the outside world carried out ended.
#[derive(Debug)]
pub enum Outcome {
    /// The action ran and succeeded.
    Success,
    /// The action ran and exited unsuccessfully, with this status.
    Failure(String),
    /// The action could not be carried out, with this error.
    Error(String),
}

/// A message for the user. Its exact wording is rendered by whoever prints
/// it.
#[derive(Debug)]
pub enum Notice {
    /// An illegal package source was given with `-p`.
    IllegalSource(String),
    /// An illegal option was met on the command line.
    IllegalOption(String),
    /// The help table is about to be printed.
    PrintingHelp,
    /// The single package install succeeded.
    SingleInstallDone,
    /// The single package install exited with this status.
    SingleInstallStatus(String),
    /// The single package install could not run.
    SingleInstallFailed(String),
    /// An install from the configuration was asked for without one.
    NoConfig,
    /// The command given with `-c` could not run.
    CustomCommandFailed(String),
    /// The package manager installed all its packages.
    ManagerInstalled(String),
    /// The package manager (first) exited with the status (second).
    ManagerStatus(String, String),
    /// The package manager (first) could not run (second is the error).
    ManagerFailed(String, String),
    /// The package manager is not in the configuration.
    ManagerNotFound(String),
    /// The custom package with this name is about to be installed.
    InstallingCustom(String),
    /// Install step number (first) of (second) runs this command.
    CustomStep(usize, usize, String),
    /// An install step could not run.
    StepFailed(String),
    /// This post-install command is about to run.
    PostInstall(String),
    /// A post-install command could not run.
    PostInstallFailed(String),
    /// The installation directory could not be entered.
    ChangeDirFailed,
    /// The sources could not be pulled.
    PullFailed(String),
    /// Pulling the sources exited with this status.
    PullStatus(String),
    /// The release binary was built.
    BuildDone,
    /// Building exited with this status.
    BuildStatus(String),
    /// Building could not run.
    BuildFailed(String),
    /// The binary could not be copied.
    CopyFailed(String),
}

/// One piece of outside work.
#[derive(Debug)]
pub enum Action {
    /// Print a notice (its announcement); nothing else is carried out.
    Say(Notice),
    /// Print the help table.
    PrintHelp,
    /// Update the installer itself (see `Executor::self_install`).
    SelfUpdate,
    /// Install one package with a package manager (`-p`, `-a` and `-i`).
    InstallPackage { pkg_man: String, package: String },
    /// Install packages of the configuration with their package manager.
    InstallManager { pkg_man: String, packages: Vec<String> },
    /// Run install step `number` of `total` of a custom package.
    InstallStep { cmd: String, number: usize, total: usize },
    /// Run a post-install command of a custom package.
    PostInstall { cmd: String },
    /// Run the command given with `-c`.
    CustomCommand { cmd: String },
    /// Add a package to the configuration, under a package manager.
    AddPackage { package: String, pkg_man: String },
    /// Change to the directory that holds the installer's sources.
    EnterInstallDir,
    /// Pull the newest sources.
    PullSources,
    /// Build the release binary.
    BuildRelease,
    /// Copy the built binary to its destination.
    CopyBinary,
    /// Change back to the directory the update started from.
    ReturnToStartDir,
}

/// Model of an [`Outcome`].
pub enum OutcomeView {
    Success,
    Failure(Seq<char>),
    Error(Seq<char>),
}

/// Model of a [`Notice`].
pub enum NoticeView {
    IllegalSource(Seq<char>),
    IllegalOption(Seq<char>),
    PrintingHelp,
    SingleInstallDone,
    SingleInstallStatus(Seq<char>),
    SingleInstallFailed(Seq<char>),
    NoConfig,
    CustomCommandFailed(Seq<char>),
    ManagerInstalled(Seq<char>),
    ManagerStatus(Seq<char>, Seq<char>),
    ManagerFailed(Seq<char>, Seq<char>),
    ManagerNotFound(Seq<char>),
    InstallingCustom(Seq<char>),
    CustomStep(nat, nat, Seq<char>),
    StepFailed(Seq<char>),
    PostInstall(Seq<char>),
    PostInstallFailed(Seq<char>),
    ChangeDirFailed,
    PullFailed(Seq<char>),
    PullStatus(Seq<char>),
    BuildDone,
    BuildStatus(Seq<char>),
    BuildFailed(Seq<char>),
    CopyFailed(Seq<char>),
}

/// Model of an [`Action`].
pub enum ActionView {
    Say(NoticeView),
    PrintHelp,
    SelfUpdate,
    InstallPackage { pkg_man: Seq<char>, package: Seq<char> },
    InstallManager { pkg_man: Seq<char>, packages: Seq<Seq<char>> },
    InstallStep { cmd: Seq<char>, number: nat, total: nat },
    PostInstall { cmd: Seq<char> },
    CustomCommand { cmd: Seq<char> },
    AddPackage { package: Seq<char>, pkg_man: Seq<char> },
    EnterInstallDir,
    PullSources,
    BuildRelease,
    CopyBinary,
    ReturnToStartDir,
}

impl View for Outcome {
    type V = OutcomeView;

    open spec fn view(&self) -> OutcomeView {
        match self {
            Outcome::Success => OutcomeView::Success,
            Outcome::Failure(s) => OutcomeView::Failure(s@),
            Outcome::Error(e) => OutcomeView::Error(e@),
        }
    }
}

impl View for Notice {
    type V = NoticeView;

    open spec fn view(&self) -> NoticeView {
        match self {
            Notice::IllegalSource(s) => NoticeView::IllegalSource(s@),
            Notice::IllegalOption(s) => NoticeView::IllegalOption(s@),
            Notice::PrintingHelp => NoticeView::PrintingHelp,
            Notice::SingleInstallDone => NoticeView::SingleInstallDone,
            Notice::SingleInstallStatus(s) => NoticeView::SingleInstallStatus(s@),
            Notice::SingleInstallFailed(s) => NoticeView::SingleInstallFailed(s@),
            Notice::NoConfig => NoticeView::NoConfig,
            Notice::CustomCommandFailed(s) => NoticeView::CustomCommandFailed(s@),
            Notice::ManagerInstalled(s) => NoticeView::ManagerInstalled(s@),
            Notice::ManagerStatus(a, b) => NoticeView::ManagerStatus(a@, b@),
            Notice::ManagerFailed(a, b) => NoticeView::ManagerFailed(a@, b@),
            Notice::ManagerNotFound(s) => NoticeView::ManagerNotFound(s@),
            Notice::InstallingCustom(s) => NoticeView::InstallingCustom(s@),
            Notice::CustomStep(i, n, s) => NoticeView::CustomStep(*i as nat, *n as nat, s@),
            Notice::StepFailed(s) => NoticeView::StepFailed(s@),
            Notice::PostInstall(s) => NoticeView::PostInstall(s@),
            Notice::PostInstallFailed(s) => NoticeView::PostInstallFailed(s@),
            Notice::ChangeDirFailed => NoticeView::ChangeDirFailed,
            Notice::PullFailed(s) => NoticeView::PullFailed(s@),
            Notice::PullStatus(s) => NoticeView::PullStatus(s@),
            Notice::BuildDone => NoticeView::BuildDone,
            Notice::BuildStatus(s) => NoticeView::BuildStatus(s@),
            Notice::BuildFailed(s) => NoticeView::BuildFailed(s@),
            Notice::CopyFailed(s) => NoticeView::CopyFailed(s@),
        }
    }
}

impl View for Action {
    type V = ActionView;

    open spec fn view(&self) -> ActionView {
        match self {
            Action::Say(n) => ActionView::Say(n@),
            Action::PrintHelp => ActionView::PrintHelp,
            Action::SelfUpdate => ActionView::SelfUpdate,
            Action::InstallPackage { pkg_man, package } => ActionView::InstallPackage {
                pkg_man: pkg_man@,
                package: package@,
            },
            Action::InstallManager { pkg_man, packages } => ActionView::InstallManager {
                pkg_man: pkg_man@,
                packages: strings_view(packages@),
            },
            Action::InstallStep { cmd, number, total } => ActionView::InstallStep {
                cmd: cmd@,
                number: *number as nat,
                total: *total as nat,
            },
            Action::PostInstall { cmd } => ActionView::PostInstall { cmd: cmd@ },
            Action::CustomCommand { cmd } => ActionView::CustomCommand { cmd: cmd@ },
            Action::AddPackage { package, pkg_man } => ActionView::AddPackage {
                package: package@,
                pkg_man: pkg_man@,
            },
            Action::EnterInstallDir => ActionView::EnterInstallDir,
            Action::PullSources => ActionView::PullSources,
            Action::BuildRelease => ActionView::BuildRelease,
            Action::CopyBinary => ActionView::CopyBinary,
            Action::ReturnToStartDir => ActionView::ReturnToStartDir,
        }
    }
}

/// The models of a plan.
pub open spec fn plan_view(plan: Seq<Action>) -> Seq<ActionView> {
    plan.map_values(|a: Action| a@)
}

/// The models of a concatenation of plans are the concatenation of their
/// models.
pub proof fn lemma_plan_view_add(a: Seq<Action>, b: Seq<Action>)
    ensures
        plan_view(a + b) == plan_view(a) + plan_view(b),
{
    assert(plan_view(a + b) =~= plan_view(a) + plan_view(b));
}

/// Appends the actions of `more` to `plan`.
pub fn append_plan(plan: &mut Vec<Action>, more: Vec<Action>)
    ensures
        plan_view(final(plan)@) == plan_view(old(plan)@) + plan_view(more@),
{
    let mut more = more;
    let ghost m = more@;
    plan.append(&mut more);
    proof {
        lemma_plan_view_add(old(plan)@, m);
    }
}

/// Appends `action` to `plan`.
pub fn push_action(plan: &mut Vec<Action>, action: Action)
    ensures
        plan_view(final(plan)@) == plan_view(old(plan)@).push(action@),
{
    plan.push(action);
    proof {
        assert(plan_view(plan@) =~= plan_view(old(plan)@).push(action@));
    }
}

/// The notice printed before an action is carried out, if any.
pub open spec fn spec_announcement(a: ActionView) -> Option<NoticeView> {
    match a {
        ActionView::InstallStep { cmd, number, total } => Some(
            NoticeView::CustomStep(number, total, cmd),
        ),
        ActionView::PostInstall { cmd } => Some(NoticeView::PostInstall(cmd)),
        ActionView::Say(n) => Some(n),
        _ => None,
    }
}

/// The notice printed after an action was carried out with outcome `o`, if
/// any.
pub open spec fn spec_report(a: ActionView, o: OutcomeView) -> Option<NoticeView> {
    match a {
        ActionView::Say(n) => None,
        ActionView::InstallPackage { .. } => match o {
            OutcomeView::Success => Some(NoticeView::SingleInstallDone),
            OutcomeView::Failure(s) => Some(NoticeView::SingleInstallStatus(s)),
            OutcomeView::Error(e) => Some(NoticeView::SingleInstallFailed(e)),
        },
        ActionView::InstallManager { pkg_man, .. } => match o {
            OutcomeView::Success => Some(NoticeView::ManagerInstalled(pkg_man)),
            OutcomeView::Failure(s) => Some(NoticeView::ManagerStatus(pkg_man, s)),
            OutcomeView::Error(e) => Some(NoticeView::ManagerFailed(pkg_man, e)),
        },
        ActionView::InstallStep { .. } => match o {
            OutcomeView::Error(e) => Some(NoticeView::StepFailed(e)),
            _ => None,
        },
        ActionView::PostInstall { .. } => match o {
            OutcomeView::Error(e) => Some(NoticeView::PostInstallFailed(e)),
            _ => None,
        },
        ActionView::CustomCommand { .. } => match o {
            OutcomeView::Error(e) => Some(NoticeView::CustomCommandFailed(e)),
            _ => None,
        },
        ActionView::EnterInstallDir => match o {
            OutcomeView::Success => None,
            _ => Some(NoticeView::ChangeDirFailed),
        },
        ActionView::PullSources => match o {
            OutcomeView::Success => None,
            OutcomeView::Failure(s) => Some(NoticeView::PullStatus(s)),
            OutcomeView::Error(e) => Some(NoticeView::PullFailed(e)),
        },
        ActionView::BuildRelease => match o {
            OutcomeView::Success => Some(NoticeView::BuildDone),
            OutcomeView::Failure(s) => Some(NoticeView::BuildStatus(s)),
            OutcomeView::Error(e) => Some(NoticeView::BuildFailed(e)),
        },
        ActionView::CopyBinary => match o {
            OutcomeView::Error(e) => Some(NoticeView::CopyFailed(e)),
            _ => None,
        },
        _ => None,
    }
}

/// How many of the actions that follow `a` are left out when `a` ended with
/// outcome `o`.
///
/// A failed install step ends the install steps of its custom package (its
/// post-install commands still run). When updating the installer, a
/// directory that cannot be entered ends the update; sources that cannot be
/// pulled, or a build that does not succeed, skip to returning to the start
/// directory.
pub open spec fn spec_skip_after(a: ActionView, o: OutcomeView) -> nat {
    match a {
        ActionView::InstallStep { number, total, .. } => match o {
            OutcomeView::Error(_) => if number <= total {
                (total - number) as nat
            } else {
                0
            },
            _ => 0,
        },
        ActionView::EnterInstallDir => match o {
            OutcomeView::Success => 0,
            _ => 4,
        },
        ActionView::PullSources => match o {
            OutcomeView::Error(_) => 2,
            _ => 0,
        },
        ActionView::BuildRelease => match o {
            OutcomeView::Success => 0,
            _ => 1,
        },
        _ => 0,
    }
}

/// The position at which a plan of length `len` goes on after the action at
/// `i` ended with outcome `o`.
pub open spec fn spec_next_step(plan: Seq<ActionView>, i: int, o: OutcomeView) -> int {
    if i >= plan.len() {
        plan.len() as int
    } else {
        let j = i + 1 + spec_skip_after(plan[i], o);
        if j <= plan.len() {
            j
        } else {
            plan.len() as int
        }
    }
}

impl Notice {
    /// A copy of this notice.
    pub fn duplicate(&self) -> (r: Notice)
        ensures
            r@ == self@,
    {
        match self {
            Notice::IllegalSource(s) => Notice::IllegalSource(copy_string(s)),
            Notice::IllegalOption(s) => Notice::IllegalOption(copy_string(s)),
            Notice::PrintingHelp => Notice::PrintingHelp,
            Notice::SingleInstallDone => Notice::SingleInstallDone,
            Notice::SingleInstallStatus(s) => Notice::SingleInstallStatus(copy_string(s)),
            Notice::SingleInstallFailed(s) => Notice::SingleInstallFailed(copy_string(s)),
            Notice::NoConfig => Notice::NoConfig,
            Notice::CustomCommandFailed(s) => Notice::CustomCommandFailed(copy_string(s)),
            Notice::ManagerInstalled(s) => Notice::ManagerInstalled(copy_string(s)),
            Notice::ManagerStatus(a, b) => Notice::ManagerStatus(copy_string(a), copy_string(b)),
            Notice::ManagerFailed(a, b) => Notice::ManagerFailed(copy_string(a), copy_string(b)),
            Notice::ManagerNotFound(s) => Notice::ManagerNotFound(copy_string(s)),
            Notice::InstallingCustom(s) => Notice::InstallingCustom(copy_string(s)),
            Notice::CustomStep(i, n, s) => Notice::CustomStep(*i, *n, copy_string(s)),
            Notice::StepFailed(s) => Notice::StepFailed(copy_string(s)),
            Notice::PostInstall(s) => Notice::PostInstall(copy_string(s)),
            Notice::PostInstallFailed(s) => Notice::PostInstallFailed(copy_string(s)),
            Notice::ChangeDirFailed => Notice::ChangeDirFailed,
            Notice::PullFailed(s) => Notice::PullFailed(copy_string(s)),
            Notice::PullStatus(s) => Notice::PullStatus(copy_string(s)),
            Notice::BuildDone => Notice::BuildDone,
            Notice::BuildStatus(s) => Notice::BuildStatus(copy_string(s)),
            Notice::BuildFailed(s) => Notice::BuildFailed(copy_string(s)),
            Notice::CopyFailed(s) => Notice::CopyFailed(copy_string(s)),
        }
    }
}

impl Action {
    /// The notice to print before carrying out this action, if any.
    pub fn announcement(&self) -> (r: Option<Notice>)
        ensures
            match r {
                Some(n) => spec_announcement(self@) == Some(n@),
                None => spec_announcement(self@) is None,
            },
    {
        match self {
            Action::InstallStep { cmd, number, total } => Some(
                Notice::CustomStep(*number, *total, copy_string(cmd)),
            ),
            Action::PostInstall { cmd } => Some(Notice::PostInstall(copy_string(cmd))),
            Action::Say(n) => Some(n.duplicate()),
            _ => None,
        }
    }

    /// How many of the actions that follow this one are left out, given how
    /// it ended.
    pub fn skip_after(&self, outcome: &Outcome) -> (r: usize)
        ensures
            r as nat == spec_skip_after(self@, outcome@),
    {
        match self {
            Action::InstallStep { number, total, .. } => match outcome {
                Outcome::Error(_) => if *number <= *total {
                    *total - *number
                } else {
                    0
                },
                _ => 0,
            },
            Action::EnterInstallDir => match outcome {
                Outcome::Success => 0,
                _ => 4,
            },
            Action::PullSources => match outcome {
                Outcome::Error(_) => 2,
                _ => 0,
            },
            Action::BuildRelease => match outcome {
                Outcome::Success => 0,
                _ => 1,
            },
            _ => 0,
        }
    }
}

/// The notice to print after `action` ended with `outcome`, if any.
pub fn report(action: &Action, outcome: &Outcome) -> (r: Option<Notice>)
    ensures
        match r {
            Some(n) => spec_report(action@, outcome@) == Some(n@),
            None => spec_report(action@, outcome@) is None,
        },
{
    match action {
        Action::InstallPackage { .. } => match outcome {
            Outcome::Success => Some(Notice::SingleInstallDone),
            Outcome::Failure(s) => Some(Notice::SingleInstallStatus(copy_string(s))),
            Outcome::Error(e) => Some(Notice::SingleInstallFailed(copy_string(e))),
        },
        Action::InstallManager { pkg_man, .. } => match outcome {
            Outcome::Success => Some(Notice::ManagerInstalled(copy_string(pkg_man))),
            Outcome::Failure(s) => Some(
                Notice::ManagerStatus(copy_string(pkg_man), copy_string(s)),
            ),
            Outcome::Error(e) => Some(Notice::ManagerFailed(copy_string(pkg_man), copy_string(e))),
        },
        Action::InstallStep { .. } => match outcome {
            Outcome::Error(e) => Some(Notice::StepFailed(copy_string(e))),
            _ => None,
        },
        Action::PostInstall { .. } => match outcome {
            Outcome::Error(e) => Some(Notice::PostInstallFailed(copy_string(e))),
            _ => None,
        },
        Action::CustomCommand { .. } => match outcome {
            Outcome::Error(e) => Some(Notice::CustomCommandFailed(copy_string(e))),
            _ => None,
        },
        Action::EnterInstallDir => match outcome {
            Outcome::Success => None,
            _ => Some(Notice::ChangeDirFailed),
        },
        Action::PullSources => match outcome {
            Outcome::Success => None,
            Outcome::Failure(s) => Some(Notice::PullStatus(copy_string(s))),
            Outcome::Error(e) => Some(Notice::PullFailed(copy_string(e))),
        },
        Action::BuildRelease => match outcome {
            Outcome::Success => Some(Notice::BuildDone),
            Outcome::Failure(s) => Some(Notice::BuildStatus(copy_string(s))),
            Outcome::Error(e) => Some(Notice::BuildFailed(copy_string(e))),
        },
        Action::CopyBinary => match outcome {
            Outcome::Error(e) => Some(Notice::CopyFailed(copy_string(e))),
            _ => None,
        },
        _ => None,
    }
}

/// The position at which `plan` goes on after the action at position `i`
/// ended with `outcome`: the next one, past the actions that the outcome
/// leaves out, and never past the end of the plan.
pub fn next_step(plan: &Vec<Action>, i: usize, outcome: &Outcome) -> (r: usize)
    ensures
        r as int == spec_next_step(plan_view(plan@), i as int, outcome@),
        i < plan@.len() ==> i < r <= plan@.len(),
{
    let n = plan.len();
    if i >= n {
        return n;
    }
    let skip = plan[i].skip_after(outcome);
    if skip <= n - (i + 1) {
        i + 1 + skip
    } else {
        n
    }
}


/// Every skip of `plan` stays inside it, whatever the outcome: carrying a
/// plan out never jumps past its end.
pub open spec fn skips_within(plan: Seq<ActionView>) -> bool {
    forall|i: int, o: OutcomeView|
        0 <= i < plan.len() ==> i + 1 + #[trigger] spec_skip_after(plan[i], o) <= plan.len()
}

/// Law: when every action succeeds, every action of a plan is carried out,
/// in order.
pub proof fn law_success_runs_every_action(plan: Seq<ActionView>, i: int)
    requires
        0 <= i < plan.len(),
    ensures
        spec_next_step(plan, i, OutcomeView::Success) == i + 1,
{
}

/// Law: only an outcome that is not a success leaves actions out.
pub proof fn law_only_failures_skip(a: ActionView, o: OutcomeView)
    requires
        spec_skip_after(a, o) > 0,
    ensures
        !(o is Success),
{
}

/// Plans whose skips stay inside them keep that property when joined.
pub proof fn lemma_skips_within_add(a: Seq<ActionView>, b: Seq<ActionView>)
    requires
        skips_within(a),
        skips_within(b),
    ensures
        skips_within(a + b),
{
    assert forall|i: int, o: OutcomeView| 0 <= i < (a + b).len() implies i + 1
        + #[trigger] spec_skip_after((a + b)[i], o) <= (a + b).len() by {
        if i < a.len() {
            assert((a + b)[i] == a[i]);
            assert(i + 1 + spec_skip_after(a[i], o) <= a.len());
        } else {
            assert((a + b)[i] == b[i - a.len()]);
            assert((i - a.len()) + 1 + spec_skip_after(b[i - a.len()], o) <= b.len());
        }
    }
}

/// A plan of actions that never skip has its skips inside it.
pub proof fn lemma_no_skips(plan: Seq<ActionView>)
    requires
        forall|i: int, o: OutcomeView| 0 <= i < plan.len() ==> #[trigger] spec_skip_after(plan[i], o) == 0,
    ensures
        skips_within(plan),
{
}

} // verus!
