//! Parsing of the command-line tokens into the settings of a run, and the
//! plan of what the run does with them.
use crate::installer::{
    custom_package_plan, custom_plan, install_all_plan, install_steps_plan, law_install_all_skips_within,
    lemma_custom_package_position, lemma_manager_run_position, manager_jobs, post_install_plan, Executor,
};
use crate::lexer::{PackageManager, SourceView, Token, TokenView, Tokens};
use crate::plan::{
    append_plan, lemma_no_skips, lemma_skips_within_add, plan_view, push_action, skips_within, Action,
    ActionView, Notice, NoticeView,
};
use crate::text::{copy_string, owned};
use crate::utils::config_parser::{Config, ConfigView, RepoView};
use vstd::prelude::*;

verus! {

/// The settings gathered from the command line.
#[derive(Debug)]
pub struct CmdConfig {
    pub pkg_man: String,
    pub pkg: String,
    pub custom_cmd: Option<String>,
    pub install: bool,
    pub add_pkg: bool,
}

/// Whether a single package install was fully specified (a package manager
/// with `-p` and a package with `-a`).
#[derive(Debug)]
pub struct InstallCtx {
    pub pkgman_set: bool,
    pub pkg_set: bool,
}

/// Whether a package may be added to the configuration.
#[derive(Debug)]
pub struct PackageCtx {
    pub pkgman_set: bool,
}

/// The parser of the command-line tokens.
#[derive(Debug)]
pub struct Parser {
    pub tokens: Tokens,
    pub install_ctx: InstallCtx,
    pub pkg_ctx: PackageCtx,
    pub config: CmdConfig,
}

/// Model of the settings of a [`Parser`].
pub struct ParseState {
    pub pkg_man: Seq<char>,
    pub pkg: Seq<char>,
    pub custom_cmd: Option<Seq<char>>,
    pub install: bool,
    pub add_pkg: bool,
    /// `install_ctx.pkgman_set`
    pub install_pkgman: bool,
    /// `install_ctx.pkg_set`
    pub install_pkg: bool,
    /// `pkg_ctx.pkgman_set`
    pub pkgman_set: bool,
}

impl View for Parser {
    type V = ParseState;

    open spec fn view(&self) -> ParseState {
        ParseState {
            pkg_man: self.config.pkg_man@,
            pkg: self.config.pkg@,
            custom_cmd: match self.config.custom_cmd {
                Some(c) => Some(c@),
                None => None,
            },
            install: self.config.install,
            add_pkg: self.config.add_pkg,
            install_pkgman: self.install_ctx.pkgman_set,
            install_pkg: self.install_ctx.pkg_set,
            pkgman_set: self.pkg_ctx.pkgman_set,
        }
    }
}

/// The settings before any token is parsed.
pub open spec fn initial_state() -> ParseState {
    ParseState {
        pkg_man: Seq::empty(),
        pkg: Seq::empty(),
        custom_cmd: None,
        install: false,
        add_pkg: false,
        install_pkgman: false,
        install_pkg: false,
        pkgman_set: false,
    }
}

/// Tokens that end parsing: help, an illegal option, an illegal package
/// source.
pub open spec fn is_stop(t: TokenView) -> bool {
    match t {
        TokenView::Help => true,
        TokenView::Illegal(_) => true,
        TokenView::PackageManager(SourceView::Illegal(_)) => true,
        _ => false,
    }
}

/// The settings `s` after choosing the package manager `name`.
pub open spec fn with_pkg_man(s: ParseState, name: Seq<char>) -> ParseState {
    ParseState { pkg_man: name, install_pkgman: true, pkgman_set: true, ..s }
}

/// The settings after the token `t`.
pub open spec fn apply_token(s: ParseState, t: TokenView) -> ParseState {
    match t {
        TokenView::Install => ParseState { install: true, ..s },
        TokenView::PackageManager(SourceView::Dnf) => with_pkg_man(s, "dnf"@),
        TokenView::PackageManager(SourceView::Apt) => with_pkg_man(s, "apt"@),
        TokenView::PackageManager(SourceView::Git) => with_pkg_man(s, "git"@),
        TokenView::PackageManager(SourceView::CustomCmd) => with_pkg_man(s, "custom"@),
        TokenView::AddPackage(p) => ParseState {
            add_pkg: true,
            install_pkg: true,
            pkgman_set: true,
            pkg: p,
            ..s
        },
        TokenView::CustomCmd(c) => ParseState { custom_cmd: Some(c), ..s },
        _ => s,
    }
}

/// The outside work that the token `t` asks for while parsing.
pub open spec fn token_effects(t: TokenView) -> Seq<ActionView> {
    match t {
        TokenView::SelfUpdate => seq![ActionView::SelfUpdate],
        TokenView::PackageManager(SourceView::Illegal(v)) => seq![
            ActionView::Say(NoticeView::IllegalSource(v)),
            ActionView::PrintHelp,
        ],
        TokenView::Illegal(v) => seq![
            ActionView::Say(NoticeView::IllegalOption(v)),
            ActionView::PrintHelp,
        ],
        TokenView::Help => seq![ActionView::Say(NoticeView::PrintingHelp), ActionView::PrintHelp],
        _ => seq![],
    }
}

/// The settings and the outside work after parsing `toks` from the
/// settings `s`: tokens are taken in order, and parsing ends after the first
/// token that [`is_stop`].
pub open spec fn parse_run(s: ParseState, toks: Seq<TokenView>) -> (ParseState, Seq<ActionView>)
    decreases toks.len(),
{
    if toks.len() == 0 {
        (s, seq![])
    } else if is_stop(toks[0]) {
        (apply_token(s, toks[0]), token_effects(toks[0]))
    } else {
        let rest = parse_run(apply_token(s, toks[0]), toks.skip(1));
        (rest.0, token_effects(toks[0]) + rest.1)
    }
}

/// Whether settings `s` fully specify a single package install.
pub open spec fn install_ctx_true(s: ParseState) -> bool {
    s.install_pkgman && s.install_pkg
}

/// The plan of a run with settings `s` and configuration `c`: a single
/// package install, or an install of the whole configuration, or a notice
/// that there is none; then the custom command; then adding the package to
/// the configuration.
pub open spec fn evaluate_plan(s: ParseState, c: Option<ConfigView>) -> Seq<ActionView> {
    let install = if s.install && install_ctx_true(s) {
        seq![ActionView::InstallPackage { pkg_man: s.pkg_man, package: s.pkg }]
    } else if s.install {
        match c {
            Some(c) => install_all_plan(c),
            None => seq![ActionView::Say(NoticeView::NoConfig)],
        }
    } else {
        seq![]
    };
    let command = match s.custom_cmd {
        Some(cmd) => seq![ActionView::CustomCommand { cmd }],
        None => seq![],
    };
    let add = if s.add_pkg && s.pkgman_set && c is Some {
        seq![ActionView::AddPackage { package: s.pkg, pkg_man: s.pkg_man }]
    } else {
        seq![]
    };
    install + command + add
}

impl CmdConfig {
    /// Settings with nothing chosen.
    pub fn new() -> (r: Self)
        ensures
            r.pkg_man@ == Seq::<char>::empty(),
            r.pkg@ == Seq::<char>::empty(),
            r.custom_cmd is None,
            !r.install,
            !r.add_pkg,
    {
        Self {
            pkg_man: String::new(),
            pkg: String::new(),
            custom_cmd: None,
            install: false,
            add_pkg: false,
        }
    }
}

impl InstallCtx {
    /// Nothing specified yet.
    pub fn new() -> (r: Self)
        ensures
            !r.pkgman_set,
            !r.pkg_set,
    {
        Self { pkgman_set: false, pkg_set: false }
    }

    /// Whether both the package manager and the package were given.
    pub fn is_true(&self) -> (b: bool)
        ensures
            b == (self.pkgman_set && self.pkg_set),
    {
        self.pkgman_set && self.pkg_set
    }
}

impl PackageCtx {
    /// Whether a package may be added to the configuration.
    pub fn is_true(&self) -> (b: bool)
        ensures
            b == self.pkgman_set,
    {
        self.pkgman_set
    }
}

impl Parser {
    /// A parser of `tokens`, with nothing chosen yet.
    pub fn new(tokens: Tokens) -> (r: Self)
        ensures
            r@ == initial_state(),
            r.tokens@ == tokens@,
    {
        Self {
            tokens,
            install_ctx: InstallCtx::new(),
            pkg_ctx: PackageCtx { pkgman_set: false },
            config: CmdConfig::new(),
        }
    }

    /// Chooses the package manager `name`.
    fn choose_pkg_man(&mut self, name: &str)
        ensures
            final(self)@ == with_pkg_man(old(self)@, name@),
            final(self).tokens == old(self).tokens,
    {
        self.config.pkg_man = owned(name);
        self.install_ctx.pkgman_set = true;
        self.pkg_ctx.pkgman_set = true;
    }

    /// Parses the tokens, in order, into the settings, and returns the
    /// outside work they ask for (updating the installer, notices, the help
    /// table). Help, an illegal option or an illegal package source end
    /// parsing: the tokens after them are not looked at.
    pub fn parse(&mut self) -> (effects: Vec<Action>)
        ensures
            (final(self)@, plan_view(effects@)) == parse_run(old(self)@, old(self).tokens@),
            final(self).tokens == old(self).tokens,
    {
        let ghost toks = self.tokens@;
        let ghost start = self@;
        let mut effects: Vec<Action> = Vec::new();
        let n = self.tokens.options.len();
        let mut i: usize = 0;
        proof {
            assert(toks.skip(0) =~= toks);
            assert(plan_view(effects@) + parse_run(start, toks).1 =~= parse_run(start, toks).1);
        }
        while i < n
            invariant_except_break
                i <= n,
                n == self.tokens.options@.len(),
                toks == self.tokens@,
                self.tokens == old(self).tokens,
                parse_run(start, toks) == (
                    parse_run(self@, toks.skip(i as int)).0,
                    plan_view(effects@) + parse_run(self@, toks.skip(i as int)).1,
                ),
            ensures
                self.tokens == old(self).tokens,
                parse_run(start, toks) == (self@, plan_view(effects@)),
            decreases n - i,
        {
            let ghost before = self@;
            let ghost before_effects = plan_view(effects@);
            let ghost rest = toks.skip(i as int);
            assert(rest[0] == self.tokens.options@[i as int]@);
            assert(rest.skip(1) =~= toks.skip(i + 1));
            let mut stop = false;
            match &self.tokens.options[i] {
                Token::Install => {
                    self.config.install = true;
                },
                Token::SelfUpdate => {
                    push_action(&mut effects, Action::SelfUpdate);
                },
                Token::PackageManager(source) => match source {
                    PackageManager::Dnf => self.choose_pkg_man("dnf"),
                    PackageManager::Apt => self.choose_pkg_man("apt"),
                    PackageManager::Git => self.choose_pkg_man("git"),
                    PackageManager::CustomCmd => self.choose_pkg_man("custom"),
                    PackageManager::Illegal(value) => {
                        push_action(
                            &mut effects,
                            Action::Say(Notice::IllegalSource(copy_string(value))),
                        );
                        push_action(&mut effects, Action::PrintHelp);
                        stop = true;
                    },
                },
                Token::Illegal(value) => {
                    push_action(&mut effects, Action::Say(Notice::IllegalOption(copy_string(value))));
                    push_action(&mut effects, Action::PrintHelp);
                    stop = true;
                },
                Token::AddPackage(s) => {
                    self.config.add_pkg = true;
                    self.install_ctx.pkg_set = true;
                    self.pkg_ctx.pkgman_set = true;
                    self.config.pkg = copy_string(s);
                },
                Token::CustomCmd(s) => {
                    self.config.custom_cmd = Some(copy_string(s));
                },
                Token::Help => {
                    push_action(&mut effects, Action::Say(Notice::PrintingHelp));
                    push_action(&mut effects, Action::PrintHelp);
                    stop = true;
                },
            }
            proof {
                assert(self@ == apply_token(before, rest[0]));
                assert(plan_view(effects@) =~= before_effects + token_effects(rest[0]));
                assert(stop == is_stop(rest[0]));
            }
            if stop {
                break;
            }
            i = i + 1;
        }
        effects
    }

    /// The plan of the run that the parsed settings ask for, given the
    /// configuration, if any: a single package install (with `-p`, `-a`
    /// and `-i`), or else with `-i` an install of the whole configuration (or
    /// a notice that there is none); then the command given with `-c`; then,
    /// with `-a` and a configuration, adding the package to it.
    pub fn evaluate(&self, json_config: Option<&Config>) -> (plan: Vec<Action>)
        ensures
            plan_view(plan@) == evaluate_plan(
                self@,
                match json_config {
                    Some(c) => Some(c@),
                    None => None,
                },
            ),
    {
        let mut plan: Vec<Action> = Vec::new();
        if self.config.install && self.install_ctx.is_true() {
            push_action(
                &mut plan,
                Action::InstallPackage {
                    pkg_man: copy_string(&self.config.pkg_man),
                    package: copy_string(&self.config.pkg),
                },
            );
        } else if self.config.install {
            match json_config {
                Some(config) => {
                    let executor = Executor::new(config);
                    let all = executor.install_all();
                    append_plan(&mut plan, all);
                },
                None => {
                    push_action(&mut plan, Action::Say(Notice::NoConfig));
                },
            }
        }
        let ghost install = plan_view(plan@);
        match &self.config.custom_cmd {
            Some(cmd) => {
                push_action(&mut plan, Action::CustomCommand { cmd: copy_string(cmd) });
            },
            None => {},
        }
        let ghost command = plan_view(plan@);
        if self.config.add_pkg && self.pkg_ctx.is_true() && json_config.is_some() {
            push_action(
                &mut plan,
                Action::AddPackage {
                    package: copy_string(&self.config.pkg),
                    pkg_man: copy_string(&self.config.pkg_man),
                },
            );
        }
        proof {
            let c = match json_config {
                Some(c) => Some(c@),
                None => None,
            };
            let s = self@;
            let ev = evaluate_plan(s, c);
            assert(install =~= (if s.install && install_ctx_true(s) {
                seq![ActionView::InstallPackage { pkg_man: s.pkg_man, package: s.pkg }]
            } else if s.install {
                match c {
                    Some(c) => install_all_plan(c),
                    None => seq![ActionView::Say(NoticeView::NoConfig)],
                }
            } else {
                seq![]
            }));
            assert(plan_view(plan@) =~= ev);
        }
        plan
    }
}


/// Law: help, an illegal option or an illegal package source ends parsing:
/// whatever follows such a token on the command line changes neither the
/// settings nor the outside work, and the last outside work of such a parse
/// is printing the help table.
pub proof fn law_stop_token_ends_parsing(
    s: ParseState,
    toks: Seq<TokenView>,
    more: Seq<TokenView>,
    k: int,
)
    requires
        0 <= k < toks.len(),
        is_stop(toks[k]),
    ensures
        parse_run(s, toks + more) == parse_run(s, toks),
        parse_run(s, toks).1.len() > 0,
        parse_run(s, toks).1.last() == ActionView::PrintHelp,
    decreases toks.len(),
{
    assert((toks + more)[0] == toks[0]);
    if !is_stop(toks[0]) {
        assert((toks + more).skip(1) =~= toks.skip(1) + more);
        law_stop_token_ends_parsing(apply_token(s, toks[0]), toks.skip(1), more, k - 1);
        let rest = parse_run(apply_token(s, toks[0]), toks.skip(1));
        assert((token_effects(toks[0]) + rest.1).last() == rest.1.last());
    }
}

/// Law: carrying out the plan of a run never jumps past its end, whatever
/// the outcomes.
pub proof fn law_evaluate_skips_within(s: ParseState, c: Option<ConfigView>)
    ensures
        skips_within(evaluate_plan(s, c)),
{
    let install = if s.install && install_ctx_true(s) {
        seq![ActionView::InstallPackage { pkg_man: s.pkg_man, package: s.pkg }]
    } else if s.install {
        match c {
            Some(c) => install_all_plan(c),
            None => seq![ActionView::Say(NoticeView::NoConfig)],
        }
    } else {
        seq![]
    };
    let command = match s.custom_cmd {
        Some(cmd) => seq![ActionView::CustomCommand { cmd }],
        None => seq![],
    };
    let add = if s.add_pkg && s.pkgman_set && c is Some {
        seq![ActionView::AddPackage { package: s.pkg, pkg_man: s.pkg_man }]
    } else {
        seq![]
    };
    if s.install && !install_ctx_true(s) && c is Some {
        law_install_all_skips_within(c.unwrap());
    } else {
        lemma_no_skips(install);
    }
    lemma_no_skips(command);
    lemma_no_skips(add);
    lemma_skips_within_add(install, command);
    lemma_skips_within_add(install + command, add);
}

/// Law: the command given with `-c` is carried out in every run, whether
/// or not anything is installed: it comes right after the installs, and
/// only adding a package to the configuration may follow it.
pub proof fn law_custom_command_runs(s: ParseState, c: Option<ConfigView>, cmd: Seq<char>)
    requires
        s.custom_cmd == Some(cmd),
    ensures
        ({
            let plan = evaluate_plan(s, c);
            let installs = plan.len() - 1 - (if s.add_pkg && s.pkgman_set && c is Some {
                1int
            } else {
                0int
            });
            &&& 0 <= installs < plan.len()
            &&& plan[installs] == ActionView::CustomCommand { cmd }
        }),
{
}


/// Law: `-p <manager> -a <package> -i` installs that one package with that
/// manager, whether or not a configuration is loaded: the run begins with
/// that install, runs no package manager of the configuration and no custom
/// package, and the configuration adds at most the package addition at the
/// end.
pub proof fn law_single_install_whatever_the_configuration(s: ParseState, c: ConfigView)
    requires
        s.install,
        s.install_pkgman,
        s.install_pkg,
    ensures
        ({
            let with = evaluate_plan(s, Some(c));
            let without = evaluate_plan(s, None);
            let single = ActionView::InstallPackage { pkg_man: s.pkg_man, package: s.pkg };
            &&& with.len() > 0 && with[0] == single
            &&& without.len() > 0 && without[0] == single
            &&& without.len() <= with.len() <= without.len() + 1
            &&& with.take(without.len() as int) == without
            &&& forall|k: int|
                0 <= k < with.len() ==> !(#[trigger] with[k] is InstallManager) && !(with[k] is InstallStep)
                    && !(with[k] is PostInstall)
        }),
{
    let with = evaluate_plan(s, Some(c));
    let without = evaluate_plan(s, None);
    assert(with.take(without.len() as int) =~= without);
}

/// Law: `-i` without a fully specified single install, with a configuration,
/// installs the whole configuration: every package manager that has
/// packages runs on all of them, and every install step and post-install
/// command of every custom package is in the run.
pub proof fn law_install_runs_whole_configuration(s: ParseState, c: ConfigView)
    requires
        s.install,
        !(s.install_pkgman && s.install_pkg),
    ensures
        ({
            let plan = evaluate_plan(s, Some(c));
            &&& forall|j: int|
                #![trigger c.managers[j]]
                0 <= j < c.managers.len() && c.managers[j].1.packages.len() > 0 ==> exists|i: int|
                    0 <= i < plan.len() && plan[i] == (ActionView::InstallManager {
                        pkg_man: c.managers[j].0,
                        packages: c.managers[j].1.packages.map_values(|r: RepoView| r.repo_name),
                    })
            &&& forall|p: int, k: int|
                #![trigger c.custom[p].install_steps[k]]
                0 <= p < c.custom.len() && 0 <= k < c.custom[p].install_steps.len() ==> exists|i: int|
                    0 <= i < plan.len() && plan[i] == (ActionView::InstallStep {
                        cmd: c.custom[p].install_steps[k],
                        number: (k + 1) as nat,
                        total: c.custom[p].install_steps.len(),
                    })
            &&& forall|p: int, k: int|
                #![trigger c.custom[p].post_install[k]]
                0 <= p < c.custom.len() && 0 <= k < c.custom[p].post_install.len() ==> exists|i: int|
                    0 <= i < plan.len() && plan[i] == (ActionView::PostInstall {
                        cmd: c.custom[p].post_install[k],
                    })
        }),
{
    let plan = evaluate_plan(s, Some(c));
    let mj = manager_jobs(c.managers);
    let cp = custom_plan(c.custom);
    let all = mj + cp;
    assert(plan.len() >= all.len());
    assert forall|i: int| 0 <= i < all.len() implies plan[i] == all[i] by {}
    assert forall|j: int|
        #![trigger c.managers[j]]
        0 <= j < c.managers.len() && c.managers[j].1.packages.len() > 0 implies exists|i: int|
            0 <= i < plan.len() && plan[i] == (ActionView::InstallManager {
                pkg_man: c.managers[j].0,
                packages: c.managers[j].1.packages.map_values(|r: RepoView| r.repo_name),
            }) by {
        let i = lemma_manager_run_position(c.managers, j);
        assert(all[i] == mj[i]);
        assert(plan[i] == all[i]);
    }
    assert forall|p: int, k: int|
        #![trigger c.custom[p].install_steps[k]]
        0 <= p < c.custom.len() && 0 <= k < c.custom[p].install_steps.len() implies exists|i: int|
            0 <= i < plan.len() && plan[i] == (ActionView::InstallStep {
                cmd: c.custom[p].install_steps[k],
                number: (k + 1) as nat,
                total: c.custom[p].install_steps.len(),
            }) by {
        let i0 = lemma_custom_package_position(c.custom, p);
        let cpp = custom_package_plan(c.custom[p]);
        assert(cpp[1 + k] == install_steps_plan(c.custom[p].install_steps)[k]);
        assert(cp[i0 + 1 + k] == cpp[1 + k]);
        let i = mj.len() + i0 + 1 + k;
        assert(all[i] == cp[i0 + 1 + k]);
        assert(plan[i] == all[i]);
    }
    assert forall|p: int, k: int|
        #![trigger c.custom[p].post_install[k]]
        0 <= p < c.custom.len() && 0 <= k < c.custom[p].post_install.len() implies exists|i: int|
            0 <= i < plan.len() && plan[i] == (ActionView::PostInstall {
                cmd: c.custom[p].post_install[k],
            }) by {
        let i0 = lemma_custom_package_position(c.custom, p);
        let cpp = custom_package_plan(c.custom[p]);
        let n = c.custom[p].install_steps.len() as int;
        assert(cpp[1 + n + k] == post_install_plan(c.custom[p].post_install)[k]);
        assert(cp[i0 + 1 + n + k] == cpp[1 + n + k]);
        let i = mj.len() + i0 + 1 + n + k;
        assert(all[i] == cp[i0 + 1 + n + k]);
        assert(plan[i] == all[i]);
    }
}

/// Law: choosing a package manager changes only the package manager
/// settings: the package, whether it was given, and the other settings
/// stay.
pub proof fn law_choosing_manager_keeps_package(s: ParseState, name: Seq<char>)
    ensures
        with_pkg_man(s, name).pkg_man == name,
        with_pkg_man(s, name).install_pkgman,
        with_pkg_man(s, name).pkgman_set,
        with_pkg_man(s, name).pkg == s.pkg,
        with_pkg_man(s, name).install_pkg == s.install_pkg,
        with_pkg_man(s, name).add_pkg == s.add_pkg,
        with_pkg_man(s, name).install == s.install,
        with_pkg_man(s, name).custom_cmd == s.custom_cmd,
{
}

/// Law: the order of `-a` and `-p` does not matter: giving the package
/// first or the package manager first leads to the same settings, with no
/// outside work.
pub proof fn law_package_and_manager_in_any_order(s: ParseState, pkg: Seq<char>, m: SourceView)
    requires
        !(m is Illegal),
    ensures
        parse_run(s, seq![TokenView::AddPackage(pkg), TokenView::PackageManager(m)]) == parse_run(
            s,
            seq![TokenView::PackageManager(m), TokenView::AddPackage(pkg)],
        ),
        parse_run(s, seq![TokenView::AddPackage(pkg), TokenView::PackageManager(m)]).1.len() == 0,
        parse_run(s, seq![TokenView::AddPackage(pkg), TokenView::PackageManager(m)]).0.pkg == pkg,
        parse_run(s, seq![TokenView::AddPackage(pkg), TokenView::PackageManager(m)]).0.install_pkg,
        parse_run(s, seq![TokenView::AddPackage(pkg), TokenView::PackageManager(m)]).0.install_pkgman,
{
    let a = seq![TokenView::AddPackage(pkg), TokenView::PackageManager(m)];
    let b = seq![TokenView::PackageManager(m), TokenView::AddPackage(pkg)];
    assert(a.skip(1).skip(1) =~= Seq::<TokenView>::empty());
    assert(b.skip(1).skip(1) =~= Seq::<TokenView>::empty());
    assert(a.skip(1) =~= seq![TokenView::PackageManager(m)]);
    assert(b.skip(1) =~= seq![TokenView::AddPackage(pkg)]);
    let r1 = parse_run(apply_token(apply_token(s, a[0]), a[1]), a.skip(1).skip(1));
    let r2 = parse_run(apply_token(apply_token(s, b[0]), b[1]), b.skip(1).skip(1));
    assert(apply_token(apply_token(s, a[0]), a[1]) == apply_token(apply_token(s, b[0]), b[1]));
    let sa = apply_token(s, a[0]);
    let sb = apply_token(s, b[0]);
    assert(token_effects(a[0]) =~= Seq::<ActionView>::empty());
    assert(token_effects(a[1]) =~= Seq::<ActionView>::empty());
    assert(parse_run(apply_token(sa, a[1]), a.skip(1).skip(1)).1 =~= Seq::<ActionView>::empty());
    assert(parse_run(sa, a.skip(1)).1 =~= Seq::<ActionView>::empty());
    assert(parse_run(s, a).1 =~= Seq::<ActionView>::empty());
    assert(parse_run(apply_token(sb, b[1]), b.skip(1).skip(1)).1 =~= Seq::<ActionView>::empty());
    assert(parse_run(sb, b.skip(1)).1 =~= Seq::<ActionView>::empty());
    assert(parse_run(s, b).1 =~= Seq::<ActionView>::empty());
}

} // verus!
