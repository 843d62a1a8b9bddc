use mig::installer::Executor;
use mig::plan::{next_step, report, Action, Notice, Outcome};
use mig::utils::config_parser::{Config, CustomPackage, PackageManager as ConfigPkgMan, RepoPackage};

fn sample_config() -> Config {
    Config {
        package_managers: vec![(
            "apt".to_string(),
            ConfigPkgMan {
                os: "debian".to_string(),
                packages: vec![RepoPackage {
                    name: "zoxide".into(),
                    version: None,
                    repo_name: "zoxide".into(),
                }],
            },
        )],
        custom_packages: vec![CustomPackage {
            name: "neovim".into(),
            version: Some("latest".into()),
            install_steps: vec!["git clone https://github.com/neovim/neovim".into()],
            post_install: vec!["nvim --version".into()],
        }],
    }
}

/// Records the outside calls of a plan; shell commands listed in `errors`
/// cannot be run.
struct MockRunner {
    install_calls: Vec<(String, Vec<String>)>,
    shell_calls: Vec<String>,
    errors: Vec<String>,
}

impl MockRunner {
    fn new() -> Self {
        Self { install_calls: Vec::new(), shell_calls: Vec::new(), errors: Vec::new() }
    }
}

fn carry_out(plan: &Vec<Action>, mock: &mut MockRunner) -> Vec<Notice> {
    let mut notices = Vec::new();
    let mut i = 0;
    while i < plan.len() {
        if let Some(n) = plan[i].announcement() {
            notices.push(n);
        }
        let outcome = match &plan[i] {
            Action::InstallManager { pkg_man, packages } => {
                mock.install_calls.push((pkg_man.clone(), packages.clone()));
                Outcome::Success
            }
            Action::InstallStep { cmd, .. } | Action::PostInstall { cmd } => {
                mock.shell_calls.push(cmd.clone());
                if mock.errors.contains(cmd) {
                    Outcome::Error(format!("cannot run {cmd}"))
                } else {
                    Outcome::Success
                }
            }
            _ => Outcome::Success,
        };
        if let Some(n) = report(&plan[i], &outcome) {
            notices.push(n);
        }
        i = next_step(plan, i, &outcome);
    }
    notices
}

#[test]
fn test_install_all_calls_runner_for_each_pkg_man() {
    let config = sample_config();
    let executor = Executor::new(&config);
    let mut mock = MockRunner::new();
    carry_out(&executor.install_all(), &mut mock);

    let installs = &mock.install_calls;
    assert_eq!(installs.len(), 1);
    assert_eq!(installs[0].0, "apt");
    assert_eq!(installs[0].1, vec!["zoxide"]);
}

#[test]
fn test_install_custom_packages_calls_shell_for_steps_and_post() {
    let config = sample_config();
    let executor = Executor::new(&config);
    let mut mock = MockRunner::new();
    carry_out(&executor.install_custom_packages(), &mut mock);

    let shells = &mock.shell_calls;
    assert_eq!(shells.len(), 2);
    assert!(shells[0].contains("git clone"));
    assert_eq!(shells[1], "nvim --version");
}

#[test]
fn test_install_empty_config_does_nothing() {
    let config = Config::new();
    let executor = Executor::new(&config);
    let mut mock = MockRunner::new();
    carry_out(&executor.install_all(), &mut mock);

    let installs = &mock.install_calls;
    let shells = &mock.shell_calls;
    assert!(installs.is_empty());
    assert!(shells.is_empty());
}

fn two_custom_packages() -> Config {
    Config {
        package_managers: vec![
            ("dnf".to_string(), ConfigPkgMan { os: "fedora".into(), packages: vec![] }),
            (
                "apt".to_string(),
                ConfigPkgMan {
                    os: "debian".into(),
                    packages: vec![
                        RepoPackage { name: "a".into(), version: None, repo_name: "ra".into() },
                        RepoPackage { name: "b".into(), version: Some("1".into()), repo_name: "rb".into() },
                    ],
                },
            ),
        ],
        custom_packages: vec![
            CustomPackage {
                name: "one".into(),
                version: None,
                install_steps: vec!["s1".into(), "s2".into(), "s3".into()],
                post_install: vec!["p1".into(), "p2".into()],
            },
            CustomPackage {
                name: "two".into(),
                version: None,
                install_steps: vec!["t1".into()],
                post_install: vec![],
            },
        ],
    }
}

#[test]
fn install_all_skips_managers_without_packages_and_runs_everything() {
    let config = two_custom_packages();
    let executor = Executor::new(&config);
    let mut mock = MockRunner::new();
    let notices = carry_out(&executor.install_all(), &mut mock);
    assert_eq!(mock.install_calls, vec![("apt".to_string(), vec!["ra".to_string(), "rb".to_string()])]);
    assert_eq!(mock.shell_calls, vec!["s1", "s2", "s3", "p1", "p2", "t1"]);
    assert!(matches!(&notices[0], Notice::ManagerInstalled(m) if m == "apt"));
    assert!(matches!(&notices[1], Notice::InstallingCustom(n) if n == "one"));
    assert!(matches!(&notices[2], Notice::CustomStep(1, 3, c) if c == "s1"));
}

#[test]
fn failed_install_step_skips_remaining_steps_but_not_post_install() {
    let config = two_custom_packages();
    let executor = Executor::new(&config);
    let mut mock = MockRunner::new();
    mock.errors.push("s1".into());
    let notices = carry_out(&executor.install_custom_packages(), &mut mock);
    assert_eq!(mock.shell_calls, vec!["s1", "p1", "p2", "t1"]);
    assert!(notices.iter().any(|n| matches!(n, Notice::StepFailed(e) if e == "cannot run s1")));
}

#[test]
fn failed_post_install_does_not_stop() {
    let config = two_custom_packages();
    let executor = Executor::new(&config);
    let mut mock = MockRunner::new();
    mock.errors.push("p1".into());
    mock.errors.push("s2".into());
    let notices = carry_out(&executor.install_custom_packages(), &mut mock);
    assert_eq!(mock.shell_calls, vec!["s1", "s2", "p1", "p2", "t1"]);
    assert!(notices.iter().any(|n| matches!(n, Notice::PostInstallFailed(e) if e == "cannot run p1")));
}

#[test]
fn install_pkg_man_plans() {
    let config = two_custom_packages();
    let executor = Executor::new(&config);
    let plan = executor.install_pkg_man("apt");
    assert_eq!(plan.len(), 1);
    assert!(matches!(&plan[0], Action::InstallManager { pkg_man, packages }
        if pkg_man == "apt" && packages == &vec!["ra".to_string(), "rb".to_string()]));
    assert!(executor.install_pkg_man("dnf").is_empty());
    let missing = executor.install_pkg_man("pacman");
    assert_eq!(missing.len(), 1);
    assert!(matches!(&missing[0], Action::Say(Notice::ManagerNotFound(m)) if m == "pacman"));
}

#[test]
fn manager_reports() {
    let a = Action::InstallManager { pkg_man: "apt".into(), packages: vec!["x".into()] };
    assert!(matches!(report(&a, &Outcome::Success), Some(Notice::ManagerInstalled(m)) if m == "apt"));
    assert!(matches!(report(&a, &Outcome::Failure("exit status: 100".into())),
        Some(Notice::ManagerStatus(m, s)) if m == "apt" && s == "exit status: 100"));
    assert!(matches!(report(&a, &Outcome::Error("denied".into())),
        Some(Notice::ManagerFailed(m, e)) if m == "apt" && e == "denied"));
}

fn self_install_run(outcomes: &[(usize, Outcome)]) -> (Vec<usize>, Vec<Notice>) {
    let plan = Executor::self_install();
    assert_eq!(plan.len(), 5);
    let mut visited = Vec::new();
    let mut notices = Vec::new();
    let mut i = 0;
    while i < plan.len() {
        visited.push(i);
        let outcome = outcomes
            .iter()
            .find(|(k, _)| *k == i)
            .map(|(_, o)| match o {
                Outcome::Success => Outcome::Success,
                Outcome::Failure(s) => Outcome::Failure(s.clone()),
                Outcome::Error(e) => Outcome::Error(e.clone()),
            })
            .unwrap_or(Outcome::Success);
        if let Some(n) = report(&plan[i], &outcome) {
            notices.push(n);
        }
        i = next_step(&plan, i, &outcome);
    }
    (visited, notices)
}

#[test]
fn self_install_steps() {
    let (visited, notices) = self_install_run(&[]);
    assert_eq!(visited, vec![0, 1, 2, 3, 4]);
    assert_eq!(notices.len(), 1);
    assert!(matches!(notices[0], Notice::BuildDone));

    let (visited, notices) = self_install_run(&[(0, Outcome::Error("no dir".into()))]);
    assert_eq!(visited, vec![0]);
    assert!(matches!(notices[0], Notice::ChangeDirFailed));

    let (visited, _) = self_install_run(&[(1, Outcome::Error("no git".into()))]);
    assert_eq!(visited, vec![0, 1, 4]);

    let (visited, notices) = self_install_run(&[(1, Outcome::Failure("exit status: 1".into()))]);
    assert_eq!(visited, vec![0, 1, 2, 3, 4]);
    assert!(matches!(&notices[0], Notice::PullStatus(s) if s == "exit status: 1"));

    let (visited, notices) = self_install_run(&[(2, Outcome::Failure("exit status: 101".into()))]);
    assert_eq!(visited, vec![0, 1, 2, 4]);
    assert!(matches!(&notices[0], Notice::BuildStatus(s) if s == "exit status: 101"));

    let (visited, notices) = self_install_run(&[(3, Outcome::Error("denied".into()))]);
    assert_eq!(visited, vec![0, 1, 2, 3, 4]);
    assert!(matches!(&notices[1], Notice::CopyFailed(e) if e == "denied"));
}

#[test]
fn next_step_never_passes_the_end() {
    let plan = vec![Action::InstallStep { cmd: "x".into(), number: 1, total: 9 }];
    assert_eq!(next_step(&plan, 0, &Outcome::Error("e".into())), 1);
    assert_eq!(next_step(&plan, 5, &Outcome::Success), 1);
}
