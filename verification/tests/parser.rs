use mig::lexer::Tokens;
use mig::parser::Parser;
use mig::plan::{next_step, report, Action, Notice, Outcome};
use mig::utils::config_parser::{Config, PackageManager as ConfigPkgMan, RepoPackage};

fn tokens_from(args: &[&str]) -> Tokens {
    // Prepend a dummy program name since from_strs skips argv[0]
    let mut full = vec!["opencode"];
    full.extend_from_slice(args);
    let args: Vec<String> = full.iter().map(|s| s.to_string()).collect();
    Tokens::from_strs(args)
}

fn config_with_apt_pkg() -> Config {
    Config {
        package_managers: vec![(
            "apt".to_string(),
            ConfigPkgMan {
                os: "debian".to_string(),
                packages: vec![
                    RepoPackage { name: "zoxide".into(), version: None, repo_name: "zoxide".into() },
                    RepoPackage { name: "python".into(), version: None, repo_name: "python3".into() },
                ],
            },
        )],
        custom_packages: vec![],
    }
}

/// Records the package manager runs and shell commands of a plan, every one
/// of which succeeds.
struct MockRunner {
    install_calls: Vec<(String, Vec<String>)>,
    shell_calls: Vec<String>,
}

impl MockRunner {
    fn new() -> Self {
        Self { install_calls: Vec::new(), shell_calls: Vec::new() }
    }
}

fn carry_out(plan: &Vec<Action>, mock: &mut MockRunner, mut config: Option<&mut Config>) {
    let mut i = 0;
    while i < plan.len() {
        let outcome = match &plan[i] {
            Action::InstallPackage { pkg_man, package } => {
                mock.install_calls.push((pkg_man.clone(), vec![package.clone()]));
                Outcome::Success
            }
            Action::InstallManager { pkg_man, packages } => {
                mock.install_calls.push((pkg_man.clone(), packages.clone()));
                Outcome::Success
            }
            Action::InstallStep { cmd, .. }
            | Action::PostInstall { cmd }
            | Action::CustomCommand { cmd } => {
                mock.shell_calls.push(cmd.clone());
                Outcome::Success
            }
            Action::AddPackage { package, pkg_man } => {
                if let Some(c) = config.as_mut() {
                    c.add_package(package, pkg_man, "debian");
                }
                Outcome::Success
            }
            _ => Outcome::Success,
        };
        i = next_step(plan, i, &outcome);
    }
}

fn evaluate_with_runner(parser: &Parser, config: Option<&mut Config>, mock: &mut MockRunner) {
    let plan = parser.evaluate(config.as_deref());
    carry_out(&plan, mock, config);
}

#[test]
fn test_parse_single_install() {
    let lexer = tokens_from(&["-p", "dnf", "-a", "zoxide", "-i"]);
    let mut parser = Parser::new(lexer);
    parser.parse();

    assert!(parser.config.install);
    assert!(parser.install_ctx.is_true());
    assert_eq!(parser.config.pkg_man, "dnf");
    assert_eq!(parser.config.pkg, "zoxide");
    // -a side-effect: add_pkg is also set
    assert!(parser.config.add_pkg);
    assert!(parser.config.custom_cmd.is_none());
}

#[test]
fn test_parse_install_only_triggers_config_install() {
    let lexer = tokens_from(&["-i"]);
    let mut parser = Parser::new(lexer);
    parser.parse();

    assert!(parser.config.install);
    assert!(!parser.install_ctx.is_true()); // no -p or -a
}

#[test]
fn test_parse_add_package() {
    let lexer = tokens_from(&["-p", "apt", "-a", "zoxide"]);
    let mut parser = Parser::new(lexer);
    parser.parse();

    assert!(parser.config.add_pkg);
    assert!(parser.pkg_ctx.is_true());
    assert_eq!(parser.config.pkg, "zoxide");
    assert_eq!(parser.config.pkg_man, "apt");
}

#[test]
fn test_parse_custom_cmd() {
    let lexer = tokens_from(&["-c", "echo hello"]);
    let mut parser = Parser::new(lexer);
    parser.parse();

    assert_eq!(parser.config.custom_cmd, Some("echo hello".to_string()));
}

#[test]
fn test_evaluate_install_with_specific_pkgman_and_pkg() {
    let lexer = tokens_from(&["-p", "dnf", "-a", "zoxide", "-i"]);
    let mut parser = Parser::new(lexer);
    parser.parse();

    let mut mock = MockRunner::new();
    evaluate_with_runner(&parser, None, &mut mock);

    let installs = &mock.install_calls;
    assert_eq!(installs.len(), 1);
    assert_eq!(installs[0].0, "dnf");
    assert_eq!(installs[0].1, vec!["zoxide"]);
}

#[test]
fn test_evaluate_install_only_runs_config_install() {
    let lexer = tokens_from(&["-i"]);
    let mut parser = Parser::new(lexer);
    parser.parse();

    let mut mock = MockRunner::new();
    let mut config = config_with_apt_pkg();
    evaluate_with_runner(&parser, Some(&mut config), &mut mock);

    let installs = &mock.install_calls;
    assert_eq!(installs.len(), 1);
    assert_eq!(installs[0].0, "apt");
    assert_eq!(installs[0].1, vec!["zoxide", "python3"]);
}

#[test]
fn test_evaluate_custom_cmd_runs_after_install() {
    let lexer = tokens_from(&["-i", "-c", "echo done"]);
    let mut parser = Parser::new(lexer);
    parser.parse();

    let mut mock = MockRunner::new();
    let mut config = config_with_apt_pkg();
    evaluate_with_runner(&parser, Some(&mut config), &mut mock);

    // Should run both install (from config) AND custom cmd
    let installs = &mock.install_calls;
    let shells = &mock.shell_calls;
    assert_eq!(installs.len(), 1, "should install from config");
    assert_eq!(shells.len(), 1, "should also run custom cmd");
    assert_eq!(shells[0], "echo done");
}

#[test]
fn test_evaluate_custom_cmd_only() {
    let lexer = tokens_from(&["-c", "echo hello"]);
    let mut parser = Parser::new(lexer);
    parser.parse();

    let mut mock = MockRunner::new();
    evaluate_with_runner(&parser, None, &mut mock);

    let installs = &mock.install_calls;
    let shells = &mock.shell_calls;
    assert!(installs.is_empty());
    assert_eq!(shells.len(), 1);
    assert_eq!(shells[0], "echo hello");
}

#[test]
fn test_evaluate_add_package() {
    let lexer = tokens_from(&["-p", "apt", "-a", "neovim"]);
    let mut parser = Parser::new(lexer);
    parser.parse();

    let mut config = config_with_apt_pkg();
    let mut mock = MockRunner::new();
    evaluate_with_runner(&parser, Some(&mut config), &mut mock);

    assert!(config.manager_index("apt").is_some());
    let apt = &config.package_managers[config.manager_index("apt").unwrap()].1;
    let names: Vec<&str> = apt.packages.iter().map(|p| p.name.as_str()).collect();
    assert!(names.contains(&"neovim"), "neovim should be added to apt packages");
}

#[test]
fn test_evaluate_illegal_pkg_manager_prints_help() {
    let lexer = tokens_from(&["-p", "brew"]);
    let mut parser = Parser::new(lexer);
    parser.parse();
    // Should have broken out of loop with Illegal token still in stream
}

#[test]
fn test_parse_help_breaks() {
    let lexer = tokens_from(&["-h", "-i"]);
    let mut parser = Parser::new(lexer);
    parser.parse();
    // Help causes break before -i is processed
    assert!(!parser.config.install);
}

#[test]
fn parse_effects_of_illegal_source_and_help() {
    let mut parser = Parser::new(tokens_from(&["-u", "-p", "brew", "-i"]));
    let effects = parser.parse();
    assert_eq!(effects.len(), 3);
    assert!(matches!(effects[0], Action::SelfUpdate));
    assert!(matches!(&effects[1], Action::Say(Notice::IllegalSource(v))
        if v == "unknown or unsupported package source: brew"));
    assert!(matches!(effects[2], Action::PrintHelp));
    assert!(!parser.config.install);

    let mut parser = Parser::new(tokens_from(&["-x"]));
    let effects = parser.parse();
    assert!(matches!(&effects[0], Action::Say(Notice::IllegalOption(v)) if v == "unknown flag: -x"));
    assert!(matches!(effects[1], Action::PrintHelp));

    let mut parser = Parser::new(tokens_from(&["-h", "-i"]));
    let effects = parser.parse();
    assert_eq!(effects.len(), 2);
    assert!(matches!(effects[0], Action::Say(Notice::PrintingHelp)));
}

#[test]
fn parse_last_setting_wins_and_add_alone_allows_adding() {
    let mut parser = Parser::new(tokens_from(&["-p", "dnf", "-p", "git", "-a", "x", "-a", "y", "-c", "a", "-c", "b"]));
    parser.parse();
    assert_eq!(parser.config.pkg_man, "git");
    assert_eq!(parser.config.pkg, "y");
    assert_eq!(parser.config.custom_cmd, Some("b".to_string()));

    let mut parser = Parser::new(tokens_from(&["-a", "x"]));
    parser.parse();
    assert!(parser.pkg_ctx.is_true());
    assert!(!parser.install_ctx.is_true());
}

#[test]
fn evaluate_install_without_config_reports_it() {
    let mut parser = Parser::new(tokens_from(&["-i", "-p", "apt"]));
    parser.parse();
    let plan = parser.evaluate(None);
    assert_eq!(plan.len(), 1);
    assert!(matches!(plan[0], Action::Say(Notice::NoConfig)));
}

#[test]
fn evaluate_add_package_creates_missing_manager() {
    let mut parser = Parser::new(tokens_from(&["-p", "git", "-a", "helix"]));
    parser.parse();
    let mut config = config_with_apt_pkg();
    let mut mock = MockRunner::new();
    evaluate_with_runner(&parser, Some(&mut config), &mut mock);
    assert!(mock.install_calls.is_empty());
    let i = config.manager_index("git").unwrap();
    assert_eq!(i, 1);
    assert_eq!(config.package_managers[i].1.os, "debian");
    assert_eq!(config.package_managers[i].1.packages.len(), 1);
    assert_eq!(config.package_managers[i].1.packages[0].repo_name, "helix");
    assert_eq!(config.package_managers[0].1.packages.len(), 2);
}

#[test]
fn single_install_reports() {
    let a = Action::InstallPackage { pkg_man: "dnf".into(), package: "x".into() };
    assert!(matches!(report(&a, &Outcome::Success), Some(Notice::SingleInstallDone)));
    assert!(matches!(report(&a, &Outcome::Failure("exit status: 1".into())),
        Some(Notice::SingleInstallStatus(s)) if s == "exit status: 1"));
    assert!(matches!(report(&a, &Outcome::Error("no sudo".into())),
        Some(Notice::SingleInstallFailed(s)) if s == "no sudo"));
    let c = Action::CustomCommand { cmd: "ls".into() };
    assert!(report(&c, &Outcome::Success).is_none());
    assert!(matches!(report(&c, &Outcome::Error("e".into())), Some(Notice::CustomCommandFailed(s)) if s == "e"));
}
