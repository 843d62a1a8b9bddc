use mig::utils::config_parser::{Config, PackageManager as ConfigPkgMan, RepoPackage};
use mig::utils::help::help_lines;
use mig::utils::runner::os_id;

#[test]
fn os_id_reads_first_id_line() {
    let release = "NAME=\"Ubuntu\"\nVERSION_ID=\"22.04\"\nID=ubuntu\nID_LIKE=debian\n";
    assert_eq!(os_id(release), "ubuntu");
}

#[test]
fn os_id_removes_quotes_keys_and_line_endings() {
    assert_eq!(os_id("ID=\"fedora\"\r\nID=other\n"), "fedora");
    assert_eq!(os_id("ID=aID=b"), "ab");
    assert_eq!(os_id("X=1\nID=arch"), "arch");
    assert_eq!(os_id(" ID=no\nVERSION=1\n"), "");
    assert_eq!(os_id(""), "");
    assert_eq!(os_id("ID=\n"), "");
}

#[test]
fn help_table() {
    let lines = help_lines();
    assert_eq!(lines.len(), 12);
    assert_eq!(lines[0], "Welcome to the backup installer ^_^");
    assert_eq!(lines[1], "");
    let width = lines[2].len();
    for line in &lines[2..] {
        assert_eq!(line.len(), width);
    }
    assert!(lines[2].starts_with("+------+-"));
    assert!(lines[3].starts_with("| Flag | Usage"));
    assert!(lines[5].starts_with("| -h   | -h "));
    assert!(lines[10].contains("| -c   | -c \"echo 'me' >> ~/.bashrc\" |"));
    assert_eq!(lines[11], lines[2]);
}

#[test]
fn add_package_appends_or_creates() {
    let mut config = Config::new();
    assert!(config.manager_index("apt").is_none());
    config.add_package("zoxide", "apt", "debian");
    config.add_package("fd", "apt", "ignored");
    config.add_package("helix", "dnf", "fedora");
    assert_eq!(config.package_managers.len(), 2);
    let apt = &config.package_managers[config.manager_index("apt").unwrap()].1;
    assert_eq!(apt.os, "debian");
    let names: Vec<&str> = apt.packages.iter().map(|p| p.repo_name.as_str()).collect();
    assert_eq!(names, vec!["zoxide", "fd"]);
    assert!(apt.packages[1].version.is_none());
    assert_eq!(config.manager_index("dnf"), Some(1));
}

#[test]
fn manager_index_finds_first() {
    let pm = |os: &str| ConfigPkgMan {
        os: os.into(),
        packages: vec![RepoPackage { name: "n".into(), version: None, repo_name: "r".into() }],
    };
    let config = Config {
        package_managers: vec![("git".into(), pm("a")), ("apt".into(), pm("b"))],
        custom_packages: vec![],
    };
    assert_eq!(config.manager_index("apt"), Some(1));
    assert_eq!(config.manager_index("git"), Some(0));
    assert_eq!(config.manager_index("ap"), None);
}
