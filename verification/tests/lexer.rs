use mig::lexer::{PackageManager, Token, Tokens};

fn strings(args: &[&str]) -> Vec<String> {
    args.iter().map(|s| s.to_string()).collect::<Vec<String>>()
}

#[test]
fn test_parse_flags() {
    // from_strs skips argv[0] (the program name), so prepend a dummy
    let test_strings = vec!["prog", "-p", "dnf", "-a", "zoxide", "-i", "-u", "-c", "echo $SHELL"];
    let tokens = vec![
        Token::PackageManager(PackageManager::Dnf),
        Token::AddPackage(String::from("zoxide")),
        Token::Install,
        Token::SelfUpdate,
        Token::CustomCmd(String::from("echo $SHELL")),
    ];

    let args = test_strings.iter().map(|s| s.to_string()).collect::<Vec<String>>();
    let lexer = Tokens::from_strs(args);

    assert_eq!(lexer.options, tokens);
}

#[test]
fn test_parse_help_flag() {
    let test_strings = vec!["prog", "-h"];
    let args = test_strings.iter().map(|s| s.to_string()).collect::<Vec<String>>();
    let lexer = Tokens::from_strs(args);
    assert_eq!(lexer.options, vec![Token::Help]);
}

#[test]
fn test_parse_install_only() {
    let test_strings = vec!["prog", "-i"];
    let args = test_strings.iter().map(|s| s.to_string()).collect::<Vec<String>>();
    let lexer = Tokens::from_strs(args);
    assert_eq!(lexer.options, vec![Token::Install]);
}

#[test]
fn lex_empty_command_line_gives_no_tokens() {
    assert_eq!(Tokens::from_strs(vec![]).options, vec![]);
    assert_eq!(Tokens::from_strs(strings(&["prog"])).options, vec![]);
}

#[test]
fn lex_program_name_is_ignored() {
    let a = Tokens::from_strs(strings(&["mig", "-i", "-h"]));
    let b = Tokens::from_strs(strings(&["-i", "-i", "-h"]));
    assert!(a == b);
    assert_eq!(a.options, vec![Token::Install, Token::Help]);
}

#[test]
fn lex_missing_values_end_with_illegal_token() {
    assert_eq!(
        Tokens::from_strs(strings(&["prog", "-i", "-a"])).options,
        vec![Token::Install, Token::Illegal(String::from("-a requires a package name"))]
    );
    assert_eq!(
        Tokens::from_strs(strings(&["prog", "-p"])).options,
        vec![Token::Illegal(String::from("-p requires a package manager name"))]
    );
    assert_eq!(
        Tokens::from_strs(strings(&["prog", "-c"])).options,
        vec![Token::Illegal(String::from("-c requires a command string"))]
    );
}

#[test]
fn lex_value_flag_takes_next_argument_even_a_flag() {
    assert_eq!(
        Tokens::from_strs(strings(&["prog", "-a", "-h", "-i"])).options,
        vec![Token::AddPackage(String::from("-h")), Token::Install]
    );
}

#[test]
fn lex_package_sources() {
    assert_eq!(
        Tokens::from_strs(strings(&["prog", "-p", "apt", "-p", "git", "-p", "custom", "-p", "brew"])).options,
        vec![
            Token::PackageManager(PackageManager::Apt),
            Token::PackageManager(PackageManager::Git),
            Token::PackageManager(PackageManager::CustomCmd),
            Token::PackageManager(PackageManager::Illegal(String::from(
                "unknown or unsupported package source: brew"
            ))),
        ]
    );
}

#[test]
fn lex_unknown_flag() {
    assert_eq!(
        Tokens::from_strs(strings(&["prog", "-x", "install"])).options,
        vec![
            Token::Illegal(String::from("unknown flag: -x")),
            Token::Illegal(String::from("unknown flag: install")),
        ]
    );
}

#[test]
fn tokens_equality_compares_every_position() {
    let a = Tokens::new(vec![Token::Install, Token::AddPackage(String::from("x"))]);
    let b = Tokens::new(vec![Token::Install, Token::AddPackage(String::from("x"))]);
    let c = Tokens::new(vec![Token::Install, Token::AddPackage(String::from("y"))]);
    let d = Tokens::new(vec![Token::Install]);
    assert!(a == b);
    assert!(a != c);
    assert!(a != d);
    assert!(d != a);
}
