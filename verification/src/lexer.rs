use crate::text::{copy_string, is_word, owned, strings_view};
use vstd::prelude::*;
use vstd::string::*;

verus! {

/// Supported package manager backends (apt, dnf, git, custom commands).
#[derive(Debug)]
pub enum PackageManager {
    Dnf,
    Apt,
    Git,
    CustomCmd,
    Illegal(String),
}

/// Token types produced by the lexer from raw CLI arguments.
#[derive(Debug)]
pub enum Token {
    Install,
    PackageManager(PackageManager),
    AddPackage(String),
    CustomCmd(String),
    Help,
    SelfUpdate,
    Illegal(String),
}

/// A list of tokens parsed from the command line.
#[derive(Debug)]
pub struct Tokens {
    pub options: Vec<Token>,
}

/// Mathematical model of a [`PackageManager`] token payload.
pub enum SourceView {
    Dnf,
    Apt,
    Git,
    CustomCmd,
    Illegal(Seq<char>),
}

/// Mathematical model of a [`Token`].
pub enum TokenView {
    Install,
    PackageManager(SourceView),
    AddPackage(Seq<char>),
    CustomCmd(Seq<char>),
    Help,
    SelfUpdate,
    Illegal(Seq<char>),
}

impl View for PackageManager {
    type V = SourceView;

    open spec fn view(&self) -> SourceView {
        match self {
            PackageManager::Dnf => SourceView::Dnf,
            PackageManager::Apt => SourceView::Apt,
            PackageManager::Git => SourceView::Git,
            PackageManager::CustomCmd => SourceView::CustomCmd,
            PackageManager::Illegal(s) => SourceView::Illegal(s@),
        }
    }
}

impl View for Token {
    type V = TokenView;

    open spec fn view(&self) -> TokenView {
        match self {
            Token::Install => TokenView::Install,
            Token::PackageManager(p) => TokenView::PackageManager(p@),
            Token::AddPackage(s) => TokenView::AddPackage(s@),
            Token::CustomCmd(s) => TokenView::CustomCmd(s@),
            Token::Help => TokenView::Help,
            Token::SelfUpdate => TokenView::SelfUpdate,
            Token::Illegal(s) => TokenView::Illegal(s@),
        }
    }
}

/// The models of a sequence of tokens.
pub open spec fn tokens_view(tokens: Seq<Token>) -> Seq<TokenView> {
    tokens.map_values(|t: Token| t@)
}

impl View for Tokens {
    type V = Seq<TokenView>;

    open spec fn view(&self) -> Seq<TokenView> {
        tokens_view(self.options@)
    }
}

/// The package source named by the value of `-p`.
pub open spec fn source_named(value: Seq<char>) -> SourceView {
    if value == "dnf"@ {
        SourceView::Dnf
    } else if value == "apt"@ {
        SourceView::Apt
    } else if value == "git"@ {
        SourceView::Git
    } else if value == "custom"@ {
        SourceView::CustomCmd
    } else {
        SourceView::Illegal("unknown or unsupported package source: "@ + value)
    }
}

/// The flags that read the next argument as their value.
pub open spec fn takes_value(flag: Seq<char>) -> bool {
    flag == "-a"@ || flag == "-p"@ || flag == "-c"@
}

/// The token of a flag that takes a value, given that value.
pub open spec fn valued_token(flag: Seq<char>, value: Seq<char>) -> TokenView {
    if flag == "-a"@ {
        TokenView::AddPackage(value)
    } else if flag == "-p"@ {
        TokenView::PackageManager(source_named(value))
    } else {
        TokenView::CustomCmd(value)
    }
}

/// The token of a flag that takes a value, when the value is missing.
pub open spec fn missing_value_token(flag: Seq<char>) -> TokenView {
    if flag == "-a"@ {
        TokenView::Illegal("-a requires a package name"@)
    } else if flag == "-p"@ {
        TokenView::Illegal("-p requires a package manager name"@)
    } else {
        TokenView::Illegal("-c requires a command string"@)
    }
}

/// The token of a flag that stands alone.
pub open spec fn single_token(flag: Seq<char>) -> TokenView {
    if flag == "-h"@ {
        TokenView::Help
    } else if flag == "-u"@ {
        TokenView::SelfUpdate
    } else if flag == "-i"@ {
        TokenView::Install
    } else {
        TokenView::Illegal("unknown flag: "@ + flag)
    }
}

/// The tokens of the arguments `args` (the program name already removed).
/// A flag that takes a value reads the next argument as that value, whatever
/// it is; where that argument is missing, lexing ends with an illegal token.
pub open spec fn lex(args: Seq<Seq<char>>) -> Seq<TokenView>
    decreases args.len(),
{
    if args.len() == 0 {
        seq![]
    } else if takes_value(args[0]) {
        if args.len() < 2 {
            seq![missing_value_token(args[0])]
        } else {
            seq![valued_token(args[0], args[1])] + lex(args.skip(2))
        }
    } else {
        seq![single_token(args[0])] + lex(args.skip(1))
    }
}

/// The tokens of a whole command line `argv`, whose first element is the
/// program name.
pub open spec fn lex_command_line(argv: Seq<Seq<char>>) -> Seq<TokenView> {
    if argv.len() == 0 {
        seq![]
    } else {
        lex(argv.skip(1))
    }
}

impl PartialEq for PackageManager {
    fn eq(&self, other: &Self) -> (r: bool) {
        match (self, other) {
            (PackageManager::Dnf, PackageManager::Dnf) => true,
            (PackageManager::Apt, PackageManager::Apt) => true,
            (PackageManager::Git, PackageManager::Git) => true,
            (PackageManager::CustomCmd, PackageManager::CustomCmd) => true,
            (PackageManager::Illegal(a), PackageManager::Illegal(b)) => a.eq(b),
            _ => false,
        }
    }
}

impl vstd::std_specs::cmp::PartialEqSpecImpl for PackageManager {
    open spec fn obeys_eq_spec() -> bool {
        true
    }

    open spec fn eq_spec(&self, other: &PackageManager) -> bool {
        self@ == other@
    }
}

impl PartialEq for Token {
    fn eq(&self, other: &Self) -> (r: bool) {
        match (self, other) {
            (Token::Install, Token::Install) => true,
            (Token::PackageManager(a), Token::PackageManager(b)) => a.eq(b),
            (Token::AddPackage(a), Token::AddPackage(b)) => a.eq(b),
            (Token::CustomCmd(a), Token::CustomCmd(b)) => a.eq(b),
            (Token::Help, Token::Help) => true,
            (Token::SelfUpdate, Token::SelfUpdate) => true,
            (Token::Illegal(a), Token::Illegal(b)) => a.eq(b),
            _ => false,
        }
    }
}

impl vstd::std_specs::cmp::PartialEqSpecImpl for Token {
    open spec fn obeys_eq_spec() -> bool {
        true
    }

    open spec fn eq_spec(&self, other: &Token) -> bool {
        self@ == other@
    }
}

impl PartialEq for Tokens {
    /// Two token lists are equal when they have the same length and equal
    /// tokens at every position.
    fn eq(&self, other: &Tokens) -> (r: bool) {
        let n = self.options.len();
        if n != other.options.len() {
            proof {
                assert(self@.len() != other@.len());
            }
            return false;
        }
        let mut index: usize = 0;
        while index < n
            invariant
                index <= n,
                n == self.options@.len(),
                n == other.options@.len(),
                forall|k: int| 0 <= k < index ==> self.options@[k]@ == other.options@[k]@,
            decreases n - index,
        {
            if !self.options[index].eq(&other.options[index]) {
                proof {
                    assert(self@[index as int] != other@[index as int]);
                }
                return false;
            }
            index = index + 1;
        }
        proof {
            assert(self@ =~= other@);
        }
        true
    }
}

impl vstd::std_specs::cmp::PartialEqSpecImpl for Tokens {
    open spec fn obeys_eq_spec() -> bool {
        true
    }

    open spec fn eq_spec(&self, other: &Tokens) -> bool {
        self@ == other@
    }
}

impl Tokens {
    /// Wraps a list of tokens.
    pub fn new(args: Vec<Token>) -> (r: Self)
        ensures
            r.options@ == args@,
    {
        Self { options: args }
    }

    /// Lexes the command line `args` (`args[0]` is the program name, which
    /// is skipped).
    ///
    /// The lexer does not check whether the argument after a flag that takes
    /// a value is itself a flag: it only checks bounds and reads the next
    /// argument as the value of the current flag.
    pub fn from_strs(args: Vec<String>) -> (r: Self)
        ensures
            r@ == lex_command_line(strings_view(args@)),
    {
        let mut options: Vec<Token> = Vec::new();
        let n = args.len();
        if n == 0 {
            proof {
                assert(tokens_view(options@) =~= seq![]);
            }
            return Self { options };
        }
        let ghost all = strings_view(args@).skip(1);
        let mut i: usize = 1;
        while i < n
            invariant_except_break
                1 <= i <= n,
                n == args@.len(),
                all == strings_view(args@).skip(1),
                lex(all) == tokens_view(options@) + lex(strings_view(args@).skip(i as int)),
            ensures
                lex(all) == tokens_view(options@),
            decreases n - i,
        {
            let ghost rest = strings_view(args@).skip(i as int);
            assert(rest[0] == args@[i as int]@);
            let arg = &args[i];
            let ghost before = options@;
            if is_word(arg, "-a") || is_word(arg, "-p") || is_word(arg, "-c") {
                assert(takes_value(rest[0]));
                if i + 1 >= n {
                    let msg = if is_word(arg, "-a") {
                        owned("-a requires a package name")
                    } else if is_word(arg, "-p") {
                        owned("-p requires a package manager name")
                    } else {
                        owned("-c requires a command string")
                    };
                    options.push(Token::Illegal(msg));
                    proof {
                        assert(rest.len() == 1);
                        assert(tokens_view(options@) =~= tokens_view(before) + seq![
                            missing_value_token(rest[0]),
                        ]);
                    }
                    break;
                }
                let value = &args[i + 1];
                assert(rest[1] == value@);
                let tok = if is_word(arg, "-a") {
                    Token::AddPackage(copy_string(value))
                } else if is_word(arg, "-p") {
                    let source = if is_word(value, "dnf") {
                        PackageManager::Dnf
                    } else if is_word(value, "apt") {
                        PackageManager::Apt
                    } else if is_word(value, "git") {
                        PackageManager::Git
                    } else if is_word(value, "custom") {
                        PackageManager::CustomCmd
                    } else {
                        let mut msg = owned("unknown or unsupported package source: ");
                        msg.append(value.as_str());
                        PackageManager::Illegal(msg)
                    };
                    Token::PackageManager(source)
                } else {
                    Token::CustomCmd(copy_string(value))
                };
                options.push(tok);
                proof {
                    assert(rest.skip(2) =~= strings_view(args@).skip(i + 2));
                    assert(tokens_view(options@) =~= tokens_view(before) + seq![
                        valued_token(rest[0], rest[1]),
                    ]);
                }
                i = i + 2;
            } else {
                let tok = if is_word(arg, "-h") {
                    Token::Help
                } else if is_word(arg, "-u") {
                    Token::SelfUpdate
                } else if is_word(arg, "-i") {
                    Token::Install
                } else {
                    let mut msg = owned("unknown flag: ");
                    msg.append(arg.as_str());
                    Token::Illegal(msg)
                };
                options.push(tok);
                proof {
                    assert(rest.skip(1) =~= strings_view(args@).skip(i + 1));
                    assert(tokens_view(options@) =~= tokens_view(before) + seq![
                        single_token(rest[0]),
                    ]);
                }
                i = i + 1;
            }
        }
        Self { options }
    }
}


/// Law: the program name (the first argument) does not change the tokens.
pub proof fn law_program_name_ignored(p: Seq<char>, q: Seq<char>, rest: Seq<Seq<char>>)
    ensures
        lex_command_line(seq![p] + rest) == lex_command_line(seq![q] + rest),
        lex_command_line(seq![p] + rest) == lex(rest),
{
    assert((seq![p] + rest).skip(1) =~= rest);
    assert((seq![q] + rest).skip(1) =~= rest);
}

/// Law: a flag that takes a value reads the next argument as its value,
/// whatever that argument is (another flag too), and lexing goes on after
/// it.
pub proof fn law_value_flag_takes_next(flag: Seq<char>, value: Seq<char>, rest: Seq<Seq<char>>)
    requires
        takes_value(flag),
    ensures
        lex(seq![flag, value] + rest) == seq![valued_token(flag, value)] + lex(rest),
{
    let args = seq![flag, value] + rest;
    assert(args[0] == flag);
    assert(args[1] == value);
    assert(args.skip(2) =~= rest);
}

/// Law: lexing joins: lexing arguments that do not end in a flag missing
/// its value, followed by more arguments, gives the tokens of the first
/// part followed by those of the second.
pub proof fn law_lex_concatenates(a: Seq<Seq<char>>, b: Seq<Seq<char>>)
    requires
        complete_arguments(a),
    ensures
        lex(a + b) == lex(a) + lex(b),
    decreases a.len(),
{
    if a.len() == 0 {
        assert(a + b =~= b);
    } else {
        assert((a + b)[0] == a[0]);
        if takes_value(a[0]) {
            assert((a + b)[1] == a[1]);
            assert((a + b).skip(2) =~= a.skip(2) + b);
            law_lex_concatenates(a.skip(2), b);
            assert(lex(a + b) =~= lex(a) + lex(b));
        } else {
            assert((a + b).skip(1) =~= a.skip(1) + b);
            law_lex_concatenates(a.skip(1), b);
            assert(lex(a + b) =~= lex(a) + lex(b));
        }
    }
}

/// Arguments that lexing reads to their end without a flag missing its
/// value.
pub open spec fn complete_arguments(args: Seq<Seq<char>>) -> bool
    decreases args.len(),
{
    if args.len() == 0 {
        true
    } else if takes_value(args[0]) {
        args.len() >= 2 && complete_arguments(args.skip(2))
    } else {
        complete_arguments(args.skip(1))
    }
}

/// Law: lexing gives at most one token per argument.
pub proof fn law_lex_at_most_one_token_per_argument(args: Seq<Seq<char>>)
    ensures
        lex(args).len() <= args.len(),
    decreases args.len(),
{
    if args.len() > 0 {
        if takes_value(args[0]) && args.len() >= 2 {
            law_lex_at_most_one_token_per_argument(args.skip(2));
        } else if !takes_value(args[0]) {
            law_lex_at_most_one_token_per_argument(args.skip(1));
        }
    }
}

} // verus!
