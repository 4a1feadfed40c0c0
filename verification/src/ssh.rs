//! The first-stage guard: parsing and resolving a forced ssh command.
//!
//! The remote peer's requested command arrives as one untrusted string.
//! The Command Parser splits it on ASCII whitespace (a documented,
//! deliberate limitation: arguments containing spaces cannot be
//! represented), dispatches on the first token, checks the request
//! against the host's policy and strips unsafe arguments.  The Command
//! Resolver then turns the approved intent into a concrete argument
//! vector, searching the executable path and — for root-required
//! sources — wrapping the result in a second invocation of this same
//! program's escalation guard, which re-validates independently.

use vstd::prelude::*;

use crate::args::{spec_cli_args, GlobalArgs};
use crate::config::{spec_get_source, BackupHost, BackupSource, ConfigTestType, SpecHost,
    SpecSource};
use crate::errors::{DoppelbackError, SpecError};
use crate::fsops::{canonicalize_path, find_in_path};
use crate::pathmodel::is_abs_path;
use crate::rsync_util::{filter_args, spec_filter_args};
use crate::strutil::{clone_tail, split_ascii_ws, split_ws, str_eq, to_chars};

verus! {

/// The command invoked by the ssh forced-command mechanism; it carries
/// the peer's original request verbatim.
#[derive(Debug)]
pub struct SshCmd {
    /// The untrusted command string the remote peer asked to run.
    pub original_cmd: String,
}

impl View for SshCmd {
    type V = Seq<char>;

    open spec fn view(&self) -> Seq<char> {
        self.original_cmd@
    }
}

/// A policy-checked intent: which program, with which (already
/// filtered) arguments, for which matched source, and whether running
/// it takes the escalation path.
#[derive(Debug)]
pub struct ParsedCmd {
    /// The program to run: `rsync`, or this program itself.
    pub command: String,
    /// The filtered argument list, in original order.
    pub args: Vec<String>,
    /// The configured source the request matched, when it named one.
    pub source: Option<BackupSource>,
    /// Whether the matched source requires root.
    pub sudo: bool,
}

/// Mathematical image of [`ParsedCmd`].
pub struct SpecParsed {
    pub command: Seq<char>,
    pub args: Seq<Seq<char>>,
    pub source: Option<SpecSource>,
    pub sudo: bool,
}

impl View for ParsedCmd {
    type V = SpecParsed;

    open spec fn view(&self) -> SpecParsed {
        SpecParsed {
            command: self.command@,
            args: self.args.deep_view(),
            source: self.source.deep_view(),
            sudo: self.sudo,
        }
    }
}

/// A parse result seen through the types' models.
pub open spec fn parsed_result_view(r: Result<ParsedCmd, DoppelbackError>) -> Result<
    SpecParsed,
    SpecError,
> {
    match r {
        Result::Ok(p) => Result::Ok(p@),
        Result::Err(e) => Result::Err(e@),
    }
}

/// A resolve result seen through the types' models.
pub open spec fn cmd_result_view(r: Result<Vec<String>, DoppelbackError>) -> Result<
    Seq<Seq<char>>,
    SpecError,
> {
    match r {
        Result::Ok(v) => Result::Ok(v.deep_view()),
        Result::Err(e) => Result::Err(e@),
    }
}

/// Whether `c` is an ASCII uppercase letter.
pub open spec fn is_ascii_upper(c: char) -> bool {
    65 <= (c as u32) && (c as u32) <= 90
}

/// ASCII-case-insensitive character equality: equal outright, or equal
/// up to the 32-point case offset of ASCII letters.
pub open spec fn char_ci_eq(a: char, b: char) -> bool {
    a == b || (is_ascii_upper(a) && (a as u32) + 32 == (b as u32)) || (is_ascii_upper(b) && (
    b as u32) + 32 == (a as u32))
}

/// ASCII-case-insensitive string equality.
pub open spec fn spec_ci_eq(a: Seq<char>, b: Seq<char>) -> bool {
    a.len() == b.len() && forall|i: int| 0 <= i < a.len() ==> char_ci_eq(a[i], #[trigger] b[i])
}

/// Decides [`spec_ci_eq`].
fn eq_ignore_case(a: &str, b: &str) -> (r: bool)
    ensures
        r == spec_ci_eq(a@, b@),
{
    let ca = to_chars(a);
    let cb = to_chars(b);
    if ca.len() != cb.len() {
        return false;
    }
    let mut i: usize = 0;
    while i < ca.len()
        invariant
            i <= ca@.len(),
            ca@ == a@,
            cb@ == b@,
            a@.len() == b@.len(),
            forall|k: int| 0 <= k < i ==> char_ci_eq(a@[k], #[trigger] b@[k]),
        decreases ca@.len() - i,
    {
        let x = ca[i] as u32;
        let y = cb[i] as u32;
        let eq = ca[i] == cb[i] || (x >= 65 && x <= 90 && x + 32 == y) || (y >= 65 && y <= 90 && y
            + 32 == x);
        if !eq {
            assert(!char_ci_eq(a@[i as int], b@[i as int]));
            return false;
        }
        i = i + 1;
    }
    true
}

/// How the test-type value of a `config-test` invocation is read:
/// the variant whose name it equals up to ASCII case, if any.
pub open spec fn spec_parse_test_type(ty: Seq<char>) -> Option<ConfigTestType> {
    if spec_ci_eq(ty, "Host"@) {
        Option::Some(ConfigTestType::Host)
    } else if spec_ci_eq(ty, "Source"@) {
        Option::Some(ConfigTestType::Source)
    } else if spec_ci_eq(ty, "Remote"@) {
        Option::Some(ConfigTestType::Remote)
    } else {
        Option::None
    }
}

/// Computes [`spec_parse_test_type`].
fn parse_test_type(ty: &str) -> (r: Option<ConfigTestType>)
    ensures
        r == spec_parse_test_type(ty@),
{
    if eq_ignore_case(ty, "Host") {
        Option::Some(ConfigTestType::Host)
    } else if eq_ignore_case(ty, "Source") {
        Option::Some(ConfigTestType::Source)
    } else if eq_ignore_case(ty, "Remote") {
        Option::Some(ConfigTestType::Remote)
    } else {
        Option::None
    }
}

/// What the command-line grammar makes of a `config-test` token list:
/// the `--source` value and the `--type` value (defaulted when absent),
/// or nothing when the tokens do not fit the grammar.  The result is a
/// function of the token list alone.
pub uninterp spec fn config_test_parse(args: Seq<Seq<char>>) -> Option<
    (Option<Seq<char>>, Seq<char>),
>;

/// Relies on clap's `App::get_matches_from_safe` for the `config-test`
/// sub-grammar: a `--source <value>` flag, a `--type <value>` flag
/// defaulting to `host`, the leading token taken as the program name,
/// and anything unrecognized refused.
#[verifier::external_body]
fn run_config_test_grammar(args: &Vec<String>) -> (r: Option<(Option<String>, String)>)
    ensures
        r.deep_view() == config_test_parse(args.deep_view()),
{
    let app = clap::App::new("config-test").arg(
        clap::Arg::with_name("source").long("source").takes_value(true),
    ).arg(clap::Arg::with_name("type").long("type").takes_value(true).default_value("host"));
    match app.get_matches_from_safe(args.iter()) {
        Ok(m) => Some(
            (m.value_of("source").map(String::from), m.value_of("type").unwrap_or("host").to_string()),
        ),
        Err(_) => None,
    }
}

/// What the parser decides for an rsync request, given the canonical
/// form of the path the request named: an unknown source is rejected
/// with `NotFound`; a known one yields an intent whose escalation flag
/// is exactly the source's root requirement, with the argument filter
/// applied to everything after the program name.
pub open spec fn spec_parse_rsync(
    tokens: Seq<Seq<char>>,
    canon: Seq<char>,
    host: SpecHost,
) -> Result<SpecParsed, SpecError> {
    match spec_get_source(host.sources, canon) {
        Option::None => Result::Err(SpecError::NotFound),
        Option::Some(src) => match spec_filter_args(tokens.drop_first()) {
            Result::Ok(f) => Result::Ok(
                SpecParsed {
                    command: "rsync"@,
                    args: f,
                    source: Option::Some(src),
                    sudo: src.root,
                },
            ),
            Result::Err(e) => Result::Err(e),
        },
    }
}

/// What the parser decides for a `config-test` request, given the
/// grammar collaborator's answer: a grammar failure or an unknown test
/// type is `InvalidArguments`; a host-wide test is refused remotely;
/// otherwise the intent passes the original tokens through, matched
/// against the policy when a source was named.
pub open spec fn spec_parse_config_test(
    tokens: Seq<Seq<char>>,
    grammar: Option<(Option<Seq<char>>, Seq<char>)>,
    host: SpecHost,
) -> Result<SpecParsed, SpecError> {
    match grammar {
        Option::None => Result::Err(SpecError::InvalidArguments),
        Option::Some((src_opt, ty)) => match spec_parse_test_type(ty) {
            Option::None => Result::Err(SpecError::InvalidArguments),
            Option::Some(t) => if t == ConfigTestType::Host {
                Result::Err(SpecError::InvalidArguments)
            } else {
                let source = match src_opt {
                    Option::Some(s) => spec_get_source(host.sources, s),
                    Option::None => Option::None,
                };
                Result::Ok(
                    SpecParsed {
                        command: "doppelback"@,
                        args: tokens.drop_first(),
                        source,
                        sudo: match source {
                            Option::Some(c) => c.root,
                            Option::None => false,
                        },
                    },
                )
            },
        },
    }
}

/// The whole parser, as a function of the untrusted string and of the
/// two collaborator answers it may consult: the canonicalized source
/// path (absent when canonicalization failed) and the grammar's
/// verdict.
pub open spec fn spec_ssh_dispatch(
    cmd: Seq<char>,
    canon: Option<Seq<char>>,
    grammar: Option<(Option<Seq<char>>, Seq<char>)>,
    host: SpecHost,
) -> Result<SpecParsed, SpecError> {
    let tokens = split_ws(cmd);
    if tokens.len() == 0 {
        Result::Err(SpecError::MissingArguments)
    } else if tokens[0] == "rsync"@ {
        match canon {
            Option::None => Result::Err(SpecError::NotFound),
            Option::Some(c) => spec_parse_rsync(tokens, c, host),
        }
    } else if tokens[0] == "doppelback"@ {
        if tokens.len() < 2 || tokens[1] != "config-test"@ {
            Result::Err(SpecError::PermissionDenied)
        } else {
            spec_parse_config_test(tokens, grammar, host)
        }
    } else {
        Result::Err(SpecError::PermissionDenied)
    }
}

/// Parses an rsync request whose named path canonicalized to `canon`.
pub fn parse_rsync(tokens: &Vec<String>, canon: &str, host_config: &BackupHost) -> (r: Result<
    ParsedCmd,
    DoppelbackError,
>)
    requires
        tokens.deep_view().len() >= 1,
    ensures
        parsed_result_view(r) == spec_parse_rsync(tokens.deep_view(), canon@, host_config@),
{
    let source_config = match host_config.get_source(canon) {
        Option::None => {
            return Result::Err(DoppelbackError::NotFound);
        },
        Option::Some(s) => s.duplicate(),
    };
    let tail = clone_tail(tokens, 1);
    proof {
        assert(tail.deep_view() =~= tokens.deep_view().drop_first());
    }
    match filter_args(&tail) {
        Result::Err(e) => Result::Err(e),
        Result::Ok(filtered) => {
            let sudo = source_config.root;
            Result::Ok(
                ParsedCmd {
                    command: String::from_str("rsync"),
                    args: filtered,
                    source: Option::Some(source_config),
                    sudo,
                },
            )
        },
    }
}

/// Parses a `config-test` request given the grammar's verdict.
pub fn parse_config_test(
    tokens: &Vec<String>,
    grammar: Option<(Option<String>, String)>,
    host_config: &BackupHost,
) -> (r: Result<ParsedCmd, DoppelbackError>)
    requires
        tokens.deep_view().len() >= 1,
    ensures
        parsed_result_view(r) == spec_parse_config_test(
            tokens.deep_view(),
            grammar.deep_view(),
            host_config@,
        ),
{
    let (src_opt, ty) = match grammar {
        Option::None => {
            return Result::Err(DoppelbackError::InvalidArguments);
        },
        Option::Some(g) => g,
    };
    let t = match parse_test_type(ty.as_str()) {
        Option::None => {
            return Result::Err(DoppelbackError::InvalidArguments);
        },
        Option::Some(t) => t,
    };
    if t == ConfigTestType::Host {
        return Result::Err(DoppelbackError::InvalidArguments);
    }
    let source: Option<BackupSource> = match &src_opt {
        Option::None => Option::None,
        Option::Some(s) => match host_config.get_source(s.as_str()) {
            Option::None => Option::None,
            Option::Some(found) => Option::Some(found.duplicate()),
        },
    };
    let sudo = match &source {
        Option::Some(c) => c.root,
        Option::None => false,
    };
    let args = clone_tail(tokens, 1);
    proof {
        assert(args.deep_view() =~= tokens.deep_view().drop_first());
    }
    Result::Ok(ParsedCmd { command: String::from_str("doppelback"), args, source, sudo })
}

/// What the resolver builds from an intent, as a function of the two
/// search-path answers it may consult: the program's resolved path and
/// the escalation executable's.  A self-referential intent reuses the
/// caller's own invocation prefix instead of searching; an escalated
/// intent is wrapped as
/// `<escalation exe> -- <self prefix> sudo -- <inner command>`.
pub open spec fn spec_resolve(
    parsed: SpecParsed,
    self_args: Seq<Seq<char>>,
    exe: Option<Seq<char>>,
    sudo_exe: Option<Seq<char>>,
) -> Result<Seq<Seq<char>>, SpecError> {
    let base = if parsed.command == "doppelback"@ {
        Result::<Seq<Seq<char>>, SpecError>::Ok(self_args)
    } else {
        match exe {
            Option::Some(p) => Result::Ok(seq![p]),
            Option::None => Result::Err(SpecError::NotFound),
        }
    };
    match base {
        Result::Err(e) => Result::Err(e),
        Result::Ok(b) => {
            let cmd = b + parsed.args;
            if parsed.sudo {
                match sudo_exe {
                    Option::None => Result::Err(SpecError::NotFound),
                    Option::Some(s) => Result::Ok(
                        seq![s, "--"@] + self_args + seq!["sudo"@, "--"@] + cmd,
                    ),
                }
            } else {
                Result::Ok(cmd)
            }
        },
    }
}

/// The whole guard in one statement: parsing `cmd` under the given
/// collaborator answers succeeds, and resolving the intent with prefix
/// `self_args` under the given search-path answers yields `out`.
pub open spec fn resolves_from(
    cmd: Seq<char>,
    host: SpecHost,
    canon: Option<Seq<char>>,
    exe: Option<Seq<char>>,
    sudo_exe: Option<Seq<char>>,
    self_args: Seq<Seq<char>>,
    out: Seq<Seq<char>>,
) -> bool {
    match spec_ssh_dispatch(cmd, canon, config_test_parse(split_ws(cmd).skip(1)), host) {
        Result::Ok(p) => spec_resolve(p, self_args, exe, sudo_exe) == Result::Ok::<
            Seq<Seq<char>>,
            SpecError,
        >(out),
        Result::Err(_) => false,
    }
}

impl SshCmd {
    /// The Command Parser: turns the untrusted request into a
    /// policy-checked intent.
    ///
    /// The deterministic rejections — an empty request, an
    /// unrecognized program, a self-referential request that is not
    /// `config-test` — are stated outright.  The rest is exactly
    /// [`spec_ssh_dispatch`] for some canonicalization outcome (always
    /// an absolute path when present); the grammar's verdict is the
    /// fixed function [`config_test_parse`] of the tokens after the
    /// program name.
    pub fn get_command(&self, host_config: &BackupHost) -> (r: Result<ParsedCmd, DoppelbackError>)
        ensures
            exists|canon: Option<Seq<char>>|
                #[trigger] spec_ssh_dispatch(
                    self@,
                    canon,
                    config_test_parse(split_ws(self@).skip(1)),
                    host_config@,
                ) == parsed_result_view(r) && (canon matches Option::Some(c) ==> is_abs_path(c)),
            split_ws(self@).len() == 0 ==> (r matches Result::Err(e) && e@
                == SpecError::MissingArguments),
            ({
                let t = split_ws(self@);
                (t.len() > 0 && t[0] != "rsync"@ && t[0] != "doppelback"@) ==> (r
                    matches Result::Err(e) && e@ == SpecError::PermissionDenied)
            }),
            ({
                let t = split_ws(self@);
                (t.len() > 0 && t[0] == "doppelback"@ && (t.len() < 2 || t[1] != "config-test"@))
                    ==> (r matches Result::Err(e) && e@ == SpecError::PermissionDenied)
            }),
    {
        let tokens = split_ascii_ws(self.original_cmd.as_str());
        let ghost toks = split_ws(self@);
        let ghost grammar_ans = config_test_parse(toks.skip(1));
        if tokens.len() == 0 {
            let r = Result::Err(DoppelbackError::MissingArguments);
            proof {
                let canon: Option<Seq<char>> = Option::None;
                assert(spec_ssh_dispatch(self@, canon, grammar_ans, host_config@)
                    == parsed_result_view(r));
            }
            return r;
        }
        assert(tokens.deep_view()[0] == toks[0]);
        proof {
            reveal_strlit("rsync");
            reveal_strlit("doppelback");
            assert("rsync"@.len() == 5);
            assert("doppelback"@.len() == 10);
            assert("rsync"@ != "doppelback"@);
        }
        if str_eq(tokens[0].as_str(), "rsync") {
            let last = tokens.len() - 1;
            assert(tokens.deep_view()[last as int] == toks[last as int]);
            match canonicalize_path(tokens[last].as_str()) {
                Option::None => {
                    let r = Result::Err(DoppelbackError::NotFound);
                    proof {
                        let canon: Option<Seq<char>> = Option::None;
                        assert(spec_ssh_dispatch(self@, canon, grammar_ans, host_config@)
                            == parsed_result_view(r));
                    }
                    r
                },
                Option::Some(c) => {
                    let r = parse_rsync(&tokens, c.as_str(), host_config);
                    proof {
                        let canon: Option<Seq<char>> = Option::Some(c@);
                        assert(spec_ssh_dispatch(self@, canon, grammar_ans, host_config@)
                            == parsed_result_view(r));
                    }
                    r
                },
            }
        } else if str_eq(tokens[0].as_str(), "doppelback") {
            if tokens.len() < 2 {
                let r = Result::Err(DoppelbackError::PermissionDenied);
                proof {
                    let canon: Option<Seq<char>> = Option::None;
                    assert(spec_ssh_dispatch(self@, canon, grammar_ans, host_config@)
                        == parsed_result_view(r));
                }
                return r;
            }
            assert(tokens.deep_view()[1] == toks[1]);
            if !str_eq(tokens[1].as_str(), "config-test") {
                let r = Result::Err(DoppelbackError::PermissionDenied);
                proof {
                    let canon: Option<Seq<char>> = Option::None;
                    assert(spec_ssh_dispatch(self@, canon, grammar_ans, host_config@)
                        == parsed_result_view(r));
                }
                return r;
            }
            let tail = clone_tail(&tokens, 1);
            proof {
                assert(tail.deep_view() =~= toks.skip(1));
            }
            let grammar = run_config_test_grammar(&tail);
            let r = parse_config_test(&tokens, grammar, host_config);
            proof {
                let canon: Option<Seq<char>> = Option::None;
                assert(toks.drop_first() =~= toks.skip(1));
                assert(spec_ssh_dispatch(self@, canon, grammar_ans, host_config@)
                    == parsed_result_view(r));
            }
            r
        } else {
            let r = Result::Err(DoppelbackError::PermissionDenied);
            proof {
                let canon: Option<Seq<char>> = Option::None;
                assert(spec_ssh_dispatch(self@, canon, grammar_ans, host_config@)
                    == parsed_result_view(r));
            }
            r
        }
    }

    /// The Command Resolver with its lookups injected: builds the final
    /// argument vector from the intent, the caller's self-invocation
    /// prefix, and the two search-path answers.  Exactly
    /// [`spec_resolve`].
    pub fn resolve_with(
        &self,
        parsed: ParsedCmd,
        self_args: Vec<String>,
        exe: Option<String>,
        sudo_exe: Option<String>,
    ) -> (r: Result<Vec<String>, DoppelbackError>)
        ensures
            cmd_result_view(r) == spec_resolve(
                parsed@,
                self_args.deep_view(),
                exe.deep_view(),
                sudo_exe.deep_view(),
            ),
    {
        let ghost parsed_view = parsed@;
        let ghost self_args_view = self_args.deep_view();
        let mut command: Vec<String>;
        if str_eq(parsed.command.as_str(), "doppelback") {
            command = clone_tail(&self_args, 0);
            proof {
                assert(command.deep_view() =~= self_args_view);
            }
        } else {
            match exe {
                Option::None => {
                    return Result::Err(DoppelbackError::NotFound);
                },
                Option::Some(p) => {
                    command = Vec::new();
                    command.push(p);
                    proof {
                        assert(command.deep_view() =~= seq![exe.deep_view()->0]);
                    }
                },
            }
        }
        let ghost base = command.deep_view();
        let mut rest = parsed.args;
        command.append(&mut rest);
        proof {
            assert(command.deep_view() =~= base + parsed_view.args);
        }
        if parsed.sudo {
            match sudo_exe {
                Option::None => Result::Err(DoppelbackError::NotFound),
                Option::Some(s) => {
                    let ghost s_view = s@;
                    let mut full: Vec<String> = Vec::new();
                    full.push(s);
                    full.push(String::from_str("--"));
                    let mut prefix = clone_tail(&self_args, 0);
                    proof {
                        assert(prefix.deep_view() =~= self_args_view);
                    }
                    full.append(&mut prefix);
                    full.push(String::from_str("sudo"));
                    full.push(String::from_str("--"));
                    full.append(&mut command);
                    proof {
                        assert(full.deep_view() =~= seq![s_view, "--"@] + self_args_view + seq![
                            "sudo"@,
                            "--"@,
                        ] + (base + parsed_view.args));
                    }
                    Result::Ok(full)
                },
            }
        } else {
            Result::Ok(command)
        }
    }

    /// The Command Resolver: looks the program (and, when escalation is
    /// required, the escalation executable) up on the search path and
    /// builds the final argument vector.  What comes back from the
    /// search path varies with the environment, so the contract says:
    /// for some pair of answers, the result is exactly
    /// [`spec_resolve`].
    ///
    /// In deployment the leading token of a resolved command is an
    /// absolute executable path — search-path entries and the running
    /// executable's own path are absolute.  The contract does not claim
    /// it: the search crate's source hands back `entry/command` for
    /// whatever entries the search path holds, so with a relative entry
    /// the answer is relative, and promising more here than that source
    /// shows would be unsound.  Rejecting such answers outright would
    /// add a failure the program never had; the behavior is kept.
    pub fn resolve_command(&self, parsed: ParsedCmd, self_args: Vec<String>) -> (r: Result<
        Vec<String>,
        DoppelbackError,
    >)
        ensures
            exists|exe: Option<Seq<char>>, sudo_exe: Option<Seq<char>>|
                #[trigger] spec_resolve(parsed@, self_args.deep_view(), exe, sudo_exe)
                    == cmd_result_view(r),
    {
        let ghost parsed_view = parsed@;
        let ghost self_args_view = self_args.deep_view();
        let exe: Option<String> = if str_eq(parsed.command.as_str(), "doppelback") {
            Option::None
        } else {
            find_in_path(parsed.command.as_str())
        };
        let sudo_exe: Option<String> = if parsed.sudo {
            find_in_path("sudo")
        } else {
            Option::None
        };
        let ghost exe_view = exe.deep_view();
        let ghost sudo_view = sudo_exe.deep_view();
        let r = self.resolve_with(parsed, self_args, exe, sudo_exe);
        proof {
            assert(spec_resolve(parsed_view, self_args_view, exe_view, sudo_view)
                == cmd_result_view(r));
        }
        r
    }

    /// Parses the untrusted request and resolves it in one step: what
    /// the caller executes (or reports, in dry-run mode).  The
    /// self-invocation prefix is the running executable's path followed
    /// by the re-serialized global settings, so a nested invocation
    /// observes the settings of this one.
    ///
    /// The parser's deterministic rejections are restated here, and on
    /// the one path where nothing outside the library decides — a
    /// non-escalated self-referential `config-test` request, where the
    /// grammar's verdict is a fixed function of the tokens and the
    /// resolver needs no lookup — success is promised with the exact
    /// resolved value.
    pub fn final_command(&self, args: &GlobalArgs, host_config: &BackupHost, argv0: String) -> (r:
        Result<Vec<String>, DoppelbackError>)
        ensures
            split_ws(self@).len() == 0 ==> (r matches Result::Err(e) && e@
                == SpecError::MissingArguments),
            ({
                let t = split_ws(self@);
                (t.len() > 0 && t[0] != "rsync"@ && t[0] != "doppelback"@) ==> (r
                    matches Result::Err(e) && e@ == SpecError::PermissionDenied)
            }),
            ({
                let t = split_ws(self@);
                (t.len() > 0 && t[0] == "doppelback"@ && (t.len() < 2 || t[1] != "config-test"@))
                    ==> (r matches Result::Err(e) && e@ == SpecError::PermissionDenied)
            }),
            (match spec_ssh_dispatch(
                self@,
                Option::None,
                config_test_parse(split_ws(self@).skip(1)),
                host_config@,
            ) {
                Result::Ok(p) => (p.command == "doppelback"@ && !p.sudo) ==> (match r {
                    Result::Ok(v) => v.deep_view() == (seq![argv0@] + spec_cli_args(args@))
                        + p.args,
                    Result::Err(_) => false,
                }),
                Result::Err(_) => true,
            }),
            match r {
                Result::Ok(v) => exists|
                    canon: Option<Seq<char>>,
                    exe: Option<Seq<char>>,
                    sudo_exe: Option<Seq<char>>,
                |
                    #[trigger] resolves_from(
                        self@,
                        host_config@,
                        canon,
                        exe,
                        sudo_exe,
                        seq![argv0@] + spec_cli_args(args@),
                        v.deep_view(),
                    ),
                Result::Err(_) => true,
            },
    {
        let ghost argv0_view = argv0@;
        let ghost g = config_test_parse(split_ws(self@).skip(1));
        let ghost d0 = spec_ssh_dispatch(self@, Option::None, g, host_config@);
        let parsed_res = self.get_command(host_config);
        let ghost pr_view = parsed_result_view(parsed_res);
        let parsed = match parsed_res {
            Result::Err(e) => {
                proof {
                    if d0 is Ok && d0->Ok_0.command == "doppelback"@ && !d0->Ok_0.sudo {
                        let t = split_ws(self@);
                        assert(t.len() > 0);
                        assert(t[0] != "rsync"@);
                        let canon = choose|canon: Option<Seq<char>>|
                            #[trigger] spec_ssh_dispatch(self@, canon, g, host_config@)
                                == pr_view && (canon matches Option::Some(c) ==> is_abs_path(c));
                        lemma_dispatch_ignores_canon(self@, g, host_config@, canon, Option::None);
                        assert(pr_view == d0);
                        assert(false);
                    }
                }
                return Result::Err(e);
            },
            Result::Ok(p) => p,
        };
        let ghost parsed_view = parsed@;
        proof {
            assert(pr_view == Result::Ok::<SpecParsed, SpecError>(parsed_view));
        }
        let mut self_args: Vec<String> = Vec::new();
        self_args.push(argv0);
        let mut extra = args.as_cli_args();
        self_args.append(&mut extra);
        proof {
            assert(self_args.deep_view() =~= seq![argv0_view] + spec_cli_args(args@));
        }
        let ghost self_args_view = self_args.deep_view();
        let r = self.resolve_command(parsed, self_args);
        match &r {
            Result::Ok(_) => {
                proof {
                    let canon = choose|canon: Option<Seq<char>>|
                        #[trigger] spec_ssh_dispatch(self@, canon, g, host_config@) == pr_view
                            && (canon matches Option::Some(c) ==> is_abs_path(c));
                    let (exe, sudo_exe) = choose|exe: Option<Seq<char>>, sudo_exe: Option<
                        Seq<char>,
                    >|
                        #[trigger] spec_resolve(parsed_view, self_args_view, exe, sudo_exe)
                            == cmd_result_view(r);
                    assert(spec_ssh_dispatch(self@, canon, g, host_config@)
                        matches Result::Ok(p) && p == parsed_view);
                    assert(spec_resolve(parsed_view, self_args_view, exe, sudo_exe)
                        == cmd_result_view(r));
                    assert(resolves_from(
                        self@,
                        host_config@,
                        canon,
                        exe,
                        sudo_exe,
                        self_args_view,
                        cmd_result_view(r)->Ok_0,
                    ));
                    if d0 is Ok && d0->Ok_0.command == "doppelback"@ && !d0->Ok_0.sudo {
                        let t = split_ws(self@);
                        assert(t.len() > 0);
                        assert(t[0] != "rsync"@);
                        lemma_dispatch_ignores_canon(self@, g, host_config@, canon, Option::None);
                        assert(d0->Ok_0 == parsed_view);
                        assert(spec_resolve(parsed_view, self_args_view, exe, sudo_exe)
                            == Result::Ok::<Seq<Seq<char>>, SpecError>(
                            self_args_view + parsed_view.args,
                        ));
                    }
                }
            },
            Result::Err(_) => {
                proof {
                    if d0 is Ok && d0->Ok_0.command == "doppelback"@ && !d0->Ok_0.sudo {
                        let t = split_ws(self@);
                        assert(t.len() > 0);
                        assert(t[0] != "rsync"@);
                        let canon = choose|canon: Option<Seq<char>>|
                            #[trigger] spec_ssh_dispatch(self@, canon, g, host_config@)
                                == pr_view && (canon matches Option::Some(c) ==> is_abs_path(c));
                        lemma_dispatch_ignores_canon(self@, g, host_config@, canon, Option::None);
                        assert(d0->Ok_0 == parsed_view);
                        let (exe, sudo_exe) = choose|exe: Option<Seq<char>>, sudo_exe: Option<
                            Seq<char>,
                        >|
                            #[trigger] spec_resolve(parsed_view, self_args_view, exe, sudo_exe)
                                == cmd_result_view(r);
                        assert(spec_resolve(parsed_view, self_args_view, exe, sudo_exe) is Ok);
                        assert(cmd_result_view(r) is Err);
                        assert(false);
                    }
                }
            },
        }
        r
    }
}

/// Only the rsync branch of the parser ever consults the
/// canonicalization outcome: for any other request the dispatch is the
/// same whatever the filesystem answered.
proof fn lemma_dispatch_ignores_canon(
    cmd: Seq<char>,
    grammar: Option<(Option<Seq<char>>, Seq<char>)>,
    host: SpecHost,
    c1: Option<Seq<char>>,
    c2: Option<Seq<char>>,
)
    requires
        split_ws(cmd).len() == 0 || split_ws(cmd)[0] != "rsync"@,
    ensures
        spec_ssh_dispatch(cmd, c1, grammar, host) == spec_ssh_dispatch(cmd, c2, grammar, host),
{
}

/// A canonical path that is not among a host's sources is always
/// rejected as `NotFound`, whatever the rest of the request looked
/// like.
pub proof fn lemma_unlisted_source_rejected(
    tokens: Seq<Seq<char>>,
    canon: Seq<char>,
    host: SpecHost,
)
    requires
        spec_get_source(host.sources, canon) is None,
    ensures
        spec_parse_rsync(tokens, canon, host) == Result::Err::<SpecParsed, SpecError>(
            SpecError::NotFound,
        ),
{
}

/// A canonical path that is among a host's sources, with a well-shaped
/// argument list, always yields an intent whose escalation flag equals
/// the matched source's root requirement.
pub proof fn lemma_listed_source_intent(tokens: Seq<Seq<char>>, canon: Seq<char>, host: SpecHost)
    requires
        spec_get_source(host.sources, canon) is Some,
        spec_filter_args(tokens.drop_first()) is Ok,
    ensures
        spec_parse_rsync(tokens, canon, host) matches Result::Ok(p) && p.source
            == spec_get_source(host.sources, canon) && p.sudo == spec_get_source(
            host.sources,
            canon,
        )->0.root,
{
}

/// Every escalated resolution has the exact shape `<escalation exe> --
/// <self prefix> sudo -- <inner command>`: the structural property the
/// second-stage guard depends on.
pub proof fn lemma_escalated_command_shape(
    parsed: SpecParsed,
    self_args: Seq<Seq<char>>,
    exe: Option<Seq<char>>,
    sudo_exe: Seq<char>,
    out: Seq<Seq<char>>,
)
    requires
        parsed.sudo,
        spec_resolve(parsed, self_args, exe, Option::Some(sudo_exe)) == Result::Ok::<
            Seq<Seq<char>>,
            SpecError,
        >(out),
    ensures
        out.len() >= 4 + self_args.len(),
        out[0] == sudo_exe,
        out[1] == "--"@,
        out.subrange(2, 2 + self_args.len() as int) == self_args,
        out[2 + self_args.len() as int] == "sudo"@,
        out[3 + self_args.len() as int] == "--"@,
        out.skip(4 + self_args.len() as int) == (if parsed.command == "doppelback"@ {
            self_args
        } else {
            seq![exe->0]
        }) + parsed.args,
{
    let base = if parsed.command == "doppelback"@ {
        self_args
    } else {
        seq![exe->0]
    };
    assert(out == seq![sudo_exe, "--"@] + self_args + seq!["sudo"@, "--"@] + (base + parsed.args));
    assert(out.subrange(2, 2 + self_args.len() as int) =~= self_args);
    assert(out.skip(4 + self_args.len() as int) =~= base + parsed.args);
}

} // verus!
