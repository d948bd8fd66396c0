//! Command-line option handling for a help/version/run interface.
//!
//! The parser recognizes exactly two boolean flags, `-h`/`--help` and
//! `-v`/`--version`, in any position and any number of times. Help takes
//! priority over version; with no flags at all the request is to run;
//! any other token is a usage error naming the first such token.

use vstd::prelude::*;
use vstd::string::StringExecFns;

verus! {

/// The parsed intent of a command-line invocation.
#[derive(Clone, Copy, Debug, PartialEq, Eq, Structural)]
pub enum InvocationRequest {
    Help,
    Version,
    Run,
}

/// Failure of option parsing; the offending token is recorded.
#[derive(Debug, PartialEq, Eq)]
pub enum ParseError {
    UnknownOption(String),
}

/// The token is one of the help flags.
pub open spec fn is_help_tok(t: Seq<char>) -> bool {
    t == "-h"@ || t == "--help"@
}

/// The token is one of the version flags.
pub open spec fn is_version_tok(t: Seq<char>) -> bool {
    t == "-v"@ || t == "--version"@
}

/// The token is a recognized flag.
pub open spec fn is_known_tok(t: Seq<char>) -> bool {
    is_help_tok(t) || is_version_tok(t)
}

/// Some token of the list is a help flag.
pub open spec fn has_help(args: Seq<Seq<char>>) -> bool {
    exists|i: int| 0 <= i < args.len() && is_help_tok(args[i])
}

/// Some token of the list is a version flag.
pub open spec fn has_version(args: Seq<Seq<char>>) -> bool {
    exists|i: int| 0 <= i < args.len() && is_version_tok(args[i])
}

/// Every token of the list is a recognized flag.
pub open spec fn all_known(args: Seq<Seq<char>>) -> bool {
    forall|i: int| 0 <= i < args.len() ==> is_known_tok(args[i])
}

/// The position of the first token that is not a recognized flag
/// (meaningful only when one exists).
pub open spec fn first_unknown(args: Seq<Seq<char>>) -> int
    decreases args.len(),
{
    if args.len() == 0 {
        0
    } else if !is_known_tok(args[0]) {
        0
    } else {
        1 + first_unknown(args.drop_first())
    }
}

/// The outcome of parsing an argument list, at the specification level.
pub enum ParseOutcome {
    Help,
    Version,
    Run,
    Unknown(Seq<char>),
}

/// What parsing an argument list yields: the first unrecognized token
/// if there is one; else help if requested; else version if requested;
/// else a plain run.
pub open spec fn parse_outcome(args: Seq<Seq<char>>) -> ParseOutcome {
    if !all_known(args) {
        ParseOutcome::Unknown(args[first_unknown(args)])
    } else if has_help(args) {
        ParseOutcome::Help
    } else if has_version(args) {
        ParseOutcome::Version
    } else {
        ParseOutcome::Run
    }
}

/// The outcome that an executable parse result denotes.
pub open spec fn outcome_of(r: Result<InvocationRequest, ParseError>) -> ParseOutcome {
    match r {
        Ok(InvocationRequest::Help) => ParseOutcome::Help,
        Ok(InvocationRequest::Version) => ParseOutcome::Version,
        Ok(InvocationRequest::Run) => ParseOutcome::Run,
        Err(ParseError::UnknownOption(t)) => ParseOutcome::Unknown(t@),
    }
}

/// If the tokens before position `i` are recognized and the token at
/// `i` is not, then `i` is the position of the first unrecognized one.
proof fn lemma_first_unknown_at(args: Seq<Seq<char>>, i: int)
    requires
        0 <= i < args.len(),
        forall|j: int| 0 <= j < i ==> is_known_tok(args[j]),
        !is_known_tok(args[i]),
    ensures
        !all_known(args),
        first_unknown(args) == i,
    decreases i,
{
    if i > 0 {
        let rest = args.drop_first();
        assert(forall|j: int| 0 <= j < i - 1 ==> rest[j] == args[j + 1]);
        assert(rest[i - 1] == args[i]);
        lemma_first_unknown_at(rest, i - 1);
    }
}

/// When some token is unrecognized, the first unrecognized position is
/// in range, holds an unrecognized token, and everything before it is
/// recognized.
pub proof fn lemma_first_unknown_props(args: Seq<Seq<char>>)
    requires
        !all_known(args),
    ensures
        0 <= first_unknown(args) < args.len(),
        !is_known_tok(args[first_unknown(args)]),
        forall|j: int| 0 <= j < first_unknown(args) ==> is_known_tok(args[j]),
    decreases args.len(),
{
    assert(exists|k: int| 0 <= k < args.len() && !is_known_tok(args[k]));
    if is_known_tok(args[0]) {
        let rest = args.drop_first();
        let k = choose|k: int| 0 <= k < args.len() && !is_known_tok(args[k]);
        assert(rest[k - 1] == args[k]);
        assert(!all_known(rest));
        lemma_first_unknown_props(rest);
        assert(forall|j: int| 0 <= j < first_unknown(rest) ==> rest[j] == args[j + 1]);
        assert(args[first_unknown(args)] == rest[first_unknown(rest)]);
        assert forall|j: int| 0 <= j < first_unknown(args) implies is_known_tok(args[j]) by {
            if j > 0 {
                assert(args[j] == rest[j - 1]);
            }
        }
    }
}

/// True exactly when the token is one of the help flags.
pub fn is_help_arg(s: &String) -> (r: bool)
    ensures
        r == is_help_tok(s@),
{
    let short = String::from_str("-h");
    let long = String::from_str("--help");
    s.eq(&short) || s.eq(&long)
}

/// True exactly when the token is one of the version flags.
pub fn is_version_arg(s: &String) -> (r: bool)
    ensures
        r == is_version_tok(s@),
{
    let short = String::from_str("-v");
    let long = String::from_str("--version");
    s.eq(&short) || s.eq(&long)
}

/// Parses the process arguments (program name excluded) into the
/// request they express. The result denotes exactly the outcome that
/// `parse_outcome` assigns to the token list: the first unrecognized
/// token is reported as an error; otherwise help wins over version,
/// and an empty or flag-free list asks for a run.
pub fn parse(args: &Vec<String>) -> (r: Result<InvocationRequest, ParseError>)
    ensures
        outcome_of(r) == parse_outcome(args.deep_view()),
{
    let ghost a = args.deep_view();
    let mut saw_help = false;
    let mut saw_version = false;
    let mut i: usize = 0;
    while i < args.len()
        invariant
            a == args.deep_view(),
            i <= args.len(),
            a.len() == args.len(),
            forall|j: int| 0 <= j < i ==> is_known_tok(a[j]),
            saw_help == exists|j: int| 0 <= j < i && is_help_tok(a[j]),
            saw_version == exists|j: int| 0 <= j < i && is_version_tok(a[j]),
        decreases args.len() - i,
    {
        let tok = &args[i];
        proof {
            assert(a[i as int] == tok@);
        }
        let h = is_help_arg(tok);
        let v = is_version_arg(tok);
        if !h && !v {
            proof {
                lemma_first_unknown_at(a, i as int);
            }
            return Err(ParseError::UnknownOption(tok.clone()));
        }
        saw_help = saw_help || h;
        saw_version = saw_version || v;
        i = i + 1;
    }
    if saw_help {
        Ok(InvocationRequest::Help)
    } else if saw_version {
        Ok(InvocationRequest::Version)
    } else {
        Ok(InvocationRequest::Run)
    }
}

/// Help takes priority: if every token is a recognized flag and some
/// token asks for help, the outcome is `Help`, whatever other
/// well-formed flags are present.
pub proof fn lemma_help_priority(args: Seq<Seq<char>>)
    requires
        all_known(args),
        has_help(args),
    ensures
        parse_outcome(args) == ParseOutcome::Help,
{
}

/// If every token is a recognized flag, some token asks for the
/// version, and none asks for help, the outcome is `Version`.
pub proof fn lemma_version_when_no_help(args: Seq<Seq<char>>)
    requires
        all_known(args),
        has_version(args),
        !has_help(args),
    ensures
        parse_outcome(args) == ParseOutcome::Version,
{
}

/// If some token is not a recognized flag, parsing fails and names the
/// first such token.
pub proof fn lemma_unknown_rejected(args: Seq<Seq<char>>)
    requires
        !all_known(args),
    ensures
        parse_outcome(args) == ParseOutcome::Unknown(args[first_unknown(args)]),
        0 <= first_unknown(args) < args.len(),
        !is_known_tok(args[first_unknown(args)]),
        forall|j: int| 0 <= j < first_unknown(args) ==> is_known_tok(args[j]),
{
    lemma_first_unknown_props(args);
}

/// Repetition changes nothing: parsing a token list followed by itself
/// yields the same outcome as parsing it once.
pub proof fn lemma_parse_idempotent(args: Seq<Seq<char>>)
    ensures
        parse_outcome(args + args) == parse_outcome(args),
{
    let d = args + args;
    assert(forall|j: int| 0 <= j < args.len() ==> d[j] == args[j]);
    assert(forall|j: int| args.len() <= j < d.len() ==> d[j] == args[j - args.len()]);
    if !all_known(args) {
        lemma_first_unknown_props(args);
        let k = first_unknown(args);
        lemma_first_unknown_at(d, k);
    } else {
        assert(all_known(d));
        if has_help(args) {
            let j = choose|j: int| 0 <= j < args.len() && is_help_tok(args[j]);
            assert(is_help_tok(d[j]));
            assert(has_help(d));
        }
        if has_help(d) {
            let j = choose|j: int| 0 <= j < d.len() && is_help_tok(d[j]);
            if j < args.len() {
                assert(is_help_tok(args[j]));
            } else {
                assert(is_help_tok(args[j - args.len()]));
            }
            assert(has_help(args));
        }
        if has_version(args) {
            let j = choose|j: int| 0 <= j < args.len() && is_version_tok(args[j]);
            assert(is_version_tok(d[j]));
            assert(has_version(d));
        }
        if has_version(d) {
            let j = choose|j: int| 0 <= j < d.len() && is_version_tok(d[j]);
            if j < args.len() {
                assert(is_version_tok(args[j]));
            } else {
                assert(is_version_tok(args[j - args.len()]));
            }
            assert(has_version(args));
        }
    }
}

/// The usage synopsis: a brief line naming the program, then one line
/// for each recognized flag.
pub fn help_text(program: &str) -> (r: String)
    ensures
        r@ == "Help: "@ + program@
            + " [options]\n    -h, --help       print the help information\n    -v, --version    print the version number\n"@,
{
    let mut s = String::from_str("Help: ");
    s.append(program);
    s.append(
        " [options]\n    -h, --help       print the help information\n    -v, --version    print the version number\n",
    );
    s
}

/// The fixed version string.
pub fn version_string() -> (r: String)
    ensures
        r@ == "x.y.z"@,
{
    String::from_str("x.y.z")
}

impl ParseError {
    /// A diagnostic that names the offending token.
    pub fn message(&self) -> (r: String)
        ensures
            r@ == "Unrecognized option: '"@ + self->0@ + "'"@,
    {
        match self {
            ParseError::UnknownOption(t) => {
                let mut s = String::from_str("Unrecognized option: '");
                s.append(t.as_str());
                s.append("'");
                s
            },
        }
    }
}

/// The process exit code that a parse result calls for: zero for any
/// request, one for a usage error.
pub fn exit_code(r: &Result<InvocationRequest, ParseError>) -> (c: i32)
    ensures
        r is Ok ==> c == 0,
        r is Err ==> c == 1,
{
    match r {
        Ok(_) => 0,
        Err(_) => 1,
    }
}

} // verus!
