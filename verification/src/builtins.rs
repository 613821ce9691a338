//! The builtin registry and its handlers.  Each handler is pure: it decides
//! and formats; printing, environment queries and directory changes are
//! carried out by the caller, which hands their outcomes back in as values.

use crate::resolve::{find_executable, spec_resolve, DirListing};
use crate::text::{join_space, lemma_join_space_push, str_eq};
use vstd::prelude::*;

verus! {

/// The commands the shell handles itself rather than launching a program.
#[derive(Debug, Clone, Copy, PartialEq, Eq, Structural)]
pub enum Builtin {
    Exit,
    Echo,
    Type,
    Pwd,
    Cd,
}

/// The builtin registry: which handler a command name maps to.
pub open spec fn spec_builtin_of(name: Seq<char>) -> Option<Builtin> {
    if name == "exit"@ {
        Some(Builtin::Exit)
    } else if name == "echo"@ {
        Some(Builtin::Echo)
    } else if name == "type"@ {
        Some(Builtin::Type)
    } else if name == "pwd"@ {
        Some(Builtin::Pwd)
    } else if name == "cd"@ {
        Some(Builtin::Cd)
    } else {
        None
    }
}

/// Whether a command name is a registered builtin.
pub open spec fn spec_is_builtin(name: Seq<char>) -> bool {
    spec_builtin_of(name) is Some
}

/// Looks a command name up in the builtin registry.
pub fn builtin_of(name: &str) -> (r: Option<Builtin>)
    ensures
        r == spec_builtin_of(name@),
{
    if str_eq(name, "exit") {
        Some(Builtin::Exit)
    } else if str_eq(name, "echo") {
        Some(Builtin::Echo)
    } else if str_eq(name, "type") {
        Some(Builtin::Type)
    } else if str_eq(name, "pwd") {
        Some(Builtin::Pwd)
    } else if str_eq(name, "cd") {
        Some(Builtin::Cd)
    } else {
        None
    }
}

/// A decimal digit.
pub open spec fn is_digit_char(c: char) -> bool {
    '0' as u32 <= c as u32 && c as u32 <= '9' as u32
}

/// The value of a decimal digit.
pub open spec fn digit_val(c: char) -> nat {
    (c as u32 - '0' as u32) as nat
}

/// Whether every character of `s` is a decimal digit.
pub open spec fn all_digits(s: Seq<char>) -> bool {
    forall|i: int| 0 <= i < s.len() ==> is_digit_char(#[trigger] s[i])
}

/// The value of a string of decimal digits.
pub open spec fn digits_val(s: Seq<char>) -> nat
    decreases s.len(),
{
    if s.len() == 0 {
        0
    } else {
        digits_val(s.drop_last()) * 10 + digit_val(s.last())
    }
}

/// A decimal unsigned 8-bit integer: one or more digits whose value is at
/// most 255; anything else is rejected.
pub open spec fn spec_parse_u8(s: Seq<char>) -> Option<u8> {
    if s.len() > 0 && all_digits(s) && digits_val(s) <= 255 {
        Some(digits_val(s) as u8)
    } else {
        None
    }
}

/// Reads a decimal unsigned 8-bit integer from the whole of `s`.
pub fn parse_u8(s: &str) -> (r: Option<u8>)
    ensures
        r == spec_parse_u8(s@),
{
    let n: usize = s.unicode_len();
    if n == 0 {
        return None;
    }
    // `acc` tracks the value read so far, capped at 256 once it can no
    // longer fit in a u8.
    let mut acc: u32 = 0;
    let mut i: usize = 0;
    proof {
        assert(s@.take(0) =~= Seq::<char>::empty());
    }
    while i < n
        invariant
            n == s@.len(),
            i <= n,
            all_digits(s@.take(i as int)),
            acc <= 256,
            digits_val(s@.take(i as int)) <= 255 ==> acc == digits_val(s@.take(i as int)),
            digits_val(s@.take(i as int)) > 255 ==> acc == 256,
        decreases n - i,
    {
        let c = s.get_char(i);
        let cv = c as u32;
        if cv < 48 || cv > 57 {
            proof {
                assert(!is_digit_char(s@[i as int]));
            }
            return None;
        }
        let d: u32 = cv - 48;
        proof {
            assert(s@.take(i as int + 1).drop_last() =~= s@.take(i as int));
            assert(s@.take(i as int + 1).last() == s@[i as int]);
            assert(digits_val(s@.take(i as int + 1)) == digits_val(s@.take(i as int)) * 10
                + digit_val(s@[i as int]));
        }
        let t: u32 = acc * 10 + d;
        acc = if t > 255 {
            256
        } else {
            t
        };
        i = i + 1;
    }
    proof {
        assert(s@.take(n as int) =~= s@);
    }
    if acc <= 255 {
        Some(acc as u8)
    } else {
        None
    }
}

/// Why an `exit` request was rejected; the loop reports it and goes on.
#[derive(Debug, Clone, Copy, PartialEq, Eq, Structural)]
pub enum ExitError {
    /// The argument is not a decimal number between 0 and 255.
    InvalidCode,
    /// More than one argument was given; only `exit` and `exit <code>` are
    /// supported forms.
    ExtraArgs,
}

/// The `exit` builtin: with no argument it requests termination with status
/// 0; with one argument, that argument must be a decimal unsigned 8-bit
/// integer, the requested status.  A malformed code or extra arguments are
/// reported as errors and do not terminate the loop.
pub fn builtin_exit(args: &Vec<String>) -> (r: Result<u8, ExitError>)
    ensures
        args@.len() == 0 ==> r == Ok::<u8, ExitError>(0u8),
        args@.len() == 1 ==> (match spec_parse_u8(args@[0]@) {
            Some(code) => r == Ok::<u8, ExitError>(code),
            None => r == Err::<u8, ExitError>(ExitError::InvalidCode),
        }),
        args@.len() > 1 ==> r == Err::<u8, ExitError>(ExitError::ExtraArgs),
{
    if args.len() == 0 {
        Ok(0)
    } else if args.len() == 1 {
        match parse_u8(args[0].as_str()) {
            Some(code) => Ok(code),
            None => Err(ExitError::InvalidCode),
        }
    } else {
        Err(ExitError::ExtraArgs)
    }
}

/// The `echo` builtin: its arguments joined with single spaces, the line to
/// print.  It never errors and never terminates the loop.
pub fn builtin_echo(args: &Vec<String>) -> (r: String)
    ensures
        r@ == join_space(args.deep_view()),
{
    let mut out = String::new();
    let mut i: usize = 0;
    proof {
        assert(args.deep_view().take(0) =~= Seq::<Seq<char>>::empty());
    }
    while i < args.len()
        invariant
            i <= args@.len(),
            args@.len() == args.deep_view().len(),
            out@ == join_space(args.deep_view().take(i as int)),
        decreases args@.len() - i,
    {
        proof {
            let dv = args.deep_view();
            assert(dv.take(i as int).push(dv[i as int]) =~= dv.take(i as int + 1));
            lemma_join_space_push(dv.take(i as int), dv[i as int]);
            reveal_strlit(" ");
            assert(" "@ =~= seq![' ']);
        }
        if i > 0 {
            out.append(" ");
        }
        out.append(args[i].as_str());
        proof {
            let dv = args.deep_view();
            if i == 0 {
                assert(out@ =~= dv[0]);
            }
        }
        i = i + 1;
    }
    proof {
        assert(args.deep_view().take(args@.len() as int) =~= args.deep_view());
    }
    out
}

/// One line of `type`'s report for a single name: a registered builtin is
/// reported as such, whatever the search path holds; otherwise the resolved
/// path, or that the name was not found.
pub open spec fn spec_type_line(name: Seq<char>, dirs: Seq<DirListing>, suffix: Seq<char>) -> Seq<
    char,
> {
    if spec_is_builtin(name) {
        name + " is a shell builtin"@
    } else {
        match spec_resolve(dirs, name, suffix) {
            Some(p) => name + " is "@ + p,
            None => name + ": not found"@,
        }
    }
}

/// LAW: builtins shadow externals.  `type` on a registered builtin name
/// reports it as a shell builtin whatever the search path directories hold,
/// a same-named external executable included.
pub proof fn lemma_builtin_shadows_external(
    name: Seq<char>,
    dirs: Seq<DirListing>,
    suffix: Seq<char>,
)
    requires
        spec_is_builtin(name),
    ensures
        spec_type_line(name, dirs, suffix) == name + " is a shell builtin"@,
{
}

/// The `type` builtin: one report line per name, in the order given.  It
/// never errors and never terminates the loop.
pub fn builtin_type(args: &Vec<String>, dirs: &Vec<DirListing>, suffix: &str) -> (r: Vec<String>)
    ensures
        r@.len() == args@.len(),
        forall|i: int|
            0 <= i < args@.len() ==> r.deep_view()[i] == spec_type_line(
                args@[i]@,
                dirs@,
                suffix@,
            ),
{
    let mut out: Vec<String> = Vec::new();
    let mut i: usize = 0;
    while i < args.len()
        invariant
            i <= args@.len(),
            out@.len() == i,
            forall|k: int|
                0 <= k < i ==> out.deep_view()[k] == spec_type_line(args@[k]@, dirs@, suffix@),
        decreases args@.len() - i,
    {
        let arg = &args[i];
        let ghost prev = out.deep_view();
        let line: String;
        if builtin_of(arg.as_str()).is_some() {
            line = arg.clone().concat(" is a shell builtin");
        } else {
            match find_executable(dirs, arg.as_str(), suffix) {
                Some(p) => {
                    line = arg.clone().concat(" is ").concat(p.as_str());
                },
                None => {
                    line = arg.clone().concat(": not found");
                },
            }
        }
        proof {
            assert(line@ == spec_type_line(args@[i as int]@, dirs@, suffix@));
        }
        out.push(line);
        proof {
            assert(out.deep_view() =~~= prev.push(line@));
        }
        i = i + 1;
    }
    out
}

/// Where the `cd` builtin is asked to go.
#[derive(Debug, Clone, PartialEq, Eq)]
pub enum CdTarget {
    /// `cd ~`: the home directory named by the environment.
    Home,
    /// Any other argument: a path to canonicalize against the current
    /// working directory.
    Path(String),
}

/// Why a `cd` request was rejected before consulting the file system; the
/// loop reports it and goes on.
#[derive(Debug, Clone, Copy, PartialEq, Eq, Structural)]
pub enum CdError {
    /// `cd` expects exactly one path argument.
    BadArgCount,
}

/// The first half of the `cd` builtin: reads the argument list and names the
/// destination.  Exactly one argument is expected; `~` stands for the home
/// directory.
pub fn cd_target(args: &Vec<String>) -> (r: Result<CdTarget, CdError>)
    ensures
        args@.len() != 1 ==> r == Err::<CdTarget, CdError>(CdError::BadArgCount),
        args@.len() == 1 && args@[0]@ == "~"@ ==> r == Ok::<CdTarget, CdError>(CdTarget::Home),
        args@.len() == 1 && args@[0]@ != "~"@ ==> (match r {
            Ok(CdTarget::Path(p)) => p@ == args@[0]@,
            _ => false,
        }),
{
    if args.len() != 1 {
        Err(CdError::BadArgCount)
    } else if str_eq(args[0].as_str(), "~") {
        Ok(CdTarget::Home)
    } else {
        Ok(CdTarget::Path(args[0].clone()))
    }
}

/// The outcome of canonicalizing the requested path, handed in by the
/// caller, which owns the file-system access.
#[derive(Debug, Clone, PartialEq, Eq)]
pub enum CanonicalOutcome {
    /// The canonical absolute path.
    Resolved(String),
    /// The path does not exist.
    Missing,
    /// Canonicalization failed for any other reason.
    Failed,
}

/// What the shell must do next for `cd <path>`.
#[derive(Debug, Clone, PartialEq, Eq)]
pub enum CdAction {
    /// Make this the current working directory.
    ChangeTo(String),
    /// Keep the current working directory unchanged and print this message.
    Report(String),
    /// A fatal error: the execution environment itself is broken.
    Fatal,
}

/// The second half of the `cd` builtin: decides its action once the
/// requested path has been canonicalized.  A path that does not exist keeps
/// the working directory unchanged and reports it; any other failure is
/// fatal.
pub fn cd_outcome(path: &str, outcome: CanonicalOutcome) -> (r: CdAction)
    ensures
        (match outcome {
            CanonicalOutcome::Resolved(p) => r == CdAction::ChangeTo(p),
            CanonicalOutcome::Missing => (match r {
                CdAction::Report(m) => m@ == "cd: "@ + path@ + ": No such file or directory"@,
                _ => false,
            }),
            CanonicalOutcome::Failed => r == CdAction::Fatal,
        }),
{
    match outcome {
        CanonicalOutcome::Resolved(p) => CdAction::ChangeTo(p),
        CanonicalOutcome::Missing => CdAction::Report(
            String::from_str("cd: ").concat(path).concat(": No such file or directory"),
        ),
        CanonicalOutcome::Failed => CdAction::Fatal,
    }
}

} // verus!
