//! The decisions of the read-eval-print loop: what to do with one raw line
//! read from the terminal, and where a parsed command is dispatched.  The
//! loop itself — prompting, reading, launching processes — lives outside the
//! library and carries these decisions out.

use crate::builtins::{builtin_of, spec_builtin_of, Builtin};
use crate::resolve::{find_executable, spec_resolve, DirListing};
use crate::text::{is_space, is_space_char};
use crate::tokenize::{
    lemma_scan_never_empty_command, parse, spec_tokens, Cmd, ParseError, ScanMode,
};
use vstd::prelude::*;

verus! {

/// The line with its trailing newline, and an optional carriage return just
/// before it, removed.
pub open spec fn spec_trim_newline(s: Seq<char>) -> Seq<char> {
    if s.len() > 0 && s.last() == '\n' {
        let t = s.drop_last();
        if t.len() > 0 && t.last() == '\r' {
            t.drop_last()
        } else {
            t
        }
    } else {
        s
    }
}

/// Strips one trailing newline, and the carriage return preceding it if
/// there is one, so that neither can end up inside a token.
pub fn trim_newline(input: &str) -> (r: &str)
    ensures
        r@ == spec_trim_newline(input@),
{
    let n: usize = input.unicode_len();
    if n > 0 && input.get_char(n - 1) == '\n' {
        if n > 1 && input.get_char(n - 2) == '\r' {
            let r = input.substring_char(0, n - 2);
            proof {
                assert(input@.subrange(0, n as int - 2) =~= input@.drop_last().drop_last());
            }
            r
        } else {
            let r = input.substring_char(0, n - 1);
            proof {
                assert(input@.subrange(0, n as int - 1) =~= input@.drop_last());
            }
            r
        }
    } else {
        input
    }
}

/// Whether the line holds nothing but whitespace (or nothing at all).
pub open spec fn spec_is_blank(s: Seq<char>) -> bool {
    forall|i: int| 0 <= i < s.len() ==> is_space_char(#[trigger] s[i])
}

/// Executable test for `spec_is_blank`.
pub fn is_blank(s: &str) -> (r: bool)
    ensures
        r == spec_is_blank(s@),
{
    let n: usize = s.unicode_len();
    let mut i: usize = 0;
    while i < n
        invariant
            n == s@.len(),
            i <= n,
            forall|j: int| 0 <= j < i ==> is_space_char(#[trigger] s@[j]),
        decreases n - i,
    {
        if !is_space(s.get_char(i)) {
            return false;
        }
        i = i + 1;
    }
    true
}

/// What one raw line asks the loop to do.
#[derive(Debug, Clone, PartialEq, Eq)]
pub enum LineAction {
    /// Nothing to run: show the prompt again.
    Redisplay,
    /// The line does not tokenize: report the error, then show the prompt
    /// again.
    Reject(ParseError),
    /// Dispatch this command.
    Run(Cmd),
}

/// One turn of the reading half of the loop.  The line ending is stripped; a
/// blank line is discarded without consulting the tokenizer; a line that
/// fails to tokenize is rejected with its error; otherwise the parsed
/// command is handed on.
pub fn plan_line(raw: &str) -> (r: LineAction)
    ensures
        ({
            let line = spec_trim_newline(raw@);
            if spec_is_blank(line) {
                r == LineAction::Redisplay
            } else {
                match spec_tokens(line) {
                    Ok(toks) => {
                        if toks.len() == 0 {
                            r == LineAction::Redisplay
                        } else {
                            (match r {
                                LineAction::Run(c) => c.program@ == toks[0] && c.args.deep_view()
                                    == toks.drop_first(),
                                _ => false,
                            })
                        }
                    },
                    Err(e) => r == LineAction::Reject(e),
                }
            }
        }),
{
    let line = trim_newline(raw);
    if is_blank(line) {
        return LineAction::Redisplay;
    }
    proof {
        lemma_scan_never_empty_command(
            line@,
            ScanMode::Normal,
            Seq::empty(),
            Seq::empty(),
        );
    }
    match parse(line) {
        Ok(c) => LineAction::Run(c),
        Err(e) => {
            match e {
                ParseError::EmptyCommand => LineAction::Redisplay,
                _ => LineAction::Reject(e),
            }
        },
    }
}

/// Where a parsed command goes.
#[derive(Debug, Clone, PartialEq, Eq)]
pub enum Dispatch {
    /// The program names a registered builtin: run its handler.
    RunBuiltin(Builtin),
    /// An external executable resolved on the search path: run it at this
    /// path.
    RunExternal(String),
    /// Neither: print this message and go on; an expected outcome, not an
    /// error.
    NotFound(String),
}

/// Decides what a program name runs.  The builtin registry is consulted
/// first, so a builtin shadows any same-named external executable; failing
/// that, the search path decides; failing that too, the command is not
/// found.
pub fn dispatch(program: &str, dirs: &Vec<DirListing>, suffix: &str) -> (r: Dispatch)
    ensures
        (match spec_builtin_of(program@) {
            Some(b) => r == Dispatch::RunBuiltin(b),
            None => (match spec_resolve(dirs@, program@, suffix@) {
                Some(p) => (match r {
                    Dispatch::RunExternal(q) => q@ == p,
                    _ => false,
                }),
                None => (match r {
                    Dispatch::NotFound(m) => m@ == program@ + ": command not found"@,
                    _ => false,
                }),
            }),
        }),
{
    match builtin_of(program) {
        Some(b) => Dispatch::RunBuiltin(b),
        None => {
            match find_executable(dirs, program, suffix) {
                Some(p) => Dispatch::RunExternal(p),
                None => Dispatch::NotFound(
                    String::from_str(program).concat(": command not found"),
                ),
            }
        },
    }
}

} // verus!
