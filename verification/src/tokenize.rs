//! The line tokenizer: splits a raw command line into a program name and an
//! argument vector, honouring single quotes, double quotes and backslash
//! escapes.
//!
//! The scanner is a four-state machine: outside any quoting construct
//! (`Normal`), inside a single- or double-quoted span (quoted spans copy
//! characters verbatim), or just after a backslash (`PendingEscape`, which
//! copies exactly the next character literally).  Unquoted whitespace ends
//! the current token; runs of it collapse to one boundary and never produce
//! empty tokens.

use crate::text::{is_space, is_space_char, join_space, push_char};
use vstd::prelude::*;

verus! {

/// Why a line could not be tokenized.
#[derive(Debug, Clone, Copy, PartialEq, Eq, Structural)]
pub enum ParseError {
    /// A single- or double-quoted span was opened but never closed.
    UnterminatedQuote,
    /// The line ended with a backslash that escapes nothing.
    DanglingEscape,
    /// The line contained no token at all once quoting was resolved.
    EmptyCommand,
}

/// A parsed command line: the program to run and its arguments, in order.
#[derive(Debug, Clone, PartialEq, Eq)]
pub struct Cmd {
    pub program: String,
    pub args: Vec<String>,
}

/// The scanner's state: what the character about to be read means.
#[derive(Debug, Clone, Copy, PartialEq, Eq, Structural)]
pub enum ScanMode {
    Normal,
    InSingleQuote,
    InDoubleQuote,
    PendingEscape,
}

/// The state reached after reading one character in state `mode`.
pub open spec fn step_mode(mode: ScanMode, c: char) -> ScanMode {
    match mode {
        ScanMode::Normal => {
            if c == '\'' {
                ScanMode::InSingleQuote
            } else if c == '"' {
                ScanMode::InDoubleQuote
            } else if c == '\\' {
                ScanMode::PendingEscape
            } else {
                ScanMode::Normal
            }
        },
        ScanMode::InSingleQuote => {
            if c == '\'' {
                ScanMode::Normal
            } else {
                ScanMode::InSingleQuote
            }
        },
        ScanMode::InDoubleQuote => {
            if c == '"' {
                ScanMode::Normal
            } else {
                ScanMode::InDoubleQuote
            }
        },
        ScanMode::PendingEscape => ScanMode::Normal,
    }
}

/// The current token after reading one character in state `mode`.
pub open spec fn step_token(mode: ScanMode, c: char, cur: Seq<char>) -> Seq<char> {
    match mode {
        ScanMode::Normal => {
            if c == '\'' || c == '"' || c == '\\' {
                cur
            } else if is_space_char(c) {
                Seq::empty()
            } else {
                cur.push(c)
            }
        },
        ScanMode::InSingleQuote => {
            if c == '\'' {
                cur
            } else {
                cur.push(c)
            }
        },
        ScanMode::InDoubleQuote => {
            if c == '"' {
                cur
            } else {
                cur.push(c)
            }
        },
        ScanMode::PendingEscape => cur.push(c),
    }
}

/// Ends the current token: a non-empty token joins the completed list, an
/// empty one is dropped (whitespace runs produce no empty tokens).
pub open spec fn flushed(acc: Seq<Seq<char>>, cur: Seq<char>) -> Seq<Seq<char>> {
    if cur.len() > 0 {
        acc.push(cur)
    } else {
        acc
    }
}

/// The completed-token list after reading one character in state `mode`.
pub open spec fn step_acc(mode: ScanMode, c: char, cur: Seq<char>, acc: Seq<Seq<char>>) -> Seq<
    Seq<char>,
> {
    if mode == ScanMode::Normal && c != '\'' && c != '"' && c != '\\' && is_space_char(c) {
        flushed(acc, cur)
    } else {
        acc
    }
}

/// Scans the remaining input `s` from state `mode`, with current token `cur`
/// and completed tokens `acc`, and yields the full token list, or the error
/// that the end of the line reveals.
pub open spec fn scan(s: Seq<char>, mode: ScanMode, cur: Seq<char>, acc: Seq<Seq<char>>) -> Result<
    Seq<Seq<char>>,
    ParseError,
>
    decreases s.len(),
{
    if s.len() == 0 {
        match mode {
            ScanMode::Normal => Ok(flushed(acc, cur)),
            ScanMode::PendingEscape => Err(ParseError::DanglingEscape),
            _ => Err(ParseError::UnterminatedQuote),
        }
    } else {
        scan(
            s.drop_first(),
            step_mode(mode, s[0]),
            step_token(mode, s[0], cur),
            step_acc(mode, s[0], cur, acc),
        )
    }
}

/// The token list of a whole line, or the error it scans to.
pub open spec fn spec_tokens(s: Seq<char>) -> Result<Seq<Seq<char>>, ParseError> {
    scan(s, ScanMode::Normal, Seq::empty(), Seq::empty())
}

/// Splits `input` into tokens; the first becomes the program, the rest the
/// arguments.  Returns `UnterminatedQuote` or `DanglingEscape` when scanning
/// fails, and `EmptyCommand` when the line scans but holds no token.
pub fn parse(input: &str) -> (r: Result<Cmd, ParseError>)
    ensures
        (match spec_tokens(input@) {
            Ok(toks) => {
                if toks.len() == 0 {
                    r == Err::<Cmd, ParseError>(ParseError::EmptyCommand)
                } else {
                    (match r {
                        Ok(c) => c.program@ == toks[0] && c.args.deep_view() == toks.drop_first(),
                        Err(_) => false,
                    })
                }
            },
            Err(e) => r == Err::<Cmd, ParseError>(e),
        }),
{
    let n: usize = input.unicode_len();
    let mut mode = ScanMode::Normal;
    let mut cur = String::new();
    let mut toks: Vec<String> = Vec::new();
    let mut i: usize = 0;
    proof {
        assert(input@.skip(0) =~= input@);
        assert(toks.deep_view() =~= Seq::<Seq<char>>::empty());
    }
    while i < n
        invariant
            n == input@.len(),
            i <= n,
            spec_tokens(input@) == scan(input@.skip(i as int), mode, cur@, toks.deep_view()),
        decreases n - i,
    {
        proof {
            assert(input@.skip(i as int)[0] == input@[i as int]);
            assert(input@.skip(i as int).drop_first() =~= input@.skip(i as int + 1));
        }
        let c = input.get_char(i);
        let ghost prev_mode = mode;
        let ghost prev_acc = toks.deep_view();
        let ghost prev_cur = cur@;
        match mode {
            ScanMode::Normal => {
                if c == '\'' {
                    mode = ScanMode::InSingleQuote;
                } else if c == '"' {
                    mode = ScanMode::InDoubleQuote;
                } else if c == '\\' {
                    mode = ScanMode::PendingEscape;
                } else if is_space(c) {
                    if !cur.as_str().is_empty() {
                        toks.push(cur);
                    }
                    cur = String::new();
                } else {
                    push_char(&mut cur, c);
                }
            },
            ScanMode::InSingleQuote => {
                if c == '\'' {
                    mode = ScanMode::Normal;
                } else {
                    push_char(&mut cur, c);
                }
            },
            ScanMode::InDoubleQuote => {
                if c == '"' {
                    mode = ScanMode::Normal;
                } else {
                    push_char(&mut cur, c);
                }
            },
            ScanMode::PendingEscape => {
                push_char(&mut cur, c);
                mode = ScanMode::Normal;
            },
        }
        proof {
            let c0 = input@[i as int];
            assert(mode == step_mode(prev_mode, c0));
            assert(cur@ == step_token(prev_mode, c0, prev_cur));
            assert(toks.deep_view() =~~= step_acc(prev_mode, c0, prev_cur, prev_acc));
            assert(scan(input@.skip(i as int), prev_mode, prev_cur, prev_acc) == scan(
                input@.skip(i as int + 1),
                mode,
                cur@,
                toks.deep_view(),
            ));
        }
        i = i + 1;
    }
    proof {
        assert(input@.skip(i as int) =~= Seq::<char>::empty());
    }
    let ghost end_acc = toks.deep_view();
    let ghost end_cur = cur@;
    if !cur.as_str().is_empty() {
        toks.push(cur);
    }
    proof {
        assert(toks.deep_view() =~~= flushed(end_acc, end_cur));
    }
    let ghost all_toks = toks.deep_view();
    match mode {
        ScanMode::Normal => {
            if toks.len() == 0 {
                Err(ParseError::EmptyCommand)
            } else {
                let program = toks.remove(0);
                proof {
                    assert(toks.deep_view() =~~= all_toks.drop_first());
                }
                Ok(Cmd { program, args: toks })
            }
        },
        ScanMode::PendingEscape => Err(ParseError::DanglingEscape),
        _ => Err(ParseError::UnterminatedQuote),
    }
}

impl ParseError {
    /// A short description of the error, for reporting it on the line it
    /// came from.
    pub fn message(&self) -> (r: String)
        ensures
            *self == ParseError::UnterminatedQuote ==> r@ == "did not find a closing quote"@,
            *self == ParseError::DanglingEscape ==> r@
                == "expected a character after the backslash"@,
            *self == ParseError::EmptyCommand ==> r@ == "empty command"@,
    {
        match self {
            ParseError::UnterminatedQuote => String::from_str("did not find a closing quote"),
            ParseError::DanglingEscape => String::from_str(
                "expected a character after the backslash",
            ),
            ParseError::EmptyCommand => String::from_str("empty command"),
        }
    }
}

/// Scanning itself only ever fails for a quote or an escape; an empty
/// command is noticed afterwards, when the token list turns out empty.
pub proof fn lemma_scan_never_empty_command(
    s: Seq<char>,
    mode: ScanMode,
    cur: Seq<char>,
    acc: Seq<Seq<char>>,
)
    ensures
        scan(s, mode, cur, acc) != Err::<Seq<Seq<char>>, ParseError>(ParseError::EmptyCommand),
    decreases s.len(),
{
    if s.len() > 0 {
        lemma_scan_never_empty_command(
            s.drop_first(),
            step_mode(mode, s[0]),
            step_token(mode, s[0], cur),
            step_acc(mode, s[0], cur, acc),
        );
    }
}

/// The scanner's state after the rest of the line, ignoring the tokens it
/// builds along the way.
pub open spec fn scan_mode(s: Seq<char>, mode: ScanMode) -> ScanMode
    decreases s.len(),
{
    if s.len() == 0 {
        mode
    } else {
        scan_mode(s.drop_first(), step_mode(mode, s[0]))
    }
}

/// A line whose quoted spans are all closed and which does not end in a
/// trailing backslash: scanning it ends outside every quoting construct.
pub open spec fn well_quoted(s: Seq<char>) -> bool {
    scan_mode(s, ScanMode::Normal) == ScanMode::Normal
}

proof fn lemma_scan_ok_iff_normal(s: Seq<char>, mode: ScanMode, cur: Seq<char>, acc: Seq<Seq<char>>)
    ensures
        scan(s, mode, cur, acc) is Ok <==> scan_mode(s, mode) == ScanMode::Normal,
    decreases s.len(),
{
    if s.len() > 0 {
        lemma_scan_ok_iff_normal(
            s.drop_first(),
            step_mode(mode, s[0]),
            step_token(mode, s[0], cur),
            step_acc(mode, s[0], cur, acc),
        );
    }
}

/// LAW: tokenization succeeds on exactly the well-quoted lines.  A line with
/// balanced quotes and no trailing backslash always scans to a token list;
/// any other line is rejected with `UnterminatedQuote` or `DanglingEscape`.
pub proof fn lemma_well_quoted_iff_tokenizes(s: Seq<char>)
    ensures
        well_quoted(s) <==> spec_tokens(s) is Ok,
{
    lemma_scan_ok_iff_normal(s, ScanMode::Normal, Seq::empty(), Seq::empty());
}

/// A token that needs no quoting: non-empty and free of whitespace, quotes
/// and backslashes.
pub open spec fn plain_token(t: Seq<char>) -> bool {
    t.len() > 0 && (forall|i: int|
        0 <= i < t.len() ==> !is_space_char(t[i]) && t[i] != '\'' && t[i] != '"' && t[i] != '\\')
}

proof fn lemma_scan_plain_word(t: Seq<char>, rest: Seq<char>, cur: Seq<char>, acc: Seq<Seq<char>>)
    requires
        forall|i: int|
            0 <= i < t.len() ==> !is_space_char(t[i]) && t[i] != '\'' && t[i] != '"' && t[i]
                != '\\',
    ensures
        scan(t + rest, ScanMode::Normal, cur, acc) == scan(rest, ScanMode::Normal, cur + t, acc),
    decreases t.len(),
{
    if t.len() == 0 {
        assert(t + rest =~= rest);
        assert(cur + t =~= cur);
    } else {
        let c = t[0];
        assert((t + rest)[0] == c);
        assert((t + rest).drop_first() =~= t.drop_first() + rest);
        lemma_scan_plain_word(t.drop_first(), rest, cur.push(c), acc);
        assert(cur.push(c) + t.drop_first() =~= cur + t);
    }
}

proof fn lemma_scan_join(toks: Seq<Seq<char>>, acc: Seq<Seq<char>>)
    requires
        toks.len() > 0,
        forall|i: int| 0 <= i < toks.len() ==> plain_token(#[trigger] toks[i]),
    ensures
        scan(join_space(toks), ScanMode::Normal, Seq::empty(), acc) == Ok::<_, ParseError>(
            acc + toks,
        ),
    decreases toks.len(),
{
    if toks.len() == 1 {
        assert(join_space(toks) == toks[0]);
        assert(toks[0] + Seq::<char>::empty() =~= toks[0]);
        lemma_scan_plain_word(toks[0], Seq::empty(), Seq::empty(), acc);
        assert(Seq::<char>::empty() + toks[0] =~= toks[0]);
        assert(acc.push(toks[0]) =~= acc + toks);
    } else {
        let rest_join = join_space(toks.drop_first());
        let s1 = seq![' '] + rest_join;
        assert(join_space(toks) =~= toks[0] + s1);
        lemma_scan_plain_word(toks[0], s1, Seq::empty(), acc);
        assert(Seq::<char>::empty() + toks[0] =~= toks[0]);
        assert(s1[0] == ' ');
        assert(s1.drop_first() =~= rest_join);
        assert(forall|i: int|
            0 <= i < toks.drop_first().len() ==> plain_token(#[trigger] toks.drop_first()[i]));
        lemma_scan_join(toks.drop_first(), acc.push(toks[0]));
        assert(acc.push(toks[0]) + toks.drop_first() =~= acc + toks);
    }
}

/// LAW (token-level round trip): a list of tokens that need no quoting,
/// joined with single spaces, tokenizes back to exactly that list.  Together
/// with `lemma_well_quoted_iff_tokenizes` this pins the tokenizer's output
/// on every line it accepts: rejoining strips nothing and invents nothing.
pub proof fn lemma_round_trip(toks: Seq<Seq<char>>)
    requires
        toks.len() > 0,
        forall|i: int| 0 <= i < toks.len() ==> plain_token(#[trigger] toks[i]),
    ensures
        spec_tokens(join_space(toks)) == Ok::<_, ParseError>(toks),
{
    lemma_scan_join(toks, Seq::empty());
    assert(Seq::<Seq<char>>::empty() + toks =~= toks);
}

} // verus!
