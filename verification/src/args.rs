//! The operation chain requested by the caller, and its token grammar.
//!
//! The chain is composed from a flat token list: operation names, each
//! parameterized operation followed by one numeric token. Operation names
//! are matched case-insensitively; a token that is no operation name is a
//! parameter of the most recently named parameterized operation, and is
//! silently ignored when no such operation was named yet. A parameter token
//! that is not a valid floating-point literal fails the whole run, before
//! any transform executes.

use vstd::prelude::*;

use crate::fbits::{f64_parse, f64_parse_of};
use vstd::string::StringExecFns;

verus! {

/// One operation of the chain, with its parameter as a binary64 bit pattern.
#[derive(Clone, Copy, Debug, PartialEq, Eq, Structural)]
pub enum Command {
    Normalize,
    ScaleLinear { scale: u64 },
    ScaleSqrt,
    Shorten { diff: u64 },
}

/// A parameterized operation that awaits its numeric token.
#[derive(Clone, Copy, Debug, PartialEq, Eq, Structural)]
pub enum PendingOp {
    ScaleLinear,
    Shorten,
}

/// A malformed parameter token: the offending token and the operation whose
/// parameter it should have been.
#[derive(Debug)]
pub struct CommandError {
    pub token: String,
    pub pending: PendingOp,
}

/// What `str::to_lowercase` returns for `s`.
pub uninterp spec fn lower_of(s: Seq<char>) -> Seq<char>;

/// Relies on `str::to_lowercase`: the result depends on the characters alone.
#[verifier::external_body]
fn lowercase(s: &str) -> (r: String)
    ensures
        r@ == lower_of(s@),
{
    s.to_lowercase()
}

/// The token state machine from a given pending state and already composed
/// prefix: operation names push their command or set the pending operation,
/// other tokens are parsed as the pending operation's parameter (the pending
/// state is kept, so several numeric tokens in a row each yield a command)
/// or ignored when nothing is pending. A token is matched lowercased, and
/// the parameter is parsed from the lowercased token.
pub open spec fn spec_commands_loop(
    toks: Seq<String>,
    st: Option<PendingOp>,
    acc: Seq<Command>,
) -> Result<Seq<Command>, CommandError>
    decreases toks.len(),
{
    if toks.len() == 0 {
        Ok(acc)
    } else {
        let low = lower_of(toks[0]@);
        if low == "normalize"@ {
            spec_commands_loop(toks.skip(1), st, acc.push(Command::Normalize))
        } else if low == "scale-linear"@ {
            spec_commands_loop(toks.skip(1), Some(PendingOp::ScaleLinear), acc)
        } else if low == "scale-sqrt"@ {
            spec_commands_loop(toks.skip(1), st, acc.push(Command::ScaleSqrt))
        } else if low == "shorten"@ {
            spec_commands_loop(toks.skip(1), Some(PendingOp::Shorten), acc)
        } else {
            match st {
                Some(PendingOp::ScaleLinear) => match f64_parse_of(low) {
                    Some(b) => spec_commands_loop(
                        toks.skip(1),
                        st,
                        acc.push(Command::ScaleLinear { scale: b }),
                    ),
                    None => Err(CommandError { token: toks[0], pending: PendingOp::ScaleLinear }),
                },
                Some(PendingOp::Shorten) => match f64_parse_of(low) {
                    Some(b) => spec_commands_loop(
                        toks.skip(1),
                        st,
                        acc.push(Command::Shorten { diff: b }),
                    ),
                    None => Err(CommandError { token: toks[0], pending: PendingOp::Shorten }),
                },
                None => spec_commands_loop(toks.skip(1), st, acc),
            }
        }
    }
}

/// The operation chain denoted by a whole token list, starting with nothing
/// pending and nothing composed.
pub open spec fn spec_commands(toks: Seq<String>) -> Result<Seq<Command>, CommandError> {
    spec_commands_loop(toks, None, Seq::empty())
}

/// The run's inputs: where to read and write, output formatting, logging
/// verbosity, and the token list composing the operation chain.
#[derive(Clone, Debug)]
pub struct Arguments {
    pub input: String,
    pub output: String,
    pub pretty: bool,
    pub log: Option<String>,
    pub commands: Vec<String>,
}

impl Arguments {
    /// Composes the operation chain from the token list. Returns the chain
    /// in token order, or the first malformed parameter token.
    pub fn commands(&self) -> (r: Result<Vec<Command>, CommandError>)
        ensures
            match r {
                Ok(v) => spec_commands(self.commands@) == Ok::<Seq<Command>, CommandError>(v@),
                Err(e) => spec_commands(self.commands@) == Err::<Seq<Command>, CommandError>(e),
            },
    {
        let ghost toks = self.commands@;
        let mut out: Vec<Command> = Vec::new();
        let mut st: Option<PendingOp> = None;
        let n = self.commands.len();
        let mut i: usize = 0;
        proof {
            assert(toks.skip(0) =~= toks);
        }
        while i < n
            invariant
                i <= n,
                n == toks.len(),
                toks == self.commands@,
                spec_commands_loop(toks.skip(i as int), st, out@) == spec_commands(toks),
            decreases n - i,
        {
            proof {
                assert(toks.skip(i as int)[0] == toks[i as int]);
                assert(toks.skip(i as int).skip(1) =~= toks.skip(i as int + 1));
            }
            let low = lowercase(self.commands[i].as_str());
            if low == String::from_str("normalize") {
                out.push(Command::Normalize);
            } else if low == String::from_str("scale-linear") {
                st = Some(PendingOp::ScaleLinear);
            } else if low == String::from_str("scale-sqrt") {
                out.push(Command::ScaleSqrt);
            } else if low == String::from_str("shorten") {
                st = Some(PendingOp::Shorten);
            } else {
                match st {
                    Some(PendingOp::ScaleLinear) => {
                        match f64_parse(low.as_str()) {
                            Some(b) => out.push(Command::ScaleLinear { scale: b }),
                            None => {
                                return Err(
                                    CommandError {
                                        token: self.commands[i].clone(),
                                        pending: PendingOp::ScaleLinear,
                                    },
                                );
                            },
                        }
                    },
                    Some(PendingOp::Shorten) => {
                        match f64_parse(low.as_str()) {
                            Some(b) => out.push(Command::Shorten { diff: b }),
                            None => {
                                return Err(
                                    CommandError {
                                        token: self.commands[i].clone(),
                                        pending: PendingOp::Shorten,
                                    },
                                );
                            },
                        }
                    },
                    None => {},
                }
            }
            i += 1;
        }
        proof {
            assert(toks.skip(n as int) =~= Seq::<String>::empty());
        }
        Ok(out)
    }
}

} // verus!
