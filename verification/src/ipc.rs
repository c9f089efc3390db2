//! Inter-process control surface: the well-known address, the singleton
//! bind decision, and client-side argument validation.
//!
//! The transport is a domain socket at a fixed path on systems that have
//! them, a fixed loopback TCP port elsewhere; the port can also be read off
//! the tail of the address path.

use vstd::prelude::*;

use crate::commands::SnapshotEntry;
use crate::dispatch::{CommandPayload, TopLevelCommand};
use crate::text::{command_leaf, leaf_of, str_eq};
use crate::wire::{all_digits, dec_val, digit_of, digit_val};

verus! {

/// The well-known address of the resident instance.
pub const SOCKET_PATH: &'static str = "/tmp/loungy.sock";

/// The loopback port standing in for the socket where domain sockets are
/// unavailable.
pub const SOCKET_PORT: u16 = 7878;

/// What a bind attempt must do, given what the probe saw. The probe
/// connects first: a live listener means another instance owns the address
/// and nothing of it may be touched; a dead address file is stale and is
/// removed before binding. Exactly one of two racing bind attempts can win
/// the bind itself; the loser observes the other's listener.
#[derive(Clone, Copy, PartialEq, Eq, Structural, Debug)]
pub enum BindDecision {
    /// A live instance answered the probe: refuse to start.
    AlreadyRunning,
    /// No live instance, but a stale address file: remove it, then bind.
    RemoveStaleAndBind,
    /// The address is free: bind.
    Bind,
}

pub fn bind_decision(address_in_use: bool, stale_file_exists: bool) -> (r: BindDecision)
    ensures
        address_in_use ==> r == BindDecision::AlreadyRunning,
        !address_in_use && stale_file_exists ==> r == BindDecision::RemoveStaleAndBind,
        !address_in_use && !stale_file_exists ==> r == BindDecision::Bind,
{
    if address_in_use {
        BindDecision::AlreadyRunning
    } else if stale_file_exists {
        BindDecision::RemoveStaleAndBind
    } else {
        BindDecision::Bind
    }
}

/// The number a string of decimal digits names, read the way the standard
/// integer parser does: an optional leading `+`, then at least one digit,
/// and a value that fits.
pub open spec fn spec_parse_u16(s: Seq<char>) -> Option<u16> {
    let digits = if s.len() > 0 && s[0] == '+' {
        s.drop_first()
    } else {
        s
    };
    if digits.len() == 0 {
        None
    } else if !all_digits(digits) {
        None
    } else if dec_val(digits) > u16::MAX {
        None
    } else {
        Some(dec_val(digits) as u16)
    }
}

/// A digit string's value only grows as more digits follow.
proof fn lemma_dec_val_prefix(s: Seq<char>, j: int)
    requires
        0 <= j <= s.len(),
    ensures
        dec_val(s.subrange(0, j)) <= dec_val(s),
    decreases s.len() - j,
{
    if j == s.len() {
        assert(s.subrange(0, j) =~= s);
    } else {
        let next = s.subrange(0, j + 1);
        assert(next.drop_last() =~= s.subrange(0, j));
        assert(dec_val(next) == dec_val(s.subrange(0, j)) * 10 + digit_val(next.last()));
        lemma_dec_val_prefix(s, j + 1);
    }
}

fn parse_u16(s: &str) -> (r: Option<u16>)
    ensures
        r == spec_parse_u16(s@),
{
    let n = s.unicode_len();
    let start: usize = if n > 0 && s.get_char(0) == '+' {
        1
    } else {
        0
    };
    let ghost digits = if s@.len() > 0 && s@[0] == '+' {
        s@.drop_first()
    } else {
        s@
    };
    proof {
        assert(digits =~= s@.subrange(start as int, n as int));
    }
    if n == start {
        return None;
    }
    let mut acc: u32 = 0;
    let mut i: usize = start;
    while i < n
        invariant
            n == s@.len(),
            s@.len() <= usize::MAX,
            start < n,
            start <= i <= n,
            digits == (if s@.len() > 0 && s@[0] == '+' {
                s@.drop_first()
            } else {
                s@
            }),
            digits == s@.subrange(start as int, n as int),
            all_digits(digits.subrange(0, i - start)),
            acc == dec_val(digits.subrange(0, i - start)),
            acc <= u16::MAX,
        decreases n - i,
    {
        let c = s.get_char(i);
        proof {
            assert(digits[i - start] == s@[i as int]);
        }
        let d: u32 = match digit_of(c) {
            Some(d) => d as u32,
            None => {
                proof {
                    assert(digit_val(digits[i - start]) == 10);
                    assert(!all_digits(digits));
                }
                return None;
            },
        };
        proof {
            let sub1 = digits.subrange(0, i - start + 1);
            assert(sub1.drop_last() =~= digits.subrange(0, i - start));
            assert(sub1.last() == digits[i - start]);
            assert(forall|t: int|
                0 <= t < i - start ==> sub1[t] == digits.subrange(0, i - start)[t]);
        }
        acc = acc * 10 + d;
        i = i + 1;
        proof {
            assert(all_digits(digits.subrange(0, i - start))) by {
                let subk = digits.subrange(0, i - start);
                assert(forall|t: int|
                    0 <= t < i - start - 1 ==> subk[t] == digits.subrange(0, i - start - 1)[t]);
                assert(subk[i - start - 1] == digits[i - start - 1]);
            }
        }
        if acc > 65535 {
            proof {
                lemma_dec_val_prefix(digits, i - start);
                assert(dec_val(digits) > u16::MAX);
            }
            return None;
        }
    }
    proof {
        assert(digits.subrange(0, n - start) =~= digits);
    }
    Some(acc as u16)
}

/// Where the last `/` stands, or minus one.
pub open spec fn last_slash(s: Seq<char>) -> int
    decreases s.len(),
{
    if s.len() == 0 {
        -1
    } else if s.last() == '/' {
        s.len() - 1
    } else {
        last_slash(s.drop_last())
    }
}

proof fn lemma_last_slash(s: Seq<char>)
    ensures
        -1 <= last_slash(s) < s.len(),
        last_slash(s) >= 0 ==> s[last_slash(s)] == '/',
        forall|j: int| last_slash(s) < j < s.len() ==> s[j] != '/',
    decreases s.len(),
{
    if s.len() > 0 && s.last() != '/' {
        lemma_last_slash(s.drop_last());
        assert(forall|j: int| 0 <= j < s.len() - 1 ==> s.drop_last()[j] == s[j]);
    }
}

/// The port named by an address path: the whole string when it is bare,
/// else what follows the last `/`.
pub open spec fn spec_extract_port(s: Seq<char>) -> Option<u16> {
    if s.len() > 0 && s[0] == '/' {
        spec_parse_u16(s.subrange(last_slash(s) + 1, s.len() as int))
    } else {
        spec_parse_u16(s)
    }
}

/// Reads the loopback port off an address path, if its tail names one.
pub fn extract_port_from_path(path: &str) -> (r: Option<u16>)
    ensures
        r == spec_extract_port(path@),
{
    let n = path.unicode_len();
    if n > 0 && path.get_char(0) == '/' {
        let mut i: usize = n;
        while i > 0
            invariant
                n == path@.len(),
                n > 0,
                path@[0] == '/',
                0 <= i <= n,
                forall|j: int| i <= j < n ==> path@[j] != '/',
            decreases i,
        {
            if path.get_char(i - 1) == '/' {
                proof {
                    lemma_last_slash(path@);
                    let ls = last_slash(path@);
                    if ls > i - 1 {
                        assert(path@[ls] != '/');
                    }
                    if ls < i - 1 {
                        assert(path@[i - 1] != '/');
                    }
                    assert(ls == i - 1);
                }
                let tail = path.substring_char(i, n);
                return parse_u16(tail);
            }
            i = i - 1;
        }
        proof {
            lemma_last_slash(path@);
            let ls = last_slash(path@);
            if ls >= 0 {
                assert(path@[ls] != '/');
            }
            assert(ls == -1);
        }
        let tail = path.substring_char(0, n);
        parse_u16(tail)
    } else {
        parse_u16(path)
    }
}

/// Why a client invocation was refused before anything was sent.
#[derive(Clone, Copy, PartialEq, Eq, Structural, Debug)]
pub enum ArgError {
    /// The `Command` action needs a command name.
    MissingCommand,
    /// The named command is not among the leaves the live registry offers.
    UnknownCommand,
}

/// Whether some snapshot entry's id has leaf `c`.
pub open spec fn spec_has_leaf(es: Seq<crate::commands::SnapshotEntryView>, c: Seq<char>) -> bool {
    exists|i: int| 0 <= i < es.len() && leaf_of(#[trigger] es[i].id) == Some(c)
}

/// Validates a client invocation against the live registry snapshot: a
/// command name is required exactly for the `Command` action and must be a
/// leaf the snapshot offers; any other action passes through unchanged.
pub fn validate_args(
    action: TopLevelCommand,
    command: Option<String>,
    snapshot: &Vec<SnapshotEntry>,
) -> (r: Result<CommandPayload, ArgError>)
    ensures
        ({
            let cmd_view = match command {
                Some(ref c) => Some(c@),
                None => None::<Seq<char>>,
            };
            if action is Command {
                match cmd_view {
                    None => r == Err::<CommandPayload, ArgError>(ArgError::MissingCommand),
                    Some(c) => {
                        if spec_has_leaf(crate::commands::snapshot_views(snapshot@), c) {
                            r matches Ok(p) && p@ == (crate::dispatch::PayloadView {
                                action,
                                command: Some(c),
                            })
                        } else {
                            r == Err::<CommandPayload, ArgError>(ArgError::UnknownCommand)
                        }
                    },
                }
            } else {
                r matches Ok(p) && p@ == (crate::dispatch::PayloadView {
                    action,
                    command: cmd_view,
                })
            }
        }),
{
    let is_command = match action {
        TopLevelCommand::Command => true,
        _ => false,
    };
    if !is_command {
        return Ok(CommandPayload { action, command });
    }
    let name = match &command {
        Some(c) => c,
        None => {
            return Err(ArgError::MissingCommand);
        },
    };
    let ghost views = crate::commands::snapshot_views(snapshot@);
    let n = snapshot.len();
    let mut i: usize = 0;
    while i < n
        invariant
            n == snapshot.len(),
            0 <= i <= n,
            action is Command,
            command matches Some(c) && c == *name,
            views == crate::commands::snapshot_views(snapshot@),
            forall|j: int| 0 <= j < i ==> leaf_of(#[trigger] views[j].id) != Some(name@),
        decreases n - i,
    {
        let hit = match command_leaf(snapshot[i].id.as_str()) {
            Some(l) => str_eq(l.as_str(), name.as_str()),
            None => false,
        };
        if hit {
            proof {
                assert(views[i as int] == snapshot@[i as int]@);
                assert(leaf_of(views[i as int].id) == Some(name@));
                assert(spec_has_leaf(views, name@));
            }
            return Ok(CommandPayload { action, command });
        }
        i = i + 1;
    }
    proof {
        assert(!spec_has_leaf(views, name@));
    }
    Err(ArgError::UnknownCommand)
}

} // verus!
