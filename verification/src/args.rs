//! Interpretation of the command line.
//!
//! The tool is invoked as a subcommand: every token up to and including
//! the first `stabilize` is part of the invocation name and is ignored.
//! Of the remaining tokens, `-h` and `--help` request the usage text,
//! `--upgrade` switches on upgrade mode, and anything else is an unknown
//! command that earns a warning but does not stop the run.

use vstd::prelude::*;
use crate::text::str_eq;

verus! {

/// What a run was asked to do.
pub struct CliRequest {
    /// Replace every dependency version, not only wildcards.
    pub upgrade_all: bool,
    /// A help flag was seen; the caller prints the usage text and the
    /// rest of the run is skipped.
    pub help_requested: bool,
    /// The unrecognized tokens, in order; the caller warns about each.
    pub unknown: Vec<String>,
}

/// The index after the first `stabilize` token, or the end if there is
/// none: the flags are the tokens from this index on.
pub open spec fn flags_start(args: Seq<Seq<char>>) -> int
    decreases args.len(),
{
    if args.len() == 0 {
        0
    } else if args[0] == "stabilize"@ {
        1
    } else {
        1 + flags_start(args.skip(1))
    }
}

pub open spec fn is_help_flag(a: Seq<char>) -> bool {
    a == "-h"@ || a == "--help"@
}

pub open spec fn is_upgrade_flag(a: Seq<char>) -> bool {
    a == "--upgrade"@
}

pub open spec fn is_known_flag(a: Seq<char>) -> bool {
    is_help_flag(a) || is_upgrade_flag(a)
}

/// The views of a vector of strings.
pub open spec fn string_views(args: Seq<String>) -> Seq<Seq<char>> {
    args.map_values(|a: String| a@)
}

/// Reads the flags out of the argument list.
pub fn parse_args(args: &Vec<String>) -> (c: CliRequest)
    ensures
        ({
            let flags = string_views(args@).skip(flags_start(string_views(args@)));
            &&& c.upgrade_all == exists|i: int| 0 <= i < flags.len() && is_upgrade_flag(flags[i])
            &&& c.help_requested == exists|i: int| 0 <= i < flags.len() && is_help_flag(flags[i])
            &&& string_views(c.unknown@) == flags.filter(|a: Seq<char>| !is_known_flag(a))
        }),
{
    let ghost views = string_views(args@);
    proof {
        reveal_strlit("-h");
        reveal_strlit("--help");
        reveal_strlit("--upgrade");
        assert(views.skip(0) =~= views);
    }
    let mut start: usize = 0;
    while start < args.len() && !str_eq(args[start].as_str(), "stabilize")
        invariant
            0 <= start <= args.len(),
            views == string_views(args@),
            flags_start(views) == start + flags_start(views.skip(start as int)),
            forall|k: int| 0 <= k < start ==> views[k] != "stabilize"@,
        decreases args.len() - start,
    {
        proof {
            assert(views.skip(start as int)[0] == views[start as int]);
            assert(views.skip(start as int).skip(1) =~= views.skip(start + 1));
        }
        start = start + 1;
    }
    proof {
        if start < args.len() {
            assert(views.skip(start as int)[0] == views[start as int]);
            assert(flags_start(views.skip(start as int)) == 1);
            assert(flags_start(views) == start + 1);
        } else {
            assert(views.skip(start as int).len() == 0);
            assert(flags_start(views) == start as int);
        }
    }
    // `start` now sits on the `stabilize` token, if any; the flags begin
    // right after it.
    let first: usize = if start < args.len() {
        start + 1
    } else {
        start
    };
    assert(first == flags_start(views));
    let ghost flags = views.skip(first as int);
    let mut upgrade_all = false;
    let mut help_requested = false;
    let mut unknown: Vec<String> = Vec::new();
    let mut i: usize = first;
    proof {
        assert(flags.take(0) =~= Seq::<Seq<char>>::empty());
        assert(Seq::<Seq<char>>::empty().filter(|a: Seq<char>| !is_known_flag(a))
            =~= Seq::<Seq<char>>::empty());
        assert(string_views(unknown@) =~= Seq::<Seq<char>>::empty());
    }
    while i < args.len()
        invariant
            first <= i <= args.len(),
            views == string_views(args@),
            flags == views.skip(first as int),
            first <= args.len(),
            upgrade_all == exists|k: int|
                0 <= k < i - first && is_upgrade_flag(flags[k]),
            help_requested == exists|k: int|
                0 <= k < i - first && is_help_flag(flags[k]),
            string_views(unknown@) == flags.take(i - first).filter(
                |a: Seq<char>| !is_known_flag(a),
            ),
        decreases args.len() - i,
    {
        let a = &args[i];
        proof {
            reveal_strlit("-h");
            reveal_strlit("--help");
            reveal_strlit("--upgrade");
            assert(flags[i - first] == views[i as int]);
        }
        if str_eq(a.as_str(), "-h") || str_eq(a.as_str(), "--help") {
            help_requested = true;
        } else if str_eq(a.as_str(), "--upgrade") {
            upgrade_all = true;
        } else {
            unknown.push(a.clone());
        }
        proof {
            let prev = flags.take(i - first);
            assert(flags.take(i + 1 - first) =~= prev.push(flags[i - first]));
            reveal_with_fuel(Seq::filter, 2);
            assert(prev.push(flags[i - first]).drop_last() =~= prev);
            if !is_known_flag(flags[i - first]) {
                assert(flags.take(i + 1 - first).filter(|a: Seq<char>| !is_known_flag(a))
                    =~= prev.filter(|a: Seq<char>| !is_known_flag(a)).push(flags[i - first]));
                assert(string_views(unknown@).drop_last() =~= prev.filter(
                    |a: Seq<char>| !is_known_flag(a),
                ));
                assert(string_views(unknown@) =~= prev.filter(
                    |a: Seq<char>| !is_known_flag(a),
                ).push(flags[i - first]));
            } else {
                assert(flags.take(i + 1 - first).filter(|a: Seq<char>| !is_known_flag(a))
                    =~= prev.filter(|a: Seq<char>| !is_known_flag(a)));
            }
        }
        i = i + 1;
    }
    proof {
        assert(flags.take(args@.len() - first) =~= flags);
    }
    CliRequest { upgrade_all, help_requested, unknown }
}

} // verus!
