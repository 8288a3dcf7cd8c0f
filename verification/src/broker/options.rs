//! The broker program's command line.
use crate::text::str_eq;
use vstd::prelude::*;

verus! {

#[derive(Debug, Clone, Copy, PartialEq, Eq, Structural)]
pub enum BrokerAction {
    Help,
    Version,
    Run { verbose: bool },
}

/// Reads the arguments after the program name in order: help or version
/// ends the reading; `-v`/`--verbose` asks for logging; anything else is
/// ignored.
pub open spec fn action_of(args: Seq<Seq<char>>, verbose: bool) -> BrokerAction
    decreases args.len(),
{
    if args.len() == 0 {
        BrokerAction::Run { verbose }
    } else if args[0] == "-h"@ || args[0] == "--help"@ {
        BrokerAction::Help
    } else if args[0] == "-V"@ || args[0] == "--version"@ {
        BrokerAction::Version
    } else {
        action_of(args.drop_first(), verbose || args[0] == "-v"@ || args[0] == "--verbose"@)
    }
}

/// The action for the full argument list (program name first).
pub fn parse_action(args: &[String]) -> (r: BrokerAction)
    ensures
        r == action_of(
            if args@.len() == 0 {
                Seq::empty()
            } else {
                crate::text::views(args@).drop_first()
            },
            false,
        ),
{
    let ghost all = crate::text::views(args@);
    let ghost rest = if args@.len() == 0 {
        Seq::<Seq<char>>::empty()
    } else {
        all.drop_first()
    };
    let mut verbose = false;
    let mut i: usize = 1;
    if args.len() == 0 {
        return BrokerAction::Run { verbose: false };
    }
    assert(all.subrange(1, all.len() as int) =~= rest);
    while i < args.len()
        invariant
            1 <= i <= args.len(),
            all == crate::text::views(args@),
            rest == all.drop_first(),
            action_of(rest, false) == action_of(all.subrange(i as int, all.len() as int), verbose),
        decreases args.len() - i,
    {
        let a = args[i].as_str();
        let ghost tail = all.subrange(i as int, all.len() as int);
        assert(tail[0] == a@);
        assert(tail.drop_first() =~= all.subrange(i + 1, all.len() as int));
        if str_eq(a, "-h") || str_eq(a, "--help") {
            return BrokerAction::Help;
        }
        if str_eq(a, "-V") || str_eq(a, "--version") {
            return BrokerAction::Version;
        }
        if str_eq(a, "-v") || str_eq(a, "--verbose") {
            verbose = true;
        }
        i = i + 1;
    }
    assert(all.subrange(i as int, all.len() as int).len() == 0);
    BrokerAction::Run { verbose }
}

} // verus!
