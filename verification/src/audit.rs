//! The one-line audit record written to the log sink before a detached
//! spawn.

use vstd::prelude::*;
use crate::scan::views;

verus! {

/// The argument list joined with single spaces.
pub open spec fn spec_join_sp(args: Seq<Seq<char>>) -> Seq<char>
    decreases args.len(),
{
    if args.len() == 0 {
        Seq::empty()
    } else if args.len() == 1 {
        args[0]
    } else {
        spec_join_sp(args.drop_last()) + seq![' '] + args.last()
    }
}

/// The audit record: the command, a space, the space-joined argument
/// list, and a terminating newline.
pub open spec fn spec_audit_line(command: Seq<char>, args: Seq<Seq<char>>) -> Seq<char> {
    "Spawning process: "@ + command + seq![' '] + spec_join_sp(args) + seq!['\n']
}

/// Build the audit record for the given command and arguments.
pub fn audit_line(command: &str, args: &Vec<String>) -> (r: String)
    ensures
        r@ == spec_audit_line(command@, views(args@)),
{
    let mut r = String::new();
    r.append("Spawning process: ");
    r.append(command);
    r.append(" ");
    proof {
        reveal_strlit(" ");
        assert(" "@ =~= seq![' ']);
    }
    let mut i: usize = 0;
    while i < args.len()
        invariant
            0 <= i <= args@.len(),
            r@ == "Spawning process: "@ + command@ + seq![' '] + spec_join_sp(
                views(args@).take(i as int),
            ),
        decreases args@.len() - i,
    {
        if i > 0 {
            r.append(" ");
        }
        r.append(args[i].as_str());
        proof {
            reveal_strlit(" ");
            assert(" "@ =~= seq![' ']);
            assert(views(args@).take(i + 1).drop_last() =~= views(args@).take(i as int));
            assert(views(args@).take(i + 1).last() == args@[i as int]@);
            if i == 0 {
                assert(spec_join_sp(views(args@).take(1)) == views(args@).take(1)[0]);
                assert(r@ =~= "Spawning process: "@ + command@ + seq![' '] + spec_join_sp(
                    views(args@).take(1),
                ));
            } else {
                assert(spec_join_sp(views(args@).take(i + 1)) == spec_join_sp(
                    views(args@).take(i as int),
                ) + seq![' '] + args@[i as int]@);
                assert(r@ =~= "Spawning process: "@ + command@ + seq![' '] + spec_join_sp(
                    views(args@).take(i + 1),
                ));
            }
        }
        i = i + 1;
    }
    r.append("\n");
    proof {
        reveal_strlit("\n");
        assert("\n"@ =~= seq!['\n']);
        assert(views(args@).take(args@.len() as int) =~= views(args@));
        assert(r@ =~= spec_audit_line(command@, views(args@)));
    }
    r
}

} // verus!
