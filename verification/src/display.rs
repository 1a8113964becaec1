//! Showing a command's arguments as one line.

use vstd::prelude::*;
use vstd::string::StringExecFns;

verus! {

/// The texts of `args`.
pub open spec fn arg_texts(args: Seq<String>) -> Seq<Seq<char>> {
    args.map_values(|arg: String| arg@)
}

/// The texts `args` in one line, with one space between each two of them.
pub open spec fn joined(args: Seq<Seq<char>>) -> Seq<char>
    decreases args.len(),
{
    if args.len() == 0 {
        Seq::empty()
    } else if args.len() == 1 {
        args[0]
    } else {
        joined(args.drop_last()) + seq![' '] + args.last()
    }
}

/// Formats command arguments for display: the arguments in their order,
/// with one space between each two of them. No argument gives the empty
/// text.
pub fn args_display(args: &[String]) -> (shown: String)
    ensures
        shown@ == joined(arg_texts(args@)),
{
    let ghost texts = arg_texts(args@);
    let mut shown = String::new();
    let mut i: usize = 0;
    while i < args.len()
        invariant
            i <= args.len(),
            texts == arg_texts(args@),
            shown@ == joined(texts.take(i as int)),
        decreases args.len() - i,
    {
        proof {
            reveal_strlit(" ");
            assert(texts.take(i as int + 1).drop_last() =~= texts.take(i as int));
            assert(texts.take(i as int + 1).last() == args[i as int]@);
            assert(" "@ =~= seq![' ']);
        }
        if i > 0 {
            shown.append(" ");
        }
        shown.append(args[i].as_str());
        proof {
            if i == 0 {
                assert(shown@ =~= args[i as int]@);
                assert(texts.take(1)[0] == args[i as int]@);
            }
        }
        i = i + 1;
    }
    proof {
        assert(texts.take(args.len() as int) =~= texts);
    }
    shown
}

} // verus!
