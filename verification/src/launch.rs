//! The command line the editor is started with: whether it only prints its environment,
//! and which arguments name paths to open.

use vstd::prelude::*;
use crate::text::chars_of;
use crate::vec_util::reversed;

verus! {

/// The argument that asks the editor to print its environment and exit.
pub const PRINTENV_FLAG: &'static str = "--printenv";

/// Some argument is `--printenv`.
pub open spec fn asks_printenv(args: Seq<String>) -> bool {
    exists|i: int| 0 <= i < args.len() && #[trigger] args[i]@ == PRINTENV_FLAG@
}

/// Whether the editor is started only to print its environment (the arguments after the
/// program's name).
pub fn wants_printenv(args: &Vec<String>) -> (b: bool)
    ensures
        b == asks_printenv(args@),
{
    let flag = String::from_str(PRINTENV_FLAG);
    let mut i: usize = 0;
    while i < args.len()
        invariant
            flag@ == PRINTENV_FLAG@,
            i <= args@.len(),
            forall|j: int| 0 <= j < i ==> args@[j]@ != PRINTENV_FLAG@,
        decreases args@.len() - i,
    {
        if args[i] == flag {
            proof {
                assert(args@[i as int]@ == PRINTENV_FLAG@);
            }
            return true;
        }
        i = i + 1;
    }
    false
}

/// An argument names a path when it does not start with `-`.
pub open spec fn names_path(arg: Seq<char>) -> bool {
    arg.len() == 0 || arg[0] != '-'
}

/// The arguments that name paths, in order.
pub open spec fn path_arguments(args: Seq<String>) -> Seq<String>
    decreases args.len(),
{
    if args.len() == 0 {
        Seq::empty()
    } else {
        let prev = path_arguments(args.drop_last());
        if names_path(args.last()@) { prev.push(args.last()) } else { prev }
    }
}

/// The arguments (after the program's name) that name paths to open, in order.
pub fn launch_path_arguments(args: Vec<String>) -> (r: Vec<String>)
    ensures
        r@ == path_arguments(args@),
{
    let ghost a0 = args@;
    let mut rest = reversed(args);
    let mut out: Vec<String> = Vec::new();
    while rest.len() > 0
        invariant
            rest@.len() <= a0.len(),
            rest@ == a0.skip(a0.len() - rest@.len()).reverse(),
            out@ == path_arguments(a0.take(a0.len() - rest@.len())),
        decreases rest@.len(),
    {
        let ghost k = a0.len() - rest@.len();
        let arg = rest.pop().unwrap();
        proof {
            assert(arg == a0[k]);
            assert(a0.skip(k + 1).reverse() =~= rest@);
            assert(a0.take(k + 1).drop_last() =~= a0.take(k));
            assert(a0.take(k + 1).last() == a0[k]);
        }
        let chars = chars_of(arg.as_str());
        let is_path = chars.len() == 0 || chars[0] != '-';
        if is_path {
            out.push(arg);
        }
    }
    proof {
        assert(a0.take(a0.len() as int) =~= a0);
    }
    out
}

} // verus!
