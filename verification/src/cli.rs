//! Command-line argument handling: the program expects its own name
//! followed by exactly two positional arguments, a pattern and a file name.

use vstd::prelude::*;

verus! {

/// Extracts the pattern and the file name from the argument list.
///
/// The first element of `args` is the program name; the pattern and the
/// file name follow. With fewer than two positional arguments there is
/// nothing to search for and `None` is returned, so that the caller can
/// print a usage message and stop.
pub fn parse_args(args: &Vec<String>) -> (r: Option<(String, String)>)
    ensures
        args@.len() >= 3 ==> (r matches Some(p) && p.0@ == args@[1]@ && p.1@ == args@[2]@),
        args@.len() < 3 ==> r is None,
{
    if args.len() < 3 {
        return None;
    }
    let pattern = args[1].clone();
    let filename = args[2].clone();
    Some((pattern, filename))
}

} // verus!
