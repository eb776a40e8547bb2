//! The invocation: a level and an optional sub-level.
use vstd::prelude::*;
use crate::paths::{build_path, decimal, path_of, push_decimal};

verus! {

/// The arguments of a run: with a sub-level it solves that input and prints the
/// result; without one it validates the level's example.
pub struct Cli {
    pub level: usize,
    pub sub_level: Option<usize>,
}

/// The sub-level a run reads: the number given, or `example`.
pub open spec fn sub_level_name(sub_level: Option<usize>) -> Seq<char> {
    match sub_level {
        Some(n) => decimal(n as nat),
        None => "example"@,
    }
}

/// The path of the input file that a run reads.
pub fn get_level_input_path(args: &Cli) -> (r: String)
    ensures
        r@ == path_of(args.level as nat, sub_level_name(args.sub_level), false),
{
    let mut sub_level = String::new();
    match args.sub_level {
        Some(n) => push_decimal(&mut sub_level, n),
        None => sub_level.append("example"),
    }
    assert(sub_level@ =~= sub_level_name(args.sub_level));
    build_path(args.level, sub_level.as_str(), false)
}

} // verus!
