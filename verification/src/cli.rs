//! What the command line asks for: the Makefile's help, or a run of `make`.
//!
//! An argument that starts with `-` is a flag. Any other argument, a target
//! or a variable assignment, makes the program hand the whole command line on
//! to `make`. With flags alone, or with nothing, it prints the help.

use vstd::prelude::*;

verus! {

/// Whether `arg` is a flag: it starts with `-`.
pub open spec fn is_flag(arg: Seq<char>) -> bool {
    arg.len() > 0 && arg.first() == '-'
}

/// Whether one of `args` is a flag.
pub open spec fn any_flag(args: Seq<Seq<char>>) -> bool {
    exists|i: int| 0 <= i < args.len() && is_flag(#[trigger] args[i])
}

/// Whether one of `args` is text and no flag. `None` stands for an argument
/// that is not valid Unicode; it counts for nothing.
pub open spec fn any_plain(args: Seq<Option<Seq<char>>>) -> bool {
    exists|i: int| 0 <= i < args.len() && (#[trigger] args[i]) is Some && !is_flag(args[i]->0)
}

/// One more argument has a flag among them exactly if there was one before
/// or the new one is a flag.
proof fn lemma_any_flag_grows(args: Seq<Seq<char>>, i: int)
    requires
        0 <= i < args.len(),
    ensures
        any_flag(args.take(i + 1)) == (any_flag(args.take(i)) || is_flag(args[i])),
{
    let before = args.take(i);
    let upto = args.take(i + 1);
    if any_flag(before) {
        let k = choose|k: int| 0 <= k < before.len() && is_flag(#[trigger] before[k]);
        assert(is_flag(upto[k]));
    }
    if is_flag(args[i]) {
        assert(is_flag(upto[i]));
    }
    if any_flag(upto) {
        let k = choose|k: int| 0 <= k < upto.len() && is_flag(#[trigger] upto[k]);
        if k < i {
            assert(is_flag(before[k]));
        }
    }
}

/// One more argument has a plain one among them exactly if there was one
/// before or the new one is plain.
proof fn lemma_any_plain_grows(args: Seq<Option<Seq<char>>>, i: int)
    requires
        0 <= i < args.len(),
    ensures
        any_plain(args.take(i + 1)) == (any_plain(args.take(i)) || (args[i] is Some && !is_flag(
            args[i]->0,
        ))),
{
    let before = args.take(i);
    let upto = args.take(i + 1);
    if any_plain(before) {
        let k = choose|k: int|
            0 <= k < before.len() && (#[trigger] before[k]) is Some && !is_flag(before[k]->0);
        assert(upto[k] is Some && !is_flag(upto[k]->0));
    }
    if args[i] is Some && !is_flag(args[i]->0) {
        assert(upto[i] is Some && !is_flag(upto[i]->0));
    }
    if any_plain(upto) {
        let k = choose|k: int|
            0 <= k < upto.len() && (#[trigger] upto[k]) is Some && !is_flag(upto[k]->0);
        if k < i {
            assert(before[k] is Some && !is_flag(before[k]->0));
        }
    }
}

/// Whether `arg` is a flag.
pub fn starts_with_dash(arg: &str) -> (b: bool)
    ensures
        b == is_flag(arg@),
{
    !arg.is_empty() && arg.get_char(0) == '-'
}

/// The arguments of the program, and whether a flag is among them.
#[derive(Debug, PartialEq, Eq)]
pub struct CommandLine {
    /// The arguments, without the program's own name.
    pub args: Vec<String>,
    /// One of the arguments is a flag.
    pub flags_found: bool,
}

impl CommandLine {
    /// Takes the arguments of the program, without its own name, and notes
    /// whether a flag is among them.
    pub fn new(args: Vec<String>) -> (line: Self)
        ensures
            line.args == args,
            line.flags_found == any_flag(args.deep_view()),
    {
        let mut flags_found = false;
        let mut i: usize = 0;
        while i < args.len()
            invariant
                i <= args.len(),
                flags_found == any_flag(args.deep_view().take(i as int)),
            decreases args.len() - i,
        {
            proof {
                lemma_any_flag_grows(args.deep_view(), i as int);
            }
            if starts_with_dash(args[i].as_str()) {
                flags_found = true;
            }
            i += 1;
        }
        assert(args.deep_view().take(args.len() as int) =~= args.deep_view());
        CommandLine { args, flags_found }
    }
}

/// The raw arguments of the program, and whether one of them asks for a run
/// of `make`.
#[derive(Debug, PartialEq, Eq)]
pub struct RawArgumentParser {
    /// The arguments, without the program's own name, each as text where it
    /// is valid Unicode.
    pub raw_args: Vec<Option<String>>,
    /// One of the arguments is text and no flag.
    pub has_raw_args: bool,
}

impl RawArgumentParser {
    /// Takes the raw arguments of the program, without its own name, and
    /// notes whether one of them is text and no flag.
    pub fn new(raw_args: Vec<Option<String>>) -> (parser: Self)
        ensures
            parser.raw_args == raw_args,
            parser.has_raw_args == any_plain(raw_args.deep_view()),
    {
        let mut has_raw_args = false;
        let mut i: usize = 0;
        while i < raw_args.len()
            invariant
                i <= raw_args.len(),
                has_raw_args == any_plain(raw_args.deep_view().take(i as int)),
            decreases raw_args.len() - i,
        {
            proof {
                lemma_any_plain_grows(raw_args.deep_view(), i as int);
            }
            let plain = match &raw_args[i] {
                Some(text) => !starts_with_dash(text.as_str()),
                None => false,
            };
            has_raw_args = has_raw_args || plain;
            i += 1;
        }
        assert(raw_args.deep_view().take(raw_args.len() as int) =~= raw_args.deep_view());
        RawArgumentParser { raw_args, has_raw_args }
    }
}

} // verus!
