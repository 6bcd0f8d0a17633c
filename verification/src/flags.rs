//! The arguments of a run: which are flags that the program knows, which
//! are set aside, and what the run does.

use crate::text::chars_of;
use vstd::prelude::*;

verus! {

/// Asks for the listing.
pub const DUMP_FLAG: &'static str = "--dump";

/// Asks for the instructions on getting a package listed.
pub const INDEX_FLAG: &'static str = "--index";

/// Asks for the listing as a table.
pub const TABLE_FLAG: &'static str = "--table";

/// Asks for archived repositories too.
pub const ARCHIVE_FLAG: &'static str = "--archive";

/// Asks for the help text, in its long and its short form.
pub const HELP_FLAG: &'static str = "--help";

pub const SHORT_HELP_FLAG: &'static str = "-h";

/// Asks for the version, in its long and its short form.
pub const VERSION_FLAG: &'static str = "--version";

pub const SHORT_VERSION_FLAG: &'static str = "-V";

/// Whether an argument is a flag that the program knows.
pub open spec fn is_known(arg: Seq<char>) -> bool {
    ||| arg == DUMP_FLAG@
    ||| arg == INDEX_FLAG@
    ||| arg == TABLE_FLAG@
    ||| arg == ARCHIVE_FLAG@
    ||| arg == HELP_FLAG@
    ||| arg == SHORT_HELP_FLAG@
    ||| arg == VERSION_FLAG@
    ||| arg == SHORT_VERSION_FLAG@
}

/// Whether two texts are the same, character by character.
pub fn same_text(a: &str, b: &str) -> (same: bool)
    ensures
        same == (a@ == b@),
{
    let left = chars_of(a);
    let right = chars_of(b);
    if left.len() != right.len() {
        return false;
    }
    let mut i: usize = 0;
    while i < left.len()
        invariant
            i <= left.len(),
            left.len() == right.len(),
            left@ == a@,
            right@ == b@,
            forall|j: int| 0 <= j < i ==> left[j] == right[j],
        decreases left.len() - i,
    {
        if left[i] != right[i] {
            assert(a@[i as int] != b@[i as int]);
            return false;
        }
        i += 1;
    }
    assert(a@ =~= b@);
    true
}

/// Decides whether an argument is a flag that the program knows.
pub fn is_known_flag(arg: &str) -> (known: bool)
    ensures
        known == is_known(arg@),
{
    same_text(arg, DUMP_FLAG) || same_text(arg, INDEX_FLAG) || same_text(arg, TABLE_FLAG)
        || same_text(arg, ARCHIVE_FLAG) || same_text(arg, HELP_FLAG) || same_text(
        arg,
        SHORT_HELP_FLAG,
    ) || same_text(arg, VERSION_FLAG) || same_text(arg, SHORT_VERSION_FLAG)
}

/// The arguments of a run, parted.
#[derive(Clone, Debug, PartialEq, Eq)]
pub struct Arguments {
    /// The flags that the program knows, in the order given.
    pub known: Vec<String>,
    /// The rest, in the order given: each is reported, and none ends the run.
    pub unrecognized: Vec<String>,
}

/// Parts the arguments of a run into the flags that the program knows and
/// the rest. An argument that is not known is set aside and the reading
/// goes on with the ones after it.
pub fn split_arguments(args: &Vec<String>) -> (out: Arguments)
    ensures
        out.known.deep_view() == args.deep_view().filter(|arg: Seq<char>| is_known(arg)),
        out.unrecognized.deep_view() == args.deep_view().filter(|arg: Seq<char>| !is_known(arg)),
{
    let ghost keep = |arg: Seq<char>| is_known(arg);
    let ghost drop = |arg: Seq<char>| !is_known(arg);
    let mut known: Vec<String> = Vec::new();
    let mut unrecognized: Vec<String> = Vec::new();
    let mut i: usize = 0;
    proof {
        reveal(Seq::filter);
        assert(args.deep_view().take(0) =~= Seq::<Seq<char>>::empty());
    }
    while i < args.len()
        invariant
            i <= args.len(),
            keep == |arg: Seq<char>| is_known(arg),
            drop == |arg: Seq<char>| !is_known(arg),
            known.deep_view() == args.deep_view().take(i as int).filter(keep),
            unrecognized.deep_view() == args.deep_view().take(i as int).filter(drop),
        decreases args.len() - i,
    {
        let ghost known_before = known.deep_view();
        let ghost unrecognized_before = unrecognized.deep_view();
        proof {
            reveal(Seq::filter);
            assert(args.deep_view().take(i + 1).drop_last() =~= args.deep_view().take(i as int));
            assert(args.deep_view().take(i + 1).last() == args[i as int]@);
        }
        if is_known_flag(args[i].as_str()) {
            known.push(args[i].clone());
            assert(known.deep_view() =~= known_before.push(args[i as int]@));
        } else {
            unrecognized.push(args[i].clone());
            assert(unrecognized.deep_view() =~= unrecognized_before.push(args[i as int]@));
        }
        i += 1;
    }
    assert(args.deep_view().take(args.len() as int) =~= args.deep_view());
    Arguments { known, unrecognized }
}

/// What a run does.
#[derive(Clone, Copy, Debug, PartialEq, Eq, Structural)]
pub enum Command {
    /// List every package found.
    Dump,
    /// Say how to get a package listed.
    Index,
    /// Neither was asked for: point to the help.
    Hint,
}

/// What a run does, given what was asked for: listing comes first, then the
/// instructions.
pub open spec fn chosen(dump: bool, index: bool) -> Command {
    if dump {
        Command::Dump
    } else if index {
        Command::Index
    } else {
        Command::Hint
    }
}

/// Chooses what a run does.
pub fn choose_command(dump: bool, index: bool) -> (command: Command)
    ensures
        command == chosen(dump, index),
{
    if dump {
        Command::Dump
    } else if index {
        Command::Index
    } else {
        Command::Hint
    }
}

} // verus!
