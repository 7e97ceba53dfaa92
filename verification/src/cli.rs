//! The command line: which command runs, with which flags.
use vstd::prelude::*;
use crate::text::str_eq;

verus! {

/// The command selected by the first argument.
#[derive(PartialEq, Eq, Structural)]
pub enum Command {
    Commit { write_only: bool, dry_run: bool },
    Amend,
    Lint,
    Init,
    Log,
    Status,
    Types,
    Completions,
    Uninstall,
    Version,
    Help,
}

/// Some argument from index `from` on equals `flag`.
pub open spec fn has_flag_from(args: Seq<Seq<char>>, from: int, flag: Seq<char>) -> bool {
    exists|i: int| from <= i < args.len() && args[i] == flag
}

/// Whether some argument from index `from` on equals `flag`.
pub fn has_flag(args: &Vec<String>, from: usize, flag: &str) -> (r: bool)
    ensures
        r == has_flag_from(args.deep_view(), from as int, flag@),
{
    let mut i = from;
    while i < args.len()
        invariant
            from <= i,
            forall|j: int| from <= j < i && j < args@.len() ==> args.deep_view()[j] != flag@,
        decreases args.len() - i,
    {
        assert(args.deep_view()[i as int] == args@[i as int]@);
        if str_eq(args[i].as_str(), flag) {
            return true;
        }
        i += 1;
    }
    false
}

/// The command for the arguments (program name excluded): the first
/// argument or its short form names it, `commit` when there is none, help
/// for anything unknown.
pub open spec fn command_of(args: Seq<Seq<char>>) -> Command {
    let cmd = if args.len() > 0 {
        args[0]
    } else {
        "commit"@
    };
    if cmd == "commit"@ || cmd == "c"@ {
        Command::Commit {
            write_only: has_flag_from(args, 1, "--write-only"@),
            dry_run: has_flag_from(args, 1, "--dry-run"@),
        }
    } else if cmd == "amend"@ || cmd == "a"@ {
        Command::Amend
    } else if cmd == "lint"@ || cmd == "l"@ {
        Command::Lint
    } else if cmd == "init"@ {
        Command::Init
    } else if cmd == "log"@ {
        Command::Log
    } else if cmd == "status"@ || cmd == "s"@ {
        Command::Status
    } else if cmd == "types"@ || cmd == "t"@ {
        Command::Types
    } else if cmd == "completions"@ {
        Command::Completions
    } else if cmd == "uninstall"@ {
        Command::Uninstall
    } else if cmd == "version"@ || cmd == "-v"@ || cmd == "--version"@ {
        Command::Version
    } else {
        Command::Help
    }
}

/// Select the command from the arguments (program name excluded).
pub fn parse_command(args: &Vec<String>) -> (c: Command)
    ensures
        c == command_of(args.deep_view()),
{
    let cmd = if args.len() > 0 {
        args[0].as_str()
    } else {
        "commit"
    };
    assert(args@.len() > 0 ==> args.deep_view()[0] == args@[0]@);
    if str_eq(cmd, "commit") || str_eq(cmd, "c") {
        Command::Commit {
            write_only: has_flag(args, 1, "--write-only"),
            dry_run: has_flag(args, 1, "--dry-run"),
        }
    } else if str_eq(cmd, "amend") || str_eq(cmd, "a") {
        Command::Amend
    } else if str_eq(cmd, "lint") || str_eq(cmd, "l") {
        Command::Lint
    } else if str_eq(cmd, "init") {
        Command::Init
    } else if str_eq(cmd, "log") {
        Command::Log
    } else if str_eq(cmd, "status") || str_eq(cmd, "s") {
        Command::Status
    } else if str_eq(cmd, "types") || str_eq(cmd, "t") {
        Command::Types
    } else if str_eq(cmd, "completions") {
        Command::Completions
    } else if str_eq(cmd, "uninstall") {
        Command::Uninstall
    } else if str_eq(cmd, "version") || str_eq(cmd, "-v") || str_eq(cmd, "--version") {
        Command::Version
    } else {
        Command::Help
    }
}

/// Every documented name and short form selects its command, whatever
/// follows it; no argument means `commit`; after `commit`, `--write-only`
/// and `--dry-run` anywhere set the matching flags.
pub proof fn law_command_names(args: Seq<Seq<char>>)
    ensures
        args.len() == 0 ==> command_of(args) == (Command::Commit { write_only: false, dry_run: false }),
        args.len() > 0 && (args[0] == "commit"@ || args[0] == "c"@) ==> (command_of(args) is Commit),
        args.len() > 0 && (args[0] == "amend"@ || args[0] == "a"@) ==> command_of(args) == Command::Amend,
        args.len() > 0 && (args[0] == "lint"@ || args[0] == "l"@) ==> command_of(args) == Command::Lint,
        args.len() > 0 && args[0] == "init"@ ==> command_of(args) == Command::Init,
        args.len() > 0 && args[0] == "log"@ ==> command_of(args) == Command::Log,
        args.len() > 0 && (args[0] == "status"@ || args[0] == "s"@) ==> command_of(args) == Command::Status,
        args.len() > 0 && (args[0] == "types"@ || args[0] == "t"@) ==> command_of(args) == Command::Types,
        args.len() > 0 && args[0] == "completions"@ ==> command_of(args) == Command::Completions,
        args.len() > 0 && args[0] == "uninstall"@ ==> command_of(args) == Command::Uninstall,
        args.len() > 0 && (args[0] == "version"@ || args[0] == "-v"@ || args[0] == "--version"@)
            ==> command_of(args) == Command::Version,
        forall|i: int|
            1 <= i < args.len() && (args[0] == "commit"@ || args[0] == "c"@) && #[trigger] args[i]
                == "--write-only"@ ==> (command_of(args)->write_only),
        forall|i: int|
            1 <= i < args.len() && (args[0] == "commit"@ || args[0] == "c"@) && #[trigger] args[i]
                == "--dry-run"@ ==> (command_of(args)->dry_run),
{
    reveal_strlit("commit");
    reveal_strlit("c");
    reveal_strlit("amend");
    reveal_strlit("a");
    reveal_strlit("lint");
    reveal_strlit("l");
    reveal_strlit("init");
    reveal_strlit("log");
    reveal_strlit("status");
    reveal_strlit("s");
    reveal_strlit("types");
    reveal_strlit("t");
    reveal_strlit("completions");
    reveal_strlit("uninstall");
    reveal_strlit("version");
    reveal_strlit("-v");
    reveal_strlit("--version");
    reveal_strlit("--write-only");
    reveal_strlit("--dry-run");
    assert("commit"@.len() == 6 && "commit"@[0] == 'c');
    assert("c"@.len() == 1 && "c"@[0] == 'c');
    assert("amend"@.len() == 5 && "amend"@[0] == 'a');
    assert("a"@.len() == 1 && "a"@[0] == 'a');
    assert("lint"@.len() == 4 && "lint"@[0] == 'l');
    assert("l"@.len() == 1 && "l"@[0] == 'l');
    assert("init"@.len() == 4 && "init"@[0] == 'i');
    assert("log"@.len() == 3 && "log"@[0] == 'l');
    assert("status"@.len() == 6 && "status"@[0] == 's');
    assert("s"@.len() == 1 && "s"@[0] == 's');
    assert("types"@.len() == 5 && "types"@[0] == 't');
    assert("t"@.len() == 1 && "t"@[0] == 't');
    assert("completions"@.len() == 11 && "completions"@[0] == 'c');
    assert("uninstall"@.len() == 9 && "uninstall"@[0] == 'u');
    assert("version"@.len() == 7 && "version"@[0] == 'v');
    assert("-v"@.len() == 2 && "-v"@[0] == '-');
    assert("--version"@.len() == 9 && "--version"@[0] == '-');
}

} // verus!
