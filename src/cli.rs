use vstd::prelude::*;

verus! {

/// The operation that a command line asks for.
pub enum Command {
    Add,
    List,
    Connect { name: String },
    /// `connect` without a profile name.
    MissingName,
    /// No subcommand, or one that is not known.
    Unknown,
}

/// Whether argument `i` of `args` is present and equals `word`.
pub open spec fn arg_is(args: Seq<String>, i: int, word: Seq<char>) -> bool {
    i < args.len() && args[i]@ == word
}

/// Reads a command line; `args[0]` is the program, `args[1]` the subcommand
/// and, for `connect`, `args[2]` the profile name.
pub fn parse_args(args: &Vec<String>) -> (r: Command)
    ensures
        r is Add <==> arg_is(args@, 1, "add"@),
        r is List <==> arg_is(args@, 1, "list"@),
        arg_is(args@, 1, "connect"@) && args@.len() >= 3 ==> (r matches Command::Connect {
            name,
        } && name@ == args@[2]@),
        arg_is(args@, 1, "connect"@) && args@.len() < 3 ==> r is MissingName,
        r is Unknown <==> !(arg_is(args@, 1, "add"@) || arg_is(args@, 1, "list"@) || arg_is(
            args@,
            1,
            "connect"@,
        )),
{
    proof {
        reveal_strlit("add");
        reveal_strlit("list");
        reveal_strlit("connect");
        assert("add"@[0] != "list"@[0]);
        assert("add"@.len() != "connect"@.len());
        assert("list"@ != "connect"@);
    }
    if args.len() < 2 {
        return Command::Unknown;
    }
    let sub = &args[1];
    if *sub == String::from_str("add") {
        Command::Add
    } else if *sub == String::from_str("list") {
        Command::List
    } else if *sub == String::from_str("connect") {
        if args.len() >= 3 {
            Command::Connect { name: args[2].clone() }
        } else {
            Command::MissingName
        }
    } else {
        Command::Unknown
    }
}

} // verus!
