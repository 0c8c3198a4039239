//! How the terminal is started: the command it hosts, the program that the
//! pty runs, and the default shortcuts.

use vstd::prelude::*;

verus! {

/// What the hosted program is told of the terminal: `TERM` and `COLORTERM`.
pub const TERM: &'static str = "alacritty";

pub const COLORTERM: &'static str = "truecolor";

/// The shell of last resort.
pub const FALLBACK_SHELL: &'static str = "/bin/sh";

/// The shortcuts before the user rebinds them.
pub const COPY_CHORD: &'static str = "ctrl+shift+c";

pub const PASTE_CHORD: &'static str = "ctrl+shift+v";

pub const SCROLL_UP_CHORD: &'static str = "shift+pageup";

pub const SCROLL_DOWN_CHORD: &'static str = "shift+pagedown";

/// The strings from `start` on.
fn strings_from(all: &Vec<String>, start: usize) -> (rest: Vec<String>)
    requires
        start <= all@.len(),
    ensures
        rest@ == all@.skip(start as int),
{
    let mut rest: Vec<String> = Vec::new();
    let mut i: usize = start;
    while i < all.len()
        invariant
            start <= i <= all@.len(),
            rest@ == all@.subrange(start as int, i as int),
        decreases all@.len() - i,
    {
        rest.push(all[i].clone());
        i = i + 1;
        assert(rest@ =~= all@.subrange(start as int, i as int));
    }
    assert(rest@ =~= all@.skip(start as int));
    rest
}

/// The command that the arguments name: what follows `-e`, or all of them.
pub open spec fn hosted(args: Seq<String>) -> Option<Seq<String>> {
    if args.len() == 0 {
        None
    } else if args[0]@ == "-e"@ {
        if args.len() == 1 {
            None
        } else {
            Some(args.skip(1))
        }
    } else {
        Some(args)
    }
}

/// The command to host in place of the shell, from the arguments behind the
/// program's name: what follows `-e`, or all of them.
pub fn command_from_args(args: &Vec<String>) -> (command: Option<Vec<String>>)
    ensures
        match command {
            Some(argv) => hosted(args@) == Some(argv@) && argv@.len() > 0,
            None => hosted(args@) is None,
        },
{
    if args.len() == 0 {
        return None;
    }
    if args[0] == "-e".to_string() {
        if args.len() == 1 {
            None
        } else {
            Some(strings_from(args, 1))
        }
    } else {
        let all = strings_from(args, 0);
        assert(all@ =~= args@);
        Some(all)
    }
}

/// The program and its arguments are those of the command, or of the shell.
pub open spec fn is_plan(
    command: Option<Vec<String>>,
    shell: Option<String>,
    plan: (String, Vec<String>),
) -> bool {
    match command {
        Some(argv) => plan.0 == argv@[0] && plan.1@ == argv@.skip(1),
        None => {
            &&& plan.0@ == match shell {
                Some(path) => path@,
                None => FALLBACK_SHELL@,
            }
            &&& plan.1@.len() == 0
        },
    }
}

/// The program that the pty runs, and its arguments: the command, else the
/// user's shell, else the shell of last resort.
pub fn spawn_plan(command: &Option<Vec<String>>, shell: Option<String>) -> (plan: (
    String,
    Vec<String>,
))
    requires
        command matches Some(argv) ==> argv@.len() > 0,
    ensures
        is_plan(*command, shell, plan),
{
    match command {
        Some(argv) => (argv[0].clone(), strings_from(argv, 1)),
        None => {
            let program = match shell {
                Some(path) => path,
                None => FALLBACK_SHELL.to_string(),
            };
            (program, Vec::new())
        },
    }
}

/// `-e` before a command changes nothing, unless the command itself begins
/// with `-e`.
pub proof fn both_conventions_agree(flag: String, command: Seq<String>)
    requires
        flag@ == "-e"@,
        command.len() > 0,
        command[0]@ != "-e"@,
    ensures
        hosted(seq![flag] + command) == hosted(command),
        hosted(command) == Some(command),
{
    assert((seq![flag] + command).skip(1) =~= command);
}

/// `-e` is taken off once, whatever follows it; nothing follows it, or there is
/// nothing at all, exactly where there is no command.
pub proof fn the_flag_goes_once(flag: String, command: Seq<String>)
    requires
        flag@ == "-e"@,
    ensures
        command.len() > 0 ==> hosted(seq![flag] + command) == Some(command),
        hosted(seq![flag]) is None,
        hosted(command) is None <==> command.len() == 0 || (command.len() == 1 && command[0]@
            == "-e"@),
        command.len() > 0 && command[0]@ != "-e"@ ==> hosted(command) == Some(command),
{
    assert((seq![flag] + command).skip(1) =~= command);
}

/// A command runs as it was given: the program and then its arguments are the
/// command again, whatever the shell. Without one the shell runs bare, and
/// `/bin/sh` where there is none.
pub proof fn commands_run_as_given(
    command: Option<Vec<String>>,
    shell: Option<String>,
    plan: (String, Vec<String>),
)
    requires
        is_plan(command, shell, plan),
        command matches Some(argv) ==> argv@.len() > 0,
    ensures
        command matches Some(argv) ==> seq![plan.0] + plan.1@ == argv@,
        command is None ==> plan.1@.len() == 0,
        command is None && shell is Some ==> plan.0@ == shell->0@,
        command is None && shell is None ==> plan.0@ == "/bin/sh"@,
{
    if let Some(argv) = command {
        assert(seq![plan.0] + plan.1@ =~= argv@);
    }
}

} // verus!
