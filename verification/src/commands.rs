//! The arguments of the analyzer's commands and the texts that explain them.

use vstd::prelude::*;
use vstd::string::*;

verus! {

/// An argument of a command, by the way it is given.
#[derive(Debug)]
pub enum ArgumentType<'a> {
    /// A required positional argument.
    R(&'a str),
    /// An optional positional argument.
    O(&'a str),
    /// A flag, given by its long name.
    A(&'a str),
}

/// How an argument is shown in a usage line.
pub open spec fn shown(argument: ArgumentType) -> Seq<char> {
    match argument {
        ArgumentType::R(s) => "<"@ + s@ + ">"@,
        ArgumentType::O(s) => "["@ + s@ + "]"@,
        ArgumentType::A(s) => "[-"@ + seq![s@[0]] + "/--"@ + s@ + "]"@,
    }
}

/// The first `n` arguments as they are shown, with `separator` between them;
/// with `required_only`, only those of them that must be given.
pub open spec fn shown_from(
    arguments: Seq<ArgumentType>,
    separator: Seq<char>,
    required_only: bool,
    n: nat,
) -> Seq<char>
    decreases n,
{
    if n == 0 {
        Seq::empty()
    } else {
        let before = shown_from(arguments, separator, required_only, (n - 1) as nat);
        let argument = arguments[n - 1];
        if required_only && !(argument is R) {
            before
        } else if listed(arguments, required_only, (n - 1) as nat) == 0 {
            before + shown(argument)
        } else {
            before + separator + shown(argument)
        }
    }
}

/// How many of the first `n` arguments are listed.
pub open spec fn listed(arguments: Seq<ArgumentType>, required_only: bool, n: nat) -> nat
    decreases n,
{
    if n == 0 {
        0
    } else if required_only && !(arguments[n - 1] is R) {
        listed(arguments, required_only, (n - 1) as nat)
    } else {
        listed(arguments, required_only, (n - 1) as nat) + 1
    }
}

/// Whether a flag has a name to take its short form from.
pub open spec fn named(argument: ArgumentType) -> bool {
    argument matches ArgumentType::A(s) ==> s@.len() > 0
}

/// Whether every argument that is a flag has a name.
pub open spec fn all_named(arguments: Seq<ArgumentType>) -> bool {
    forall|i: int| 0 <= i < arguments.len() ==> named(#[trigger] arguments[i])
}

/// The usage of a command.
pub open spec fn usage_of(command_name: Seq<char>, arguments: Seq<ArgumentType>) -> Seq<char> {
    "USAGE:\n    "@ + command_name + " "@ + shown_from(arguments, " "@, false, arguments.len())
}

/// The help of a command: what it is about, then its usage.
pub open spec fn help_of(
    command_name: Seq<char>,
    about: Seq<char>,
    arguments: Seq<ArgumentType>,
) -> Seq<char> {
    about + "\n\n"@ + usage_of(command_name, arguments) + "\n"@
}

/// The complaint about a command that came without its required arguments.
pub open spec fn error_of(command_name: Seq<char>, arguments: Seq<ArgumentType>) -> Seq<char> {
    "error: The following required argument"@ + (if arguments.len() > 1 {
        "s were"@
    } else {
        " was"@
    }) + " not provided:\n    "@ + shown_from(arguments, "\n    "@, true, arguments.len())
        + "\n\n"@ + usage_of(command_name, arguments) + "\n\nFor more information try 'help'"@
}

impl<'a> ArgumentType<'a> {
    /// Whether the argument must be given.
    pub fn is_required(&self) -> (required: bool)
        ensures
            required == (*self is R),
    {
        match *self {
            ArgumentType::R(_) => true,
            _ => false,
        }
    }

    /// The argument as a usage line shows it: `<name>` where it is required,
    /// `[name]` where it is optional, `[-n/--name]` for a flag.
    pub fn parse(&self) -> (text: String)
        requires
            named(*self),
        ensures
            text@ == shown(*self),
    {
        match *self {
            ArgumentType::R(s) => {
                let mut text = String::from_str("<");
                text.append(s);
                text.append(">");
                text
            },
            ArgumentType::O(s) => {
                let mut text = String::from_str("[");
                text.append(s);
                text.append("]");
                text
            },
            ArgumentType::A(s) => {
                let first = s.get_char(0);
                let mut text = String::from_str("[-");
                text.push(first);
                assert(text@ == "[-"@ + seq![s@[0]]);
                text.append("/--");
                text.append(s);
                text.append("]");
                text
            },
        }
    }
}

/// Appends to `text` the arguments as they are shown, `separator` between
/// them; with `required_only`, only those that must be given.
fn append_shown(text: &mut String, args: &[ArgumentType], separator: &str, required_only: bool)
    requires
        all_named(args@),
    ensures
        final(text)@ == old(text)@ + shown_from(args@, separator@, required_only, args@.len()),
{
    let mut any = false;
    let mut i: usize = 0;
    while i < args.len()
        invariant
            i <= args.len(),
            all_named(args@),
            any == (listed(args@, required_only, i as nat) > 0),
            text@ == old(text)@ + shown_from(args@, separator@, required_only, i as nat),
        decreases args.len() - i,
    {
        if !required_only || args[i].is_required() {
            if any {
                text.append(separator);
            }
            proof {
                assert(named(args@[i as int]));
            }
            let part = args[i].parse();
            text.append(part.as_str());
            any = true;
        }
        i += 1;
    }
}

/// The usage of a command: its name and its arguments, left to right.
pub fn usage(command_name: &str, args: &[ArgumentType]) -> (text: String)
    requires
        all_named(args@),
    ensures
        text@ == usage_of(command_name@, args@),
{
    let mut text = String::from_str("USAGE:\n    ");
    text.append(command_name);
    text.append(" ");
    append_shown(&mut text, args, " ", false);
    text
}

/// The help of a command.
pub fn help_message(command_name: &str, about: &str, args: &[ArgumentType]) -> (text: String)
    requires
        all_named(args@),
    ensures
        text@ == help_of(command_name@, about@, args@),
{
    let mut text = String::from_str(about);
    text.append("\n\n");
    text.append(usage(command_name, args).as_str());
    text.append("\n");
    text
}

/// The complaint about a command that came without its required arguments.
pub fn error_message(command_name: &str, args: &[ArgumentType]) -> (text: String)
    requires
        all_named(args@),
    ensures
        text@ == error_of(command_name@, args@),
{
    let mut text = String::from_str("error: The following required argument");
    if args.len() > 1 {
        text.append("s were");
    } else {
        text.append(" was");
    }
    text.append(" not provided:\n    ");
    append_shown(&mut text, args, "\n    ", true);
    text.append("\n\n");
    text.append(usage(command_name, args).as_str());
    text.append("\n\nFor more information try 'help'");
    text
}

} // verus!
