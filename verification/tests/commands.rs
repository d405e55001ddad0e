use oxeylyzer::commands::{error_message, help_message, usage, ArgumentType};
use oxeylyzer::messages::{process_command, ClientActorMessage, Oxeylyzer, WsMessage};
use oxeylyzer::repl::{Action, Turn};

#[test]
fn arguments_are_shown_by_their_kind() {
    assert_eq!(ArgumentType::R("amount").parse(), "<amount>");
    assert_eq!(ArgumentType::O("top n").parse(), "[top n]");
    assert_eq!(ArgumentType::A("raw").parse(), "[-r/--raw]");
    assert_eq!(ArgumentType::A("écrit").parse(), "[-é/--écrit]");
    assert!(ArgumentType::R("amount").is_required());
    assert!(!ArgumentType::O("amount").is_required());
    assert!(!ArgumentType::A("amount").is_required());
}

#[test]
fn usage_lines() {
    assert_eq!(
        usage("generate", &[ArgumentType::R("amount")]),
        "USAGE:\n    generate <amount>"
    );
    assert_eq!(
        usage(
            "load",
            &[
                ArgumentType::R("language"),
                ArgumentType::O("preferred_config_folder"),
                ArgumentType::A("raw")
            ]
        ),
        "USAGE:\n    load <language> [preferred_config_folder] [-r/--raw]"
    );
    assert_eq!(usage("rank", &[]), "USAGE:\n    rank ");
}

#[test]
fn help_messages() {
    assert_eq!(
        help_message("quit", "(q) Quit the repl", &[]),
        "(q) Quit the repl\n\nUSAGE:\n    quit \n"
    );
    assert_eq!(
        help_message("sfbs", "Shows sfbs.", &[ArgumentType::R("name"), ArgumentType::O("top n")]),
        "Shows sfbs.\n\nUSAGE:\n    sfbs <name> [top n]\n"
    );
}

#[test]
fn error_messages_list_the_required_arguments() {
    assert_eq!(
        error_message("improve", &[ArgumentType::R("name"), ArgumentType::R("amount")]),
        "error: The following required arguments were not provided:\n    <name>\n    <amount>\n\n\
         USAGE:\n    improve <name> <amount>\n\nFor more information try 'help'"
    );
    assert_eq!(
        error_message("generate", &[ArgumentType::R("amount")]),
        "error: The following required argument was not provided:\n    <amount>\n\n\
         USAGE:\n    generate <amount>\n\nFor more information try 'help'"
    );
    assert_eq!(
        error_message("ngram", &[ArgumentType::R("name"), ArgumentType::O("top n")]),
        "error: The following required arguments were not provided:\n    <name>\n\n\
         USAGE:\n    ngram <name> [top n]\n\nFor more information try 'help'"
    );
}

#[test]
fn commands_are_echoed() {
    assert_eq!(process_command("rank".to_string()), "Response: rank");
    assert_eq!(process_command(String::new()), "Response: ");
    let state = Oxeylyzer::new();
    let WsMessage(line) = state.answer(&ClientActorMessage { msg: "help me".to_string() });
    assert_eq!(line, "Response: help me");
}

#[test]
fn lines_are_run() {
    assert!(matches!(Oxeylyzer::run("  "), Turn::Idle));
    match Oxeylyzer::run(" sfbs 'my layout' 7 ") {
        Turn::Act(reply) => {
            assert!(!reply.wants_exit);
            assert!(matches!(reply.action, Action::Sfbs(ref name, 7) if name == "my layout"));
        }
        _ => panic!("not a command"),
    }
}
