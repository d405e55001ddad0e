use oxeylyzer::messages::{route, Route};
use oxeylyzer::tui::{compare_rows, format_duration, heatmap_string, sfbs_heading};
use oxeylyzer::repl::{
    answer, command_of, get_nth, help_for, interpret, name_taken, overview_text,
    placeholder_name, post_run, respond, take_turn, topic_of, Action, Command, Reply, Turn,
};
use oxeylyzer::words::{parse_number, same_text, write_number};

fn words(line: &[&str]) -> Vec<String> {
    line.iter().map(|word| word.to_string()).collect()
}

fn read(line: &[&str]) -> Reply {
    interpret(&words(line))
}

fn said(reply: &Reply) -> &str {
    match &reply.action {
        Action::Say(line) => line.as_str(),
        _ => panic!("nothing is said"),
    }
}

#[test]
fn commands_by_name() {
    assert_eq!(command_of("generate"), Some(Command::Generate));
    assert_eq!(command_of("g"), Some(Command::Generate));
    assert_eq!(command_of("i"), Some(Command::Improve));
    assert_eq!(command_of("layout"), Some(Command::Analyze));
    assert_eq!(command_of("comp"), Some(Command::Compare));
    assert_eq!(command_of("cmp"), None);
    assert_eq!(command_of("comprae"), Some(Command::Compare));
    assert_eq!(command_of("langauge"), Some(Command::Language));
    assert_eq!(command_of("langs"), Some(Command::Languages));
    assert_eq!(command_of("-h"), Some(Command::Help));
    assert_eq!(command_of("exit"), Some(Command::Quit));
    assert_eq!(command_of("Generate"), None);
    assert_eq!(command_of(""), None);
    assert_eq!(topic_of("cmp"), Some(Command::Compare));
    assert_eq!(topic_of("comp"), None);
    assert_eq!(topic_of("occ"), Some(Command::Ngram));
}

#[test]
fn generate_reads_its_count() {
    let reply = read(&["gen", "25"]);
    assert!(!reply.wants_exit);
    match reply.action {
        Action::Generate(count, line) => {
            assert_eq!(count, 25);
            assert_eq!(line, "generating 25 layouts...");
        }
        _ => panic!("not a generation"),
    }
    let reply = read(&["generate", "+007"]);
    assert!(matches!(reply.action, Action::Generate(7, ref line) if line == "generating +007 layouts..."));
    assert!(matches!(read(&["generate", "500"]).action, Action::Generate(500, _)));
    assert!(matches!(read(&["generate"]).action, Action::Nothing));
}

#[test]
fn too_many_layouts_end_the_session() {
    let reply = read(&["generate", "501"]);
    assert!(reply.wants_exit);
    assert_eq!(said(&reply), "Cannot generate more than 500 layouts in demo mode");
    let reply = read(&["improve", "qwerty", "9999"]);
    assert!(reply.wants_exit);
    assert_eq!(said(&reply), "Cannot generate more than 500 layouts in demo mode");
}

#[test]
fn missing_or_wrong_arguments_are_complained_about() {
    let reply = read(&["generate", "many"]);
    assert!(!reply.wants_exit);
    assert_eq!(
        said(&reply),
        "error: The following required argument was not provided:\n    <amount>\n\n\
         USAGE:\n    generate <amount>\n\nFor more information try 'help'"
    );
    assert_eq!(
        said(&read(&["improve", "qwerty", "x"])),
        "error: The following required arguments were not provided:\n    <name>\n    <amount>\n\n\
         USAGE:\n    improve <name> <amount>\n\nFor more information try 'help'"
    );
    assert!(matches!(read(&["improve", "qwerty"]).action, Action::Nothing));
    assert!(matches!(read(&["improve"]).action, Action::Nothing));
    assert_eq!(
        said(&read(&["analyze"])),
        "error: The following required argument was not provided:\n    <name or number>\n\n\
         USAGE:\n    analyze <name or number>\n\nFor more information try 'help'"
    );
    assert_eq!(
        said(&read(&["compare", "qwerty"])),
        "error: The following required arguments were not provided:\n    <layout 1>\n    <layout 2>\n\n\
         USAGE:\n    compare <layout 1> <layout 2>\n\nFor more information try 'help'"
    );
    assert!(matches!(read(&["compare"]).action, Action::Nothing));
    let sfbs = "error: The following required arguments were not provided:\n    <name>\n\n\
                USAGE:\n    ngram <name> [top n]\n\nFor more information try 'help'";
    assert_eq!(said(&read(&["sfbs"])), sfbs);
    assert_eq!(said(&read(&["sfb", "qwerty", "ten"])), sfbs);
    assert_eq!(
        said(&read(&["ngram"])),
        "error: The following required argument was not provided:\n    <ngram>\n\n\
         USAGE:\n    ngram <ngram>\n\nFor more information try 'help'"
    );
}

#[test]
fn commands_with_their_arguments() {
    assert!(matches!(read(&["improve", "qwerty", "30"]).action, Action::Improve(ref name, 30) if name == "qwerty"));
    assert!(matches!(read(&["rank", "anything"]).action, Action::Rank));
    assert!(matches!(read(&["a", "3"]).action, Action::AnalyzeNth(3)));
    assert!(matches!(read(&["a", "3rd"]).action, Action::AnalyzeName(ref name) if name == "3rd"));
    assert!(matches!(
        read(&["c", "qwerty", "dvorak"]).action,
        Action::Compare(ref a, ref b) if a == "qwerty" && b == "dvorak"
    ));
    assert!(matches!(read(&["sfbs", "qwerty"]).action, Action::Sfbs(ref name, 10) if name == "qwerty"));
    assert!(matches!(read(&["sfbs", "qwerty", "4"]).action, Action::Sfbs(ref name, 4) if name == "qwerty"));
    assert!(matches!(read(&["occ", "th"]).action, Action::Ngram(ref ngram) if ngram == "th"));
    assert!(matches!(read(&["l"]).action, Action::ShowLanguage));
    assert!(matches!(read(&["lang", "german"]).action, Action::SetLanguage(ref l) if l == "german"));
    assert!(matches!(read(&["langs"]).action, Action::Languages));
    assert!(matches!(read(&["r"]).action, Action::Reload));
    assert!(matches!(read(&[]).action, Action::Nothing));
    assert_eq!(said(&read(&["load", "english"])), "Unsupported feature in demo mode");
    assert_eq!(said(&read(&["s", "0"])), "Unsupported feature in demo mode");
    let quit = read(&["q"]);
    assert!(quit.wants_exit);
    assert!(matches!(quit.action, Action::Quit));
}

#[test]
fn unknown_commands_are_named() {
    let reply = read(&["frobnicate", "now"]);
    assert!(!reply.wants_exit);
    assert_eq!(said(&reply), "error: the command 'frobnicate' wasn't recognized");
    assert_eq!(
        said(&read(&["help", "frobnicate"])),
        "error: the subcommand 'frobnicate' wasn't recognized"
    );
}

#[test]
fn help_texts() {
    assert_eq!(
        said(&read(&["help", "gen"])),
        "(g, gen) Generate a number of layouts and shows the best 10, All layouts generated \
         are accessible until reloading or quiting.\n\nUSAGE:\n    generate <amount>\n"
    );
    assert_eq!(
        help_for(Command::Load),
        "Generates corpus for <language>. Will be include everything but spaces if the \
         language is not known.\n\nUSAGE:\n    load <language> [preferred_config_folder] \
         [-r/--raw]\n"
    );
    assert_eq!(help_for(Command::Quit), "(q) Quit the repl\n\nUSAGE:\n    quit \n");
    assert_eq!(
        help_for(Command::Save),
        "(s) Saves the top <number> result that was generated. Starts from 0 up to the number \
         generated.\n\nUSAGE:\n    save <index> [name]\n"
    );
    let overview = overview_text();
    assert_eq!(said(&read(&["h"])), overview);
    assert!(overview.starts_with("commands:\n    analyze      (a, layout) Show details of layout\n"));
    assert!(overview.ends_with("generated, Takes negative values\n"));
    assert_eq!(overview.lines().count(), 20);
}

#[test]
fn lines_are_split_as_a_shell_splits_them() {
    let reply = respond("compare 'my layout' \"other one\"").unwrap();
    assert!(matches!(
        reply.action,
        Action::Compare(ref a, ref b) if a == "my layout" && b == "other one"
    ));
    assert_eq!(respond("analyze 'unfinished").err().unwrap(), "error: Invalid quoting");
    assert!(matches!(respond("").unwrap().action, Action::Nothing));
    assert_eq!(answer(None).err().unwrap(), "error: Invalid quoting");
    assert!(matches!(answer(Some(words(&["rank"]))).unwrap().action, Action::Rank));
}

#[test]
fn turns() {
    assert!(matches!(post_run("   \t\n"), Turn::Idle));
    assert!(matches!(post_run(""), Turn::Idle));
    assert!(matches!(post_run("  rank  "), Turn::Act(Reply { action: Action::Rank, wants_exit: false })));
    assert!(matches!(post_run(" quit\n"), Turn::Act(Reply { action: Action::Quit, wants_exit: true })));
    assert!(matches!(post_run("a \"b"), Turn::Fault(ref e) if e == "error: Invalid quoting"));
    assert!(matches!(take_turn("", Some(words(&["rank"]))), Turn::Idle));
    assert!(matches!(take_turn("x", None), Turn::Fault(_)));
    assert!(matches!(take_turn("x", Some(words(&["rank"]))), Turn::Act(_)));
}

#[test]
fn numbers_are_read() {
    assert_eq!(parse_number("0"), Some(0));
    assert_eq!(parse_number("42"), Some(42));
    assert_eq!(parse_number("+42"), Some(42));
    assert_eq!(parse_number("0042"), Some(42));
    assert_eq!(parse_number(""), None);
    assert_eq!(parse_number("+"), None);
    assert_eq!(parse_number("-1"), None);
    assert_eq!(parse_number("4 2"), None);
    assert_eq!(parse_number("42x"), None);
    assert_eq!(parse_number("٤٢"), None);
    assert_eq!(parse_number(&usize::MAX.to_string()), Some(usize::MAX));
    assert_eq!(parse_number(&format!("{}0", usize::MAX)), None);
    assert_eq!(parse_number("18446744073709551616"), "18446744073709551616".parse::<usize>().ok());
    for text in ["7", "+7", "007", "", "+", "-7", "7a", "99999999999999999999999"] {
        assert_eq!(parse_number(text), usize::from_str_radix(text, 10).ok());
    }
}

#[test]
fn numbers_are_written() {
    assert_eq!(write_number(0), "0");
    assert_eq!(write_number(7), "7");
    assert_eq!(write_number(10), "10");
    assert_eq!(write_number(1234567890), "1234567890");
    assert_eq!(write_number(u64::MAX), u64::MAX.to_string());
}

#[test]
fn texts_are_compared() {
    assert!(same_text("", ""));
    assert!(same_text("würze", "würze"));
    assert!(!same_text("würze", "wurze"));
    assert!(!same_text("ab", "abc"));
    assert!(!same_text("abc", "ab"));
}

#[test]
fn generated_layouts_are_asked_for_by_number() {
    assert_eq!(get_nth(0, 3), Ok(0));
    assert_eq!(get_nth(2, 3), Ok(2));
    assert_eq!(get_nth(3, 3), Err("That's not a valid index!".to_string()));
    assert_eq!(get_nth(0, 0), Err("You haven't generated any layouts yet!".to_string()));
}

#[test]
fn placeholder_names() {
    let taken = words(&["flpm1", "flpm2", "flpm4", "other1"]);
    assert!(name_taken(&taken, "flpm2"));
    assert!(!name_taken(&taken, "flpm3"));
    assert_eq!(placeholder_name("flpm", &taken), Ok("flpm3".to_string()));
    assert_eq!(placeholder_name("abcd", &taken), Ok("abcd1".to_string()));
    let all: Vec<String> = (1..1000).map(|i| format!("x{i}")).collect();
    assert_eq!(
        placeholder_name("x", &all),
        Err("Could not find a good placeholder name for the layout.".to_string())
    );
    let almost: Vec<String> = (1..999).map(|i| format!("x{i}")).collect();
    assert_eq!(placeholder_name("x", &almost), Ok("x999".to_string()));
}

#[test]
fn durations() {
    assert_eq!(format_duration(0), "00:00:00");
    assert_eq!(format_duration(59), "00:00:59");
    assert_eq!(format_duration(60), "00:01:00");
    assert_eq!(format_duration(3599), "00:59:59");
    assert_eq!(format_duration(3600), "01:00:00");
    assert_eq!(format_duration(86399), "23:59:59");
    assert_eq!(format_duration(360000), "100:00:00");
    assert_eq!(format_duration(3723), "01:02:03");
}

#[test]
fn routes() {
    assert_eq!(route(true, "oxeylyzer"), Route::Socket);
    assert_eq!(route(true, "oxeylyzer/"), Route::Socket);
    assert_eq!(route(true, "oxeylyzer///"), Route::Socket);
    assert_eq!(route(false, "oxeylyzer"), Route::BadRequest);
    assert_eq!(route(true, "/oxeylyzer"), Route::BadRequest);
    assert_eq!(route(true, "oxeylyzer/x"), Route::BadRequest);
    assert_eq!(route(true, ""), Route::BadRequest);
    assert_eq!(route(true, "///"), Route::BadRequest);
}

#[test]
fn layouts_are_written_in_rows_of_ten() {
    let keys: Vec<String> = "qwertyuiopasdfghjkl;zxcvbnm,./".chars().map(|c| c.to_string()).collect();
    assert_eq!(
        heatmap_string(&keys),
        "q w e r t  y u i o p \na s d f g  h j k l ; \nz x c v b  n m , . / "
    );
    assert_eq!(heatmap_string(&Vec::new()), "");
    let few: Vec<String> = vec!["<a>".to_string(), "<b>".to_string()];
    assert_eq!(heatmap_string(&few), "<a> <b> ");
}

#[test]
fn layouts_are_written_side_by_side() {
    let left: Vec<String> = "qwertyuiopasdfghjkl;zxcvbnm,./".chars().map(|c| c.to_string()).collect();
    let right: Vec<String> = "',.pyfgcrlaoeuidhtns;qjkxbmwvz".chars().map(|c| c.to_string()).collect();
    assert_eq!(
        compare_rows(&left, &right),
        "q w e r t  y u i o p           ' , . p y  f g c r l \n\
         a s d f g  h j k l ;           a o e u i  d h t n s \n\
         z x c v b  n m , . /           ; q j k x  b m w v z \n"
    );
}

#[test]
fn sfbs_headings() {
    assert_eq!(sfbs_heading("qwerty", 10), "top 10 sfbs for qwerty:");
    assert_eq!(sfbs_heading("qwerty", 48), "top 48 sfbs for qwerty:");
    assert_eq!(sfbs_heading("my layout", 49), "top 48 sfbs for my layout:");
    assert_eq!(sfbs_heading("", 0), "top 0 sfbs for :");
}
