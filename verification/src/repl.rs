//! The commands of the analyzer: what a line that a client sends asks for.
//!
//! A line is trimmed, split into words as a shell would split it, and read as
//! a command with its arguments. What comes out is an action for the one who
//! runs the analyzer to perform, and whether the session ends after it.

use crate::commands::{all_named, error_message, error_of, help_message, help_of, ArgumentType};
use crate::words::{decimal, number_written, parse_number, same_text, write_number};
use vstd::prelude::*;
use vstd::string::*;

verus! {

/// The most layouts that one command may ask for.
pub const MOST_LAYOUTS: usize = 500;

/// The number of bigrams that `sfbs` shows where none is asked for.
pub const USUAL_SFBS: usize = 10;

/// The commands.
#[derive(Clone, Copy, Debug, PartialEq, Eq, Structural)]
pub enum Command {
    Generate,
    Improve,
    Rank,
    Analyze,
    Compare,
    Sfbs,
    Ngram,
    Load,
    Language,
    Languages,
    Reload,
    Save,
    Quit,
    Help,
}

/// The command that a word names both at the start of a line and after
/// `help`.
pub open spec fn commonly_named(word: Seq<char>) -> Option<Command> {
    if word == "generate"@ || word == "gen"@ || word == "g"@ {
        Some(Command::Generate)
    } else if word == "improve"@ || word == "i"@ {
        Some(Command::Improve)
    } else if word == "rank"@ {
        Some(Command::Rank)
    } else if word == "analyze"@ || word == "layout"@ || word == "a"@ {
        Some(Command::Analyze)
    } else if word == "compare"@ || word == "c"@ || word == "cmopare"@ || word == "comprae"@ {
        Some(Command::Compare)
    } else if word == "sfbs"@ || word == "sfb"@ {
        Some(Command::Sfbs)
    } else if word == "ngram"@ || word == "occ"@ || word == "n"@ {
        Some(Command::Ngram)
    } else if word == "load"@ {
        Some(Command::Load)
    } else if word == "language"@ || word == "lanugage"@ || word == "langauge"@ || word
        == "lang"@ || word == "l"@ {
        Some(Command::Language)
    } else if word == "languages"@ || word == "langs"@ {
        Some(Command::Languages)
    } else if word == "reload"@ || word == "r"@ {
        Some(Command::Reload)
    } else if word == "save"@ || word == "s"@ {
        Some(Command::Save)
    } else if word == "quit"@ || word == "exit"@ || word == "q"@ {
        Some(Command::Quit)
    } else if word == "help"@ || word == "--help"@ || word == "h"@ || word == "-h"@ {
        Some(Command::Help)
    } else {
        None
    }
}

/// The command that a word names at the start of a line. `comp` is short for
/// `compare` here.
pub open spec fn command_named(word: Seq<char>) -> Option<Command> {
    if commonly_named(word) is Some {
        commonly_named(word)
    } else if word == "comp"@ {
        Some(Command::Compare)
    } else {
        None
    }
}

/// The command that a word names after `help`. `cmp` is short for `compare`
/// here.
pub open spec fn topic_named(word: Seq<char>) -> Option<Command> {
    if commonly_named(word) is Some {
        commonly_named(word)
    } else if word == "cmp"@ {
        Some(Command::Compare)
    } else {
        None
    }
}

/// The command that a word names both at the start of a line and after
/// `help`.
fn common_command(word: &str) -> (r: Option<Command>)
    ensures
        r == commonly_named(word@),
{
    if same_text(word, "generate") || same_text(word, "gen") || same_text(word, "g") {
        Some(Command::Generate)
    } else if same_text(word, "improve") || same_text(word, "i") {
        Some(Command::Improve)
    } else if same_text(word, "rank") {
        Some(Command::Rank)
    } else if same_text(word, "analyze") || same_text(word, "layout") || same_text(word, "a") {
        Some(Command::Analyze)
    } else if same_text(word, "compare") || same_text(word, "c") || same_text(word, "cmopare")
        || same_text(word, "comprae") {
        Some(Command::Compare)
    } else if same_text(word, "sfbs") || same_text(word, "sfb") {
        Some(Command::Sfbs)
    } else if same_text(word, "ngram") || same_text(word, "occ") || same_text(word, "n") {
        Some(Command::Ngram)
    } else if same_text(word, "load") {
        Some(Command::Load)
    } else if same_text(word, "language") || same_text(word, "lanugage") || same_text(
        word,
        "langauge",
    ) || same_text(word, "lang") || same_text(word, "l") {
        Some(Command::Language)
    } else if same_text(word, "languages") || same_text(word, "langs") {
        Some(Command::Languages)
    } else if same_text(word, "reload") || same_text(word, "r") {
        Some(Command::Reload)
    } else if same_text(word, "save") || same_text(word, "s") {
        Some(Command::Save)
    } else if same_text(word, "quit") || same_text(word, "exit") || same_text(word, "q") {
        Some(Command::Quit)
    } else if same_text(word, "help") || same_text(word, "--help") || same_text(word, "h")
        || same_text(word, "-h") {
        Some(Command::Help)
    } else {
        None
    }
}

/// The command that a word names at the start of a line.
pub fn command_of(word: &str) -> (r: Option<Command>)
    ensures
        r == command_named(word@),
{
    match common_command(word) {
        Some(command) => Some(command),
        None => if same_text(word, "comp") {
            Some(Command::Compare)
        } else {
            None
        },
    }
}

/// The command that a word names after `help`.
pub fn topic_of(word: &str) -> (r: Option<Command>)
    ensures
        r == topic_named(word@),
{
    match common_command(word) {
        Some(command) => Some(command),
        None => if same_text(word, "cmp") {
            Some(Command::Compare)
        } else {
            None
        },
    }
}

/// The name under which a command is explained.
pub open spec fn name_of(topic: Command) -> Seq<char> {
    match topic {
        Command::Generate => "generate"@,
        Command::Improve => "improve"@,
        Command::Rank => "rank"@,
        Command::Analyze => "analyze"@,
        Command::Compare => "compare"@,
        Command::Sfbs => "sfbs"@,
        Command::Ngram => "ngram"@,
        Command::Load => "load"@,
        Command::Language => "language"@,
        Command::Languages => "languages"@,
        Command::Reload => "reload"@,
        Command::Save => "save"@,
        Command::Quit => "quit"@,
        Command::Help => "help"@,
    }
}

/// What a command is about.
pub open spec fn about(topic: Command) -> Seq<char> {
    match topic {
        Command::Generate => "(g, gen) Generate a number of layouts and shows the best 10, All layouts generated are accessible until reloading or quiting."@,
        Command::Improve => "(i) Save the top <number> result that was generated."@,
        Command::Rank => "(sort) Rank all layouts in set language by score using values set from 'config.toml'"@,
        Command::Analyze => "(a, layout) Show details of layout."@,
        Command::Compare => "(c, cmp) Compare 2 layouts."@,
        Command::Sfbs => "(sfbs, sfb) Shows the top n sfbs for a certain layout."@,
        Command::Ngram => "(n, occ) Gives information about a certain ngram. for 2 letter ones, skipgram info will be provided as well."@,
        Command::Load => "Generates corpus for <language>. Will be include everything but spaces if the language is not known."@,
        Command::Language => "(l, lang) Sets a language to be used for analysis."@,
        Command::Languages => "(langs) Shows available languages."@,
        Command::Reload => "(r) Reloads all data with the current language. Loses temporary layouts."@,
        Command::Save => "(s) Saves the top <number> result that was generated. Starts from 0 up to the number generated."@,
        Command::Quit => "(q) Quit the repl"@,
        Command::Help => "Print this message or the help of the given subcommand(s)"@,
    }
}

/// The arguments that a command is explained with.
pub open spec fn arguments_of(topic: Command) -> Seq<ArgumentType<'static>> {
    match topic {
        Command::Generate => seq![ArgumentType::R("amount")],
        Command::Improve => seq![ArgumentType::R("name"), ArgumentType::R("amount")],
        Command::Rank => seq![],
        Command::Analyze => seq![ArgumentType::R("name or number")],
        Command::Compare => seq![ArgumentType::R("layout 1"), ArgumentType::R("layout 2")],
        Command::Sfbs => seq![ArgumentType::R("name"), ArgumentType::O("top n")],
        Command::Ngram => seq![ArgumentType::R("ngram")],
        Command::Load => seq![
            ArgumentType::R("language"),
            ArgumentType::O("preferred_config_folder"),
            ArgumentType::A("raw"),
        ],
        Command::Language => seq![ArgumentType::R("language")],
        Command::Languages => seq![],
        Command::Reload => seq![],
        Command::Save => seq![ArgumentType::R("index"), ArgumentType::O("name")],
        Command::Quit => seq![],
        Command::Help => seq![ArgumentType::O("subcommand")],
    }
}

/// The help of a command.
pub open spec fn help_text(topic: Command) -> Seq<char> {
    help_of(name_of(topic), about(topic), arguments_of(topic))
}

/// The help of a command.
pub fn help_for(topic: Command) -> (text: String)
    ensures
        text@ == help_text(topic),
{
    match topic {
        Command::Generate => {
            let arguments = [ArgumentType::R("amount")];
            assert(arguments@ =~= arguments_of(topic));
            help_message(
                "generate",
                "(g, gen) Generate a number of layouts and shows the best 10, All layouts generated are accessible until reloading or quiting.",
                &arguments,
            )
        },
        Command::Improve => {
            let arguments = [ArgumentType::R("name"), ArgumentType::R("amount")];
            assert(arguments@ =~= arguments_of(topic));
            help_message(
                "improve",
                "(i) Save the top <number> result that was generated.",
                &arguments,
            )
        },
        Command::Rank => {
            let arguments: [ArgumentType; 0] = [];
            assert(arguments@ =~= arguments_of(topic));
            help_message(
                "rank",
                "(sort) Rank all layouts in set language by score using values set from 'config.toml'",
                &arguments,
            )
        },
        Command::Analyze => {
            let arguments = [ArgumentType::R("name or number")];
            assert(arguments@ =~= arguments_of(topic));
            help_message("analyze", "(a, layout) Show details of layout.", &arguments)
        },
        Command::Compare => {
            let arguments = [ArgumentType::R("layout 1"), ArgumentType::R("layout 2")];
            assert(arguments@ =~= arguments_of(topic));
            help_message("compare", "(c, cmp) Compare 2 layouts.", &arguments)
        },
        Command::Sfbs => {
            let arguments = [ArgumentType::R("name"), ArgumentType::O("top n")];
            assert(arguments@ =~= arguments_of(topic));
            help_message(
                "sfbs",
                "(sfbs, sfb) Shows the top n sfbs for a certain layout.",
                &arguments,
            )
        },
        Command::Ngram => {
            let arguments = [ArgumentType::R("ngram")];
            assert(arguments@ =~= arguments_of(topic));
            help_message(
                "ngram",
                "(n, occ) Gives information about a certain ngram. for 2 letter ones, skipgram info will be provided as well.",
                &arguments,
            )
        },
        Command::Load => {
            let arguments = [
                ArgumentType::R("language"),
                ArgumentType::O("preferred_config_folder"),
                ArgumentType::A("raw"),
            ];
            proof {
                reveal_strlit("raw");
            }
            assert(arguments@ =~= arguments_of(topic));
            help_message(
                "load",
                "Generates corpus for <language>. Will be include everything but spaces if the language is not known.",
                &arguments,
            )
        },
        Command::Language => {
            let arguments = [ArgumentType::R("language")];
            assert(arguments@ =~= arguments_of(topic));
            help_message(
                "language",
                "(l, lang) Sets a language to be used for analysis.",
                &arguments,
            )
        },
        Command::Languages => {
            let arguments: [ArgumentType; 0] = [];
            assert(arguments@ =~= arguments_of(topic));
            help_message("languages", "(langs) Shows available languages.", &arguments)
        },
        Command::Reload => {
            let arguments: [ArgumentType; 0] = [];
            assert(arguments@ =~= arguments_of(topic));
            help_message(
                "reload",
                "(r) Reloads all data with the current language. Loses temporary layouts.",
                &arguments,
            )
        },
        Command::Save => {
            let arguments = [ArgumentType::R("index"), ArgumentType::O("name")];
            assert(arguments@ =~= arguments_of(topic));
            help_message(
                "save",
                "(s) Saves the top <number> result that was generated. Starts from 0 up to the number generated.",
                &arguments,
            )
        },
        Command::Quit => {
            let arguments: [ArgumentType; 0] = [];
            assert(arguments@ =~= arguments_of(topic));
            help_message("quit", "(q) Quit the repl", &arguments)
        },
        Command::Help => {
            let arguments = [ArgumentType::O("subcommand")];
            assert(arguments@ =~= arguments_of(topic));
            help_message(
                "help",
                "Print this message or the help of the given subcommand(s)",
                &arguments,
            )
        },
    }
}

/// The overview of all commands that `help` shows.
pub open spec fn overview() -> Seq<char> {
    "commands:\n    analyze      (a, layout) Show details of layout\n    compare      (c, comp) Compare 2 layouts\n    generate     (g, gen) Generate a number of layouts and shows the best 10, All layouts\n                     generated are accessible until reloading or quiting.\n    help         Print this message or the help of the given subcommand(s)\n    improve      (i, optimize) Save the top <NR> result that was generated. Starts from 1, Takes\n                     negative values\n    language     (l, lang) Set a language to be used for analysis. Loads corpus when not present\n    languages    (langs) Show available languages\n    load         Generates corpus for <language>. Will be exclude spaces from source if the\n                     language isn't known\n    ngram        (occ) Gives information about a certain ngram. for 2 letter ones, skipgram info\n                     will be provided as well.\n    quit         (q) Quit the repl\n    rank         (sort) Rank all layouts in set language by score using values set from\n                     'config.toml'\n    reload       (r) Reloads all data with the current language. Loses temporary layouts.\n    save         (s) Save the top <NR> result that was generated. Starts from 1 up to the number\n                     generated, Takes negative values\n"@
}

/// What a command line asks for, with the texts and numbers it names.
pub enum Intent {
    /// Nothing at all.
    Nothing,
    /// To send a line.
    Say(Seq<char>),
    /// To send the line, then to generate so many layouts.
    Generate(usize, Seq<char>),
    /// To improve the layout of that name so many times.
    Improve(Seq<char>, usize),
    /// To rank the saved layouts.
    Rank,
    /// To analyze the generated layout of that number.
    AnalyzeNth(usize),
    /// To analyze the saved layout of that name.
    AnalyzeName(Seq<char>),
    /// To compare two saved layouts.
    Compare(Seq<char>, Seq<char>),
    /// To show so many of the worst bigrams of a saved layout.
    Sfbs(Seq<char>, usize),
    /// To show what is known of an n-gram.
    Ngram(Seq<char>),
    /// To change to a language.
    SetLanguage(Seq<char>),
    /// To name the current language.
    ShowLanguage,
    /// To list the languages.
    Languages,
    /// To load the data of the current language again.
    Reload,
    /// To say goodbye.
    Quit,
}

/// What a command line asks for.
#[derive(Debug)]
pub enum Action {
    /// Nothing at all.
    Nothing,
    /// To send a line.
    Say(String),
    /// To send the line, then to generate so many layouts.
    Generate(usize, String),
    /// To improve the layout of that name so many times.
    Improve(String, usize),
    /// To rank the saved layouts.
    Rank,
    /// To analyze the generated layout of that number.
    AnalyzeNth(usize),
    /// To analyze the saved layout of that name.
    AnalyzeName(String),
    /// To compare two saved layouts.
    Compare(String, String),
    /// To show so many of the worst bigrams of a saved layout.
    Sfbs(String, usize),
    /// To show what is known of an n-gram.
    Ngram(String),
    /// To change to a language.
    SetLanguage(String),
    /// To name the current language.
    ShowLanguage,
    /// To list the languages.
    Languages,
    /// To load the data of the current language again.
    Reload,
    /// To say goodbye.
    Quit,
}

impl View for Action {
    type V = Intent;

    open spec fn view(&self) -> Intent {
        match *self {
            Action::Nothing => Intent::Nothing,
            Action::Say(line) => Intent::Say(line@),
            Action::Generate(count, line) => Intent::Generate(count, line@),
            Action::Improve(name, amount) => Intent::Improve(name@, amount),
            Action::Rank => Intent::Rank,
            Action::AnalyzeNth(number) => Intent::AnalyzeNth(number),
            Action::AnalyzeName(name) => Intent::AnalyzeName(name@),
            Action::Compare(first, second) => Intent::Compare(first@, second@),
            Action::Sfbs(name, count) => Intent::Sfbs(name@, count),
            Action::Ngram(ngram) => Intent::Ngram(ngram@),
            Action::SetLanguage(language) => Intent::SetLanguage(language@),
            Action::ShowLanguage => Intent::ShowLanguage,
            Action::Languages => Intent::Languages,
            Action::Reload => Intent::Reload,
            Action::Quit => Intent::Quit,
        }
    }
}

/// An action, and whether the session ends after it.
#[derive(Debug)]
pub struct Reply {
    pub action: Action,
    pub wants_exit: bool,
}

/// The number that a word writes, where a `usize` can hold it.
pub open spec fn count_written(word: Seq<char>) -> Option<usize> {
    match number_written(word) {
        Some(n) => if n <= usize::MAX {
            Some(n as usize)
        } else {
            None
        },
        None => None,
    }
}

/// The line that refuses to make more layouts than one command may ask for.
pub open spec fn too_many() -> Seq<char> {
    "Cannot generate more than 500 layouts in demo mode"@
}

/// The line that refuses what only the full analyzer does.
pub open spec fn unsupported() -> Seq<char> {
    "Unsupported feature in demo mode"@
}

/// What `generate` asks for.
pub open spec fn generate_intent(words: Seq<Seq<char>>) -> (Intent, bool) {
    if words.len() < 2 {
        (Intent::Nothing, false)
    } else {
        match count_written(words[1]) {
            Some(count) => if count > MOST_LAYOUTS {
                (Intent::Say(too_many()), true)
            } else {
                (Intent::Generate(count, "generating "@ + words[1] + " layouts..."@), false)
            },
            None => (Intent::Say(error_of("generate"@, seq![ArgumentType::R("amount")])), false),
        }
    }
}

/// What `improve` asks for.
pub open spec fn improve_intent(words: Seq<Seq<char>>) -> (Intent, bool) {
    if words.len() < 3 {
        (Intent::Nothing, false)
    } else {
        match count_written(words[2]) {
            Some(amount) => if amount > MOST_LAYOUTS {
                (Intent::Say(too_many()), true)
            } else {
                (Intent::Improve(words[1], amount), false)
            },
            None => (
                Intent::Say(
                    error_of(
                        "improve"@,
                        seq![ArgumentType::R("name"), ArgumentType::R("amount")],
                    ),
                ),
                false,
            ),
        }
    }
}

/// What `analyze` asks for.
pub open spec fn analyze_intent(words: Seq<Seq<char>>) -> (Intent, bool) {
    if words.len() < 2 {
        (Intent::Say(error_of("analyze"@, seq![ArgumentType::R("name or number")])), false)
    } else {
        match count_written(words[1]) {
            Some(number) => (Intent::AnalyzeNth(number), false),
            None => (Intent::AnalyzeName(words[1]), false),
        }
    }
}

/// What `compare` asks for.
pub open spec fn compare_intent(words: Seq<Seq<char>>) -> (Intent, bool) {
    if words.len() < 2 {
        (Intent::Nothing, false)
    } else if words.len() < 3 {
        (
            Intent::Say(
                error_of(
                    "compare"@,
                    seq![ArgumentType::R("layout 1"), ArgumentType::R("layout 2")],
                ),
            ),
            false,
        )
    } else {
        (Intent::Compare(words[1], words[2]), false)
    }
}

/// The complaint about `sfbs` without what it needs.
pub open spec fn sfbs_error() -> Seq<char> {
    error_of("ngram"@, seq![ArgumentType::R("name"), ArgumentType::O("top n")])
}

/// What `sfbs` asks for.
pub open spec fn sfbs_intent(words: Seq<Seq<char>>) -> (Intent, bool) {
    if words.len() < 2 {
        (Intent::Say(sfbs_error()), false)
    } else if words.len() < 3 {
        (Intent::Sfbs(words[1], USUAL_SFBS), false)
    } else {
        match count_written(words[2]) {
            Some(count) => (Intent::Sfbs(words[1], count), false),
            None => (Intent::Say(sfbs_error()), false),
        }
    }
}

/// What `help` asks for.
pub open spec fn help_intent(words: Seq<Seq<char>>) -> (Intent, bool) {
    if words.len() < 2 {
        (Intent::Say(overview()), false)
    } else {
        match topic_named(words[1]) {
            Some(topic) => (Intent::Say(help_text(topic)), false),
            None => (
                Intent::Say("error: the subcommand '"@ + words[1] + "' wasn't recognized"@),
                false,
            ),
        }
    }
}

/// What the words of a line ask for, and whether the session ends after it.
pub open spec fn reply_of(words: Seq<Seq<char>>) -> (Intent, bool) {
    if words.len() == 0 {
        (Intent::Nothing, false)
    } else {
        match command_named(words[0]) {
            Some(Command::Generate) => generate_intent(words),
            Some(Command::Improve) => improve_intent(words),
            Some(Command::Rank) => (Intent::Rank, false),
            Some(Command::Analyze) => analyze_intent(words),
            Some(Command::Compare) => compare_intent(words),
            Some(Command::Sfbs) => sfbs_intent(words),
            Some(Command::Ngram) => if words.len() < 2 {
                (Intent::Say(error_of("ngram"@, seq![ArgumentType::R("ngram")])), false)
            } else {
                (Intent::Ngram(words[1]), false)
            },
            Some(Command::Load) => (Intent::Say(unsupported()), false),
            Some(Command::Language) => if words.len() < 2 {
                (Intent::ShowLanguage, false)
            } else {
                (Intent::SetLanguage(words[1]), false)
            },
            Some(Command::Languages) => (Intent::Languages, false),
            Some(Command::Reload) => (Intent::Reload, false),
            Some(Command::Save) => (Intent::Say(unsupported()), false),
            Some(Command::Quit) => (Intent::Quit, true),
            Some(Command::Help) => help_intent(words),
            None => (
                Intent::Say("error: the command '"@ + words[0] + "' wasn't recognized"@),
                false,
            ),
        }
    }
}

/// The texts of words.
pub open spec fn texts(words: Seq<String>) -> Seq<Seq<char>> {
    Seq::new(words.len(), |i: int| words[i]@)
}

/// A reply that ends nothing.
fn stay(action: Action) -> (r: Reply)
    ensures
        r.action == action,
        !r.wants_exit,
{
    Reply { action, wants_exit: false }
}

/// The reply that sends the complaint about missing arguments.
fn complain(command_name: &str, args: &[ArgumentType]) -> (r: Reply)
    requires
        all_named(args@),
    ensures
        r.action@ == Intent::Say(error_of(command_name@, args@)),
        !r.wants_exit,
{
    stay(Action::Say(error_message(command_name, args)))
}

/// The reply that refuses to make too many layouts, and ends the session.
fn refuse_too_many() -> (r: Reply)
    ensures
        r.action@ == Intent::Say(too_many()),
        r.wants_exit,
{
    Reply {
        action: Action::Say(String::from_str("Cannot generate more than 500 layouts in demo mode")),
        wants_exit: true,
    }
}

/// A text between two others.
fn framed(before: &str, text: &str, after: &str) -> (r: String)
    ensures
        r@ == before@ + text@ + after@,
{
    let mut r = String::from_str(before);
    r.append(text);
    r.append(after);
    r
}

/// Reads the words of a line as a command with its arguments.
pub fn interpret(words: &Vec<String>) -> (r: Reply)
    ensures
        (r.action@, r.wants_exit) == reply_of(texts(words@)),
{
    let ghost w = texts(words@);
    let n = words.len();
    if n == 0 {
        return stay(Action::Nothing);
    }
    assert(w[0] == words@[0]@);
    if n >= 2 {
        assert(w[1] == words@[1]@);
    }
    if n >= 3 {
        assert(w[2] == words@[2]@);
    }
    match command_of(words[0].as_str()) {
        Some(Command::Generate) => {
            if n < 2 {
                return stay(Action::Nothing);
            }
            match parse_number(words[1].as_str()) {
                Some(count) => if count > MOST_LAYOUTS {
                    refuse_too_many()
                } else {
                    stay(
                        Action::Generate(
                            count,
                            framed("generating ", words[1].as_str(), " layouts..."),
                        ),
                    )
                },
                None => {
                    let arguments = [ArgumentType::R("amount")];
                    assert(arguments@ =~= seq![ArgumentType::R("amount")]);
                    complain("generate", &arguments)
                },
            }
        },
        Some(Command::Improve) => {
            if n < 3 {
                return stay(Action::Nothing);
            }
            match parse_number(words[2].as_str()) {
                Some(amount) => if amount > MOST_LAYOUTS {
                    refuse_too_many()
                } else {
                    stay(Action::Improve(words[1].clone(), amount))
                },
                None => {
                    let arguments = [ArgumentType::R("name"), ArgumentType::R("amount")];
                    assert(arguments@ =~= seq![
                        ArgumentType::R("name"),
                        ArgumentType::R("amount"),
                    ]);
                    complain("improve", &arguments)
                },
            }
        },
        Some(Command::Rank) => stay(Action::Rank),
        Some(Command::Analyze) => {
            if n < 2 {
                let arguments = [ArgumentType::R("name or number")];
                assert(arguments@ =~= seq![ArgumentType::R("name or number")]);
                return complain("analyze", &arguments);
            }
            match parse_number(words[1].as_str()) {
                Some(number) => stay(Action::AnalyzeNth(number)),
                None => stay(Action::AnalyzeName(words[1].clone())),
            }
        },
        Some(Command::Compare) => {
            if n < 2 {
                stay(Action::Nothing)
            } else if n < 3 {
                let arguments = [ArgumentType::R("layout 1"), ArgumentType::R("layout 2")];
                assert(arguments@ =~= seq![
                    ArgumentType::R("layout 1"),
                    ArgumentType::R("layout 2"),
                ]);
                complain("compare", &arguments)
            } else {
                stay(Action::Compare(words[1].clone(), words[2].clone()))
            }
        },
        Some(Command::Sfbs) => {
            let arguments = [ArgumentType::R("name"), ArgumentType::O("top n")];
            assert(arguments@ =~= seq![ArgumentType::R("name"), ArgumentType::O("top n")]);
            if n < 2 {
                complain("ngram", &arguments)
            } else if n < 3 {
                stay(Action::Sfbs(words[1].clone(), USUAL_SFBS))
            } else {
                match parse_number(words[2].as_str()) {
                    Some(count) => stay(Action::Sfbs(words[1].clone(), count)),
                    None => complain("ngram", &arguments),
                }
            }
        },
        Some(Command::Ngram) => {
            if n < 2 {
                let arguments = [ArgumentType::R("ngram")];
                assert(arguments@ =~= seq![ArgumentType::R("ngram")]);
                complain("ngram", &arguments)
            } else {
                stay(Action::Ngram(words[1].clone()))
            }
        },
        Some(Command::Load) => stay(
            Action::Say(String::from_str("Unsupported feature in demo mode")),
        ),
        Some(Command::Language) => {
            if n < 2 {
                stay(Action::ShowLanguage)
            } else {
                stay(Action::SetLanguage(words[1].clone()))
            }
        },
        Some(Command::Languages) => stay(Action::Languages),
        Some(Command::Reload) => stay(Action::Reload),
        Some(Command::Save) => stay(
            Action::Say(String::from_str("Unsupported feature in demo mode")),
        ),
        Some(Command::Quit) => Reply { action: Action::Quit, wants_exit: true },
        Some(Command::Help) => {
            if n < 2 {
                return stay(Action::Say(overview_text()));
            }
            match topic_of(words[1].as_str()) {
                Some(topic) => stay(Action::Say(help_for(topic))),
                None => stay(
                    Action::Say(
                        framed(
                            "error: the subcommand '",
                            words[1].as_str(),
                            "' wasn't recognized",
                        ),
                    ),
                ),
            }
        },
        None => stay(
            Action::Say(
                framed("error: the command '", words[0].as_str(), "' wasn't recognized"),
            ),
        ),
    }
}

/// The overview of all commands.
pub fn overview_text() -> (text: String)
    ensures
        text@ == overview(),
{
    String::from_str(
        "commands:\n    analyze      (a, layout) Show details of layout\n    compare      (c, comp) Compare 2 layouts\n    generate     (g, gen) Generate a number of layouts and shows the best 10, All layouts\n                     generated are accessible until reloading or quiting.\n    help         Print this message or the help of the given subcommand(s)\n    improve      (i, optimize) Save the top <NR> result that was generated. Starts from 1, Takes\n                     negative values\n    language     (l, lang) Set a language to be used for analysis. Loads corpus when not present\n    languages    (langs) Show available languages\n    load         Generates corpus for <language>. Will be exclude spaces from source if the\n                     language isn't known\n    ngram        (occ) Gives information about a certain ngram. for 2 letter ones, skipgram info\n                     will be provided as well.\n    quit         (q) Quit the repl\n    rank         (sort) Rank all layouts in set language by score using values set from\n                     'config.toml'\n    reload       (r) Reloads all data with the current language. Loses temporary layouts.\n    save         (s) Save the top <NR> result that was generated. Starts from 1 up to the number\n                     generated, Takes negative values\n",
    )
}

/// The words that `shlex::split` makes of a line: what a POSIX shell would
/// take for its words, or nothing where the quoting of the line is wrong.
pub uninterp spec fn shell_words(line: Seq<char>) -> Option<Seq<Seq<char>>>;

/// What `str::trim` leaves of a line: the line without the white space at
/// its start and at its end.
pub uninterp spec fn trimmed(line: Seq<char>) -> Seq<char>;

/// `shlex::split`: the words of the line, or `None` where its quoting is
/// wrong.
#[verifier::external_body]
fn split_words(line: &str) -> (r: Option<Vec<String>>)
    ensures
        r is Some <==> shell_words(line@) is Some,
        r is Some ==> texts(r->Some_0@) == shell_words(line@)->Some_0,
{
    shlex::split(line)
}

/// `str::trim`: the line without the white space around it.
pub assume_specification<'a>[ str::trim ](line: &'a str) -> (r: &'a str)
    ensures
        r@ == trimmed(line@),
;

/// The complaint about a line whose quoting is wrong.
pub open spec fn invalid_quoting() -> Seq<char> {
    "error: Invalid quoting"@
}

/// What a line asks for, with the `Intent` of its action, or the complaint
/// that the line deserves.
pub open spec fn answer_of(words: Option<Seq<Seq<char>>>) -> Result<(Intent, bool), Seq<char>> {
    match words {
        Some(words) => Ok(reply_of(words)),
        None => Err(invalid_quoting()),
    }
}

/// The answer as a value of the model.
pub open spec fn answer_view(r: Result<Reply, String>) -> Result<(Intent, bool), Seq<char>> {
    match r {
        Ok(reply) => Ok((reply.action@, reply.wants_exit)),
        Err(complaint) => Err(complaint@),
    }
}

/// The texts of words, where there are any.
pub open spec fn word_texts(words: Option<Vec<String>>) -> Option<Seq<Seq<char>>> {
    match words {
        Some(words) => Some(texts(words@)),
        None => None,
    }
}

/// Reads what came of splitting a line: a command with its arguments, or the
/// complaint about its quoting.
pub fn answer(words: Option<Vec<String>>) -> (r: Result<Reply, String>)
    ensures
        answer_view(r) == answer_of(word_texts(words)),
{
    match words {
        Some(words) => Ok(interpret(&words)),
        None => Err(String::from_str("error: Invalid quoting")),
    }
}

/// Splits a line into words and reads them as a command.
pub fn respond(line: &str) -> (r: Result<Reply, String>)
    ensures
        answer_view(r) == answer_of(shell_words(line@)),
{
    answer(split_words(line))
}

/// What becomes of one line that a client sent.
#[derive(Debug)]
pub enum Turn {
    /// The line was empty: there is nothing to do but to say so.
    Idle,
    /// The line was wrong: the complaint is sent.
    Fault(String),
    /// The line was a command: its action is performed.
    Act(Reply),
}

/// What becomes of a line, as a value of the model.
pub enum Outcome {
    Idle,
    Fault(Seq<char>),
    Act(Intent, bool),
}

impl View for Turn {
    type V = Outcome;

    open spec fn view(&self) -> Outcome {
        match *self {
            Turn::Idle => Outcome::Idle,
            Turn::Fault(complaint) => Outcome::Fault(complaint@),
            Turn::Act(reply) => Outcome::Act(reply.action@, reply.wants_exit),
        }
    }
}

/// What becomes of a line, given what is left of it when trimmed and the
/// words of that.
pub open spec fn outcome_of(line: Seq<char>, words: Option<Seq<Seq<char>>>) -> Outcome {
    if line.len() == 0 {
        Outcome::Idle
    } else {
        match answer_of(words) {
            Ok((intent, exit)) => Outcome::Act(intent, exit),
            Err(complaint) => Outcome::Fault(complaint),
        }
    }
}

/// Decides what becomes of a trimmed line, given the words it was split into.
pub fn take_turn(line: &str, words: Option<Vec<String>>) -> (turn: Turn)
    ensures
        turn@ == outcome_of(line@, word_texts(words)),
{
    if line.is_empty() {
        return Turn::Idle;
    }
    match answer(words) {
        Ok(reply) => Turn::Act(reply),
        Err(complaint) => Turn::Fault(complaint),
    }
}

/// Decides what becomes of a line as a client sent it: trims it, splits it
/// into words, and reads them as a command.
pub fn post_run(command: &str) -> (turn: Turn)
    ensures
        turn@ == outcome_of(trimmed(command@), shell_words(trimmed(command@))),
{
    let line = command.trim();
    if line.is_empty() {
        return Turn::Idle;
    }
    take_turn(line, split_words(line))
}

/// What is said where a generated layout is asked for by a number that none
/// has.
pub open spec fn no_such_number(generated: nat) -> Seq<char> {
    if generated == 0 {
        "You haven't generated any layouts yet!"@
    } else {
        "That's not a valid index!"@
    }
}

/// Checks the number by which a generated layout is asked for.
pub fn get_nth(nr: usize, generated: usize) -> (r: Result<usize, String>)
    ensures
        nr < generated ==> r == Ok::<usize, String>(nr),
        nr >= generated ==> r is Err && r->Err_0@ == no_such_number(generated as nat),
{
    if nr < generated {
        Ok(nr)
    } else if generated == 0 {
        Err(String::from_str("You haven't generated any layouts yet!"))
    } else {
        Err(String::from_str("That's not a valid index!"))
    }
}

/// The `i`-th name that is tried for a layout without a name.
pub open spec fn candidate(base: Seq<char>, i: nat) -> Seq<char> {
    base + decimal(i)
}

/// Whether a name is among those taken.
pub open spec fn is_taken(taken: Seq<String>, name: Seq<char>) -> bool {
    exists|j: int| 0 <= j < taken.len() && (#[trigger] taken[j])@ == name
}

/// Whether a name is among those taken.
pub fn name_taken(taken: &Vec<String>, name: &str) -> (r: bool)
    ensures
        r == is_taken(taken@, name@),
{
    let mut j: usize = 0;
    while j < taken.len()
        invariant
            j <= taken.len(),
            forall|k: int| 0 <= k < j ==> (#[trigger] taken@[k])@ != name@,
        decreases taken.len() - j,
    {
        if same_text(taken[j].as_str(), name) {
            return true;
        }
        j += 1;
    }
    false
}

/// What is said where every name that is tried is taken.
pub open spec fn no_placeholder() -> Seq<char> {
    "Could not find a good placeholder name for the layout."@
}

/// A name for a layout that has none: `base` with the first number from 1 to
/// 999 behind it that gives a name not yet taken.
pub fn placeholder_name(base: &str, taken: &Vec<String>) -> (r: Result<String, String>)
    ensures
        match r {
            Ok(name) => exists|i: nat|
                1 <= i < 1000 && name@ == #[trigger] candidate(base@, i) && !is_taken(
                    taken@,
                    name@,
                ) && forall|k: nat| 1 <= k < i ==> is_taken(taken@, #[trigger] candidate(base@, k)),
            Err(complaint) => complaint@ == no_placeholder() && forall|k: nat|
                1 <= k < 1000 ==> is_taken(taken@, #[trigger] candidate(base@, k)),
        },
{
    let mut i: u64 = 1;
    while i < 1000
        invariant
            1 <= i <= 1000,
            forall|k: nat| 1 <= k < i ==> is_taken(taken@, #[trigger] candidate(base@, k)),
        decreases 1000 - i,
    {
        let mut name = String::from_str(base);
        name.append(write_number(i).as_str());
        assert(name@ == candidate(base@, i as nat));
        if !name_taken(taken, name.as_str()) {
            return Ok(name);
        }
        i += 1;
    }
    Err(String::from_str("Could not find a good placeholder name for the layout."))
}

} // verus!
