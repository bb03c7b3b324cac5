//! The command line.

use vstd::prelude::*;
use vstd::string::*;

verus! {

/// The address that is taken where none is given.
pub const DEFAULT_ADDRESS: &'static str = "127.0.0.1:7000";

/// What a command line asks for.
#[derive(Debug, PartialEq)]
pub enum Command {
    Serve(String),
    Subscribe { topic: String, address: String },
    Publish { topic: String, payload: String, address: String },
    Help,
}

/// What a command line asks for, as a mathematical value.
pub enum Action {
    Serve(Seq<char>),
    Subscribe { topic: Seq<char>, address: Seq<char> },
    Publish { topic: Seq<char>, payload: Seq<char>, address: Seq<char> },
    Help,
}

impl View for Command {
    type V = Action;

    open spec fn view(&self) -> Action {
        match *self {
            Command::Serve(address) => Action::Serve(address@),
            Command::Subscribe { topic, address } => Action::Subscribe {
                topic: topic@,
                address: address@,
            },
            Command::Publish { topic, payload, address } => Action::Publish {
                topic: topic@,
                payload: payload@,
                address: address@,
            },
            Command::Help => Action::Help,
        }
    }
}

/// The words of a command line.
pub open spec fn words(args: Seq<String>) -> Seq<Seq<char>> {
    args.map_values(|arg: String| arg@)
}

/// The word asks for help.
pub open spec fn is_help(word: Seq<char>) -> bool {
    word == "-h"@ || word == "--help"@
}

/// The word is a command.
pub open spec fn is_command(word: Seq<char>) -> bool {
    word == "serve"@ || word == "subscribe"@ || word == "publish"@
}

/// The word at a place, or the default address where the command line ends before it.
pub open spec fn address_at(words: Seq<Seq<char>>, place: int) -> Seq<char> {
    if place < words.len() {
        words[place]
    } else {
        DEFAULT_ADDRESS@
    }
}

/// What a command line asks for, or what is wrong with it.
pub open spec fn meaning(words: Seq<Seq<char>>) -> Result<Action, Seq<char>> {
    let count = words.len();
    if count == 0 {
        Err("missing command"@)
    } else if count == 1 && is_help(words[0]) {
        Ok(Action::Help)
    } else if !is_command(words[0]) {
        Err("unknown command: "@ + words[0])
    } else if count == 2 && is_help(words[1]) {
        Ok(Action::Help)
    } else if words[0] == "serve"@ && count <= 2 {
        Ok(Action::Serve(address_at(words, 1)))
    } else if words[0] == "subscribe"@ && 2 <= count <= 3 {
        Ok(Action::Subscribe { topic: words[1], address: address_at(words, 2) })
    } else if words[0] == "publish"@ && 3 <= count <= 4 {
        Ok(
            Action::Publish { topic: words[1], payload: words[2], address: address_at(words, 3) },
        )
    } else {
        Err("invalid arguments"@)
    }
}

fn same(word: &String, literal: &str) -> (same: bool)
    ensures
        same == (word@ == literal@),
{
    *word == literal.to_owned()
}

fn asks_for_help(word: &String) -> (help: bool)
    ensures
        help == is_help(word@),
{
    same(word, "-h") || same(word, "--help")
}

fn address_or_default(args: &Vec<String>, place: usize) -> (address: String)
    ensures
        address@ == address_at(words(args@), place as int),
{
    if place < args.len() {
        args[place].clone()
    } else {
        DEFAULT_ADDRESS.to_owned()
    }
}

/// Reads a command line, without the name of the program.
pub fn parse_args(args: Vec<String>) -> (result: Result<Command, String>)
    ensures
        match meaning(words(args@)) {
            Ok(action) => result matches Ok(command) && command@ == action,
            Err(text) => result matches Err(error) && error@ == text,
        },
{
    let count: usize = args.len();
    if count == 0 {
        return Err("missing command".to_owned());
    }
    let command: &String = &args[0];
    assert(command@ == words(args@)[0]);
    let serve: bool = same(command, "serve");
    let subscribe: bool = same(command, "subscribe");
    let publish: bool = same(command, "publish");
    if count == 1 && asks_for_help(command) {
        return Ok(Command::Help);
    }
    if !(serve || subscribe || publish) {
        let mut error: String = "unknown command: ".to_owned();
        error.append(command.as_str());
        return Err(error);
    }
    if count == 2 && asks_for_help(&args[1]) {
        Ok(Command::Help)
    } else if serve && count <= 2 {
        Ok(Command::Serve(address_or_default(&args, 1)))
    } else if subscribe && 2 <= count && count <= 3 {
        Ok(Command::Subscribe { topic: args[1].clone(), address: address_or_default(&args, 2) })
    } else if publish && 3 <= count && count <= 4 {
        Ok(
            Command::Publish {
                topic: args[1].clone(),
                payload: args[2].clone(),
                address: address_or_default(&args, 3),
            },
        )
    } else {
        Err("invalid arguments".to_owned())
    }
}

/// Help can be asked for alone and after every command.
pub proof fn help_is_available_at_both_levels(flag: Seq<char>, command: Seq<char>)
    requires
        is_help(flag),
        is_command(command),
    ensures
        meaning(seq![flag]) == Ok::<Action, Seq<char>>(Action::Help),
        meaning(seq![command, flag]) == Ok::<Action, Seq<char>>(Action::Help),
{
}

/// Leaving out the address is giving the default address, unless what takes its place would be
/// taken for a request for help.
pub proof fn the_default_address_can_be_left_out(topic: Seq<char>, payload: Seq<char>)
    ensures
        meaning(seq!["serve"@]) == meaning(seq!["serve"@, DEFAULT_ADDRESS@]),
        !is_help(topic) ==> meaning(seq!["subscribe"@, topic]) == meaning(
            seq!["subscribe"@, topic, DEFAULT_ADDRESS@],
        ),
        meaning(seq!["publish"@, topic, payload]) == meaning(
            seq!["publish"@, topic, payload, DEFAULT_ADDRESS@],
        ),
{
    reveal_strlit("serve");
    reveal_strlit("subscribe");
    reveal_strlit("publish");
    reveal_strlit("-h");
    reveal_strlit("--help");
    reveal_strlit("127.0.0.1:7000");
    // No two of these words are of the same length.
    assert("serve"@.len() == 5 && "publish"@.len() == 7 && "subscribe"@.len() == 9);
    assert("-h"@.len() == 2 && "--help"@.len() == 6 && DEFAULT_ADDRESS@.len() == 14);
}

/// The words are the arguments, in their order.
pub proof fn words_are_the_arguments(args: Seq<String>, i: int)
    ensures
        words(args).len() == args.len(),
        0 <= i < args.len() ==> words(args)[i] == args[i]@,
{
}

/// What every command line that begins with a command means: the words after the command are the
/// topic, the payload and the address, the address last and the only one that can be left out, or
/// one request for help. Any other number of words is refused.
pub proof fn commands_take_their_words(words: Seq<Seq<char>>)
    requires
        words.len() >= 1,
    ensures
        ({
            let count = words.len();
            let second = words[1];
            let help = count == 2 && (second == "-h"@ || second == "--help"@);
            let result = meaning(words);
            let refused = Err::<Action, _>("invalid arguments"@);
            &&& words[0] == "serve"@ && count == 1 ==> result == Ok::<_, Seq<char>>(
                Action::Serve("127.0.0.1:7000"@),
            )
            &&& words[0] == "serve"@ && count == 2 && !help ==> result == Ok::<_, Seq<char>>(
                Action::Serve(second),
            )
            &&& words[0] == "serve"@ && count > 2 ==> result == refused
            &&& words[0] == "subscribe"@ && count == 2 && !help ==> result == Ok::<_, Seq<char>>(
                Action::Subscribe { topic: second, address: "127.0.0.1:7000"@ },
            )
            &&& words[0] == "subscribe"@ && count == 3 ==> result == Ok::<_, Seq<char>>(
                Action::Subscribe { topic: second, address: words[2] },
            )
            &&& words[0] == "subscribe"@ && (count == 1 || count > 3) ==> result == refused
            &&& words[0] == "publish"@ && count == 3 ==> result == Ok::<_, Seq<char>>(
                Action::Publish { topic: second, payload: words[2], address: "127.0.0.1:7000"@ },
            )
            &&& words[0] == "publish"@ && count == 4 ==> result == Ok::<_, Seq<char>>(
                Action::Publish { topic: second, payload: words[2], address: words[3] },
            )
            &&& words[0] == "publish"@ && (count == 1 || count == 2 && !help || count > 4)
                ==> result == refused
        }),
{
    reveal_strlit("serve");
    reveal_strlit("subscribe");
    reveal_strlit("publish");
    reveal_strlit("-h");
    reveal_strlit("--help");
    assert("serve"@.len() == 5 && "publish"@.len() == 7 && "subscribe"@.len() == 9);
    assert("-h"@.len() == 2 && "--help"@.len() == 6);
}

/// What every command line that does not begin with a command means: a lone request for help is
/// one, an empty command line lacks a command, and every other first word is named as unknown.
pub proof fn other_first_words_are_unknown(words: Seq<Seq<char>>)
    ensures
        words.len() == 0 ==> meaning(words) == Err::<Action, _>("missing command"@),
        words.len() >= 1 && words[0] != "serve"@ && words[0] != "subscribe"@ && words[0]
            != "publish"@ ==> {
            let help = words.len() == 1 && (words[0] == "-h"@ || words[0] == "--help"@);
            &&& help ==> meaning(words) == Ok::<_, Seq<char>>(Action::Help)
            &&& !help ==> meaning(words) == Err::<Action, _>("unknown command: "@ + words[0])
        },
{
}

/// The mathematical value of a command holds every field of the command as it is.
pub proof fn commands_are_seen_whole(command: Command)
    ensures
        match command {
            Command::Serve(address) => command@ == Action::Serve(address@),
            Command::Subscribe { topic, address } => command@ == (Action::Subscribe {
                topic: topic@,
                address: address@,
            }),
            Command::Publish { topic, payload, address } => command@ == (Action::Publish {
                topic: topic@,
                payload: payload@,
                address: address@,
            }),
            Command::Help => command@ == Action::Help,
        },
{
}

} // verus!
