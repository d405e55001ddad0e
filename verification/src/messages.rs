//! The messages that pass between a client's socket and the analyzer.

use crate::repl::{outcome_of, post_run, shell_words, trimmed, Turn};
use crate::text::{chars_of, string_of};
use crate::words::same_text;
use vstd::prelude::*;
use vstd::string::*;

verus! {

/// A line of text on its way to a client.
#[derive(Debug)]
pub struct WsMessage(pub String);

/// A command as a client sent it.
#[derive(Debug)]
pub struct ClientActorMessage {
    pub msg: String,
}

/// The answer that echoes a command back to the client that sent it.
pub open spec fn response_to(command: Seq<char>) -> Seq<char> {
    "Response: "@ + command
}

/// The answer to a command that is only echoed.
pub fn process_command(command: String) -> (response: String)
    ensures
        response@ == response_to(command@),
{
    let mut response = String::from_str("Response: ");
    response.append(command.as_str());
    response
}

/// Where a request is sent.
#[derive(Clone, Copy, Debug, PartialEq, Eq, Structural)]
pub enum Route {
    /// To the analyzer's socket.
    Socket,
    /// To the page that says the request was a bad one.
    BadRequest,
}

/// A path without the slashes at its end.
pub open spec fn without_trailing_slashes(path: Seq<char>) -> Seq<char>
    decreases path.len(),
{
    if path.len() > 0 && path.last() == '/' {
        without_trailing_slashes(path.drop_last())
    } else {
        path
    }
}

/// Where a request goes: to the socket where it asks for an upgrade and its
/// path, but for slashes at the end, is `oxeylyzer`.
pub open spec fn route_of(upgrade: bool, tail: Seq<char>) -> Route {
    if upgrade && without_trailing_slashes(tail) == "oxeylyzer"@ {
        Route::Socket
    } else {
        Route::BadRequest
    }
}

/// Decides where a request goes, from whether it has an `upgrade` header and
/// from the tail of its path.
pub fn route(upgrade: bool, tail: &str) -> (r: Route)
    ensures
        r == route_of(upgrade, tail@),
{
    if !upgrade {
        return Route::BadRequest;
    }
    let chars = chars_of(tail);
    let mut end = chars.len();
    assert(chars@.take(end as int) == chars@);
    while end > 0 && chars[end - 1] == '/'
        invariant
            end <= chars.len(),
            without_trailing_slashes(chars@) == without_trailing_slashes(
                chars@.take(end as int),
            ),
        decreases end,
    {
        assert(chars@.take(end as int).drop_last() == chars@.take(end - 1));
        end -= 1;
    }
    let name = string_of(&chars, 0, end);
    assert(chars@.subrange(0, end as int) == chars@.take(end as int));
    if same_text(name.as_str(), "oxeylyzer") {
        Route::Socket
    } else {
        Route::BadRequest
    }
}

/// The state of a client's connection while commands are only echoed. It
/// holds nothing.
#[derive(Debug)]
pub struct Oxeylyzer {}

impl Oxeylyzer {
    /// The state of a fresh connection.
    pub fn new() -> (state: Oxeylyzer)
        ensures
            state == (Oxeylyzer {  }),
    {
        Oxeylyzer {  }
    }

    /// Decides what becomes of a line that a client sent to the analyzer.
    pub fn run(command: &str) -> (turn: Turn)
        ensures
            turn@ == outcome_of(trimmed(command@), shell_words(trimmed(command@))),
    {
        post_run(command)
    }

    /// The line that answers a message of a client.
    pub fn answer(&self, message: &ClientActorMessage) -> (line: WsMessage)
        ensures
            line.0@ == response_to(message.msg@),
    {
        WsMessage(process_command(message.msg.clone()))
    }
}

} // verus!
