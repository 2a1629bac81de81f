//! Session setup decisions: whether to create a new game or join an
//! existing one, and pulling the game identifier out of the challenge
//! response stream.

use vstd::prelude::*;
use vstd::string::*;

use crate::text::{contains_seq, contains_str, str_eq};

verus! {

/// What the operator's answer to "create or join?" asks for.
#[derive(Clone, Copy, PartialEq, Eq, Structural, Debug)]
pub enum JoinDecision {
    /// Create a new game by sending a challenge.
    CreateNew,
    /// Join the first ongoing game.
    JoinExisting,
    /// Joining was asked for but there is no ongoing game.
    NoGames,
    /// The answer was neither create nor join.
    Invalid,
}

pub open spec fn join_decision_spec(choice: Seq<char>, n_current_games: nat) -> JoinDecision {
    if choice == "c"@ {
        JoinDecision::CreateNew
    } else if choice == "j"@ && n_current_games == 0 {
        JoinDecision::NoGames
    } else if choice == "j"@ {
        JoinDecision::JoinExisting
    } else {
        JoinDecision::Invalid
    }
}

/// Decides between creating and joining, given the operator's answer and
/// how many games are ongoing.
pub fn join_decision(choice: &str, n_current_games: usize) -> (r: JoinDecision)
    ensures
        r == join_decision_spec(choice@, n_current_games as nat),
{
    if str_eq(choice, "c") {
        JoinDecision::CreateNew
    } else if str_eq(choice, "j") {
        if n_current_games == 0 {
            JoinDecision::NoGames
        } else {
            JoinDecision::JoinExisting
        }
    } else {
        JoinDecision::Invalid
    }
}

/// Whether the operator asked to try creating a game again after a
/// failure.
pub fn retry_create(answer: &str) -> (r: bool)
    ensures
        r == (answer@ == "y"@),
{
    str_eq(answer, "y")
}

/// The string under the `gameId` field of `s` read as one JSON record;
/// `None` when `s` does not parse or the record holds no string there.
pub uninterp spec fn game_id_of(s: Seq<char>) -> Option<Seq<char>>;

/// Relies on serde_json: from_str, Value::get and Value::as_str. Parsing
/// a text and looking up a string field is deterministic in the text.
#[verifier::external_body]
fn game_id_raw(s: &str) -> (r: Option<String>)
    ensures
        match r {
            Some(t) => game_id_of(s@) == Some(t@),
            None => game_id_of(s@) is None,
        },
{
    let v: serde_json::Value = match serde_json::from_str(s) {
        Ok(v) => v,
        Err(_) => return None,
    };
    v.get("gameId").and_then(serde_json::Value::as_str).map(str::to_owned)
}

/// Pulls the game identifier out of one chunk of the challenge response
/// stream: only a chunk that mentions the field at all is parsed, and the
/// identifier is exactly the string under the parsed record's own field.
pub fn extract_game_id(chunk: &str) -> (r: Option<String>)
    ensures
        match r {
            Some(t) => contains_seq(chunk@, "gameId"@) && game_id_of(chunk@) == Some(t@),
            None => !contains_seq(chunk@, "gameId"@) || game_id_of(chunk@) is None,
        },
{
    if !contains_str(chunk, "gameId") {
        return None;
    }
    game_id_raw(chunk)
}

/// The request path that submits a move token for a game.
pub fn move_path(game_id: &str, token: &str) -> (r: String)
    ensures
        r@ == "/api/board/game/"@ + game_id@ + "/move/"@ + token@,
{
    let mut s = "/api/board/game/".to_owned();
    s.append(game_id);
    s.append("/move/");
    s.append(token);
    s
}

/// The request path that sends a challenge to a user.
pub fn challenge_path(username: &str) -> (r: String)
    ensures
        r@ == "/api/challenge/"@ + username@,
{
    let mut s = "/api/challenge/".to_owned();
    s.append(username);
    s
}

/// The request path that opens a game's event stream.
pub fn game_stream_path(game_id: &str) -> (r: String)
    ensures
        r@ == "/api/board/game/stream/"@ + game_id@,
{
    let mut s = "/api/board/game/stream/".to_owned();
    s.append(game_id);
    s
}

} // verus!
