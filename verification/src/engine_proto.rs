//! The line-oriented protocol spoken with the engine subprocess: the
//! request lines for setting the position and starting a search, and the
//! classification of response lines, of which only the one beginning with
//! the result marker carries the chosen move (its second
//! whitespace-delimited field). Everything else on the stream is noise to
//! be tolerated.

use vstd::prelude::*;
use vstd::string::*;

use crate::text::{dec_rep, has_prefix, has_prefix_spec, split_tokens, tokens_of, u64_to_dec};

verus! {

/// A response line that ends the search: it begins with `bestmove`.
pub open spec fn is_result_line(line: Seq<char>) -> bool {
    has_prefix_spec(line, "bestmove"@)
}

/// How one line read from the engine's output stream is to be treated.
#[derive(PartialEq, Eq, Debug)]
pub enum EngineLine {
    /// Not a result line: log-style noise, to be discarded.
    Info,
    /// A result line; the payload is its second field, the move token.
    Best(String),
    /// A result line with no second field: the response is unusable.
    Malformed,
}

/// Classifies one response line.
pub fn classify_engine_line(line: &str) -> (r: EngineLine)
    ensures
        match r {
            EngineLine::Info => !is_result_line(line@),
            EngineLine::Best(t) => is_result_line(line@) && tokens_of(line@).len() >= 2 && t@
                == tokens_of(line@)[1],
            EngineLine::Malformed => is_result_line(line@) && tokens_of(line@).len() < 2,
        },
{
    if !has_prefix(line, "bestmove") {
        return EngineLine::Info;
    }
    let fields = split_tokens(line);
    if fields.len() >= 2 {
        let t = fields[1].clone();
        proof {
            assert(t@ == tokens_of(line@)[1]);
        }
        EngineLine::Best(t)
    } else {
        EngineLine::Malformed
    }
}

/// Why no move could be obtained from the engine's output.
#[derive(Clone, Copy, PartialEq, Eq, Structural, Debug)]
pub enum EngineError {
    /// The first result line had no move field.
    MalformedResult,
    /// The stream ended before any result line.
    StreamEnded,
}

/// Index of the first result line, or the length when there is none.
pub open spec fn first_result(lines: Seq<Seq<char>>) -> int
    decreases lines.len(),
{
    if lines.len() == 0 {
        0
    } else if is_result_line(lines[0]) {
        0
    } else {
        1 + first_result(lines.skip(1))
    }
}

pub proof fn lemma_first_result_bounds(lines: Seq<Seq<char>>)
    ensures
        0 <= first_result(lines) <= lines.len(),
        forall|i: int| 0 <= i < first_result(lines) ==> !is_result_line(#[trigger] lines[i]),
        first_result(lines) < lines.len() ==> is_result_line(lines[first_result(lines)]),
    decreases lines.len(),
{
    if lines.len() > 0 && !is_result_line(lines[0]) {
        lemma_first_result_bounds(lines.skip(1));
        assert forall|i: int| 0 <= i < first_result(lines) implies !is_result_line(
            #[trigger] lines[i],
        ) by {
            if i > 0 {
                assert(lines.skip(1)[i - 1] == lines[i]);
            }
        }
        if first_result(lines) < lines.len() {
            assert(lines.skip(1)[first_result(lines) - 1] == lines[first_result(lines)]);
        }
    }
}

/// `first_result` is pinned down by its characteristic properties.
pub proof fn lemma_first_result_is(lines: Seq<Seq<char>>, j: int)
    requires
        0 <= j <= lines.len(),
        forall|i: int| 0 <= i < j ==> !is_result_line(#[trigger] lines[i]),
        j < lines.len() ==> is_result_line(lines[j]),
    ensures
        first_result(lines) == j,
{
    lemma_first_result_bounds(lines);
    let h = first_result(lines);
    if h < j {
        assert(is_result_line(lines[h]));
    } else if j < h {
        assert(!is_result_line(lines[j]));
    }
}

/// What a whole search interaction yields, given every line the engine
/// emitted for it in order: the move token of the first result line.
/// Every line before it is discarded; a result line without a move field,
/// or a stream that ends with no result line, is fatal to the request.
pub fn move_from_lines(lines: &Vec<String>) -> (r: Result<String, EngineError>)
    ensures
        ({
            let ls = crate::text::seq_views(lines@);
            let k = first_result(ls);
            match r {
                Ok(t) => k < ls.len() && tokens_of(ls[k]).len() >= 2 && t@ == tokens_of(ls[k])[1],
                Err(EngineError::MalformedResult) => k < ls.len() && tokens_of(ls[k]).len() < 2,
                Err(EngineError::StreamEnded) => k == ls.len(),
            }
        }),
{
    let ghost ls = crate::text::seq_views(lines@);
    let mut i: usize = 0;
    while i < lines.len()
        invariant
            i <= lines.len(),
            ls == crate::text::seq_views(lines@),
            ls.len() == lines@.len(),
            forall|j: int| 0 <= j < i ==> !is_result_line(#[trigger] ls[j]),
        decreases lines.len() - i,
    {
        match classify_engine_line(lines[i].as_str()) {
            EngineLine::Info => {
                i += 1;
            },
            EngineLine::Best(t) => {
                proof {
                    lemma_first_result_is(ls, i as int);
                }
                return Ok(t);
            },
            EngineLine::Malformed => {
                proof {
                    lemma_first_result_is(ls, i as int);
                }
                return Err(EngineError::MalformedResult);
            },
        }
    }
    proof {
        lemma_first_result_is(ls, ls.len() as int);
    }
    Err(EngineError::StreamEnded)
}

/// The request line that sets the engine's board to the given portable
/// position text.
pub fn position_command(fen: &str) -> (r: String)
    ensures
        r@ == "position fen "@ + fen@ + "\n"@,
{
    let mut s = "position fen ".to_owned();
    s.append(fen);
    s.append("\n");
    s
}

/// The request line that starts a search with a time budget in
/// milliseconds.
pub fn go_movetime_command(ms: u64) -> (r: String)
    ensures
        r@ == "go movetime "@ + dec_rep(ms as nat) + "\n"@,
{
    let mut s = "go movetime ".to_owned();
    let num = u64_to_dec(ms);
    s.append(num.as_str());
    s.append("\n");
    s
}

/// The request line that starts a search to a fixed depth.
pub fn go_depth_command(depth: u64) -> (r: String)
    ensures
        r@ == "go depth "@ + dec_rep(depth as nat) + "\n"@,
{
    let mut s = "go depth ".to_owned();
    let num = u64_to_dec(depth);
    s.append(num.as_str());
    s.append("\n");
    s
}

/// The request line that asks the engine to exit at the end of the game.
pub fn quit_command() -> (r: String)
    ensures
        r@ == "quit\n"@,
{
    "quit\n".to_owned()
}

/// The engines an opponent name can select.
#[derive(Clone, Copy, PartialEq, Eq, Structural, Debug)]
pub enum EngineChoice {
    Viridithas,
    Maia,
}

pub open spec fn engine_choice_of(s: Seq<char>) -> Option<EngineChoice> {
    if s == "v"@ || s == "viridithas"@ {
        Some(EngineChoice::Viridithas)
    } else if s == "m"@ || s == "maia"@ {
        Some(EngineChoice::Maia)
    } else {
        None
    }
}

/// Which engine a computer-opponent name selects, by its short or full
/// name; any other name is invalid.
pub fn engine_for_user(uname: &str) -> (r: Option<EngineChoice>)
    ensures
        r == engine_choice_of(uname@),
{
    if crate::text::str_eq(uname, "v") || crate::text::str_eq(uname, "viridithas") {
        Some(EngineChoice::Viridithas)
    } else if crate::text::str_eq(uname, "m") || crate::text::str_eq(uname, "maia") {
        Some(EngineChoice::Maia)
    } else {
        None
    }
}

} // verus!
