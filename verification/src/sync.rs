//! The turn synchronizer: consumes server-sent snapshot events, replays
//! each full move history afresh into an authoritative position, and
//! decides whether a move is owed, with no state kept besides the side we
//! play and the last successfully replayed position.

use vstd::prelude::*;

use crate::position::{
    game_over_at, side_of, token_applies, valid_history, Position, ReplayError, Side, replay,
};
use crate::text::{seq_views, split_tokens, str_eq, tokens_of};

verus! {

/// A server-sent event, reduced to the fields the synchronizer reads: the
/// optional `type` discriminator, and the move-history text, which the
/// server sends either at the top level or nested under a `state`
/// sub-record.
pub struct RawEvent {
    pub event_type: Option<String>,
    pub moves: Option<String>,
    pub state_moves: Option<String>,
}

/// An incidental chat event, to be ignored without any state change.
pub open spec fn is_chat(e: RawEvent) -> bool {
    match e.event_type {
        Some(t) => t@ == "chatLine"@,
        None => false,
    }
}

/// The move-history text the event carries, preferring the top-level
/// field over the nested one.
pub open spec fn snapshot_text(e: RawEvent) -> Option<Seq<char>> {
    match e.moves {
        Some(m) => Some(m@),
        None => match e.state_moves {
            Some(m) => Some(m@),
            None => None,
        },
    }
}

/// A substantive event: carries a move history and is not incidental.
pub open spec fn is_substantive(e: RawEvent) -> bool {
    !is_chat(e) && snapshot_text(e) is Some
}

/// The move tokens of a substantive event's history.
pub open spec fn snapshot_tokens(e: RawEvent) -> Seq<Seq<char>> {
    match snapshot_text(e) {
        Some(t) => tokens_of(t),
        None => Seq::empty(),
    }
}

/// What one event asks of the caller.
#[derive(Clone, Copy, PartialEq, Eq, Structural, Debug)]
pub enum Action {
    /// The event was incidental (chat, or no move history): nothing to do.
    Ignored,
    /// The history replayed and it is the opponent's turn: wait.
    OpponentTurn,
    /// The history replayed and it is our turn: obtain a move from the
    /// active move source for the current position and submit it.
    MoveNeeded,
    /// The history replayed into a terminal position: the session is over.
    GameOver,
}

/// Drives one game: holds the side we play, fixed for the game's
/// duration, and the position replayed from the most recent snapshot.
pub struct Synchronizer {
    side: Side,
    position: Position,
    finished: bool,
}

impl Synchronizer {
    /// The side this synchronizer plays.
    pub closed spec fn side(self) -> Side {
        self.side
    }

    /// The move history of the last successfully replayed snapshot.
    pub closed spec fn history(self) -> Seq<Seq<char>> {
        self.position.history()
    }

    /// Whether a terminal position has been reached.
    pub closed spec fn finished(self) -> bool {
        self.finished
    }

    pub closed spec fn wf(self) -> bool {
        self.position.wf()
    }

    /// Starts a session on the given side, at the initial position.
    pub fn new(side: Side) -> (s: Synchronizer)
        ensures
            s.wf(),
            s.side() == side,
            s.history() == Seq::<Seq<char>>::empty(),
            !s.finished(),
    {
        Synchronizer { side, position: Position::initial(), finished: false }
    }

    /// The side this synchronizer plays.
    pub fn our_side(&self) -> (s: Side)
        ensures
            s == self.side(),
    {
        self.side
    }

    /// Whether the game has ended.
    pub fn is_finished(&self) -> (b: bool)
        ensures
            b == self.finished(),
    {
        self.finished
    }

    /// The authoritative position: exactly the replay of the most recent
    /// snapshot's history.
    pub fn position(&self) -> (p: &Position)
        ensures
            p.history() == self.history(),
            self.wf() ==> p.wf(),
    {
        &self.position
    }

    /// Processes one event.
    ///
    /// An incidental event (chat, or no move history) changes nothing and
    /// asks for nothing. A substantive event has its whole history
    /// replayed afresh from the initial position — never diffed against
    /// the previous one, so the resulting position is a function of the
    /// new snapshot alone — and the turn is then derived from the
    /// replayed position. Replay failure is a fatal desynchronization:
    /// the error names the first offending token and the synchronizer is
    /// left exactly as it was.
    pub fn on_event(&mut self, e: &RawEvent) -> (r: Result<Action, ReplayError>)
        requires
            old(self).wf(),
            !old(self).finished(),
        ensures
            final(self).wf(),
            final(self).side() == old(self).side(),
            !is_substantive(*e) ==> r == Ok::<Action, ReplayError>(Action::Ignored)
                && *final(self) == *old(self),
            is_substantive(*e) ==> match r {
                Ok(a) => {
                    let toks = snapshot_tokens(*e);
                    &&& valid_history(toks)
                    &&& final(self).history() == toks
                    &&& final(self).finished() == game_over_at(toks)
                    &&& a == (if game_over_at(toks) {
                        Action::GameOver
                    } else if side_of(toks.len()) == old(self).side() {
                        Action::MoveNeeded
                    } else {
                        Action::OpponentTurn
                    })
                },
                Err(err) => {
                    let toks = snapshot_tokens(*e);
                    &&& !valid_history(toks)
                    &&& *final(self) == *old(self)
                    &&& err.index < toks.len()
                    &&& valid_history(toks.take(err.index as int))
                    &&& !token_applies(toks.take(err.index as int), toks[err.index as int])
                    &&& err.token@ == toks[err.index as int]
                },
            },
    {
        let chat = match &e.event_type {
            Some(t) => str_eq(t.as_str(), "chatLine"),
            None => false,
        };
        if chat {
            return Ok(Action::Ignored);
        }
        let text = match &e.moves {
            Some(m) => m,
            None => match &e.state_moves {
                Some(m) => m,
                None => { return Ok(Action::Ignored); },
            },
        };
        let tokens = split_tokens(text.as_str());
        match replay(&tokens) {
            Err(err) => Err(err),
            Ok(p) => {
                self.position = p;
                if self.position.is_game_over() {
                    self.finished = true;
                    Ok(Action::GameOver)
                } else if self.position.side_to_move() == self.side {
                    Ok(Action::MoveNeeded)
                } else {
                    Ok(Action::OpponentTurn)
                }
            },
        }
    }
}

} // verus!
