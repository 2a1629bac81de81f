//! The authoritative board position, modelled by the move history that
//! produced it. A `Position` is only ever derived by replaying a whole
//! token list from the game's initial position; the chess rules themselves
//! (token parsing, legality, terminal detection) are the move-legality
//! oracle, supplied by shakmaty behind trusted wrappers.
//!
//! The private `board` field always corresponds to the recorded history:
//! every function of this module that builds or mutates a `Position` keeps
//! the two in step, so the trusted contracts below, which speak of the
//! history alone, are claims about a single deterministic replay.

use vstd::prelude::*;

use crate::text::seq_views;

verus! {

/// The two players, in move order: the first mover opens the game.
#[derive(Clone, Copy, PartialEq, Eq, Structural, Debug)]
pub enum Side {
    First,
    Second,
}

/// The side to move after `n` moves have been played from the start.
pub open spec fn side_of(n: nat) -> Side {
    if n % 2 == 0 {
        Side::First
    } else {
        Side::Second
    }
}

pub open spec fn other_side(s: Side) -> Side {
    match s {
        Side::First => Side::Second,
        Side::Second => Side::First,
    }
}

/// Side-to-move alternates: one more move always hands the turn over.
pub proof fn lemma_turns_alternate(n: nat)
    ensures
        side_of(n + 1) == other_side(side_of(n)),
{
}

#[verifier::external_type_specification]
#[verifier::external_body]
pub struct ExChess(shakmaty::Chess);

/// Whether, after replaying `history` from the initial position, `token`
/// parses in coordinate notation and is a legal move there. A position is
/// a pure function of its history, so this is a function of plain values.
pub uninterp spec fn token_applies(history: Seq<Seq<char>>, token: Seq<char>) -> bool;

/// Whether the position reached by replaying `history` is terminal
/// (checkmate, stalemate, or another end of the game).
pub uninterp spec fn game_over_at(history: Seq<Seq<char>>) -> bool;

/// The portable text rendering of the position reached by replaying
/// `history`.
pub uninterp spec fn fen_text(history: Seq<Seq<char>>) -> Seq<char>;

/// The coordinate-notation token of the move that `line`, read as
/// algebraic notation, denotes in the position reached by replaying
/// `history`; `None` when `line` does not parse or denotes no unique
/// legal move there.
pub uninterp spec fn san_move_token(history: Seq<Seq<char>>, line: Seq<char>) -> Option<Seq<char>>;

/// The algebraic-notation rendering of the move that `token`, in
/// coordinate notation, denotes in the position reached by replaying
/// `history`; `None` when it denotes no legal move there.
pub uninterp spec fn san_of(history: Seq<Seq<char>>, token: Seq<char>) -> Option<Seq<char>>;

/// A board position together with the move history it was replayed from.
pub struct Position {
    board: shakmaty::Chess,
    ply: usize,
    hist: Ghost<Seq<Seq<char>>>,
}

impl Position {
    /// The move tokens replayed to reach this position, in order.
    pub closed spec fn history(self) -> Seq<Seq<char>> {
        self.hist@
    }

    /// The recorded move count agrees with the history.
    pub closed spec fn wf(self) -> bool {
        self.ply as nat == self.hist@.len()
    }
}

/// Relies on shakmaty::Chess::default: the standard initial position,
/// with the first mover to move and no moves played.
#[verifier::external_body]
fn initial_board_raw() -> shakmaty::Chess {
    shakmaty::Chess::default()
}

/// Relies on shakmaty: UciMove::from_ascii parses a coordinate-notation
/// token, UciMove::to_move succeeds exactly on the tokens that denote a
/// legal move in the position, and Chess::play_unchecked plays that legal
/// move. All three are deterministic in the position (itself a function
/// of its history) and the token.
#[verifier::external_body]
fn apply_token_raw(p: &mut Position, token: &str) -> (ok: bool)
    requires
        old(p).wf(),
        old(p).history().len() < usize::MAX,
    ensures
        ok == token_applies(old(p).history(), token@),
        ok ==> final(p).wf() && final(p).history() == old(p).history().push(token@),
        !ok ==> *final(p) == *old(p),
{
    let uci = match shakmaty::uci::UciMove::from_ascii(token.as_bytes()) {
        Ok(u) => u,
        Err(_) => return false,
    };
    let m = match uci.to_move(&p.board) {
        Ok(m) => m,
        Err(_) => return false,
    };
    shakmaty::Position::play_unchecked(&mut p.board, &m);
    p.ply += 1;
    true
}

/// Relies on shakmaty: Chess::default starts with White (the first mover)
/// to move, and each play_unchecked sets the turn to the opposite colour,
/// so the reported turn is the parity of the number of moves played.
#[verifier::external_body]
fn board_turn_raw(p: &Position) -> (s: Side)
    requires
        p.wf(),
    ensures
        s == side_of(p.history().len()),
{
    if shakmaty::Position::turn(&p.board).is_white() {
        Side::First
    } else {
        Side::Second
    }
}

/// Relies on shakmaty::Position::is_game_over: terminal detection is a
/// deterministic function of the position.
#[verifier::external_body]
fn game_over_raw(p: &Position) -> (r: bool)
    ensures
        r == game_over_at(p.history()),
{
    shakmaty::Position::is_game_over(&p.board)
}

/// Relies on shakmaty::fen::Fen::from_position: the rendering is a
/// deterministic function of the position.
#[verifier::external_body]
fn fen_raw(p: &Position) -> (r: String)
    ensures
        r@ == fen_text(p.history()),
{
    shakmaty::fen::Fen::from_position(p.board.clone(), shakmaty::EnPassantMode::Legal).to_string()
}

/// Relies on shakmaty: San::from_ascii, San::to_move and Move::to_uci.
/// Reading a line as algebraic notation and resolving it to the unique
/// legal move it denotes is deterministic in the position and the line.
#[verifier::external_body]
fn san_raw(p: &Position, line: &str) -> (r: Option<String>)
    ensures
        match r {
            Some(t) => san_move_token(p.history(), line@) == Some(t@),
            None => san_move_token(p.history(), line@) is None,
        },
{
    let san = match shakmaty::san::San::from_ascii(line.as_bytes()) {
        Ok(s) => s,
        Err(_) => return None,
    };
    let m = match san.to_move(&p.board) {
        Ok(m) => m,
        Err(_) => return None,
    };
    Some(m.to_uci(shakmaty::CastlingMode::Standard).to_string())
}

/// Relies on shakmaty: UciMove::from_ascii, UciMove::to_move and
/// San::from_move. Rendering a coordinate token as algebraic notation is
/// deterministic in the position and the token.
#[verifier::external_body]
fn san_of_raw(p: &Position, token: &str) -> (r: Option<String>)
    ensures
        match r {
            Some(t) => san_of(p.history(), token@) == Some(t@),
            None => san_of(p.history(), token@) is None,
        },
{
    let uci = match shakmaty::uci::UciMove::from_ascii(token.as_bytes()) {
        Ok(u) => u,
        Err(_) => return None,
    };
    let m = match uci.to_move(&p.board) {
        Ok(m) => m,
        Err(_) => return None,
    };
    Some(shakmaty::san::San::from_move(&p.board, &m).to_string())
}

impl Position {
    /// The game's starting position, with an empty history.
    pub fn initial() -> (p: Position)
        ensures
            p.wf(),
            p.history() == Seq::<Seq<char>>::empty(),
    {
        Position { board: initial_board_raw(), ply: 0, hist: Ghost(Seq::empty()) }
    }

    /// Plays one move token if it is valid here; reports whether it was.
    /// On a rejected token the position is left exactly as it was.
    pub fn apply(&mut self, token: &str) -> (ok: bool)
        requires
            old(self).wf(),
            old(self).history().len() < usize::MAX,
        ensures
            ok == token_applies(old(self).history(), token@),
            ok ==> final(self).wf() && final(self).history() == old(self).history().push(token@),
            !ok ==> *final(self) == *old(self),
    {
        apply_token_raw(self, token)
    }

    /// How many moves have been played.
    pub fn ply(&self) -> (n: usize)
        requires
            self.wf(),
        ensures
            n == self.history().len(),
    {
        self.ply
    }

    /// The side to move, derived from the move count alone.
    pub fn side_to_move(&self) -> (s: Side)
        requires
            self.wf(),
        ensures
            s == side_of(self.history().len()),
    {
        if self.ply % 2 == 0 {
            Side::First
        } else {
            Side::Second
        }
    }

    /// The side to move as the board itself reports it. It always agrees
    /// with `side_to_move`: the derivation from the move count never
    /// drifts from the board's own notion of the turn.
    pub fn oracle_side_to_move(&self) -> (s: Side)
        requires
            self.wf(),
        ensures
            s == side_of(self.history().len()),
    {
        board_turn_raw(self)
    }

    /// Whether the game has reached a terminal position.
    pub fn is_game_over(&self) -> (r: bool)
        ensures
            r == game_over_at(self.history()),
    {
        game_over_raw(self)
    }

    /// The portable text rendering of this position.
    pub fn fen(&self) -> (r: String)
        ensures
            r@ == fen_text(self.history()),
    {
        fen_raw(self)
    }

    /// Renders a coordinate-notation token as the algebraic notation of
    /// the legal move it denotes here, if any.
    pub fn uci_to_san(&self, token: &str) -> (r: Option<String>)
        ensures
            match r {
                Some(t) => san_of(self.history(), token@) == Some(t@),
                None => san_of(self.history(), token@) is None,
            },
    {
        san_of_raw(self, token)
    }

    /// Reads `line` as algebraic notation and returns the coordinate
    /// token of the legal move it denotes here, if any.
    pub fn san_to_uci(&self, line: &str) -> (r: Option<String>)
        ensures
            match r {
                Some(t) => san_move_token(self.history(), line@) == Some(t@),
                None => san_move_token(self.history(), line@) is None,
            },
    {
        san_raw(self, line)
    }
}

/// Every token of the history applies in turn from the initial position.
pub open spec fn valid_history(toks: Seq<Seq<char>>) -> bool
    decreases toks.len(),
{
    toks.len() == 0 || (valid_history(toks.drop_last()) && token_applies(
        toks.drop_last(),
        toks.last(),
    ))
}

/// In a valid history every token applies at its own index.
pub proof fn lemma_valid_history_index(toks: Seq<Seq<char>>, i: int)
    requires
        valid_history(toks),
        0 <= i < toks.len(),
    ensures
        valid_history(toks.take(i)),
        token_applies(toks.take(i), toks[i]),
    decreases toks.len(),
{
    if i == toks.len() - 1 {
        assert(toks.drop_last() =~= toks.take(i));
    } else {
        lemma_valid_history_index(toks.drop_last(), i);
        assert(toks.drop_last().take(i) =~= toks.take(i));
        assert(toks.drop_last()[i] == toks[i]);
    }
}

/// Replay failed: the token at `index` was the first that did not apply.
#[derive(Debug)]
pub struct ReplayError {
    pub index: usize,
    pub token: String,
}

/// Derives a position afresh by replaying `tokens` from the initial
/// position. Succeeds exactly when the whole list is a valid history;
/// otherwise identifies the first offending token, and nothing
/// previously held is touched.
pub fn replay(tokens: &Vec<String>) -> (r: Result<Position, ReplayError>)
    ensures
        match r {
            Ok(p) => {
                &&& p.wf()
                &&& p.history() == seq_views(tokens@)
                &&& valid_history(seq_views(tokens@))
            },
            Err(e) => {
                let toks = seq_views(tokens@);
                &&& !valid_history(toks)
                &&& e.index < toks.len()
                &&& valid_history(toks.take(e.index as int))
                &&& !token_applies(toks.take(e.index as int), toks[e.index as int])
                &&& e.token@ == toks[e.index as int]
            },
        },
{
    let ghost toks = seq_views(tokens@);
    let mut p = Position::initial();
    let mut i: usize = 0;
    proof {
        assert(toks.take(0) =~= Seq::<Seq<char>>::empty());
    }
    while i < tokens.len()
        invariant
            i <= tokens.len(),
            toks == seq_views(tokens@),
            toks.len() == tokens@.len(),
            p.wf(),
            p.history() == toks.take(i as int),
            valid_history(toks.take(i as int)),
        decreases tokens.len() - i,
    {
        let ok = p.apply(tokens[i].as_str());
        if !ok {
            proof {
                if valid_history(toks) {
                    lemma_valid_history_index(toks, i as int);
                }
            }
            return Err(ReplayError { index: i, token: tokens[i].clone() });
        }
        proof {
            let t = toks.take(i + 1);
            assert(t.drop_last() =~= toks.take(i as int));
            assert(t.last() == toks[i as int]);
            assert(p.history() =~= t);
        }
        i += 1;
    }
    proof {
        assert(toks.take(tokens@.len() as int) =~= toks);
    }
    Ok(p)
}

} // verus!
