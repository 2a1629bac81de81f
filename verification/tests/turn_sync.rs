//! End-to-end behaviour of the turn synchronizer and the two move
//! sources, exercised through the real chess oracle.

use chess_sync::engine_proto::{
    classify_engine_line, engine_for_user, go_depth_command, go_movetime_command, move_from_lines,
    position_command, quit_command, EngineChoice, EngineError, EngineLine,
};
use chess_sync::human::{consider_line, first_accepted, LineVerdict};
use chess_sync::position::{replay, Position, Side};
use chess_sync::sync::{Action, RawEvent, Synchronizer};

const INITIAL_FEN: &str = "rnbqkbnr/pppppppp/8/8/8/8/PPPPPPPP/RNBQKBNR w KQkq - 0 1";

fn snapshot(moves: &str) -> RawEvent {
    RawEvent {
        event_type: Some("gameState".to_string()),
        moves: Some(moves.to_string()),
        state_moves: None,
    }
}

#[test]
fn replay_empty_yields_initial_position() {
    let p = replay(&vec![]).expect("empty history must replay");
    assert_eq!(p.ply(), 0);
    assert_eq!(p.side_to_move(), Side::First);
    assert_eq!(p.fen(), INITIAL_FEN);
}

#[test]
fn replay_invalid_token_fails_and_mutates_nothing() {
    let held = Position::initial();
    let err = match replay(&vec!["e2e5".to_string()]) {
        Err(e) => e,
        Ok(_) => panic!("e2e5 is not legal at the start"),
    };
    assert_eq!(err.index, 0);
    assert_eq!(err.token, "e2e5");
    assert_eq!(held.ply(), 0);
    assert_eq!(held.fen(), INITIAL_FEN);
}

#[test]
fn replay_reports_first_offending_token() {
    let tokens: Vec<String> = vec!["e2e4".to_string(), "e2e4".to_string()];
    let err = match replay(&tokens) {
        Err(e) => e,
        Ok(_) => panic!("the second token cannot replay"),
    };
    assert_eq!(err.index, 1);
    assert_eq!(err.token, "e2e4");
}

#[test]
fn turn_determinations_alternate_and_match_the_board() {
    let histories = [
        "",
        "e2e4",
        "e2e4 e7e5",
        "e2e4 e7e5 g1f3",
        "e2e4 e7e5 g1f3 b8c6",
    ];
    let expected = [Side::First, Side::Second, Side::First, Side::Second, Side::First];
    for (history, want) in histories.iter().zip(expected.iter()) {
        let tokens: Vec<String> = history.split_whitespace().map(str::to_string).collect();
        let p = replay(&tokens).expect("scripted histories replay");
        assert_eq!(p.side_to_move(), *want);
        assert_eq!(p.oracle_side_to_move(), *want);
    }
}

#[test]
fn chat_event_changes_nothing_and_asks_nothing() {
    let mut sync = Synchronizer::new(Side::First);
    let a = sync.on_event(&snapshot("e2e4")).expect("snapshot replays");
    assert_eq!(a, Action::OpponentTurn);
    assert_eq!(sync.position().ply(), 1);

    let chat = RawEvent {
        event_type: Some("chatLine".to_string()),
        moves: None,
        state_moves: None,
    };
    let a = sync.on_event(&chat).expect("chat is never an error");
    assert_eq!(a, Action::Ignored);
    assert_eq!(sync.position().ply(), 1);
    assert!(!sync.is_finished());

    let a = sync.on_event(&snapshot("e2e4 e7e5")).expect("snapshot replays");
    assert_eq!(a, Action::MoveNeeded);
    assert_eq!(sync.position().ply(), 2);
}

#[test]
fn event_without_moves_is_ignored() {
    let mut sync = Synchronizer::new(Side::First);
    let bare = RawEvent { event_type: None, moves: None, state_moves: None };
    assert_eq!(sync.on_event(&bare).unwrap(), Action::Ignored);
    assert_eq!(sync.position().ply(), 0);
}

#[test]
fn nested_state_moves_are_read() {
    let mut sync = Synchronizer::new(Side::Second);
    let e = RawEvent {
        event_type: Some("gameFull".to_string()),
        moves: None,
        state_moves: Some("e2e4".to_string()),
    };
    assert_eq!(sync.on_event(&e).unwrap(), Action::MoveNeeded);
    assert_eq!(sync.position().ply(), 1);
}

#[test]
fn second_mover_is_asked_exactly_after_the_opening_move() {
    let mut sync = Synchronizer::new(Side::Second);
    let a = sync.on_event(&snapshot("e2e4")).expect("e2e4 replays");
    assert_eq!(a, Action::MoveNeeded);
    assert_eq!(sync.position().ply(), 1);
    assert_eq!(
        sync.position().fen(),
        "rnbqkbnr/pppppppp/8/8/4P3/8/PPPP1PPP/RNBQKBNR b KQkq - 0 1"
    );
}

#[test]
fn corrected_history_is_rederived_from_the_new_list_alone() {
    let mut sync = Synchronizer::new(Side::First);
    let a = sync.on_event(&snapshot("e2e4 e7e5")).expect("first list replays");
    assert_eq!(a, Action::MoveNeeded);
    let a = sync.on_event(&snapshot("e2e4 d7d5")).expect("corrected list replays");
    assert_eq!(a, Action::MoveNeeded);
    assert_eq!(sync.position().ply(), 2);
    assert_eq!(
        sync.position().fen(),
        "rnbqkbnr/ppp1pppp/8/3p4/4P3/8/PPPP1PPP/RNBQKBNR w KQkq - 0 2"
    );
}

#[test]
fn shorter_resent_history_is_replayed_from_scratch() {
    let mut sync = Synchronizer::new(Side::First);
    sync.on_event(&snapshot("e2e4 e7e5 g1f3")).expect("longer list replays");
    assert_eq!(sync.position().ply(), 3);
    sync.on_event(&snapshot("e2e4")).expect("shorter list replays");
    assert_eq!(sync.position().ply(), 1);
    assert_eq!(
        sync.position().fen(),
        "rnbqkbnr/pppppppp/8/8/4P3/8/PPPP1PPP/RNBQKBNR b KQkq - 0 1"
    );
}

#[test]
fn desynchronized_history_is_fatal_and_leaves_state_alone() {
    let mut sync = Synchronizer::new(Side::First);
    sync.on_event(&snapshot("e2e4")).expect("snapshot replays");
    let err = sync.on_event(&snapshot("e2e4 e2e4")).expect_err("desync must surface");
    assert_eq!(err.index, 1);
    assert_eq!(err.token, "e2e4");
    assert_eq!(sync.position().ply(), 1);
    assert!(!sync.is_finished());
}

#[test]
fn terminal_position_ends_the_session() {
    let mut sync = Synchronizer::new(Side::First);
    let a = sync.on_event(&snapshot("f2f3 e7e5 g2g4 d8h4")).expect("mate line replays");
    assert_eq!(a, Action::GameOver);
    assert!(sync.is_finished());
    assert_eq!(sync.position().ply(), 4);
}

#[test]
fn engine_result_line_is_found_among_noise() {
    assert_eq!(classify_engine_line("info depth 1"), EngineLine::Info);
    assert_eq!(
        classify_engine_line("bestmove e2e4 ponder e7e5"),
        EngineLine::Best("e2e4".to_string())
    );
    let lines = vec![
        "info depth 1".to_string(),
        "bestmove e2e4 ponder e7e5".to_string(),
    ];
    assert_eq!(move_from_lines(&lines), Ok("e2e4".to_string()));
}

#[test]
fn engine_stream_failures_are_fatal() {
    assert_eq!(classify_engine_line("bestmove"), EngineLine::Malformed);
    assert_eq!(
        move_from_lines(&vec!["bestmove".to_string()]),
        Err(EngineError::MalformedResult)
    );
    assert_eq!(
        move_from_lines(&vec!["info string no move".to_string()]),
        Err(EngineError::StreamEnded)
    );
    assert_eq!(move_from_lines(&vec![]), Err(EngineError::StreamEnded));
}

#[test]
fn engine_request_lines_are_exact() {
    assert_eq!(position_command("8/8/8/8/8/8/8/8 w - - 0 1"), "position fen 8/8/8/8/8/8/8/8 w - - 0 1\n");
    assert_eq!(go_movetime_command(1000), "go movetime 1000\n");
    assert_eq!(go_depth_command(7), "go depth 7\n");
    assert_eq!(quit_command(), "quit\n");
}

#[test]
fn human_source_rejects_until_a_legal_line() {
    let p = Position::initial();
    assert_eq!(consider_line(&p, "zz9"), LineVerdict::Rejected);
    assert_eq!(consider_line(&p, "e2e5"), LineVerdict::Rejected);
    assert_eq!(consider_line(&p, "e2e4"), LineVerdict::Accepted("e2e4".to_string()));

    let lines = vec!["zz9".to_string(), "e2e5".to_string(), "e2e4".to_string()];
    let (attempts_before, token) = first_accepted(&p, &lines).expect("the third line is legal");
    assert_eq!(attempts_before, 2);
    assert_eq!(token, "e2e4");
}

#[test]
fn human_source_translates_algebraic_notation() {
    let p = Position::initial();
    assert_eq!(consider_line(&p, "Nf3"), LineVerdict::Accepted("g1f3".to_string()));
    assert_eq!(consider_line(&p, "e4"), LineVerdict::Accepted("e2e4".to_string()));
    let lines = vec!["Qh5".to_string(), "Ke2".to_string()];
    assert_eq!(first_accepted(&p, &lines), None);
}

#[test]
fn engine_moves_render_as_algebraic_notation() {
    let p = Position::initial();
    assert_eq!(p.uci_to_san("g1f3"), Some("Nf3".to_string()));
    assert_eq!(p.uci_to_san("e2e4"), Some("e4".to_string()));
    assert_eq!(p.uci_to_san("e2e5"), None);
    assert_eq!(p.uci_to_san("nonsense"), None);
}

#[test]
fn opponent_names_select_engines() {
    assert_eq!(engine_for_user("v"), Some(EngineChoice::Viridithas));
    assert_eq!(engine_for_user("viridithas"), Some(EngineChoice::Viridithas));
    assert_eq!(engine_for_user("m"), Some(EngineChoice::Maia));
    assert_eq!(engine_for_user("maia"), Some(EngineChoice::Maia));
    assert_eq!(engine_for_user("stockfish"), None);
}

#[test]
fn position_apply_plays_one_token() {
    let mut p = Position::initial();
    assert!(p.apply("e2e4"));
    assert_eq!(p.ply(), 1);
    assert_eq!(p.side_to_move(), Side::Second);
    assert!(!p.apply("e2e4"));
    assert_eq!(p.ply(), 1);
    assert!(!p.is_game_over());
}
