//! The text utilities and the session-setup parsers on concrete inputs.

use chess_sync::challenge::{
    challenge_from_inputs, parse_colour, parse_rated, parse_time_control, resolve_side,
    ChallengeColour,
};
use chess_sync::position::Side;
use chess_sync::session::{
    challenge_path, extract_game_id, game_stream_path, join_decision, move_path, retry_create,
    JoinDecision,
};
use chess_sync::text::{contains_str, parse_u32, split_tokens, str_eq, u64_to_dec};

#[test]
fn tokenizer_drops_extra_whitespace() {
    assert_eq!(split_tokens("e2e4 e7e5"), vec!["e2e4", "e7e5"]);
    assert_eq!(split_tokens("  e2e4 \t e7e5  "), vec!["e2e4", "e7e5"]);
    assert_eq!(split_tokens(""), Vec::<String>::new());
    assert_eq!(split_tokens("   \n "), Vec::<String>::new());
    assert_eq!(split_tokens("one"), vec!["one"]);
}

#[test]
fn string_predicates() {
    assert!(str_eq("abc", "abc"));
    assert!(!str_eq("abc", "abd"));
    assert!(!str_eq("abc", "ab"));
    assert!(contains_str("data with gameId inside", "gameId"));
    assert!(!contains_str("nothing here", "gameId"));
    assert!(contains_str("anything", ""));
}

#[test]
fn decimal_parsing_is_exact() {
    assert_eq!(parse_u32("0"), Some(0));
    assert_eq!(parse_u32("300"), Some(300));
    assert_eq!(parse_u32("4294967295"), Some(u32::MAX));
    assert_eq!(parse_u32("4294967296"), None);
    assert_eq!(parse_u32(""), None);
    assert_eq!(parse_u32("12a"), None);
    assert_eq!(parse_u32("-3"), None);
}

#[test]
fn decimal_rendering_is_exact() {
    assert_eq!(u64_to_dec(0), "0");
    assert_eq!(u64_to_dec(7), "7");
    assert_eq!(u64_to_dec(1000), "1000");
    assert_eq!(u64_to_dec(u64::MAX), "18446744073709551615");
}

#[test]
fn time_control_reads_minutes_and_increment() {
    assert_eq!(parse_time_control("5+2"), Some((300, 2)));
    assert_eq!(parse_time_control("3+0"), Some((180, 0)));
    assert_eq!(parse_time_control("5"), Some((300, 5)));
    assert_eq!(parse_time_control("+2"), None);
    assert_eq!(parse_time_control("5+"), None);
    assert_eq!(parse_time_control("a+2"), None);
    assert_eq!(parse_time_control(""), None);
    assert_eq!(parse_time_control("80000000+0"), None);
}

#[test]
fn colour_requests_parse() {
    assert_eq!(parse_colour("white"), Some(ChallengeColour::White));
    assert_eq!(parse_colour("black"), Some(ChallengeColour::Black));
    assert_eq!(parse_colour("random"), Some(ChallengeColour::Random));
    assert_eq!(parse_colour("green"), None);
    assert_eq!("white".parse::<ChallengeColour>(), Ok(ChallengeColour::White));
    assert_eq!("grey".parse::<ChallengeColour>(), Err(()));
}

#[test]
fn rated_answers_parse() {
    assert_eq!(parse_rated("y"), Some(true));
    assert_eq!(parse_rated("n"), Some(false));
    assert_eq!(parse_rated("maybe"), None);
}

#[test]
fn challenge_assembly_uses_all_three_answers() {
    let c = challenge_from_inputs("y", "5+2", "white").expect("all answers are valid");
    assert!(c.rated);
    assert_eq!(c.clock_limit, 300);
    assert_eq!(c.clock_increment, 2);
    assert_eq!(c.color, ChallengeColour::White);
    assert_eq!(c.variant, "standard");
    assert_eq!(c.fen, None);
    assert!(c.keep_alive_stream);
    assert!(challenge_from_inputs("q", "5+2", "white").is_none());
    assert!(challenge_from_inputs("y", "5+x", "white").is_none());
    assert!(challenge_from_inputs("y", "5+2", "blue").is_none());
}

#[test]
fn side_resolution_honours_explicit_colours() {
    assert_eq!(resolve_side(ChallengeColour::White), Side::First);
    assert_eq!(resolve_side(ChallengeColour::Black), Side::Second);
    let s = resolve_side(ChallengeColour::Random);
    assert!(s == Side::First || s == Side::Second);
}

#[test]
fn join_decisions_are_exact() {
    assert_eq!(join_decision("c", 0), JoinDecision::CreateNew);
    assert_eq!(join_decision("c", 3), JoinDecision::CreateNew);
    assert_eq!(join_decision("j", 0), JoinDecision::NoGames);
    assert_eq!(join_decision("j", 1), JoinDecision::JoinExisting);
    assert_eq!(join_decision("j", 2), JoinDecision::JoinExisting);
    assert_eq!(join_decision("x", 1), JoinDecision::Invalid);
    assert!(retry_create("y"));
    assert!(!retry_create("n"));
    assert!(!retry_create("yes"));
}

#[test]
fn game_id_extraction_reads_the_parsed_field() {
    assert_eq!(
        extract_game_id("{\"gameId\":\"abc123\"}"),
        Some("abc123".to_string())
    );
    assert_eq!(extract_game_id("{\"other\":\"abc123\"}"), None);
    assert_eq!(extract_game_id("mentions gameId but is not json"), None);
    assert_eq!(extract_game_id("{\"gameId\":7}"), None);
    assert_eq!(extract_game_id(""), None);
}

#[test]
fn request_paths_are_exact() {
    assert_eq!(move_path("abc123", "e2e4"), "/api/board/game/abc123/move/e2e4");
    assert_eq!(challenge_path("someuser"), "/api/challenge/someuser");
    assert_eq!(game_stream_path("abc123"), "/api/board/game/stream/abc123");
}
