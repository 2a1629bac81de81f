//! Challenge configuration: the colour request, the clock from a
//! `min+inc` time-control text, the rated flag, and the resolution of the
//! side we play (explicit, or a fair coin when the request was random).

use vstd::prelude::*;

use crate::position::Side;
use crate::text::{all_digits, dec_value, parse_u32, str_eq};

verus! {

/// The colour asked for when issuing a challenge.
#[derive(Clone, Copy, PartialEq, Eq, Structural, Debug)]
pub enum ChallengeColour {
    White,
    Black,
    Random,
}

pub open spec fn colour_of_text(s: Seq<char>) -> Option<ChallengeColour> {
    if s == "white"@ {
        Some(ChallengeColour::White)
    } else if s == "black"@ {
        Some(ChallengeColour::Black)
    } else if s == "random"@ {
        Some(ChallengeColour::Random)
    } else {
        None
    }
}

/// Reads a colour request.
pub fn parse_colour(s: &str) -> (r: Option<ChallengeColour>)
    ensures
        r == colour_of_text(s@),
{
    if str_eq(s, "white") {
        Some(ChallengeColour::White)
    } else if str_eq(s, "black") {
        Some(ChallengeColour::Black)
    } else if str_eq(s, "random") {
        Some(ChallengeColour::Random)
    } else {
        None
    }
}

impl core::str::FromStr for ChallengeColour {
    type Err = ();

    fn from_str(s: &str) -> Result<Self, Self::Err> {
        match parse_colour(s) {
            Some(c) => Ok(c),
            None => Err(()),
        }
    }
}

pub open spec fn rated_of_text(s: Seq<char>) -> Option<bool> {
    if s == "y"@ {
        Some(true)
    } else if s == "n"@ {
        Some(false)
    } else {
        None
    }
}

/// Reads the yes/no answer to "should the game be rated?".
pub fn parse_rated(s: &str) -> (r: Option<bool>)
    ensures
        r == rated_of_text(s@),
{
    if str_eq(s, "y") {
        Some(true)
    } else if str_eq(s, "n") {
        Some(false)
    } else {
        None
    }
}

/// The text before the first `+`, the minutes of a `min+inc` time control
/// (the whole text when there is no `+`).
pub open spec fn before_first_plus(s: Seq<char>) -> Seq<char>
    decreases s.len(),
{
    if s.len() == 0 {
        Seq::empty()
    } else if s[0] == '+' {
        Seq::empty()
    } else {
        seq![s[0]] + before_first_plus(s.skip(1))
    }
}

/// The text after the last `+`, the increment seconds of a `min+inc` time
/// control (the whole text when there is no `+`).
pub open spec fn after_last_plus(s: Seq<char>) -> Seq<char>
    decreases s.len(),
{
    if s.len() == 0 {
        Seq::empty()
    } else if s.last() == '+' {
        Seq::empty()
    } else {
        after_last_plus(s.drop_last()).push(s.last())
    }
}

proof fn lemma_before_first_plus_is(s: Seq<char>, i: int)
    requires
        0 <= i <= s.len(),
        forall|k: int| 0 <= k < i ==> s[k] != '+',
        i < s.len() ==> s[i] == '+',
    ensures
        before_first_plus(s) == s.take(i),
    decreases s.len(),
{
    if i == 0 {
        assert(s.take(0) =~= Seq::<char>::empty());
    } else {
        assert(s[0] != '+');
        lemma_before_first_plus_is(s.skip(1), i - 1);
        assert(seq![s[0]] + s.skip(1).take(i - 1) =~= s.take(i));
    }
}

proof fn lemma_after_last_plus_is(s: Seq<char>, i: int)
    requires
        -1 <= i < s.len(),
        forall|k: int| i < k < s.len() ==> s[k] != '+',
        i >= 0 ==> s[i] == '+',
    ensures
        after_last_plus(s) == s.skip(i + 1),
    decreases s.len(),
{
    if s.len() == 0 {
        assert(s.skip(0) =~= Seq::<char>::empty());
    } else if i == s.len() - 1 {
        assert(s.skip(s.len() as int) =~= Seq::<char>::empty());
    } else {
        assert(s.last() != '+');
        lemma_after_last_plus_is(s.drop_last(), i);
        assert(s.drop_last().skip(i + 1).push(s.last()) =~= s.skip(i + 1));
    }
}

/// The clock a `min+inc` text asks for: the limit in seconds (minutes
/// times sixty) and the increment in seconds; nothing when either part is
/// not a number or the limit leaves the clock's range. A text without a
/// `+` names both parts at once.
pub open spec fn time_control_spec(s: Seq<char>) -> Option<(u32, u32)> {
    let m = before_first_plus(s);
    let i = after_last_plus(s);
    if m.len() > 0 && all_digits(m) && i.len() > 0 && all_digits(i) && dec_value(m) * 60
        <= u32::MAX && dec_value(i) <= u32::MAX {
        Some(((dec_value(m) * 60) as u32, dec_value(i) as u32))
    } else {
        None
    }
}

/// Reads a `min+inc` time control into clock seconds and increment.
pub fn parse_time_control(s: &str) -> (r: Option<(u32, u32)>)
    ensures
        r == time_control_spec(s@),
{
    let n = s.unicode_len();
    let mut fp: usize = 0;
    while fp < n && s.get_char(fp) != '+'
        invariant
            fp <= n,
            n == s@.len(),
            forall|k: int| 0 <= k < fp ==> s@[k] != '+',
        decreases n - fp,
    {
        fp += 1;
    }
    proof {
        lemma_before_first_plus_is(s@, fp as int);
    }
    let minutes_part = s.substring_char(0, fp);
    let mut lp: usize = n;
    while lp > 0 && s.get_char(lp - 1) != '+'
        invariant
            lp <= n,
            n == s@.len(),
            forall|k: int| lp <= k < n ==> s@[k] != '+',
        decreases lp,
    {
        lp -= 1;
    }
    proof {
        lemma_after_last_plus_is(s@, lp as int - 1);
    }
    let seconds_part = s.substring_char(lp, n);
    proof {
        assert(minutes_part@ =~= before_first_plus(s@));
        assert(seconds_part@ =~= after_last_plus(s@));
    }
    match (parse_u32(minutes_part), parse_u32(seconds_part)) {
        (Some(m), Some(i)) => {
            if m as u64 * 60 <= u32::MAX as u64 {
                Some((m * 60, i))
            } else {
                None
            }
        },
        _ => None,
    }
}

/// One challenge request, as the remote server's challenge endpoint
/// understands it.
pub struct ChallengeSchema {
    pub rated: bool,
    pub clock_limit: u32,
    pub clock_increment: u32,
    pub color: ChallengeColour,
    pub variant: String,
    pub fen: Option<String>,
    pub keep_alive_stream: bool,
}

/// Assembles a challenge for a standard game from the operator's three
/// answers: the rated flag, the `min+inc` time control, and the colour.
pub fn challenge_from_inputs(rated_text: &str, time_control: &str, colour_text: &str) -> (r:
    Option<ChallengeSchema>)
    ensures
        match r {
            Some(c) => {
                &&& rated_of_text(rated_text@) == Some(c.rated)
                &&& time_control_spec(time_control@) == Some((c.clock_limit, c.clock_increment))
                &&& colour_of_text(colour_text@) == Some(c.color)
                &&& c.variant@ == "standard"@
                &&& c.fen is None
                &&& c.keep_alive_stream
            },
            None => rated_of_text(rated_text@) is None || time_control_spec(time_control@) is None
                || colour_of_text(colour_text@) is None,
        },
{
    let rated = match parse_rated(rated_text) {
        Some(b) => b,
        None => { return None; },
    };
    let (clock_limit, clock_increment) = match parse_time_control(time_control) {
        Some(t) => t,
        None => { return None; },
    };
    let color = match parse_colour(colour_text) {
        Some(c) => c,
        None => { return None; },
    };
    Some(
        ChallengeSchema {
            rated,
            clock_limit,
            clock_increment,
            color,
            variant: "standard".to_owned(),
            fen: None,
            keep_alive_stream: true,
        },
    )
}

/// Relies on rand::random::<bool>: a coin flip; nothing holds of the
/// outcome beyond its being a bool.
#[verifier::external_body]
fn coin_flip() -> bool {
    rand::random()
}

/// Fixes the side we play for the whole game: the one asked for, or a
/// fair coin when the request was random.
pub fn resolve_side(pref: ChallengeColour) -> (s: Side)
    ensures
        pref == ChallengeColour::White ==> s == Side::First,
        pref == ChallengeColour::Black ==> s == Side::Second,
{
    match pref {
        ChallengeColour::White => Side::First,
        ChallengeColour::Black => Side::Second,
        ChallengeColour::Random => if coin_flip() {
            Side::First
        } else {
            Side::Second
        },
    }
}

} // verus!
