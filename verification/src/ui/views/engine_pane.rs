//! Texts and colours of the engine analysis pane.

use vstd::prelude::*;
use vstd::string::*;
use crate::domain::text::{decimal, push_decimal};
use crate::domain::uci::{
    append_joined, format_mate, format_pawns, join_words, mate_text, pawns_text, texts, Score,
    UciOutput,
};

verus! {

// Colors for evaluation display
/// Green: White is better.
pub const EVAL_POSITIVE: u32 = 0x4ade80;

/// Red: Black is better.
pub const EVAL_NEGATIVE: u32 = 0xf87171;

/// Gray: about equal.
pub const EVAL_NEUTRAL: u32 = 0xa1a1aa;

/// How many principal variation moves are shown.
pub const PV_MOVES_SHOWN: usize = 8;

/// How many raw output lines are shown.
pub const RAW_LINES_SHOWN: usize = 50;

/// A value that was given from the point of view of the side to move, seen
/// from White's side.
pub open spec fn for_white(value: int, black_to_move: bool) -> int {
    if black_to_move {
        -value
    } else {
        value
    }
}

/// The text of an evaluation, always from White's point of view.
pub open spec fn evaluation_text(score: Option<Score>, black_to_move: bool) -> Seq<char> {
    match score {
        Some(Score::Centipawns(cp)) => pawns_text(for_white(cp as int, black_to_move)),
        Some(Score::Mate(moves)) => mate_text(for_white(moves as int, black_to_move)),
        None => "--"@,
    }
}

/// The colour of an evaluation: by who is better by more than half a pawn,
/// or by who mates.
pub open spec fn evaluation_color(score: Option<Score>, black_to_move: bool) -> u32 {
    match score {
        Some(Score::Centipawns(cp)) => if for_white(cp as int, black_to_move) > 50 {
            EVAL_POSITIVE
        } else if for_white(cp as int, black_to_move) < -50 {
            EVAL_NEGATIVE
        } else {
            EVAL_NEUTRAL
        },
        Some(Score::Mate(moves)) => if for_white(moves as int, black_to_move) > 0 {
            EVAL_POSITIVE
        } else {
            EVAL_NEGATIVE
        },
        None => EVAL_NEUTRAL,
    }
}

/// Format the evaluation score for display (always from white's perspective).
pub fn format_evaluation(score: Option<Score>, black_to_move: bool) -> (shown: (String, u32))
    ensures
        shown.0@ == evaluation_text(score, black_to_move),
        shown.1 == evaluation_color(score, black_to_move),
{
    match score {
        Some(Score::Centipawns(cp)) => {
            // Flip sign if it's black's turn (engine gives score from side-to-move perspective)
            let white_cp: i64 = if black_to_move {
                0 - cp as i64
            } else {
                cp as i64
            };
            let text = format_pawns(white_cp);
            let color = if white_cp > 50 {
                EVAL_POSITIVE
            } else if white_cp < -50 {
                EVAL_NEGATIVE
            } else {
                EVAL_NEUTRAL
            };
            (text, color)
        },
        Some(Score::Mate(moves)) => {
            // Flip sign if it's black's turn
            let white_mate: i64 = if black_to_move {
                0 - moves as i64
            } else {
                moves as i64
            };
            let text = format_mate(white_mate);
            // Color based on who's winning
            let color = if white_mate > 0 {
                EVAL_POSITIVE
            } else {
                EVAL_NEGATIVE
            };
            (text, color)
        },
        None => ("--".to_owned(), EVAL_NEUTRAL),
    }
}

/// The text of a search depth, with the selective depth behind a slash.
pub open spec fn depth_text(depth: Option<u32>, seldepth: Option<u32>) -> Seq<char> {
    match (depth, seldepth) {
        (Some(d), Some(sd)) => decimal(d as nat) + "/"@ + decimal(sd as nat),
        (Some(d), None) => decimal(d as nat),
        _ => "--"@,
    }
}

/// Format depth for display.
pub fn format_depth(depth: Option<u32>, seldepth: Option<u32>) -> (text: String)
    ensures
        text@ == depth_text(depth, seldepth),
{
    match (depth, seldepth) {
        (Some(d), Some(sd)) => {
            let mut text = String::new();
            push_decimal(&mut text, d as u64);
            text.append("/");
            push_decimal(&mut text, sd as u64);
            text
        },
        (Some(d), None) => {
            let mut text = String::new();
            push_decimal(&mut text, d as u64);
            text
        },
        _ => "--".to_owned(),
    }
}

/// The text of a principal variation: its first eight moves, and dots where
/// there are none or more.
pub open spec fn pv_text(pv: Seq<Seq<char>>) -> Seq<char> {
    if pv.len() == 0 {
        "..."@
    } else if pv.len() > PV_MOVES_SHOWN {
        join_words(pv.take(PV_MOVES_SHOWN as int)) + " ..."@
    } else {
        join_words(pv)
    }
}

/// Format the principal variation for display.
pub fn format_pv(pv: &[String]) -> (text: String)
    ensures
        text@ == pv_text(texts(pv@)),
{
    if pv.len() == 0 {
        return "...".to_owned();
    }
    // Show first several moves, join with spaces

    let mut result = String::new();
    if pv.len() > PV_MOVES_SHOWN {
        let shown = vstd::slice::slice_subrange(pv, 0, PV_MOVES_SHOWN);
        assert(texts(shown@) =~= texts(pv@).take(PV_MOVES_SHOWN as int));
        append_joined(&mut result, shown);
        result.append(" ...");
    } else {
        append_joined(&mut result, pv);
    }
    result
}

/// The word that tells the state of the engine.
pub fn status_text(is_running: bool, is_analyzing: bool) -> (text: &'static str)
    ensures
        text@ == if is_running {
            if is_analyzing {
                "Analyzing..."@
            } else {
                "Ready"@
            }
        } else {
            "Stopped"@
        },
{
    if is_running {
        if is_analyzing {
            "Analyzing..."
        } else {
            "Ready"
        }
    } else {
        "Stopped"
    }
}

/// The colour of the state of the engine.
pub fn status_color(is_running: bool) -> (color: u32)
    ensures
        color == if is_running {
            EVAL_POSITIVE
        } else {
            EVAL_NEGATIVE
        },
{
    if is_running {
        EVAL_POSITIVE
    } else {
        EVAL_NEGATIVE
    }
}

/// The raw output lines that are shown: the latest fifty, most recent first.
pub open spec fn latest_first<T>(lines: Seq<T>) -> Seq<T> {
    Seq::new(
        if lines.len() > RAW_LINES_SHOWN {
            RAW_LINES_SHOWN as nat
        } else {
            lines.len()
        },
        |i: int| lines[lines.len() - 1 - i],
    )
}

/// The raw output lines to show (most recent first for relevance).
pub fn lines_to_show(output_lines: &[UciOutput]) -> (shown: Vec<&UciOutput>)
    ensures
        shown@.map_values(|o: &UciOutput| *o) == latest_first(output_lines@),
{
    let n: usize = output_lines.len();
    let count: usize = if n > RAW_LINES_SHOWN {
        RAW_LINES_SHOWN
    } else {
        n
    };
    let mut shown: Vec<&UciOutput> = Vec::new();
    let mut i: usize = 0;
    while i < count
        invariant
            n == output_lines@.len(),
            count <= n,
            i <= count,
            shown@.len() == i,
            forall|k: int| 0 <= k < i ==> *(#[trigger] shown@[k]) == output_lines@[n - 1 - k],
        decreases count - i,
    {
        shown.push(&output_lines[n - 1 - i]);
        i += 1;
    }
    assert(shown@.map_values(|o: &UciOutput| *o) =~= latest_first(output_lines@));
    shown
}

} // verus!
