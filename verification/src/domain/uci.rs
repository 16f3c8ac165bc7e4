//! UCI (Universal Chess Interface) protocol types: the commands sent to an
//! engine, the classification of the lines it prints, and the analysis data
//! carried by its `info` lines.

use vstd::prelude::*;
use vstd::string::*;
use crate::domain::text::{
    decimal, digit_char, digit_str, i32_of, parse_i32, parse_u32, parse_u64, push_decimal,
    range_equals, range_starts_with, ranges_within, slices, split_whitespace, str_chars, trim,
    trim_range, u32_of, u64_of, word_ranges,
};

verus! {

/// UCI commands that can be sent to an engine.
#[derive(Debug, Clone)]
pub enum UciCommand {
    /// Initialize UCI mode.
    Uci,
    /// Check if engine is ready.
    IsReady,
    /// Set a new game.
    UciNewGame,
    /// Set an engine option.
    SetOption { name: String, value: String },
    /// Set position (startpos or FEN, with optional moves).
    Position { fen: Option<String>, moves: Vec<String> },
    /// Start infinite analysis.
    GoInfinite,
    /// Start analysis with depth limit.
    GoDepth(u32),
    /// Stop analysis.
    Stop,
    /// Quit the engine.
    Quit,
}

/// The mathematical content of a [`UciCommand`].
pub enum UciCommandView {
    Uci,
    IsReady,
    UciNewGame,
    SetOption { name: Seq<char>, value: Seq<char> },
    Position { fen: Option<Seq<char>>, moves: Seq<Seq<char>> },
    GoInfinite,
    GoDepth(u32),
    Stop,
    Quit,
}

/// The character sequences of a list of strings.
pub open spec fn texts(v: Seq<String>) -> Seq<Seq<char>> {
    v.map_values(|s: String| s@)
}

impl View for UciCommand {
    type V = UciCommandView;

    open spec fn view(&self) -> UciCommandView {
        match self {
            UciCommand::Uci => UciCommandView::Uci,
            UciCommand::IsReady => UciCommandView::IsReady,
            UciCommand::UciNewGame => UciCommandView::UciNewGame,
            UciCommand::SetOption { name, value } => UciCommandView::SetOption {
                name: name@,
                value: value@,
            },
            UciCommand::Position { fen, moves } => UciCommandView::Position {
                fen: match fen {
                    Some(f) => Some(f@),
                    None => None,
                },
                moves: texts(moves@),
            },
            UciCommand::GoInfinite => UciCommandView::GoInfinite,
            UciCommand::GoDepth(d) => UciCommandView::GoDepth(*d),
            UciCommand::Stop => UciCommandView::Stop,
            UciCommand::Quit => UciCommandView::Quit,
        }
    }
}

/// The words of `words` with one space between neighbours.
pub open spec fn join_words(words: Seq<Seq<char>>) -> Seq<char>
    decreases words.len(),
{
    if words.len() == 0 {
        Seq::empty()
    } else if words.len() == 1 {
        words[0]
    } else {
        join_words(words.drop_last()) + " "@ + words.last()
    }
}

/// The wire line of a command, without a line terminator.
pub open spec fn encode(command: UciCommandView) -> Seq<char> {
    match command {
        UciCommandView::Uci => "uci"@,
        UciCommandView::IsReady => "isready"@,
        UciCommandView::UciNewGame => "ucinewgame"@,
        UciCommandView::SetOption { name, value } => "setoption name "@ + name + " value "@
            + value,
        UciCommandView::Position { fen, moves } => "position "@ + (match fen {
            Some(f) => "fen "@ + f,
            None => "startpos"@,
        }) + (if moves.len() > 0 {
            " moves "@ + join_words(moves)
        } else {
            Seq::empty()
        }),
        UciCommandView::GoInfinite => "go infinite"@,
        UciCommandView::GoDepth(d) => "go depth "@ + decimal(d as nat),
        UciCommandView::Stop => "stop"@,
        UciCommandView::Quit => "quit"@,
    }
}

/// Appends `words` to `out` with one space between neighbours.
pub fn append_joined(out: &mut String, words: &[String])
    ensures
        final(out)@ == old(out)@ + join_words(texts(words@)),
{
    let ghost all = texts(words@);
    let n: usize = words.len();
    if n == 0 {
        assert(out@ =~= old(out)@ + join_words(all));
        return;
    }
    out.append(words[0].as_str());
    assert(all.take(1) =~= seq![words@[0]@]);
    let mut i: usize = 1;
    while i < n
        invariant
            all == texts(words@),
            n == words@.len(),
            1 <= i <= n,
            out@ == old(out)@ + join_words(all.take(i as int)),
        decreases n - i,
    {
        out.append(" ");
        out.append(words[i].as_str());
        proof {
            let next = all.take(i + 1);
            assert(next.drop_last() =~= all.take(i as int));
            assert(next.last() == words@[i as int]@);
            assert(out@ =~= old(out)@ + join_words(next));
        }
        i += 1;
    }
    assert(all.take(n as int) =~= all);
}

impl UciCommand {
    /// Convert command to UCI protocol string.
    pub fn to_uci_string(&self) -> (line: String)
        ensures
            line@ == encode(self@),
    {
        match self {
            UciCommand::Uci => "uci".to_owned(),
            UciCommand::IsReady => "isready".to_owned(),
            UciCommand::UciNewGame => "ucinewgame".to_owned(),
            UciCommand::SetOption { name, value } => {
                let mut cmd = "setoption name ".to_owned();
                cmd.append(name.as_str());
                cmd.append(" value ");
                cmd.append(value.as_str());
                cmd
            },
            UciCommand::Position { fen, moves } => {
                let mut cmd = "position ".to_owned();
                match fen {
                    Some(f) => {
                        cmd.append("fen ");
                        cmd.append(f.as_str());
                        assert(cmd@ =~= "position "@ + ("fen "@ + f@));
                    },
                    None => cmd.append("startpos"),
                }
                if !moves.is_empty() {
                    let ghost head = cmd@;
                    cmd.append(" moves ");
                    append_joined(&mut cmd, moves.as_slice());
                    assert(cmd@ =~= head + (" moves "@ + join_words(texts(moves@))));
                } else {
                    assert(cmd@ =~= cmd@ + Seq::<char>::empty());
                }
                cmd
            },
            UciCommand::GoInfinite => "go infinite".to_owned(),
            UciCommand::GoDepth(d) => {
                let mut cmd = "go depth ".to_owned();
                push_decimal(&mut cmd, *d as u64);
                cmd
            },
            UciCommand::Stop => "stop".to_owned(),
            UciCommand::Quit => "quit".to_owned(),
        }
    }
}

/// Raw UCI output line types.
#[derive(Debug, Clone)]
pub enum UciOutputKind {
    /// "uciok" - engine is ready for UCI.
    UciOk,
    /// "readyok" - engine is ready.
    ReadyOk,
    /// "info ..." - analysis information.
    Info(String),
    /// "bestmove ..." - best move found.
    BestMove(String),
    /// Engine identification.
    Id(String),
    /// Option definition.
    Option(String),
    /// Unknown/other output.
    Other(String),
}

/// The mathematical content of a [`UciOutputKind`].
pub enum UciOutputKindView {
    UciOk,
    ReadyOk,
    Info(Seq<char>),
    BestMove(Seq<char>),
    Id(Seq<char>),
    Option(Seq<char>),
    Other(Seq<char>),
}

impl View for UciOutputKind {
    type V = UciOutputKindView;

    open spec fn view(&self) -> UciOutputKindView {
        match self {
            UciOutputKind::UciOk => UciOutputKindView::UciOk,
            UciOutputKind::ReadyOk => UciOutputKindView::ReadyOk,
            UciOutputKind::Info(rest) => UciOutputKindView::Info(rest@),
            UciOutputKind::BestMove(rest) => UciOutputKindView::BestMove(rest@),
            UciOutputKind::Id(rest) => UciOutputKindView::Id(rest@),
            UciOutputKind::Option(rest) => UciOutputKindView::Option(rest@),
            UciOutputKind::Other(rest) => UciOutputKindView::Other(rest@),
        }
    }
}

/// The kind of a line that an engine printed: the line is trimmed, then told
/// apart by how it begins. Of a line that begins with `info `, `bestmove `,
/// `id ` or `option ` what follows is kept; any other line is kept whole.
pub open spec fn classify(line: Seq<char>) -> UciOutputKindView {
    let t = trim(line);
    if "uciok"@.is_prefix_of(t) {
        UciOutputKindView::UciOk
    } else if "readyok"@.is_prefix_of(t) {
        UciOutputKindView::ReadyOk
    } else if "info "@.is_prefix_of(t) {
        UciOutputKindView::Info(t.skip("info "@.len() as int))
    } else if "bestmove "@.is_prefix_of(t) {
        UciOutputKindView::BestMove(t.skip("bestmove "@.len() as int))
    } else if "id "@.is_prefix_of(t) {
        UciOutputKindView::Id(t.skip("id "@.len() as int))
    } else if "option "@.is_prefix_of(t) {
        UciOutputKindView::Option(t.skip("option "@.len() as int))
    } else {
        UciOutputKindView::Other(t)
    }
}

/// What follows `prefix` in the characters of `line` from `a` up to `b`, if
/// they begin with it; `chars` holds the characters of `line`.
fn strip_prefix(line: &str, chars: &Vec<char>, a: usize, b: usize, prefix: &str) -> (r: Option<
    String,
>)
    requires
        chars@ == line@,
        a <= b <= chars@.len(),
    ensures
        match r {
            Some(rest) => prefix@.is_prefix_of(chars@.subrange(a as int, b as int)) && rest@
                == chars@.subrange(a as int, b as int).skip(prefix@.len() as int),
            None => !prefix@.is_prefix_of(chars@.subrange(a as int, b as int)),
        },
{
    if range_starts_with(chars, a, b, prefix) {
        let m: usize = prefix.unicode_len();
        let rest = line.substring_char(a + m, b).to_owned();
        assert(rest@ =~= chars@.subrange(a as int, b as int).skip(m as int));
        Some(rest)
    } else {
        None
    }
}

impl UciOutputKind {
    /// Parse a raw UCI output line into a categorized type.
    pub fn parse(line: &str) -> (kind: UciOutputKind)
        ensures
            kind@ == classify(line@),
    {
        let chars = str_chars(line);
        let (a, b) = trim_range(&chars);
        if range_starts_with(&chars, a, b, "uciok") {
            return UciOutputKind::UciOk;
        }
        if range_starts_with(&chars, a, b, "readyok") {
            return UciOutputKind::ReadyOk;
        }
        if let Some(rest) = strip_prefix(line, &chars, a, b, "info ") {
            return UciOutputKind::Info(rest);
        }
        if let Some(rest) = strip_prefix(line, &chars, a, b, "bestmove ") {
            return UciOutputKind::BestMove(rest);
        }
        if let Some(rest) = strip_prefix(line, &chars, a, b, "id ") {
            return UciOutputKind::Id(rest);
        }
        if let Some(rest) = strip_prefix(line, &chars, a, b, "option ") {
            return UciOutputKind::Option(rest);
        }
        UciOutputKind::Other(line.substring_char(a, b).to_owned())
    }
}

/// A UCI output line together with its classification.
#[derive(Debug, Clone)]
pub struct UciOutput {
    /// The raw line from the engine.
    pub raw: String,
    /// Parsed/categorized output.
    pub kind: UciOutputKind,
}

/// The mathematical content of a [`UciOutput`].
pub struct UciOutputView {
    pub raw: Seq<char>,
    pub kind: UciOutputKindView,
}

impl View for UciOutput {
    type V = UciOutputView;

    open spec fn view(&self) -> UciOutputView {
        UciOutputView { raw: self.raw@, kind: self.kind@ }
    }
}

/// The record that is kept of a line: the line as it came, and its kind.
pub open spec fn output_of(line: Seq<char>) -> UciOutputView {
    UciOutputView { raw: line, kind: classify(line) }
}

impl UciOutput {
    pub fn new(line: String) -> (output: UciOutput)
        ensures
            output@ == output_of(line@),
    {
        let kind = UciOutputKind::parse(line.as_str());
        UciOutput { raw: line, kind }
    }
}

/// Engine evaluation score.
#[derive(Debug, Clone, Copy, PartialEq)]
pub enum Score {
    /// Centipawn score (positive = white advantage).
    Centipawns(i32),
    /// Mate in N moves (positive = white wins, negative = black wins).
    Mate(i32),
}

/// A number below one hundred written with two digits.
pub open spec fn two_digits(n: nat) -> Seq<char> {
    seq![digit_char(n / 10), digit_char(n % 10)]
}

/// A centipawn count written in pawns with an explicit sign and two decimals.
pub open spec fn pawns_text(cp: int) -> Seq<char> {
    if cp >= 0 {
        "+"@ + decimal((cp / 100) as nat) + "."@ + two_digits((cp % 100) as nat)
    } else {
        "-"@ + decimal((-cp / 100) as nat) + "."@ + two_digits((-cp % 100) as nat)
    }
}

/// A mate distance: `M` and the distance for the side that mates, with a
/// minus sign in front where that side is Black (or the distance is zero).
pub open spec fn mate_text(n: int) -> Seq<char> {
    if n > 0 {
        "M"@ + decimal(n as nat)
    } else {
        "-M"@ + decimal((-n) as nat)
    }
}

/// Writes a centipawn count in pawns, as [`pawns_text`] has it.
pub fn format_pawns(cp: i64) -> (text: String)
    requires
        -0x8000_0000 <= cp <= 0x8000_0000,
    ensures
        text@ == pawns_text(cp as int),
{
    let mut text = if cp >= 0 {
        "+".to_owned()
    } else {
        "-".to_owned()
    };
    let a: u64 = if cp >= 0 {
        cp as u64
    } else {
        (0 - cp) as u64
    };
    let cents: u8 = (a % 100) as u8;
    push_decimal(&mut text, a / 100);
    text.append(".");
    text.append(digit_str(cents / 10));
    text.append(digit_str(cents % 10));
    assert(text@ =~= pawns_text(cp as int));
    text
}

/// Writes a mate distance, as [`mate_text`] has it.
pub fn format_mate(n: i64) -> (text: String)
    requires
        -0x8000_0000 <= n <= 0x8000_0000,
    ensures
        text@ == mate_text(n as int),
{
    if n > 0 {
        let mut text = "M".to_owned();
        push_decimal(&mut text, n as u64);
        text
    } else {
        let mut text = "-M".to_owned();
        push_decimal(&mut text, (0 - n) as u64);
        text
    }
}

impl Score {
    /// The text shown for a score.
    pub open spec fn display_text(self) -> Seq<char> {
        match self {
            Score::Centipawns(cp) => pawns_text(cp as int),
            Score::Mate(n) => mate_text(n as int),
        }
    }

    /// Format score for display (e.g., "+0.35" or "M3" or "-M2").
    pub fn display(&self) -> (text: String)
        ensures
            text@ == self.display_text(),
    {
        match self {
            Score::Centipawns(cp) => format_pawns(*cp as i64),
            Score::Mate(moves) => format_mate(*moves as i64),
        }
    }

    /// The value by which scores are ordered: centipawns as they are, a mate
    /// beyond every ordinary evaluation and the nearer the further out.
    pub open spec fn comparable_value(self) -> int {
        match self {
            Score::Centipawns(cp) => cp as int,
            Score::Mate(n) => if n > 0 {
                10000 - n
            } else {
                -10000 - n
            },
        }
    }

    /// A numeric value for comparison (centipawns, or a large value for mate).
    pub fn as_centipawns(&self) -> (r: i32)
        ensures
            r == self.comparable_value(),
    {
        match self {
            Score::Centipawns(cp) => *cp,
            Score::Mate(moves) => {
                if *moves > 0 {
                    10000 - *moves
                } else {
                    -10000 - *moves
                }
            },
        }
    }
}

/// Of two mates for White the nearer is worth more, and of two mates for
/// Black the nearer is worth less.
pub proof fn law_nearer_mate_counts_more(a: i32, b: i32)
    requires
        0 < a < b,
    ensures
        Score::Mate(a).comparable_value() > Score::Mate(b).comparable_value(),
        Score::Mate((-a) as i32).comparable_value() < Score::Mate((-b) as i32).comparable_value(),
{
}

/// Parsed UCI info line containing analysis data.
#[derive(Debug, Clone)]
pub struct UciInfo {
    /// Search depth.
    pub depth: Option<u32>,
    /// Selective search depth.
    pub seldepth: Option<u32>,
    /// Multi-PV line number (1-indexed).
    pub multipv: Option<u32>,
    /// Evaluation score.
    pub score: Option<Score>,
    /// Nodes searched.
    pub nodes: Option<u64>,
    /// Nodes per second.
    pub nps: Option<u64>,
    /// Time spent in milliseconds.
    pub time: Option<u64>,
    /// Principal variation (best line) as UCI moves.
    pub pv: Vec<String>,
    /// Current move being searched.
    pub currmove: Option<String>,
    /// Current move number.
    pub currmovenumber: Option<u32>,
    /// Hash table usage (per mille).
    pub hashfull: Option<u32>,
}

/// The mathematical content of a [`UciInfo`].
pub struct UciInfoView {
    pub depth: Option<u32>,
    pub seldepth: Option<u32>,
    pub multipv: Option<u32>,
    pub score: Option<Score>,
    pub nodes: Option<u64>,
    pub nps: Option<u64>,
    pub time: Option<u64>,
    pub pv: Seq<Seq<char>>,
    pub currmove: Option<Seq<char>>,
    pub currmovenumber: Option<u32>,
    pub hashfull: Option<u32>,
}

impl View for UciInfo {
    type V = UciInfoView;

    open spec fn view(&self) -> UciInfoView {
        UciInfoView {
            depth: self.depth,
            seldepth: self.seldepth,
            multipv: self.multipv,
            score: self.score,
            nodes: self.nodes,
            nps: self.nps,
            time: self.time,
            pv: texts(self.pv@),
            currmove: match self.currmove {
                Some(m) => Some(m@),
                None => None,
            },
            currmovenumber: self.currmovenumber,
            hashfull: self.hashfull,
        }
    }
}

impl UciInfoView {
    /// An info line on which nothing was recognised.
    pub open spec fn empty() -> UciInfoView {
        UciInfoView {
            depth: None,
            seldepth: None,
            multipv: None,
            score: None,
            nodes: None,
            nps: None,
            time: None,
            pv: Seq::empty(),
            currmove: None,
            currmovenumber: None,
            hashfull: None,
        }
    }

    /// Depth, score and a non-empty principal variation are all present.
    pub open spec fn has_analysis(self) -> bool {
        self.depth is Some && self.score is Some && self.pv.len() > 0
    }

    /// The variation index of the line; an absent index counts as 1.
    pub open spec fn line_number(self) -> u32 {
        match self.multipv {
            Some(n) => n,
            None => 1,
        }
    }
}

/// The keys that are followed by exactly one value.
pub open spec fn takes_value(key: Seq<char>) -> bool {
    ||| key == "depth"@
    ||| key == "seldepth"@
    ||| key == "multipv"@
    ||| key == "nodes"@
    ||| key == "nps"@
    ||| key == "time"@
    ||| key == "hashfull"@
    ||| key == "currmove"@
    ||| key == "currmovenumber"@
}

/// The words that end a principal variation.
pub open spec fn is_reserved(word: Seq<char>) -> bool {
    ||| word == "depth"@
    ||| word == "seldepth"@
    ||| word == "multipv"@
    ||| word == "score"@
    ||| word == "nodes"@
    ||| word == "nps"@
    ||| word == "time"@
    ||| word == "hashfull"@
    ||| word == "currmove"@
    ||| word == "currmovenumber"@
    ||| word == "string"@
    ||| word == "refutation"@
    ||| word == "currline"@
}

/// `info` with the field that `key` names set from `value`. A numeric field
/// whose value does not parse becomes absent.
pub open spec fn with_value(info: UciInfoView, key: Seq<char>, value: Seq<char>) -> UciInfoView {
    if key == "depth"@ {
        UciInfoView { depth: u32_of(value), ..info }
    } else if key == "seldepth"@ {
        UciInfoView { seldepth: u32_of(value), ..info }
    } else if key == "multipv"@ {
        UciInfoView { multipv: u32_of(value), ..info }
    } else if key == "nodes"@ {
        UciInfoView { nodes: u64_of(value), ..info }
    } else if key == "nps"@ {
        UciInfoView { nps: u64_of(value), ..info }
    } else if key == "time"@ {
        UciInfoView { time: u64_of(value), ..info }
    } else if key == "hashfull"@ {
        UciInfoView { hashfull: u32_of(value), ..info }
    } else if key == "currmove"@ {
        UciInfoView { currmove: Some(value), ..info }
    } else if key == "currmovenumber"@ {
        UciInfoView { currmovenumber: u32_of(value), ..info }
    } else {
        info
    }
}

/// `info` with the score of the given kind (`cp` or `mate`) set from `value`;
/// unchanged where `value` is no `i32`.
pub open spec fn with_score(info: UciInfoView, kind: Seq<char>, value: Seq<char>) -> UciInfoView {
    match i32_of(value) {
        Some(v) => if kind == "cp"@ {
            UciInfoView { score: Some(Score::Centipawns(v)), ..info }
        } else {
            UciInfoView { score: Some(Score::Mate(v)), ..info }
        },
        None => info,
    }
}

/// End of the run of words from `i` on that are not reserved.
pub open spec fn pv_end(words: Seq<Seq<char>>, i: int) -> int
    decreases words.len() - i,
{
    if 0 <= i < words.len() && !is_reserved(words[i]) {
        pv_end(words, i + 1)
    } else {
        i
    }
}

pub proof fn lemma_pv_end_bounds(words: Seq<Seq<char>>, i: int)
    requires
        0 <= i <= words.len(),
    ensures
        i <= pv_end(words, i) <= words.len(),
    decreases words.len() - i,
{
    if i < words.len() && !is_reserved(words[i]) {
        lemma_pv_end_bounds(words, i + 1);
    }
}

/// What a left-to-right scan of `words` from index `i` makes of `info`.
///
/// A key with its value takes two words, a score three, `pv` every word up to
/// the next reserved one; a later occurrence of a field replaces an earlier
/// one, and a word that fits nowhere is passed over.
pub open spec fn scan(words: Seq<Seq<char>>, i: int, info: UciInfoView) -> UciInfoView
    decreases words.len() - i,
{
    if i < 0 || i >= words.len() {
        info
    } else if takes_value(words[i]) && i + 1 < words.len() {
        scan(words, i + 2, with_value(info, words[i], words[i + 1]))
    } else if words[i] == "score"@ && i + 2 < words.len() && (words[i + 1] == "cp"@ || words[i
        + 1] == "mate"@) {
        scan(words, i + 3, with_score(info, words[i + 1], words[i + 2]))
    } else if words[i] == "pv"@ {
        proof {
            lemma_pv_end_bounds(words, i + 1);
        }
        let e = pv_end(words, i + 1);
        scan(words, e, UciInfoView { pv: info.pv + words.subrange(i + 1, e), ..info })
    } else {
        scan(words, i + 1, info)
    }
}

/// The analysis data that the body of an `info` line carries.
pub open spec fn parse_info(body: Seq<char>) -> UciInfoView {
    scan(split_whitespace(body), 0, UciInfoView::empty())
}

/// Whether the word of `chars` at `w` is a key that is followed by one value.
fn key_takes_value(chars: &Vec<char>, w: (usize, usize)) -> (r: bool)
    requires
        w.0 <= w.1 <= chars@.len(),
    ensures
        r == takes_value(chars@.subrange(w.0 as int, w.1 as int)),
{
    range_equals(chars, w.0, w.1, "depth") || range_equals(chars, w.0, w.1, "seldepth")
        || range_equals(chars, w.0, w.1, "multipv") || range_equals(chars, w.0, w.1, "nodes")
        || range_equals(chars, w.0, w.1, "nps") || range_equals(chars, w.0, w.1, "time")
        || range_equals(chars, w.0, w.1, "hashfull") || range_equals(chars, w.0, w.1, "currmove")
        || range_equals(chars, w.0, w.1, "currmovenumber")
}

/// Whether the word of `chars` at `w` ends a principal variation.
fn word_is_reserved(chars: &Vec<char>, w: (usize, usize)) -> (r: bool)
    requires
        w.0 <= w.1 <= chars@.len(),
    ensures
        r == is_reserved(chars@.subrange(w.0 as int, w.1 as int)),
{
    range_equals(chars, w.0, w.1, "depth") || range_equals(chars, w.0, w.1, "seldepth")
        || range_equals(chars, w.0, w.1, "multipv") || range_equals(chars, w.0, w.1, "score")
        || range_equals(chars, w.0, w.1, "nodes") || range_equals(chars, w.0, w.1, "nps")
        || range_equals(chars, w.0, w.1, "time") || range_equals(chars, w.0, w.1, "hashfull")
        || range_equals(chars, w.0, w.1, "currmove") || range_equals(
        chars,
        w.0,
        w.1,
        "currmovenumber",
    ) || range_equals(chars, w.0, w.1, "string") || range_equals(chars, w.0, w.1, "refutation")
        || range_equals(chars, w.0, w.1, "currline")
}

/// Sets the field of `info` that the word at `key` names from the word at
/// `value`; `chars` holds the characters of `line`.
fn store_value(
    info: &mut UciInfo,
    line: &str,
    chars: &Vec<char>,
    key: (usize, usize),
    value: (usize, usize),
)
    requires
        chars@ == line@,
        key.0 <= key.1 <= chars@.len(),
        value.0 <= value.1 <= chars@.len(),
    ensures
        final(info)@ == with_value(
            old(info)@,
            chars@.subrange(key.0 as int, key.1 as int),
            chars@.subrange(value.0 as int, value.1 as int),
        ),
{
    if range_equals(chars, key.0, key.1, "depth") {
        info.depth = parse_u32(chars, value.0, value.1);
    } else if range_equals(chars, key.0, key.1, "seldepth") {
        info.seldepth = parse_u32(chars, value.0, value.1);
    } else if range_equals(chars, key.0, key.1, "multipv") {
        info.multipv = parse_u32(chars, value.0, value.1);
    } else if range_equals(chars, key.0, key.1, "nodes") {
        info.nodes = parse_u64(chars, value.0, value.1);
    } else if range_equals(chars, key.0, key.1, "nps") {
        info.nps = parse_u64(chars, value.0, value.1);
    } else if range_equals(chars, key.0, key.1, "time") {
        info.time = parse_u64(chars, value.0, value.1);
    } else if range_equals(chars, key.0, key.1, "hashfull") {
        info.hashfull = parse_u32(chars, value.0, value.1);
    } else if range_equals(chars, key.0, key.1, "currmove") {
        info.currmove = Some(line.substring_char(value.0, value.1).to_owned());
    } else if range_equals(chars, key.0, key.1, "currmovenumber") {
        info.currmovenumber = parse_u32(chars, value.0, value.1);
    }
}

/// Sets the score of `info` from the words at `kind` and `value`.
fn store_score(info: &mut UciInfo, chars: &Vec<char>, kind: (usize, usize), value: (usize, usize))
    requires
        kind.0 <= kind.1 <= chars@.len(),
        value.0 <= value.1 <= chars@.len(),
    ensures
        final(info)@ == with_score(
            old(info)@,
            chars@.subrange(kind.0 as int, kind.1 as int),
            chars@.subrange(value.0 as int, value.1 as int),
        ),
{
    match parse_i32(chars, value.0, value.1) {
        Some(v) => {
            if range_equals(chars, kind.0, kind.1, "cp") {
                info.score = Some(Score::Centipawns(v));
            } else {
                info.score = Some(Score::Mate(v));
            }
        },
        None => {},
    }
}

impl UciInfo {
    /// Parse a UCI info string (the part after "info ").
    ///
    /// The parser is lenient: it never fails, and a line that does not parse
    /// cleanly still yields whatever fields were recognised.
    pub fn parse(info_str: &str) -> (info: UciInfo)
        ensures
            info@ == parse_info(info_str@),
    {
        let mut info = UciInfo {
            depth: None,
            seldepth: None,
            multipv: None,
            score: None,
            nodes: None,
            nps: None,
            time: None,
            pv: Vec::new(),
            currmove: None,
            currmovenumber: None,
            hashfull: None,
        };
        assert(texts(info.pv@) =~= Seq::empty());
        let chars = str_chars(info_str);
        let words = word_ranges(&chars);
        let ghost toks = split_whitespace(info_str@);
        let n: usize = words.len();
        let mut i: usize = 0;
        assert(toks.len() == slices(chars@, words@).len());
        while i < n
            invariant
                chars@ == info_str@,
                toks.len() == n,
                ranges_within(words@, chars@.len()),
                slices(chars@, words@) == toks,
                n == words@.len(),
                i <= n,
                scan(toks, i as int, info@) == parse_info(info_str@),
            decreases n - i,
        {
            let w = words[i];
            assert(toks[i as int] == chars@.subrange(w.0 as int, w.1 as int));
            if n - i > 1 {
                assert(toks[i + 1] == chars@.subrange(
                    words@[i + 1].0 as int,
                    words@[i + 1].1 as int,
                ));
            }
            if n - i > 2 {
                assert(toks[i + 2] == chars@.subrange(
                    words@[i + 2].0 as int,
                    words@[i + 2].1 as int,
                ));
            }
            if n - i > 1 && key_takes_value(&chars, w) {
                store_value(&mut info, info_str, &chars, w, words[i + 1]);
                i += 2;
            } else if n - i > 2 && range_equals(&chars, w.0, w.1, "score") && (range_equals(
                &chars,
                words[i + 1].0,
                words[i + 1].1,
                "cp",
            ) || range_equals(&chars, words[i + 1].0, words[i + 1].1, "mate")) {
                store_score(&mut info, &chars, words[i + 1], words[i + 2]);
                i += 3;
            } else if range_equals(&chars, w.0, w.1, "pv") {
                let ghost before = info@;
                let ghost start = i as int + 1;
                i += 1;
                proof {
                    lemma_pv_end_bounds(toks, start);
                    assert(before.pv + toks.subrange(start, start) =~= before.pv);
                }
                while i < n && !word_is_reserved(&chars, words[i])
                    invariant
                        chars@ == info_str@,
                        toks.len() == n,
                        ranges_within(words@, chars@.len()),
                        slices(chars@, words@) == toks,
                        n == words@.len(),
                        0 < start <= i <= n,
                        pv_end(toks, start) == pv_end(toks, i as int),
                        info@ == (UciInfoView {
                            pv: before.pv + toks.subrange(start, i as int),
                            ..before
                        }),
                    decreases n - i,
                {
                    let m = words[i];
                    let ghost pv_before = info.pv@;
                    assert(toks[i as int] == chars@.subrange(m.0 as int, m.1 as int));
                    let word = info_str.substring_char(m.0, m.1).to_owned();
                    info.pv.push(word);
                    proof {
                        assert(texts(pv_before.push(word)) =~= texts(pv_before).push(word@));
                        assert(toks.subrange(start, i as int + 1) =~= toks.subrange(
                            start,
                            i as int,
                        ).push(toks[i as int]));
                        assert(info@.pv =~= before.pv + toks.subrange(start, i as int + 1));
                    }
                    i += 1;
                }
            } else {
                i += 1;
            }
        }
        info
    }

    /// Check if this info line has meaningful analysis data (depth + score + pv).
    pub fn has_analysis(&self) -> (r: bool)
        ensures
            r == self@.has_analysis(),
    {
        self.depth.is_some() && self.score.is_some() && !self.pv.is_empty()
    }
}

} // verus!
