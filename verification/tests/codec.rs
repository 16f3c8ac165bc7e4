use chess_core::domain::uci::{
    format_mate, format_pawns, Score, UciCommand, UciInfo, UciOutput, UciOutputKind,
};

fn kind_of(line: &str) -> (String, String) {
    match UciOutputKind::parse(line) {
        UciOutputKind::UciOk => ("uciok".to_string(), String::new()),
        UciOutputKind::ReadyOk => ("readyok".to_string(), String::new()),
        UciOutputKind::Info(rest) => ("info".to_string(), rest),
        UciOutputKind::BestMove(rest) => ("bestmove".to_string(), rest),
        UciOutputKind::Id(rest) => ("id".to_string(), rest),
        UciOutputKind::Option(rest) => ("option".to_string(), rest),
        UciOutputKind::Other(rest) => ("other".to_string(), rest),
    }
}

fn kind(name: &str, rest: &str) -> (String, String) {
    (name.to_string(), rest.to_string())
}

#[test]
fn simple_commands_encode_to_their_words() {
    assert_eq!(UciCommand::Uci.to_uci_string(), "uci");
    assert_eq!(UciCommand::IsReady.to_uci_string(), "isready");
    assert_eq!(UciCommand::UciNewGame.to_uci_string(), "ucinewgame");
    assert_eq!(UciCommand::GoInfinite.to_uci_string(), "go infinite");
    assert_eq!(UciCommand::Stop.to_uci_string(), "stop");
    assert_eq!(UciCommand::Quit.to_uci_string(), "quit");
}

#[test]
fn setoption_encodes_name_and_value() {
    let cmd = UciCommand::SetOption { name: "MultiPV".to_string(), value: "3".to_string() };
    assert_eq!(cmd.to_uci_string(), "setoption name MultiPV value 3");
    let cmd = UciCommand::SetOption { name: String::new(), value: String::new() };
    assert_eq!(cmd.to_uci_string(), "setoption name  value ");
    let cmd = UciCommand::SetOption { name: "Syzygy Path".to_string(), value: "/tb é".to_string() };
    assert_eq!(cmd.to_uci_string(), "setoption name Syzygy Path value /tb é");
}

#[test]
fn go_depth_encodes_the_depth_in_decimal() {
    assert_eq!(UciCommand::GoDepth(0).to_uci_string(), "go depth 0");
    assert_eq!(UciCommand::GoDepth(7).to_uci_string(), "go depth 7");
    assert_eq!(UciCommand::GoDepth(20).to_uci_string(), "go depth 20");
    assert_eq!(UciCommand::GoDepth(u32::MAX).to_uci_string(), "go depth 4294967295");
}

#[test]
fn position_with_fen_and_moves() {
    let cmd = UciCommand::Position {
        fen: Some("8/8/8/8/8/8/8/K6k w - - 0 1".to_string()),
        moves: vec!["a1a2".to_string()],
    };
    assert_eq!(cmd.to_uci_string(), "position fen 8/8/8/8/8/8/8/K6k w - - 0 1 moves a1a2");
    let cmd = UciCommand::Position {
        fen: None,
        moves: vec!["e2e4".to_string(), "e7e5".to_string(), "g1f3".to_string()],
    };
    assert_eq!(cmd.to_uci_string(), "position startpos moves e2e4 e7e5 g1f3");
    let cmd = UciCommand::Position { fen: Some(String::new()), moves: vec![String::new()] };
    assert_eq!(cmd.to_uci_string(), "position fen  moves ");
}

#[test]
fn lines_are_classified_by_their_first_word() {
    assert_eq!(kind_of("uciok"), kind("uciok", ""));
    assert_eq!(kind_of("  uciok\r\n"), kind("uciok", ""));
    assert_eq!(kind_of("readyok"), kind("readyok", ""));
    assert_eq!(kind_of("\treadyok "), kind("readyok", ""));
    assert_eq!(kind_of("info depth 1"), kind("info", "depth 1"));
    assert_eq!(kind_of("  info   depth 1  "), kind("info", "  depth 1"));
    assert_eq!(kind_of("bestmove e2e4 ponder e7e5"), kind("bestmove", "e2e4 ponder e7e5"));
    assert_eq!(kind_of("id name Stockfish 16"), kind("id", "name Stockfish 16"));
    assert_eq!(
        kind_of("option name Hash type spin default 16"),
        kind("option", "name Hash type spin default 16")
    );
    assert_eq!(kind_of("Stockfish 16 by the authors"), kind("other", "Stockfish 16 by the authors"));
}

#[test]
fn a_leading_word_without_its_space_is_other() {
    assert_eq!(kind_of("info"), kind("other", "info"));
    assert_eq!(kind_of("info "), kind("other", "info"));
    assert_eq!(kind_of("bestmove"), kind("other", "bestmove"));
    assert_eq!(kind_of("id"), kind("other", "id"));
    assert_eq!(kind_of("option"), kind("other", "option"));
    assert_eq!(kind_of("ucio"), kind("other", "ucio"));
    assert_eq!(kind_of("ready ok"), kind("other", "ready ok"));
    assert_eq!(kind_of("Uciok"), kind("other", "Uciok"));
    assert_eq!(kind_of("information"), kind("other", "information"));
    assert_eq!(kind_of("INFO depth 1"), kind("other", "INFO depth 1"));
    assert_eq!(kind_of(""), kind("other", ""));
    assert_eq!(kind_of("   "), kind("other", ""));
    assert_eq!(kind_of("info\tdepth 1"), kind("other", "info\tdepth 1"));
    assert_eq!(kind_of("[Engine started]"), kind("other", "[Engine started]"));
}

#[test]
fn the_words_without_a_rest_are_matched_by_how_the_line_begins() {
    assert_eq!(kind_of("uciok now"), kind("uciok", ""));
    assert_eq!(kind_of("readyok!"), kind("readyok", ""));
    assert_eq!(kind_of(" uciokinfo depth 1"), kind("uciok", ""));
}

#[test]
fn output_keeps_the_raw_line() {
    let output = UciOutput::new("  info depth 3 \n".to_string());
    assert_eq!(output.raw, "  info depth 3 \n");
    match output.kind {
        UciOutputKind::Info(rest) => assert_eq!(rest, "depth 3"),
        other => panic!("unexpected kind {:?}", other),
    }
}

#[test]
fn score_display_covers_the_whole_range() {
    assert_eq!(Score::Centipawns(1).display(), "+0.01");
    assert_eq!(Score::Centipawns(-1).display(), "-0.01");
    assert_eq!(Score::Centipawns(-5).display(), "-0.05");
    assert_eq!(Score::Centipawns(10).display(), "+0.10");
    assert_eq!(Score::Centipawns(99).display(), "+0.99");
    assert_eq!(Score::Centipawns(100).display(), "+1.00");
    assert_eq!(Score::Centipawns(-100).display(), "-1.00");
    assert_eq!(Score::Centipawns(12345).display(), "+123.45");
    assert_eq!(Score::Centipawns(i32::MAX).display(), "+21474836.47");
    assert_eq!(Score::Centipawns(i32::MIN).display(), "-21474836.48");
    assert_eq!(Score::Mate(1).display(), "M1");
    assert_eq!(Score::Mate(0).display(), "-M0");
    assert_eq!(Score::Mate(-1).display(), "-M1");
    assert_eq!(Score::Mate(i32::MAX).display(), "M2147483647");
    assert_eq!(Score::Mate(i32::MIN).display(), "-M2147483648");
}

#[test]
fn centipawn_display_agrees_with_two_decimal_formatting() {
    for cp in -2500i32..=2500 {
        let pawns = cp as f64 / 100.0;
        let expected = if pawns >= 0.0 { format!("+{:.2}", pawns) } else { format!("{:.2}", pawns) };
        assert_eq!(Score::Centipawns(cp).display(), expected);
        assert_eq!(format_pawns(cp as i64), expected);
    }
}

#[test]
fn free_formatters_take_flipped_scores() {
    assert_eq!(format_pawns(2147483648), "+21474836.48");
    assert_eq!(format_pawns(-2147483648), "-21474836.48");
    assert_eq!(format_mate(2147483648), "M2147483648");
    assert_eq!(format_mate(-3), "-M3");
    assert_eq!(format_mate(0), "-M0");
}

#[test]
fn comparable_value_of_mates() {
    assert_eq!(Score::Mate(1).as_centipawns(), 9999);
    assert_eq!(Score::Mate(3).as_centipawns(), 9997);
    assert_eq!(Score::Mate(-1).as_centipawns(), -9999);
    assert_eq!(Score::Mate(-3).as_centipawns(), -9997);
    assert_eq!(Score::Mate(0).as_centipawns(), -10000);
    assert_eq!(Score::Mate(i32::MAX).as_centipawns(), 10000 - i32::MAX);
    assert_eq!(Score::Mate(i32::MIN).as_centipawns(), 2147473648);
    assert_eq!(Score::Centipawns(i32::MIN).as_centipawns(), i32::MIN);
    for a in 1..50 {
        for b in (a + 1)..51 {
            assert!(Score::Mate(a).as_centipawns() > Score::Mate(b).as_centipawns());
            assert!(Score::Mate(-a).as_centipawns() < Score::Mate(-b).as_centipawns());
        }
    }
}

#[test]
fn empty_info_has_nothing() {
    for body in ["", "   ", "\t\n"] {
        let info = UciInfo::parse(body);
        assert_eq!(info.depth, None);
        assert_eq!(info.seldepth, None);
        assert_eq!(info.multipv, None);
        assert_eq!(info.score, None);
        assert_eq!(info.nodes, None);
        assert_eq!(info.nps, None);
        assert_eq!(info.time, None);
        assert!(info.pv.is_empty());
        assert_eq!(info.currmove, None);
        assert_eq!(info.currmovenumber, None);
        assert_eq!(info.hashfull, None);
        assert!(!info.has_analysis());
    }
}

#[test]
fn a_key_at_the_end_has_no_value() {
    let info = UciInfo::parse("depth 5 nodes");
    assert_eq!(info.depth, Some(5));
    assert_eq!(info.nodes, None);
    let info = UciInfo::parse("depth");
    assert_eq!(info.depth, None);
    let info = UciInfo::parse("currmove");
    assert_eq!(info.currmove, None);
    let info = UciInfo::parse("depth 5 score cp");
    assert_eq!(info.depth, Some(5));
    assert_eq!(info.score, None);
    let info = UciInfo::parse("score");
    assert_eq!(info.score, None);
}

#[test]
fn a_value_that_is_no_number_clears_the_field() {
    let info = UciInfo::parse("depth 5 depth x");
    assert_eq!(info.depth, None);
    let info = UciInfo::parse("depth -5");
    assert_eq!(info.depth, None);
    let info = UciInfo::parse("nodes 18446744073709551616");
    assert_eq!(info.nodes, None);
    let info = UciInfo::parse("hashfull 4294967296 nps +7");
    assert_eq!(info.hashfull, None);
    assert_eq!(info.nps, Some(7));
}

#[test]
fn a_key_takes_the_next_word_even_if_it_is_a_key() {
    let info = UciInfo::parse("depth seldepth 7 nodes 3");
    assert_eq!(info.depth, None);
    assert_eq!(info.seldepth, None);
    assert_eq!(info.nodes, Some(3));
    let info = UciInfo::parse("currmove depth 9");
    assert_eq!(info.currmove, Some("depth".to_string()));
    assert_eq!(info.depth, None);
}

#[test]
fn a_score_that_is_no_number_is_left_as_it_was() {
    let info = UciInfo::parse("score cp 12 score cp x depth 3");
    assert_eq!(info.score, Some(Score::Centipawns(12)));
    assert_eq!(info.depth, Some(3));
    let info = UciInfo::parse("score mate 2147483648 depth 3");
    assert_eq!(info.score, None);
    assert_eq!(info.depth, Some(3));
    let info = UciInfo::parse("score cp -2147483648");
    assert_eq!(info.score, Some(Score::Centipawns(i32::MIN)));
}

#[test]
fn a_score_of_unknown_kind_is_passed_over_word_by_word() {
    let info = UciInfo::parse("score lowerbound depth 4 pv e2e4");
    assert_eq!(info.score, None);
    assert_eq!(info.depth, Some(4));
    assert_eq!(info.pv, vec!["e2e4"]);
    let info = UciInfo::parse("score cp 20 lowerbound nodes 5");
    assert_eq!(info.score, Some(Score::Centipawns(20)));
    assert_eq!(info.nodes, Some(5));
    let info = UciInfo::parse("score depth 4 x");
    assert_eq!(info.score, None);
    assert_eq!(info.depth, Some(4));
}

#[test]
fn later_fields_replace_earlier_ones() {
    let info = UciInfo::parse("depth 1 score cp 5 depth 2 score mate 3 score cp 9");
    assert_eq!(info.depth, Some(2));
    assert_eq!(info.score, Some(Score::Centipawns(9)));
}

#[test]
fn pv_ends_at_a_reserved_word() {
    let info = UciInfo::parse("pv e2e4 e7e5 depth 9 nodes 4");
    assert_eq!(info.pv, vec!["e2e4", "e7e5"]);
    assert_eq!(info.depth, Some(9));
    assert_eq!(info.nodes, Some(4));
    for word in [
        "depth", "seldepth", "multipv", "score", "nodes", "nps", "time", "hashfull", "currmove",
        "currmovenumber", "string", "refutation", "currline",
    ] {
        let info = UciInfo::parse(&format!("pv a2a3 {} 1 b2b3", word));
        assert_eq!(info.pv, vec!["a2a3"], "{}", word);
    }
    let info = UciInfo::parse("pv a2a3 pv cp mate upperbound");
    assert_eq!(info.pv, vec!["a2a3", "pv", "cp", "mate", "upperbound"]);
}

#[test]
fn a_second_pv_goes_on_where_the_first_ended() {
    let info = UciInfo::parse("pv e2e4 string x pv d2d4 c7c5");
    assert_eq!(info.pv, vec!["e2e4", "d2d4", "c7c5"]);
    let info = UciInfo::parse("pv");
    assert!(info.pv.is_empty());
    let info = UciInfo::parse("pv depth 3");
    assert!(info.pv.is_empty());
    assert_eq!(info.depth, Some(3));
}

#[test]
fn unknown_words_are_passed_over() {
    let info = UciInfo::parse("tbhits 0 wdl 500 400 100 depth 6 upperbound cpuload 17 pv h2h3");
    assert_eq!(info.depth, Some(6));
    assert_eq!(info.pv, vec!["h2h3"]);
    assert_eq!(info.nodes, None);
}

#[test]
fn words_may_be_parted_by_any_white_space() {
    let info = UciInfo::parse("  depth\t7   score\u{a0}mate -4\npv  é2é4  ");
    assert_eq!(info.depth, Some(7));
    assert_eq!(info.score, Some(Score::Mate(-4)));
    assert_eq!(info.pv, vec!["é2é4"]);
    assert!(info.has_analysis());
}

#[test]
fn has_analysis_needs_depth_score_and_pv() {
    assert!(UciInfo::parse("depth 1 score cp 0 pv e2e4").has_analysis());
    assert!(!UciInfo::parse("score cp 0 pv e2e4").has_analysis());
    assert!(!UciInfo::parse("depth 1 pv e2e4").has_analysis());
    assert!(!UciInfo::parse("depth 1 score cp 0 pv").has_analysis());
    assert!(!UciInfo::parse("depth x score cp 0 pv e2e4").has_analysis());
}
