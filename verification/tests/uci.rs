use chess_core::domain::uci::{Score, UciCommand, UciInfo, UciOutput, UciOutputKind};

#[test]
fn test_position_startpos() {
    let cmd = UciCommand::Position { fen: None, moves: vec![] };
    assert_eq!(cmd.to_uci_string(), "position startpos");
}

#[test]
fn test_position_with_moves() {
    let cmd = UciCommand::Position {
        fen: None,
        moves: vec!["e2e4".to_string(), "e7e5".to_string()],
    };
    assert_eq!(cmd.to_uci_string(), "position startpos moves e2e4 e7e5");
}

#[test]
fn test_position_fen() {
    let cmd = UciCommand::Position {
        fen: Some("rnbqkbnr/pppppppp/8/8/4P3/8/PPPP1PPP/RNBQKBNR b KQkq - 0 1".to_string()),
        moves: vec![],
    };
    assert_eq!(
        cmd.to_uci_string(),
        "position fen rnbqkbnr/pppppppp/8/8/4P3/8/PPPP1PPP/RNBQKBNR b KQkq - 0 1"
    );
}

#[test]
fn test_parse_info() {
    let output = UciOutput::new("info depth 20 score cp 35 pv e2e4 e7e5".to_string());
    assert!(matches!(output.kind, UciOutputKind::Info(_)));
}

#[test]
fn test_parse_bestmove() {
    let output = UciOutput::new("bestmove e2e4 ponder e7e5".to_string());
    assert!(matches!(output.kind, UciOutputKind::BestMove(_)));
}

#[test]
fn test_parse_uci_info_basic() {
    let info = UciInfo::parse("depth 20 score cp 35 nodes 1234567 nps 2500000 pv e2e4 e7e5 g1f3");
    assert_eq!(info.depth, Some(20));
    assert_eq!(info.score, Some(Score::Centipawns(35)));
    assert_eq!(info.nodes, Some(1234567));
    assert_eq!(info.nps, Some(2500000));
    assert_eq!(info.pv, vec!["e2e4", "e7e5", "g1f3"]);
}

#[test]
fn test_parse_uci_info_mate_score() {
    let info = UciInfo::parse("depth 15 score mate 3 pv e2e4 e7e5 d1h5");
    assert_eq!(info.depth, Some(15));
    assert_eq!(info.score, Some(Score::Mate(3)));
    assert_eq!(info.pv, vec!["e2e4", "e7e5", "d1h5"]);
}

#[test]
fn test_parse_uci_info_negative_mate() {
    let info = UciInfo::parse("depth 12 score mate -2 pv g8f6");
    assert_eq!(info.score, Some(Score::Mate(-2)));
}

#[test]
fn test_parse_uci_info_negative_cp() {
    let info = UciInfo::parse("depth 18 score cp -125 pv d7d5");
    assert_eq!(info.score, Some(Score::Centipawns(-125)));
}

#[test]
fn test_parse_uci_info_multipv() {
    let info = UciInfo::parse("depth 20 multipv 2 score cp 15 pv d2d4");
    assert_eq!(info.multipv, Some(2));
    assert_eq!(info.depth, Some(20));
}

#[test]
fn test_parse_uci_info_seldepth() {
    let info = UciInfo::parse("depth 20 seldepth 28 score cp 35 pv e2e4");
    assert_eq!(info.depth, Some(20));
    assert_eq!(info.seldepth, Some(28));
}

#[test]
fn test_parse_uci_info_time() {
    let info = UciInfo::parse("depth 10 time 1500 nodes 500000 pv e2e4");
    assert_eq!(info.time, Some(1500));
    assert_eq!(info.nodes, Some(500000));
}

#[test]
fn test_parse_uci_info_currmove() {
    let info = UciInfo::parse("depth 15 currmove e2e4 currmovenumber 1");
    assert_eq!(info.currmove, Some("e2e4".to_string()));
    assert_eq!(info.currmovenumber, Some(1));
}

#[test]
fn test_parse_uci_info_hashfull() {
    let info = UciInfo::parse("depth 20 hashfull 500 pv e2e4");
    assert_eq!(info.hashfull, Some(500));
}

#[test]
fn test_parse_uci_info_no_pv() {
    // Some info lines don't have a PV (e.g., currmove updates)
    let info = UciInfo::parse("depth 15 currmove g1f3 currmovenumber 5");
    assert!(info.pv.is_empty());
    assert!(!info.has_analysis());
}

#[test]
fn test_has_analysis() {
    let info = UciInfo::parse("depth 20 score cp 35 pv e2e4");
    assert!(info.has_analysis());

    let info_no_score = UciInfo::parse("depth 20 pv e2e4");
    assert!(!info_no_score.has_analysis());

    let info_no_pv = UciInfo::parse("depth 20 score cp 35");
    assert!(!info_no_pv.has_analysis());
}

#[test]
fn test_score_display_positive_cp() {
    let score = Score::Centipawns(35);
    assert_eq!(score.display(), "+0.35");
}

#[test]
fn test_score_display_negative_cp() {
    let score = Score::Centipawns(-125);
    assert_eq!(score.display(), "-1.25");
}

#[test]
fn test_score_display_zero() {
    let score = Score::Centipawns(0);
    assert_eq!(score.display(), "+0.00");
}

#[test]
fn test_score_display_mate_white() {
    let score = Score::Mate(3);
    assert_eq!(score.display(), "M3");
}

#[test]
fn test_score_display_mate_black() {
    let score = Score::Mate(-2);
    assert_eq!(score.display(), "-M2");
}

#[test]
fn test_score_as_centipawns() {
    assert_eq!(Score::Centipawns(100).as_centipawns(), 100);
    assert_eq!(Score::Centipawns(-50).as_centipawns(), -50);
    // Mate in 1 is better than mate in 3
    assert!(Score::Mate(1).as_centipawns() > Score::Mate(3).as_centipawns());
    // Being mated in 1 is worse than being mated in 3
    assert!(Score::Mate(-1).as_centipawns() < Score::Mate(-3).as_centipawns());
}

#[test]
fn test_parse_stockfish_real_output() {
    // Real Stockfish output example
    let info = UciInfo::parse(
        "depth 24 seldepth 31 multipv 1 score cp 28 nodes 2847613 nps 2431482 hashfull 457 time 1171 pv e2e4 e7e5 g1f3 b8c6 f1b5 a7a6 b5a4 g8f6 e1g1",
    );
    assert_eq!(info.depth, Some(24));
    assert_eq!(info.seldepth, Some(31));
    assert_eq!(info.multipv, Some(1));
    assert_eq!(info.score, Some(Score::Centipawns(28)));
    assert_eq!(info.nodes, Some(2847613));
    assert_eq!(info.nps, Some(2431482));
    assert_eq!(info.hashfull, Some(457));
    assert_eq!(info.time, Some(1171));
    assert_eq!(info.pv.len(), 9);
    assert_eq!(info.pv[0], "e2e4");
    assert!(info.has_analysis());
}
