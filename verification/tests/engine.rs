use chess_core::domain::uci::{Score, UciCommand, UciOutputKind};
use chess_core::models::engine::{
    reader_step, EngineAction, EngineEvent, EngineModel, ReadOutcome,
};
use chess_core::models::session::{PollStep, MAX_OUTPUT_LINES, MULTI_PV};

const START_FEN_WHITE: &str = "rnbqkbnr/pppppppp/8/8/8/8/PPPPPPPP/RNBQKBNR w KQkq - 0 1";
const START_FEN_BLACK: &str = "rnbqkbnr/pppppppp/8/8/4P3/8/PPPP1PPP/RNBQKBNR b KQkq - 0 1";

fn running_model() -> EngineModel {
    let mut model = EngineModel::new();
    let actions = model.start(Ok(())).expect("a launched engine starts");
    assert_eq!(actions.len(), 3);
    model
}

fn wire(actions: &[EngineAction]) -> Vec<String> {
    let mut lines = Vec::new();
    for action in actions {
        match action {
            EngineAction::Send(line) => lines.push(line.clone()),
            EngineAction::Teardown => lines.push("<teardown>".to_string()),
        }
    }
    lines
}

fn raw_lines(model: &EngineModel) -> Vec<String> {
    let mut lines = Vec::new();
    for output in model.output_lines() {
        lines.push(output.raw.clone());
    }
    lines
}

#[test]
fn new_model_is_stopped_and_empty() {
    let model = EngineModel::new();
    assert!(!model.is_running());
    assert!(!model.is_analyzing());
    assert!(model.output_lines().is_empty());
    assert!(model.analysis_lines().is_empty());
    assert!(model.best_analysis().is_none());
    assert!(!model.is_black_to_move());
    assert_eq!(model.current_fen(), None);
}

#[test]
fn default_model_is_stopped_and_empty() {
    let model = EngineModel::default();
    assert!(!model.is_running());
    assert!(model.output_lines().is_empty());
}

#[test]
fn start_sends_handshake_and_records_marker() {
    let mut model = EngineModel::new();
    let actions = model.start(Ok(())).unwrap();
    assert_eq!(wire(&actions), vec!["uci", "isready", "setoption name MultiPV value 3"]);
    assert_eq!(MULTI_PV, 3);
    assert!(model.is_running());
    assert!(!model.is_analyzing());
    assert_eq!(raw_lines(&model), vec!["[Engine started]"]);
    assert!(matches!(model.output_lines()[0].kind, UciOutputKind::Other(_)));
}

#[test]
fn start_while_running_is_a_no_op() {
    let mut model = running_model();
    let actions = model.start(Ok(())).unwrap();
    assert!(actions.is_empty());
    assert!(model.is_running());
    assert_eq!(raw_lines(&model), vec!["[Engine started]"]);
    // Even a failed launch is not looked at while the session runs.
    let again = model.start(Err("unused".to_string())).unwrap();
    assert!(again.is_empty());
    assert!(model.is_running());
}

#[test]
fn failed_launch_is_handed_back_unchanged() {
    let mut model = EngineModel::new();
    let result = model.start(Err("Failed to start engine: No such file".to_string()));
    assert_eq!(result.unwrap_err(), "Failed to start engine: No such file");
    assert!(!model.is_running());
    assert!(model.output_lines().is_empty());
}

#[test]
fn history_keeps_the_latest_hundred_lines() {
    let mut model = EngineModel::new();
    for i in 0..150 {
        model.add_output(format!("line {}", i));
    }
    assert_eq!(MAX_OUTPUT_LINES, 100);
    let lines = raw_lines(&model);
    assert_eq!(lines.len(), 100);
    for (k, line) in lines.iter().enumerate() {
        assert_eq!(line, &format!("line {}", k + 50));
    }
}

#[test]
fn history_below_the_cap_is_kept_whole() {
    let mut model = EngineModel::new();
    for i in 0..100 {
        model.add_output(format!("line {}", i));
    }
    let lines = raw_lines(&model);
    assert_eq!(lines.len(), 100);
    assert_eq!(lines[0], "line 0");
    model.add_output("line 100".to_string());
    let lines = raw_lines(&model);
    assert_eq!(lines.len(), 100);
    assert_eq!(lines[0], "line 1");
    assert_eq!(lines[99], "line 100");
}

#[test]
fn reset_clears_analysis_and_keeps_history() {
    let mut model = EngineModel::new();
    model.add_output("info depth 20 score cp 35 pv e2e4 e7e5".to_string());
    model.add_output("readyok".to_string());
    assert_eq!(model.analysis_lines().len(), 1);
    let before = raw_lines(&model);
    model.reset();
    assert!(model.analysis_lines().is_empty());
    assert!(model.best_analysis().is_none());
    assert_eq!(raw_lines(&model), before);
}

#[test]
fn clear_output_empties_history_only() {
    let mut model = EngineModel::new();
    model.add_output("info depth 20 score cp 35 pv e2e4 e7e5".to_string());
    model.clear_output();
    assert!(model.output_lines().is_empty());
    assert_eq!(model.analysis_lines().len(), 1);
}

#[test]
fn black_to_move_follows_second_fen_field() {
    let mut model = running_model();
    model.start_analysis(START_FEN_BLACK);
    assert!(model.is_black_to_move());
    model.start_analysis(START_FEN_WHITE);
    assert!(!model.is_black_to_move());
    // A one-field position names no side: White is assumed.
    model.start_analysis("8/8/8/8/8/8/8/8");
    assert!(!model.is_black_to_move());
    // Only the second field counts.
    model.start_analysis("b w - - 0 1");
    assert!(!model.is_black_to_move());
    model.start_analysis("  8/8/8/8/8/8/8/8\tb\t- - 0 1");
    assert!(model.is_black_to_move());
}

#[test]
fn start_analysis_sends_position_and_go() {
    let mut model = running_model();
    let actions = model.start_analysis(START_FEN_WHITE);
    assert_eq!(
        wire(&actions),
        vec![format!("position fen {}", START_FEN_WHITE), "go infinite".to_string()]
    );
    assert!(model.is_analyzing());
    assert_eq!(model.current_fen(), Some(START_FEN_WHITE));
}

#[test]
fn start_analysis_stops_a_running_analysis_first() {
    let mut model = running_model();
    model.start_analysis(START_FEN_WHITE);
    model.add_output("info depth 20 score cp 35 pv e2e4 e7e5".to_string());
    assert_eq!(model.analysis_lines().len(), 1);
    let actions = model.start_analysis(START_FEN_BLACK);
    assert_eq!(
        wire(&actions),
        vec![
            "stop".to_string(),
            format!("position fen {}", START_FEN_BLACK),
            "go infinite".to_string()
        ]
    );
    assert!(model.is_analyzing());
    assert!(model.analysis_lines().is_empty());
    assert_eq!(model.current_fen(), Some(START_FEN_BLACK));
    assert_eq!(raw_lines(&model).len(), 2);
}

#[test]
fn start_analysis_on_a_stopped_session_is_a_no_op() {
    let mut model = EngineModel::new();
    let actions = model.start_analysis(START_FEN_BLACK);
    assert!(actions.is_empty());
    assert!(!model.is_analyzing());
    assert!(!model.is_black_to_move());
    assert_eq!(model.current_fen(), None);
}

#[test]
fn stop_analysis_sends_stop_once() {
    let mut model = running_model();
    assert!(model.stop_analysis().is_empty());
    model.start_analysis(START_FEN_WHITE);
    let actions = model.stop_analysis();
    assert_eq!(wire(&actions), vec!["stop"]);
    assert!(!model.is_analyzing());
    assert!(model.is_running());
    assert!(model.stop_analysis().is_empty());
}

#[test]
fn stop_twice_tears_down_once() {
    let mut model = running_model();
    model.start_analysis(START_FEN_WHITE);
    let first = model.stop();
    assert_eq!(wire(&first), vec!["stop", "quit", "<teardown>"]);
    assert!(!model.is_running());
    assert!(!model.is_analyzing());
    let history = raw_lines(&model);
    assert_eq!(history, vec!["[Engine started]", "[Engine stopped]"]);
    let second = model.stop();
    assert!(second.is_empty());
    assert!(!model.is_running());
    assert_eq!(raw_lines(&model), history);
}

#[test]
fn stop_without_analysis_sends_quit_only() {
    let mut model = running_model();
    let actions = model.stop();
    assert_eq!(wire(&actions), vec!["quit", "<teardown>"]);
}

#[test]
fn stop_on_a_new_session_is_a_no_op() {
    let mut model = EngineModel::new();
    assert!(model.stop().is_empty());
    assert!(model.output_lines().is_empty());
}

#[test]
fn session_can_be_started_again_after_stop() {
    let mut model = running_model();
    model.stop();
    let actions = model.start(Ok(())).unwrap();
    assert_eq!(actions.len(), 3);
    assert!(model.is_running());
    assert_eq!(
        raw_lines(&model),
        vec!["[Engine started]", "[Engine stopped]", "[Engine started]"]
    );
}

#[test]
fn end_of_stream_stops_the_session_once() {
    let mut model = running_model();
    model.start_analysis(START_FEN_WHITE);
    let had = model.process_pending_events(vec![
        EngineEvent::Error("broken pipe".to_string()),
        EngineEvent::Error("again".to_string()),
        EngineEvent::Exited,
    ]);
    assert!(had);
    assert!(!model.is_running());
    assert!(!model.is_analyzing());
    let lines = raw_lines(&model);
    assert_eq!(
        lines,
        vec!["[Engine started]", "[Error: broken pipe]", "[Error: again]", "[Engine exited]"]
    );
    assert_eq!(lines.iter().filter(|l| l.as_str() == "[Engine exited]").count(), 1);
}

#[test]
fn an_error_alone_does_not_stop_the_session() {
    let mut model = running_model();
    model.start_analysis(START_FEN_WHITE);
    assert!(model.process_pending_events(vec![EngineEvent::Error("hiccup".to_string())]));
    assert!(model.is_running());
    assert!(model.is_analyzing());
    assert_eq!(raw_lines(&model)[1], "[Error: hiccup]");
}

#[test]
fn no_events_change_nothing() {
    let mut model = running_model();
    assert!(!model.process_pending_events(vec![]));
    assert_eq!(raw_lines(&model), vec!["[Engine started]"]);
}

#[test]
fn poll_notifies_only_when_something_arrived() {
    let mut model = EngineModel::new();
    let step = model.poll(vec![EngineEvent::Output("readyok".to_string())]);
    assert_eq!(step, PollStep { keep_polling: false, notify: false });
    assert!(model.output_lines().is_empty());

    let mut model = running_model();
    let step = model.poll(vec![]);
    assert_eq!(step, PollStep { keep_polling: true, notify: false });
    let step = model.poll(vec![
        EngineEvent::Output("uciok".to_string()),
        EngineEvent::Output("readyok".to_string()),
    ]);
    assert_eq!(step, PollStep { keep_polling: true, notify: true });
    assert_eq!(raw_lines(&model), vec!["[Engine started]", "uciok", "readyok"]);
    assert!(matches!(model.output_lines()[1].kind, UciOutputKind::UciOk));
    assert!(matches!(model.output_lines()[2].kind, UciOutputKind::ReadyOk));

    // The wake that sees the exit still goes on; the next one ends the loop.
    let step = model.poll(vec![EngineEvent::Exited]);
    assert_eq!(step, PollStep { keep_polling: true, notify: true });
    let step = model.poll(vec![]);
    assert_eq!(step, PollStep { keep_polling: false, notify: false });
}

#[test]
fn analysis_lines_come_sorted_by_variation() {
    let mut model = EngineModel::new();
    model.add_output("info depth 20 multipv 3 score cp -10 pv g1f3".to_string());
    model.add_output("info depth 20 multipv 1 score cp 35 pv e2e4 e7e5".to_string());
    model.add_output("info depth 20 multipv 2 score cp 15 pv d2d4".to_string());
    let lines = model.analysis_lines();
    assert_eq!(lines.len(), 3);
    assert_eq!(lines[0].multipv, Some(1));
    assert_eq!(lines[1].multipv, Some(2));
    assert_eq!(lines[2].multipv, Some(3));
    assert_eq!(lines[0].pv, vec!["e2e4", "e7e5"]);
    assert_eq!(model.best_analysis().unwrap().score, Some(Score::Centipawns(35)));
}

#[test]
fn line_without_index_counts_as_the_first() {
    let mut model = EngineModel::new();
    model.add_output("info depth 10 multipv 1 score cp 5 pv a2a3".to_string());
    model.add_output("info depth 12 score mate 4 pv h2h4".to_string());
    let lines = model.analysis_lines();
    assert_eq!(lines.len(), 1);
    assert_eq!(lines[0].multipv, None);
    assert_eq!(lines[0].depth, Some(12));
    assert_eq!(model.best_analysis().unwrap().score, Some(Score::Mate(4)));
}

#[test]
fn partial_info_lines_do_not_evict_analysis() {
    let mut model = EngineModel::new();
    model.add_output("info depth 20 score cp 35 pv e2e4".to_string());
    model.add_output("info depth 21 currmove g1f3 currmovenumber 5".to_string());
    model.add_output("info depth 21 score cp 40".to_string());
    model.add_output("info string NNUE evaluation enabled".to_string());
    model.add_output("bestmove e2e4 ponder e7e5".to_string());
    let lines = model.analysis_lines();
    assert_eq!(lines.len(), 1);
    assert_eq!(lines[0].depth, Some(20));
    assert_eq!(model.output_lines().len(), 5);
}

#[test]
fn many_variations_come_out_ascending() {
    let mut model = EngineModel::new();
    for n in [7u32, 3, 9, 1, 4, 8, 2, 6, 5, 10] {
        model.add_output(format!("info depth 5 multipv {} score cp {} pv e2e4", n, n));
    }
    let lines = model.analysis_lines();
    let order: Vec<u32> = lines.iter().map(|l| l.multipv.unwrap()).collect();
    assert_eq!(order, vec![1, 2, 3, 4, 5, 6, 7, 8, 9, 10]);
    for line in lines {
        assert_eq!(line.score, Some(Score::Centipawns(line.multipv.unwrap() as i32)));
    }
}

#[test]
fn actions_can_be_cloned_and_matched() {
    let action = EngineAction::Send(UciCommand::GoDepth(12).to_uci_string());
    match action.clone() {
        EngineAction::Send(line) => assert_eq!(line, "go depth 12"),
        EngineAction::Teardown => panic!("a send is no teardown"),
    }
}

#[test]
fn reader_passes_lines_on_and_reads_on() {
    let (events, goes_on) = reader_step(ReadOutcome::Line("readyok".to_string()));
    assert!(goes_on);
    assert_eq!(events.len(), 1);
    assert!(matches!(&events[0], EngineEvent::Output(line) if line == "readyok"));
}

#[test]
fn reader_reports_the_exit_after_a_failure_and_stops() {
    let (events, goes_on) = reader_step(ReadOutcome::Failed("broken pipe".to_string()));
    assert!(!goes_on);
    assert_eq!(events.len(), 2);
    assert!(matches!(&events[0], EngineEvent::Error(message) if message == "broken pipe"));
    assert!(matches!(&events[1], EngineEvent::Exited));
}

#[test]
fn reader_reports_the_exit_at_the_end_of_the_stream() {
    let (events, goes_on) = reader_step(ReadOutcome::Closed);
    assert!(!goes_on);
    assert_eq!(events.len(), 1);
    assert!(matches!(&events[0], EngineEvent::Exited));
}

#[test]
fn what_the_reader_reports_stops_the_session() {
    let mut model = running_model();
    let mut queue = Vec::new();
    for outcome in [
        ReadOutcome::Line("uciok".to_string()),
        ReadOutcome::Failed("gone".to_string()),
    ] {
        let (events, goes_on) = reader_step(outcome);
        queue.extend(events);
        if !goes_on {
            break;
        }
    }
    assert!(model.process_pending_events(queue));
    assert!(!model.is_running());
    assert_eq!(
        raw_lines(&model),
        vec!["[Engine started]", "uciok", "[Error: gone]", "[Engine exited]"]
    );
}
