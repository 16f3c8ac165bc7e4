//! Engine state model: the session of one UCI engine, its output history and
//! its current analysis lines.
//!
//! The model owns no process. Every operation returns the actions that the
//! owner of the process channel has to carry out, and the events read from
//! the engine are handed in as values.

use std::collections::HashMap;
use vstd::prelude::*;
use vstd::string::*;
use vstd::std_specs::iter::IteratorSpec;
use crate::domain::text::{push_decimal, range_equals, str_chars, word_ranges};
use crate::domain::uci::{
    UciCommand, UciCommandView, UciInfo, UciInfoView, UciOutput, UciOutputKind, UciOutputView,
};
use crate::models::session::{
    handshake, lists_in_order, reader_events, reader_goes_on, send, ReadOutcomeView, lemma_apply_all_wf, lemma_ingest_wf, EngineActionView, EngineEventView,
    EngineState, PollStep, MAX_OUTPUT_LINES, MULTI_PV,
};

verus! {

broadcast use vstd::std_specs::hash::group_hash_axioms;

/// Messages sent from the engine reader to the model.
#[derive(Debug)]
pub enum EngineEvent {
    /// A line of output from the engine.
    Output(String),
    /// Engine process exited.
    Exited,
    /// Error occurred.
    Error(String),
}

impl View for EngineEvent {
    type V = EngineEventView;

    open spec fn view(&self) -> EngineEventView {
        match self {
            EngineEvent::Output(line) => EngineEventView::Output(line@),
            EngineEvent::Exited => EngineEventView::Exited,
            EngineEvent::Error(message) => EngineEventView::Error(message@),
        }
    }
}

/// What one blocking read of the engine's output gave.
#[derive(Debug)]
pub enum ReadOutcome {
    /// A complete line, without its terminator.
    Line(String),
    /// The read failed with the given message.
    Failed(String),
    /// The engine closed its output.
    Closed,
}

impl View for ReadOutcome {
    type V = ReadOutcomeView;

    open spec fn view(&self) -> ReadOutcomeView {
        match self {
            ReadOutcome::Line(line) => ReadOutcomeView::Line(line@),
            ReadOutcome::Failed(message) => ReadOutcomeView::Failed(message@),
            ReadOutcome::Closed => ReadOutcomeView::Closed,
        }
    }
}

/// What the reader does after one read: the events it reports, in order,
/// and whether it reads on.
pub fn reader_step(outcome: ReadOutcome) -> (step: (Vec<EngineEvent>, bool))
    ensures
        event_views(step.0@) == reader_events(outcome@),
        step.1 == reader_goes_on(outcome@),
{
    let mut events: Vec<EngineEvent> = Vec::new();
    match outcome {
        ReadOutcome::Line(line) => {
            events.push(EngineEvent::Output(line));
            assert(event_views(events@) =~= reader_events(outcome@));
            (events, true)
        },
        ReadOutcome::Failed(message) => {
            events.push(EngineEvent::Error(message));
            events.push(EngineEvent::Exited);
            assert(event_views(events@) =~= reader_events(outcome@));
            (events, false)
        },
        ReadOutcome::Closed => {
            events.push(EngineEvent::Exited);
            assert(event_views(events@) =~= reader_events(outcome@));
            (events, false)
        },
    }
}

/// What the model asks of the owner of the process channel.
#[derive(Debug, Clone)]
pub enum EngineAction {
    /// Queue the line for the engine.
    Send(String),
    /// Close the command path, drop the event path, then end the process and
    /// wait for it.
    Teardown,
}

impl View for EngineAction {
    type V = EngineActionView;

    open spec fn view(&self) -> EngineActionView {
        match self {
            EngineAction::Send(line) => EngineActionView::Send(line@),
            EngineAction::Teardown => EngineActionView::Teardown,
        }
    }
}

/// Send a UCI command to the engine: its wire line joins the actions.
fn send_command(actions: &mut Vec<EngineAction>, cmd: UciCommand)
    ensures
        action_views(final(actions)@) == action_views(old(actions)@).push(send(cmd@)),
{
    let cmd_str = cmd.to_uci_string();
    actions.push(EngineAction::Send(cmd_str));
    assert(action_views(actions@) =~= action_views(old(actions)@).push(send(cmd@)));
}

/// The mathematical content of a list of events.
pub open spec fn event_views(events: Seq<EngineEvent>) -> Seq<EngineEventView> {
    events.map_values(|e: EngineEvent| e@)
}

/// The mathematical content of a list of actions.
pub open spec fn action_views(actions: Seq<EngineAction>) -> Seq<EngineActionView> {
    actions.map_values(|a: EngineAction| a@)
}

/// The mathematical content of a list of output lines.
pub open spec fn output_views(lines: Seq<UciOutput>) -> Seq<UciOutputView> {
    lines.map_values(|o: UciOutput| o@)
}

/// The mathematical content of a map of analysis lines.
pub open spec fn info_views(lines: Map<u32, UciInfo>) -> Map<u32, UciInfoView> {
    lines.map_values(|i: UciInfo| i@)
}

/// The mathematical content of a list of borrowed analysis lines.
pub open spec fn line_views(lines: Seq<&UciInfo>) -> Seq<UciInfoView> {
    lines.map_values(|i: &UciInfo| i@)
}

/// Whether `x` is among the first `n` of `keys`.
spec fn seen(keys: Seq<&u32>, n: int, x: u32) -> bool {
    exists|p: int| 0 <= p < n && *keys[p] == x
}

/// The engine model - manages UCI engine state.
pub struct EngineModel {
    /// Whether the engine is currently running.
    running: bool,
    /// Whether the engine is currently analyzing.
    analyzing: bool,
    /// Recent output lines from the engine (for display).
    output_lines: Vec<UciOutput>,
    /// Current analysis lines (keyed by multipv number, 1-indexed).
    analysis_lines: HashMap<u32, UciInfo>,
    /// Whether it's black's turn (for flipping eval display).
    black_to_move: bool,
    /// Current FEN being analyzed (if any).
    current_fen: Option<String>,
}

impl View for EngineModel {
    type V = EngineState;

    closed spec fn view(&self) -> EngineState {
        EngineState {
            running: self.running,
            analyzing: self.analyzing,
            output: output_views(self.output_lines@),
            analysis: info_views(self.analysis_lines@),
            black_to_move: self.black_to_move,
            current_fen: match self.current_fen {
                Some(fen) => Some(fen@),
                None => None,
            },
        }
    }
}

impl EngineModel {
    pub fn new() -> (model: EngineModel)
        ensures
            model@ == EngineState::initial(),
            model@.wf(),
    {
        let model = EngineModel {
            running: false,
            analyzing: false,
            output_lines: Vec::new(),
            analysis_lines: HashMap::new(),
            black_to_move: false,
            current_fen: None,
        };
        assert(model@.output =~= Seq::empty());
        assert(model@.analysis =~= Map::empty());
        model
    }

    /// Check if the engine is currently running.
    pub fn is_running(&self) -> (r: bool)
        ensures
            r == self@.running,
    {
        self.running
    }

    /// Check if the engine is currently analyzing.
    pub fn is_analyzing(&self) -> (r: bool)
        ensures
            r == self@.analyzing,
    {
        self.analyzing
    }

    /// Get the output lines for display.
    pub fn output_lines(&self) -> (lines: &[UciOutput])
        ensures
            output_views(lines@) == self@.output,
    {
        self.output_lines.as_slice()
    }

    /// The variation indices of the analysis lines, ascending.
    fn sorted_indices(&self) -> (keys: Vec<u32>)
        ensures
            keys@.len() == self.analysis_lines@.dom().len(),
            forall|i: int| 0 <= i < keys@.len() ==> self.analysis_lines@.contains_key(#[trigger] keys@[i]),
            forall|i: int, j: int| 0 <= i < j < keys@.len() ==> keys@[i] < keys@[j],
    {
        let mut keys: Vec<u32> = Vec::new();
        for k in it: self.analysis_lines.keys()
            invariant
                it.seq().unref().to_set() == self.analysis_lines@.dom(),
                it.seq().no_duplicates(),
                it.seq().len() == self.analysis_lines@.dom().len(),
                keys@.len() == it.index(),
                forall|i: int, j: int| 0 <= i < j < keys@.len() ==> keys@[i] < keys@[j],
                forall|i: int|
                    0 <= i < keys@.len() ==> self.analysis_lines@.contains_key(
                        #[trigger] keys@[i],
                    ),
                forall|i: int|
                    0 <= i < keys@.len() ==> seen(it.seq(), it.index() as int, #[trigger] keys@[i]),
        {
            let ghost at = it.index() as int;
            let ghost before = keys@;
            let mut p: usize = 0;
            while p < keys.len() && keys[p] < *k
                invariant
                    p <= keys@.len(),
                    forall|q: int| 0 <= q < p ==> keys@[q] < *k,
                decreases keys@.len() - p,
            {
                p += 1;
            }
            proof {
                if p < keys@.len() && keys@[p as int] == *k {
                    assert(seen(it.seq(), at, keys@[p as int]));
                    let q = choose|q: int| 0 <= q < at && *it.seq()[q] == keys@[p as int];
                    assert(it.seq()[q] == it.seq()[at]);
                }
            }
            keys.insert(p, *k);
            proof {
                assert(it.seq().unref()[at] == *k);
                assert(it.seq().unref().to_set().contains(*k));
                assert forall|i: int| 0 <= i < keys@.len() implies seen(
                    it.seq(),
                    at + 1,
                    #[trigger] keys@[i],
                ) by {
                    if i < p {
                        assert(keys@[i] == before[i]);
                        assert(seen(it.seq(), at, before[i]));
                        let q = choose|q: int| 0 <= q < at && *it.seq()[q] == before[i];
                        assert(*it.seq()[q] == keys@[i]);
                    } else if i == p {
                        assert(*it.seq()[at] == keys@[i]);
                    } else {
                        assert(keys@[i] == before[i - 1]);
                        assert(seen(it.seq(), at, before[i - 1]));
                        let q = choose|q: int| 0 <= q < at && *it.seq()[q] == before[i - 1];
                        assert(*it.seq()[q] == keys@[i]);
                    }
                }
            }
        }
        keys
    }

    /// Get all analysis lines sorted by multipv number.
    pub fn analysis_lines(&self) -> (lines: Vec<&UciInfo>)
        requires
            self@.wf(),
        ensures
            lists_in_order(self@.analysis, line_views(lines@)),
    {
        let keys = self.sorted_indices();
        let mut lines: Vec<&UciInfo> = Vec::new();
        let mut i: usize = 0;
        while i < keys.len()
            invariant
                self@.wf(),
                i <= keys@.len(),
                lines@.len() == i,
                forall|j: int| 0 <= j < keys@.len() ==> self.analysis_lines@.contains_key(#[trigger] keys@[j]),
                forall|j: int|
                    0 <= j < i ==> *(#[trigger] lines@[j]) == self.analysis_lines@[keys@[j]],
            decreases keys@.len() - i,
        {
            if let Some(info) = self.analysis_lines.get(&keys[i]) {
                lines.push(info);
            }
            i += 1;
        }
        proof {
            let views = line_views(lines@);
            assert forall|j: int| 0 <= j < views.len() implies (#[trigger] views[j]).line_number()
                == keys@[j] && self@.analysis.contains_key(keys@[j]) && self@.analysis[keys@[j]]
                == views[j] by {
                assert(*lines@[j] == self.analysis_lines@[keys@[j]]);
                assert(self@.analysis.contains_key(keys@[j]));
            }
            assert(self@.analysis.dom() =~= self.analysis_lines@.dom());
        }
        lines
    }

    /// Get the best (first) analysis line.
    pub fn best_analysis(&self) -> (best: Option<&UciInfo>)
        ensures
            match best {
                Some(info) => self@.analysis.contains_key(1) && self@.analysis[1] == info@,
                None => !self@.analysis.contains_key(1),
            },
    {
        self.analysis_lines.get(&1)
    }

    /// Whether it's black's turn in the current position.
    pub fn is_black_to_move(&self) -> (r: bool)
        ensures
            r == self@.black_to_move,
    {
        self.black_to_move
    }

    /// Get the current FEN being analyzed (if any).
    pub fn current_fen(&self) -> (fen: Option<&str>)
        ensures
            match fen {
                Some(f) => self@.current_fen == Some(f@),
                None => self@.current_fen is None,
            },
    {
        match &self.current_fen {
            Some(fen) => Some(fen.as_str()),
            None => None,
        }
    }

    /// Add an output line (with truncation) and parse info if applicable.
    pub fn add_output(&mut self, line: String)
        ensures
            final(self)@ == old(self)@.ingest(line@),
            old(self)@.wf() ==> final(self)@.wf(),
    {
        let output = UciOutput::new(line);
        if let UciOutputKind::Info(info_str) = &output.kind {
            let info = UciInfo::parse(info_str.as_str());
            if info.has_analysis() {
                let pv_num: u32 = match info.multipv {
                    Some(n) => n,
                    None => 1,
                };
                self.analysis_lines.insert(pv_num, info);
                assert(self@.analysis =~= old(self)@.analysis_after(line@));
            }
        }
        let ghost before = self.output_lines@;
        self.output_lines.push(output);
        assert(output_views(self.output_lines@) =~= output_views(before).push(output@));
        if self.output_lines.len() > MAX_OUTPUT_LINES {
            let excess: usize = self.output_lines.len() - MAX_OUTPUT_LINES;
            let kept = self.output_lines.split_off(excess);
            self.output_lines = kept;
        }
        proof {
            assert(self@.output =~= old(self)@.ingest(line@).output);
            if old(self)@.wf() {
                lemma_ingest_wf(old(self)@, line@);
            }
        }
    }

    /// Drop the analysis lines; the history stays.
    pub fn reset(&mut self)
        ensures
            final(self)@ == old(self)@.reset(),
            final(self)@.analysis == Map::<u32, UciInfoView>::empty(),
            final(self)@.output == old(self)@.output,
            old(self)@.wf() ==> final(self)@.wf(),
    {
        self.analysis_lines.clear();
        assert(self@.analysis =~= Map::empty());
    }

    /// Clear all output lines.
    pub fn clear_output(&mut self)
        ensures
            final(self)@ == old(self)@.clear_output(),
            old(self)@.wf() ==> final(self)@.wf(),
    {
        self.output_lines.clear();
        assert(self@.output =~= Seq::empty());
    }

    /// Start the engine, given how launching the process went.
    ///
    /// On a session that runs already this does nothing. Otherwise a failed
    /// launch is handed back as it came and the session stays stopped; after
    /// a successful one the session runs, the start is recorded, and the
    /// handshake is returned for sending.
    pub fn start(&mut self, spawned: Result<(), String>) -> (r: Result<Vec<EngineAction>, String>)
        ensures
            old(self)@.running ==> final(self)@ == old(self)@ && (match r {
                Ok(actions) => actions@.len() == 0,
                Err(_) => false,
            }),
            !old(self)@.running ==> (match spawned {
                Ok(_) => final(self)@ == old(self)@.started() && (match r {
                    Ok(actions) => action_views(actions@) == handshake(),
                    Err(_) => false,
                }),
                Err(e) => final(self)@ == old(self)@ && r == Err::<Vec<EngineAction>, String>(e),
            }),
            old(self)@.wf() ==> final(self)@.wf(),
    {
        if self.running {
            return Ok(Vec::new());
        }
        match spawned {
            Err(e) => Err(e),
            Ok(_) => {
                self.running = true;
                let mut value = String::new();
                push_decimal(&mut value, MULTI_PV as u64);
                let mut actions: Vec<EngineAction> = Vec::new();
                send_command(&mut actions, UciCommand::Uci);
                send_command(&mut actions, UciCommand::IsReady);
                send_command(
                    &mut actions,
                    UciCommand::SetOption { name: "MultiPV".to_owned(), value },
                );
                assert(action_views(actions@) =~= handshake());
                self.add_output("[Engine started]".to_owned());
                Ok(actions)
            },
        }
    }

    /// Process the events that were read from the engine, first to last.
    /// Returns true if any events were processed.
    pub fn process_pending_events(&mut self, events: Vec<EngineEvent>) -> (had_events: bool)
        ensures
            final(self)@ == old(self)@.apply_all(event_views(events@)),
            had_events == (events@.len() > 0),
            old(self)@.wf() ==> final(self)@.wf(),
    {
        let ghost all = event_views(events@);
        let ghost start = self@;
        let n: usize = events.len();
        let mut i: usize = 0;
        while i < n
            invariant
                n == events@.len(),
                i <= n,
                all == event_views(events@),
                self@ == start.apply_all(all.take(i as int)),
            decreases n - i,
        {
            proof {
                assert(all.take(i + 1).drop_last() =~= all.take(i as int));
                assert(all.take(i + 1).last() == events@[i as int]@);
            }
            match &events[i] {
                EngineEvent::Output(line) => {
                    self.add_output(line.clone());
                },
                EngineEvent::Exited => {
                    self.running = false;
                    self.analyzing = false;
                    self.add_output("[Engine exited]".to_owned());
                },
                EngineEvent::Error(e) => {
                    let mut line = "[Error: ".to_owned();
                    line.append(e.as_str());
                    line.append("]");
                    self.add_output(line);
                },
            }
            i += 1;
        }
        proof {
            assert(all.take(n as int) =~= all);
            if start.wf() {
                lemma_apply_all_wf(start, all);
            }
        }
        n > 0
    }

    /// One wake of the poll loop, with the events that were waiting.
    ///
    /// A stopped session ends the loop and takes nothing in. A running one
    /// takes in every event, goes on polling, and asks for a notification of
    /// the consumer exactly when there was at least one event.
    pub fn poll(&mut self, events: Vec<EngineEvent>) -> (step: PollStep)
        ensures
            (final(self)@, step) == old(self)@.poll(event_views(events@)),
            old(self)@.wf() ==> final(self)@.wf(),
    {
        if !self.running {
            return PollStep { keep_polling: false, notify: false };
        }
        let had_events = self.process_pending_events(events);
        PollStep { keep_polling: true, notify: had_events }
    }

    /// Stop the current analysis.
    pub fn stop_analysis(&mut self) -> (actions: Vec<EngineAction>)
        ensures
            (final(self)@, action_views(actions@)) == old(self)@.stop_analysis(),
            old(self)@.wf() ==> final(self)@.wf(),
    {
        let mut actions: Vec<EngineAction> = Vec::new();
        if !self.analyzing {
            assert(action_views(actions@) =~= Seq::empty());
            return actions;
        }
        send_command(&mut actions, UciCommand::Stop);
        self.analyzing = false;
        assert(action_views(actions@) =~= seq![send(UciCommandView::Stop)]);
        actions
    }

    /// Start analyzing the given FEN position.
    pub fn start_analysis(&mut self, fen: &str) -> (actions: Vec<EngineAction>)
        ensures
            (final(self)@, action_views(actions@)) == old(self)@.start_analysis(fen@),
            old(self)@.wf() ==> final(self)@.wf(),
    {
        let mut actions: Vec<EngineAction> = Vec::new();
        if !self.running {
            assert(action_views(actions@) =~= Seq::empty());
            return actions;
        }
        // Stop previous analysis if any
        if self.analyzing {
            send_command(&mut actions, UciCommand::Stop);
        }
        assert(action_views(actions@) =~= old(self)@.stop_analysis().1);
        self.current_fen = Some(fen.to_owned());
        self.reset();

        // Side to move is the second field of the FEN
        let chars = str_chars(fen);
        let fields = word_ranges(&chars);
        self.black_to_move = fields.len() > 1 && range_equals(
            &chars,
            fields[1].0,
            fields[1].1,
            "b",
        );
        proof {
            let words = crate::domain::text::split_whitespace(fen@);
            let cut = crate::domain::text::slices(chars@, fields@);
            assert(cut.len() == fields@.len());
            if fields@.len() > 1 {
                assert(cut[1] == chars@.subrange(fields@[1].0 as int, fields@[1].1 as int));
            }
        }

        // Send position and start analysis
        let ghost sent = action_views(actions@);
        let moves: Vec<String> = Vec::new();
        let position = UciCommand::Position { fen: Some(fen.to_owned()), moves };
        assert(position@ =~= (UciCommandView::Position { fen: Some(fen@), moves: Seq::empty() }))
            by {
            assert(crate::domain::uci::texts(moves@) =~= Seq::empty());
        }
        send_command(&mut actions, position);
        send_command(&mut actions, UciCommand::GoInfinite);
        assert(action_views(actions@) =~= sent + seq![
            send(UciCommandView::Position { fen: Some(fen@), moves: Seq::empty() }),
            send(UciCommandView::GoInfinite),
        ]);
        self.analyzing = true;
        actions
    }

    /// Stop the engine.
    pub fn stop(&mut self) -> (actions: Vec<EngineAction>)
        ensures
            (final(self)@, action_views(actions@)) == old(self)@.stop(),
            old(self)@.wf() ==> final(self)@.wf(),
    {
        if !self.running {
            let actions: Vec<EngineAction> = Vec::new();
            assert(action_views(actions@) =~= Seq::empty());
            return actions;
        }
        // Stop any ongoing analysis
        let mut actions = self.stop_analysis();
        let ghost sent = action_views(actions@);

        // Send quit command, then clean up the channel and the process
        send_command(&mut actions, UciCommand::Quit);
        let ghost queued = action_views(actions@);
        actions.push(EngineAction::Teardown);
        assert(action_views(actions@) =~= queued.push(EngineActionView::Teardown));
        assert(action_views(actions@) =~= sent + seq![
            send(UciCommandView::Quit),
            EngineActionView::Teardown,
        ]);

        self.running = false;
        self.analyzing = false;
        self.add_output("[Engine stopped]".to_owned());
        actions
    }
}

impl Default for EngineModel {
    fn default() -> (model: EngineModel)
        ensures
            model@ == EngineState::initial(),
            model@.wf(),
    {
        EngineModel::new()
    }
}

} // verus!
