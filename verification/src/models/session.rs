//! The engine session as a mathematical state machine: what every operation
//! and every engine event does to the session, and which actions it asks of
//! the process channel.

use vstd::prelude::*;
use crate::domain::text::{decimal, split_whitespace};
use crate::domain::uci::{
    encode, output_of, parse_info, UciCommandView, UciInfoView, UciOutputKindView, UciOutputView,
};

verus! {

/// Maximum number of output lines kept in the history.
pub const MAX_OUTPUT_LINES: usize = 100;

/// Number of principal variations requested from the engine.
pub const MULTI_PV: u32 = 3;

/// What the reader of the engine's output reports.
pub enum EngineEventView {
    /// A line of output from the engine.
    Output(Seq<char>),
    /// The engine closed its output.
    Exited,
    /// Reading failed with the given message.
    Error(Seq<char>),
}

/// What one blocking read of the engine's output gave.
pub enum ReadOutcomeView {
    /// A complete line, without its terminator.
    Line(Seq<char>),
    /// The read failed with the given message.
    Failed(Seq<char>),
    /// The engine closed its output.
    Closed,
}

/// The events that the reader reports after one read. A line is passed on;
/// a failure is reported and, like the end of the stream, followed by the
/// exit of the engine.
pub open spec fn reader_events(outcome: ReadOutcomeView) -> Seq<EngineEventView> {
    match outcome {
        ReadOutcomeView::Line(line) => seq![EngineEventView::Output(line)],
        ReadOutcomeView::Failed(message) => seq![
            EngineEventView::Error(message),
            EngineEventView::Exited,
        ],
        ReadOutcomeView::Closed => seq![EngineEventView::Exited],
    }
}

/// Whether the reader goes on to another read: only after a line.
pub open spec fn reader_goes_on(outcome: ReadOutcomeView) -> bool {
    outcome is Line
}

/// What the session asks of the process channel.
pub enum EngineActionView {
    /// Queue a line for the engine.
    Send(Seq<char>),
    /// Close the command path, drop the event path, then end the process.
    Teardown,
}

/// The request to send a command: its wire line is queued.
pub open spec fn send(command: UciCommandView) -> EngineActionView {
    EngineActionView::Send(encode(command))
}

/// What one wake of the poll loop decides.
#[derive(Debug, Clone, Copy, PartialEq, Eq)]
pub struct PollStep {
    /// Whether the loop goes on to another wake.
    pub keep_polling: bool,
    /// Whether the consumer is told that the session changed.
    pub notify: bool,
}

/// The last `cap` items of `s`, or all of `s` where it holds no more.
pub open spec fn keep_last<T>(s: Seq<T>, cap: nat) -> Seq<T> {
    if s.len() > cap {
        s.skip(s.len() - cap)
    } else {
        s
    }
}

/// Whether the second white-space separated field of `fen` says that Black
/// is to move.
pub open spec fn fen_black_to_move(fen: Seq<char>) -> bool {
    let fields = split_whitespace(fen);
    fields.len() > 1 && fields[1] == "b"@
}

/// The history line that records a read error.
pub open spec fn error_line(message: Seq<char>) -> Seq<char> {
    "[Error: "@ + message + "]"@
}

/// The history line that an event leaves behind.
pub open spec fn event_line(event: EngineEventView) -> Seq<char> {
    match event {
        EngineEventView::Output(line) => line,
        EngineEventView::Exited => "[Engine exited]"@,
        EngineEventView::Error(message) => error_line(message),
    }
}

/// The history lines that a sequence of events leaves behind.
pub open spec fn event_records(events: Seq<EngineEventView>) -> Seq<UciOutputView> {
    events.map_values(|e: EngineEventView| output_of(event_line(e)))
}

/// The commands sent to an engine that has just been launched.
pub open spec fn handshake() -> Seq<EngineActionView> {
    seq![
        send(UciCommandView::Uci),
        send(UciCommandView::IsReady),
        send(UciCommandView::SetOption { name: "MultiPV"@, value: decimal(MULTI_PV as nat) }),
    ]
}

/// Whether `lines` lists every entry of `analysis` once, by ascending
/// variation index, so that the primary line comes first.
pub open spec fn lists_in_order(analysis: Map<u32, UciInfoView>, lines: Seq<UciInfoView>) -> bool {
    &&& lines.len() == analysis.dom().len()
    &&& forall|i: int|
        0 <= i < lines.len() ==> analysis.contains_key((#[trigger] lines[i]).line_number())
            && analysis[lines[i].line_number()] == lines[i]
    &&& forall|i: int, j: int|
        0 <= i < j < lines.len() ==> (#[trigger] lines[i]).line_number() < (
        #[trigger] lines[j]).line_number()
}

/// The variation indices of a list of lines.
pub open spec fn line_numbers(lines: Seq<UciInfoView>) -> Seq<u32> {
    lines.map_values(|l: UciInfoView| l.line_number())
}

/// A listing in order names every variation index of the analysis once.
pub proof fn lemma_listing_names_every_index(analysis: Map<u32, UciInfoView>, lines: Seq<UciInfoView>)
    requires
        analysis.dom().finite(),
        lists_in_order(analysis, lines),
    ensures
        line_numbers(lines).no_duplicates(),
        line_numbers(lines).to_set() == analysis.dom(),
{
    let keys = line_numbers(lines);
    assert forall|i: int, j: int| 0 <= i < keys.len() && 0 <= j < keys.len() && i != j implies keys[i]
        != keys[j] by {
        if i < j {
            assert(lines[i].line_number() < lines[j].line_number());
        } else {
            assert(lines[j].line_number() < lines[i].line_number());
        }
    }
    keys.unique_seq_to_set();
    assert forall|k: u32| keys.to_set().contains(k) implies analysis.dom().contains(k) by {
        let i = choose|i: int| 0 <= i < keys.len() && keys[i] == k;
        assert(analysis.contains_key(lines[i].line_number()));
    }
    vstd::set_lib::lemma_len_subset(keys.to_set(), analysis.dom());
    vstd::set_lib::lemma_subset_equality(keys.to_set(), analysis.dom());
}

/// There is one way only to list the analysis lines in order: the list that
/// is shown is determined by the lines that are held.
pub proof fn law_listing_is_unique(
    analysis: Map<u32, UciInfoView>,
    first: Seq<UciInfoView>,
    second: Seq<UciInfoView>,
)
    requires
        analysis.dom().finite(),
        lists_in_order(analysis, first),
        lists_in_order(analysis, second),
    ensures
        first == second,
{
    lemma_listing_names_every_index(analysis, first);
    lemma_listing_names_every_index(analysis, second);
    let a = line_numbers(first);
    let b = line_numbers(second);
    assert forall|i: int| 0 <= i < a.len() implies a[i] == b[i] by {
        lemma_same_index_at(first, second, i);
    }
    assert forall|i: int| 0 <= i < first.len() implies first[i] == second[i] by {
        assert(a[i] == b[i]);
        assert(analysis[first[i].line_number()] == first[i]);
        assert(analysis[second[i].line_number()] == second[i]);
    }
    assert(first =~= second);
}

/// Two ascending lists of the same indices agree place by place.
pub proof fn lemma_same_index_at(first: Seq<UciInfoView>, second: Seq<UciInfoView>, i: int)
    requires
        first.len() == second.len(),
        0 <= i < first.len(),
        line_numbers(first).to_set() == line_numbers(second).to_set(),
        forall|x: int, y: int|
            0 <= x < y < first.len() ==> (#[trigger] first[x]).line_number() < (
            #[trigger] first[y]).line_number(),
        forall|x: int, y: int|
            0 <= x < y < second.len() ==> (#[trigger] second[x]).line_number() < (
            #[trigger] second[y]).line_number(),
    ensures
        line_numbers(first)[i] == line_numbers(second)[i],
    decreases i,
{
    let a = line_numbers(first);
    let b = line_numbers(second);
    assert forall|k: int| 0 <= k < i implies a[k] == b[k] by {
        lemma_same_index_at(first, second, k);
    }
    // Where the first list has its index in the second, and the other way round
    assert(a.to_set().contains(a[i]));
    assert(b.to_set().contains(a[i]));
    let j = choose|j: int| 0 <= j < b.len() && b[j] == a[i];
    assert(b.to_set().contains(b[i]));
    assert(a.to_set().contains(b[i]));
    let h = choose|h: int| 0 <= h < a.len() && a[h] == b[i];
    if j < i {
        assert(a[j] == b[j]);
        assert(first[j].line_number() < first[i].line_number());
    }
    if h < i {
        assert(a[h] == b[h]);
        assert(second[h].line_number() < second[i].line_number());
    }
    if i < j {
        assert(second[i].line_number() < second[j].line_number());
    }
    if i < h {
        assert(first[i].line_number() < first[h].line_number());
    }
}

/// The state of an engine session.
pub struct EngineState {
    /// Whether an engine process is owned.
    pub running: bool,
    /// Whether the engine was told to analyse and not yet to stop.
    pub analyzing: bool,
    /// The most recent output lines, oldest first.
    pub output: Seq<UciOutputView>,
    /// The current analysis lines by variation index.
    pub analysis: Map<u32, UciInfoView>,
    /// Whether Black is to move in the position under analysis.
    pub black_to_move: bool,
    /// The position under analysis.
    pub current_fen: Option<Seq<char>>,
}

impl EngineState {
    /// A session that has not been started.
    pub open spec fn initial() -> EngineState {
        EngineState {
            running: false,
            analyzing: false,
            output: Seq::empty(),
            analysis: Map::empty(),
            black_to_move: false,
            current_fen: None,
        }
    }

    /// The invariant of every session: the history is capped, only a running
    /// engine analyses, and every analysis line is complete and filed under
    /// its own variation index.
    pub open spec fn wf(self) -> bool {
        &&& self.output.len() <= MAX_OUTPUT_LINES
        &&& self.analyzing ==> self.running
        &&& self.analysis.dom().finite()
        &&& forall|k: u32| #[trigger]
            self.analysis.contains_key(k) ==> self.analysis[k].has_analysis()
                && self.analysis[k].line_number() == k
    }

    /// The analysis lines after `line` arrived: an `info` line with depth,
    /// score and variation replaces the entry of its index, any other line
    /// changes nothing.
    pub open spec fn analysis_after(self, line: Seq<char>) -> Map<u32, UciInfoView> {
        match output_of(line).kind {
            UciOutputKindView::Info(body) => {
                let info = parse_info(body);
                if info.has_analysis() {
                    self.analysis.insert(info.line_number(), info)
                } else {
                    self.analysis
                }
            },
            _ => self.analysis,
        }
    }

    /// The session after `line` was taken in: the line joins the history,
    /// from which the oldest lines beyond the cap leave at once.
    pub open spec fn ingest(self, line: Seq<char>) -> EngineState {
        EngineState {
            output: keep_last(self.output.push(output_of(line)), MAX_OUTPUT_LINES as nat),
            analysis: self.analysis_after(line),
            ..self
        }
    }

    /// The session without its analysis lines.
    pub open spec fn reset(self) -> EngineState {
        EngineState { analysis: Map::empty(), ..self }
    }

    /// The session without its history.
    pub open spec fn clear_output(self) -> EngineState {
        EngineState { output: Seq::empty(), ..self }
    }

    /// The session after one event: output is taken in, an error is recorded
    /// and changes nothing else, the end of the stream stops the session.
    pub open spec fn apply(self, event: EngineEventView) -> EngineState {
        match event {
            EngineEventView::Exited => (EngineState {
                running: false,
                analyzing: false,
                ..self
            }).ingest(event_line(event)),
            _ => self.ingest(event_line(event)),
        }
    }

    /// The session after a sequence of events, first to last.
    pub open spec fn apply_all(self, events: Seq<EngineEventView>) -> EngineState
        decreases events.len(),
    {
        if events.len() == 0 {
            self
        } else {
            self.apply_all(events.drop_last()).apply(events.last())
        }
    }

    /// One wake of the poll loop: a stopped session ends the loop and leaves
    /// the events alone; a running one takes in every event and notifies the
    /// consumer exactly when there was one.
    pub open spec fn poll(self, events: Seq<EngineEventView>) -> (EngineState, PollStep) {
        if !self.running {
            (self, PollStep { keep_polling: false, notify: false })
        } else {
            (self.apply_all(events), PollStep { keep_polling: true, notify: events.len() > 0 })
        }
    }

    /// The session after a successful launch.
    pub open spec fn started(self) -> EngineState {
        (EngineState { running: true, ..self }).ingest("[Engine started]"@)
    }

    /// Ending the analysis: nothing where none runs, else one `stop`.
    pub open spec fn stop_analysis(self) -> (EngineState, Seq<EngineActionView>) {
        if !self.analyzing {
            (self, Seq::empty())
        } else {
            (
                EngineState { analyzing: false, ..self },
                seq![send(UciCommandView::Stop)],
            )
        }
    }

    /// Analysing `fen`: nothing where no engine runs; else a running analysis
    /// is stopped, the old lines are dropped, and the position is sent,
    /// followed by `go infinite`.
    pub open spec fn start_analysis(self, fen: Seq<char>) -> (EngineState, Seq<EngineActionView>) {
        if !self.running {
            (self, Seq::empty())
        } else {
            (
                EngineState {
                    analyzing: true,
                    black_to_move: fen_black_to_move(fen),
                    current_fen: Some(fen),
                    ..self.reset()
                },
                self.stop_analysis().1 + seq![
                    send(UciCommandView::Position { fen: Some(fen), moves: Seq::empty() }),
                    send(UciCommandView::GoInfinite),
                ],
            )
        }
    }

    /// Stopping the session: nothing where it is stopped; else the analysis
    /// is ended, `quit` is sent, the channel is torn down and the stop is
    /// recorded.
    pub open spec fn stop(self) -> (EngineState, Seq<EngineActionView>) {
        if !self.running {
            (self, Seq::empty())
        } else {
            (
                (EngineState { running: false, analyzing: false, ..self }).ingest(
                    "[Engine stopped]"@,
                ),
                self.stop_analysis().1 + seq![
                    send(UciCommandView::Quit),
                    EngineActionView::Teardown,
                ],
            )
        }
    }
}

/// Capping after every insertion keeps what capping once at the end keeps.
pub proof fn lemma_keep_last_push<T>(s: Seq<T>, x: T, cap: nat)
    ensures
        keep_last(keep_last(s, cap).push(x), cap) == keep_last(s.push(x), cap),
{
    assert(keep_last(keep_last(s, cap).push(x), cap) =~= keep_last(s.push(x), cap));
}

/// Taking a line in keeps the session well formed.
pub proof fn lemma_ingest_wf(s: EngineState, line: Seq<char>)
    requires
        s.wf(),
    ensures
        s.ingest(line).wf(),
{
}

/// Every event keeps the session well formed.
pub proof fn lemma_apply_wf(s: EngineState, event: EngineEventView)
    requires
        s.wf(),
    ensures
        s.apply(event).wf(),
{
    match event {
        EngineEventView::Exited => {
            lemma_ingest_wf(
                EngineState { running: false, analyzing: false, ..s },
                event_line(event),
            );
        },
        _ => {
            lemma_ingest_wf(s, event_line(event));
        },
    }
}

/// Every sequence of events keeps the session well formed.
pub proof fn lemma_apply_all_wf(s: EngineState, events: Seq<EngineEventView>)
    requires
        s.wf(),
    ensures
        s.apply_all(events).wf(),
    decreases events.len(),
{
    if events.len() > 0 {
        lemma_apply_all_wf(s, events.drop_last());
        lemma_apply_wf(s.apply_all(events.drop_last()), events.last());
    }
}

/// Every operation of the session keeps it well formed.
pub proof fn law_operations_keep_wf(s: EngineState, fen: Seq<char>, events: Seq<EngineEventView>)
    requires
        s.wf(),
    ensures
        EngineState::initial().wf(),
        s.reset().wf(),
        s.clear_output().wf(),
        s.started().wf(),
        s.stop_analysis().0.wf(),
        s.start_analysis(fen).0.wf(),
        s.stop().0.wf(),
        s.poll(events).0.wf(),
{
    lemma_ingest_wf(EngineState { running: true, ..s }, "[Engine started]"@);
    lemma_ingest_wf(EngineState { running: false, analyzing: false, ..s }, "[Engine stopped]"@);
    lemma_apply_all_wf(s, events);
}

/// However many events arrive one at a time, the history holds the latest
/// hundred lines of everything that was ever in it, in their order.
pub proof fn law_history_keeps_latest(s: EngineState, events: Seq<EngineEventView>)
    requires
        s.output.len() <= MAX_OUTPUT_LINES,
    ensures
        s.apply_all(events).output == keep_last(
            s.output + event_records(events),
            MAX_OUTPUT_LINES as nat,
        ),
        s.apply_all(events).output.len() == if s.output.len() + events.len()
            <= MAX_OUTPUT_LINES {
            s.output.len() + events.len()
        } else {
            MAX_OUTPUT_LINES as nat
        },
    decreases events.len(),
{
    let cap = MAX_OUTPUT_LINES as nat;
    if events.len() == 0 {
        assert(s.output + event_records(events) =~= s.output);
    } else {
        let front = events.drop_last();
        let before = s.apply_all(front);
        law_history_keeps_latest(s, front);
        let record = output_of(event_line(events.last()));
        assert(s.apply_all(events).output == keep_last(before.output.push(record), cap));
        lemma_keep_last_push(s.output + event_records(front), record, cap);
        assert((s.output + event_records(front)).push(record) =~= s.output + event_records(
            events,
        ));
    }
}

/// What a sequence of events does to the flags: the session runs, and
/// analyses, afterwards exactly if it did before and the stream did not end.
pub proof fn law_only_exit_stops(s: EngineState, events: Seq<EngineEventView>)
    ensures
        s.apply_all(events).running == (s.running && !events.contains(EngineEventView::Exited)),
        s.apply_all(events).analyzing == (s.analyzing && !events.contains(
            EngineEventView::Exited,
        )),
        s.apply_all(events).black_to_move == s.black_to_move,
        s.apply_all(events).current_fen == s.current_fen,
    decreases events.len(),
{
    if events.len() > 0 {
        let front = events.drop_last();
        law_only_exit_stops(s, front);
        assert(events[events.len() - 1] == events.last());
        assert(forall|i: int| 0 <= i < front.len() ==> front[i] == events[i]);
        if front.contains(EngineEventView::Exited) {
            let i = choose|i: int| 0 <= i < front.len() && front[i] == EngineEventView::Exited;
            assert(events[i] == EngineEventView::Exited);
        }
        if events.contains(EngineEventView::Exited) && events.last()
            != EngineEventView::Exited {
            let i = choose|i: int| 0 <= i < events.len() && events[i] == EngineEventView::Exited;
            assert(front[i] == EngineEventView::Exited);
        }
    }
}

/// The last read of a reader, and no other, reports the exit; it reports it
/// once and as its last event, whether or not an error goes before it.
pub proof fn law_reader_ends_with_exit(outcome: ReadOutcomeView)
    ensures
        reader_goes_on(outcome) <==> !reader_events(outcome).contains(EngineEventView::Exited),
        !reader_goes_on(outcome) ==> reader_events(outcome).last() == EngineEventView::Exited
            && !reader_events(outcome).drop_last().contains(EngineEventView::Exited),
{
    let events = reader_events(outcome);
    match outcome {
        ReadOutcomeView::Line(line) => {
            if events.contains(EngineEventView::Exited) {
                let i = choose|i: int| 0 <= i < events.len() && events[i] == EngineEventView::Exited;
                assert(events[0] == EngineEventView::Output(line));
            }
        },
        ReadOutcomeView::Failed(message) => {
            assert(events[1] == EngineEventView::Exited);
            let front = events.drop_last();
            if front.contains(EngineEventView::Exited) {
                let i = choose|i: int| 0 <= i < front.len() && front[i] == EngineEventView::Exited;
                assert(front[0] == EngineEventView::Error(message));
            }
        },
        ReadOutcomeView::Closed => {
            assert(events[0] == EngineEventView::Exited);
        },
    }
}

/// The read errors `messages` as events, in order.
pub open spec fn error_events(messages: Seq<Seq<char>>) -> Seq<EngineEventView> {
    messages.map_values(|m: Seq<char>| EngineEventView::Error(m))
}

/// When the engine's output ends, after any number of read errors, the
/// session stops running and analysing, and the history gains the errors and
/// then the exit marker, which none of the error lines is.
pub proof fn law_exit_after_errors(s: EngineState, messages: Seq<Seq<char>>)
    requires
        s.output.len() <= MAX_OUTPUT_LINES,
    ensures
        ({
            let events = error_events(messages).push(EngineEventView::Exited);
            let t = s.apply_all(events);
            &&& !t.running
            &&& !t.analyzing
            &&& t.output == keep_last(
                s.output + event_records(error_events(messages)) + seq![
                    output_of("[Engine exited]"@),
                ],
                MAX_OUTPUT_LINES as nat,
            )
            &&& forall|i: int|
                0 <= i < messages.len() ==> (#[trigger] event_records(
                    error_events(messages),
                )[i]).raw != "[Engine exited]"@
            &&& s.apply_all(error_events(messages)).running == s.running
        }),
{
    let errors = error_events(messages);
    let events = errors.push(EngineEventView::Exited);
    law_history_keeps_latest(s, events);
    law_only_exit_stops(s, events);
    law_only_exit_stops(s, errors);
    assert(events.last() == EngineEventView::Exited);
    assert(events[events.len() - 1] == EngineEventView::Exited);
    assert(event_records(events) =~= event_records(errors) + seq![output_of("[Engine exited]"@)]);
    assert(s.output + event_records(events) =~= s.output + event_records(errors) + seq![
        output_of("[Engine exited]"@),
    ]);
    assert forall|i: int| 0 <= i < messages.len() implies (#[trigger] event_records(errors)[i]).raw
        != "[Engine exited]"@ by {
        reveal_strlit("[Engine exited]");
        reveal_strlit("[Error: ");
        let line = error_line(messages[i]);
        assert(line[2] == 'r');
        assert("[Engine exited]"@[2] == 'n');
    }
    if errors.contains(EngineEventView::Exited) {
        let i = choose|i: int| 0 <= i < errors.len() && errors[i] == EngineEventView::Exited;
        assert(errors[i] == EngineEventView::Error(messages[i]));
    }
}

/// Stopping a session that was just stopped does nothing: no action is asked
/// for, so the process is not ended a second time, and the session stays as
/// it is.
pub proof fn law_stop_twice(s: EngineState)
    ensures
        !s.stop().0.running,
        s.wf() ==> !s.stop().0.analyzing,
        s.stop().0.stop() == (s.stop().0, Seq::<EngineActionView>::empty()),
{
}

/// A new analysis starts from no lines: resetting empties the analysis and
/// leaves everything else, the history included, as it was.
pub proof fn law_reset_keeps_history(s: EngineState)
    ensures
        s.reset().analysis == Map::<u32, UciInfoView>::empty(),
        s.reset().output == s.output,
        s.reset() == (EngineState { analysis: Map::empty(), ..s }),
        forall|fen: Seq<char>|
            s.running ==> (#[trigger] s.start_analysis(fen)).0.analysis == Map::<
                u32,
                UciInfoView,
            >::empty() && s.start_analysis(fen).0.output == s.output,
{
}

} // verus!
