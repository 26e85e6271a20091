//! The dashboard's state and the decisions of its user interface: the bounded
//! message log, starting and stopping the server, sending the typed message,
//! taking in received messages, navigation, and how things are labelled and
//! coloured.
use vstd::prelude::*;
use vstd::string::*;
use crate::models::{LogEntry, LogRecord, MessageDirection, MAX_LOGS};
use crate::network::DEFAULT_PORT;
use crate::text::{
    chars_of, contains_chars, contains_seq, decimal, push_decimal, push_str_chars,
    string_from_chars, string_views,
};

verus! {

/// The page that the dashboard shows.
#[derive(Debug, Clone, Copy, PartialEq, Eq, Structural)]
pub enum ActiveView {
    TcpLogs,
    Canvas1,
    Canvas2,
    Canvas3,
}

/// When the user interface should be drawn again.
#[derive(Debug, Clone, Copy, PartialEq, Eq, Structural)]
pub enum Repaint {
    /// At once.
    Now,
    /// After the given number of milliseconds.
    After(u64),
}

/// A colour as red, green and blue components.
#[derive(Debug, Clone, Copy, PartialEq, Eq, Structural)]
pub struct Rgb {
    pub r: u8,
    pub g: u8,
    pub b: u8,
}

pub open spec fn rgb(r: u8, g: u8, b: u8) -> Rgb {
    Rgb { r, g, b }
}

/// The mathematical value of the dashboard's state.
pub struct AppState {
    /// The message being typed.
    pub input: Seq<char>,
    /// The log, oldest entry first.
    pub logs: Seq<LogRecord>,
    /// The port shown in the toolbar and named when the server starts.
    pub port: u16,
    pub active_view: ActiveView,
}

/// The dashboard's state.
pub struct App {
    input_text: String,
    logs: Vec<LogEntry>,
    port: u16,
    active_view: ActiveView,
}

/// The views of a sequence of log entries.
pub open spec fn entry_views(es: Seq<LogEntry>) -> Seq<LogRecord> {
    es.map_values(|e: LogEntry| e@)
}

/// The log after adding one record: when it is full, the oldest record
/// makes room.
pub open spec fn bounded_push(logs: Seq<LogRecord>, r: LogRecord) -> Seq<LogRecord> {
    if logs.len() >= MAX_LOGS {
        logs.drop_first().push(r)
    } else {
        logs.push(r)
    }
}

/// The log after adding records one after the other.
pub open spec fn bounded_extend(logs: Seq<LogRecord>, recs: Seq<LogRecord>) -> Seq<LogRecord>
    decreases recs.len(),
{
    if recs.len() == 0 {
        logs
    } else {
        bounded_push(bounded_extend(logs, recs.drop_last()), recs.last())
    }
}

/// The last `MAX_LOGS` records of `s` (all of them when there are fewer).
pub open spec fn latest(s: Seq<LogRecord>) -> Seq<LogRecord> {
    if s.len() > MAX_LOGS {
        s.skip(s.len() - MAX_LOGS)
    } else {
        s
    }
}

/// Received messages as log records, all stamped with `now_ms`.
pub open spec fn incoming_records(now_ms: u64, msgs: Seq<Seq<char>>) -> Seq<LogRecord> {
    Seq::new(
        msgs.len(),
        |i: int| LogRecord { timestamp_ms: now_ms, message: msgs[i], direction: MessageDirection::Incoming },
    )
}

/// The greeting the log starts with.
pub open spec fn greeting() -> Seq<char> {
    "Ready. Click Start Server to begin listening."@
}

/// The system message logged when the server is toggled.
pub open spec fn toggle_message(was_running: bool, port: u16) -> Seq<char> {
    if was_running {
        "Server stopping..."@
    } else {
        "Server started on 127.0.0.1:"@ + decimal(port as nat)
    }
}

/// The colour of a log line: received messages green, sent ones blue;
/// system messages green when they tell of a start, red when they tell of
/// a stop, grey otherwise.
pub open spec fn log_color_of(r: LogRecord) -> Rgb {
    match r.direction {
        MessageDirection::Incoming => rgb(46, 204, 113),
        MessageDirection::Outgoing => rgb(52, 152, 219),
        MessageDirection::System => if contains_seq(r.message, "started"@) {
            rgb(39, 174, 96)
        } else if contains_seq(r.message, "stopp"@) {
            rgb(192, 57, 43)
        } else {
            rgb(200, 200, 200)
        },
    }
}

/// The log colour of an entry.
pub fn log_color(entry: &LogEntry) -> (c: Rgb)
    ensures
        c == log_color_of(entry@),
{
    match entry.direction {
        MessageDirection::Incoming => Rgb { r: 46, g: 204, b: 113 },
        MessageDirection::Outgoing => Rgb { r: 52, g: 152, b: 219 },
        MessageDirection::System => {
            let msg = chars_of(entry.message.as_str());
            let started = chars_of("started");
            let stopping = chars_of("stopp");
            if contains_chars(&msg, &started) {
                Rgb { r: 39, g: 174, b: 96 }
            } else if contains_chars(&msg, &stopping) {
                Rgb { r: 192, g: 57, b: 43 }
            } else {
                Rgb { r: 200, g: 200, b: 200 }
            }
        },
    }
}

/// The label and colour of the server's status badge.
pub fn status_style(running: bool) -> (s: (String, Rgb))
    ensures
        running ==> s.0@ == "RUNNING"@ && s.1 == rgb(46, 204, 113),
        !running ==> s.0@ == "STOPPED"@ && s.1 == rgb(149, 165, 166),
{
    if running {
        (String::from_str("RUNNING"), Rgb { r: 46, g: 204, b: 113 })
    } else {
        (String::from_str("STOPPED"), Rgb { r: 149, g: 165, b: 166 })
    }
}

/// The label and colour of the button that starts or stops the server.
pub fn server_button_style(running: bool) -> (s: (String, Rgb))
    ensures
        running ==> s.0@ == "Stop Server"@ && s.1 == rgb(192, 57, 43),
        !running ==> s.0@ == "Start Server"@ && s.1 == rgb(39, 174, 96),
{
    if running {
        (String::from_str("Stop Server"), Rgb { r: 192, g: 57, b: 43 })
    } else {
        (String::from_str("Start Server"), Rgb { r: 39, g: 174, b: 96 })
    }
}

pub proof fn lemma_entry_views_push(es: Seq<LogEntry>, e: LogEntry)
    ensures
        entry_views(es.push(e)) == entry_views(es).push(e@),
{
    assert(entry_views(es.push(e)) =~= entry_views(es).push(e@));
}

pub proof fn lemma_latest_len(s: Seq<LogRecord>)
    ensures
        latest(s).len() <= MAX_LOGS,
        s.len() <= MAX_LOGS ==> latest(s) == s,
{
}

pub proof fn lemma_bounded_push_is_latest(logs: Seq<LogRecord>, r: LogRecord)
    requires
        logs.len() <= MAX_LOGS,
    ensures
        bounded_push(logs, r) == latest(logs.push(r)),
{
    if logs.len() >= MAX_LOGS {
        assert(logs.drop_first().push(r) =~= logs.push(r).skip(1));
    }
}

pub proof fn lemma_latest_push_latest(s: Seq<LogRecord>, r: LogRecord)
    ensures
        latest(latest(s).push(r)) == latest(s.push(r)),
{
    if s.len() > MAX_LOGS {
        assert(latest(s).push(r).skip(1) =~= s.push(r).skip(s.len() + 1 - MAX_LOGS));
    } else if s.len() == MAX_LOGS {
    }
}

/// Law of the log: whatever was in a valid log before, after adding records one
/// by one it holds exactly the last `MAX_LOGS` of the old entries followed by
/// the new ones, in order.
pub proof fn law_log_keeps_latest(logs: Seq<LogRecord>, recs: Seq<LogRecord>)
    requires
        logs.len() <= MAX_LOGS,
    ensures
        bounded_extend(logs, recs) == latest(logs + recs),
        bounded_extend(logs, recs).len() <= MAX_LOGS,
    decreases recs.len(),
{
    if recs.len() == 0 {
        assert(logs + recs =~= logs);
    } else {
        let dl = recs.drop_last();
        law_log_keeps_latest(logs, dl);
        lemma_latest_len(logs + dl);
        lemma_bounded_push_is_latest(latest(logs + dl), recs.last());
        lemma_latest_push_latest(logs + dl, recs.last());
        assert((logs + dl).push(recs.last()) =~= logs + recs);
    }
    lemma_latest_len(logs + recs);
}

/// Law of the log: an added record always becomes the newest (last) entry,
/// and the log grows by one until it is full, then keeps its length; the
/// entries before it are the old ones, less only the oldest when it was full.
pub proof fn law_newest_entry_last(logs: Seq<LogRecord>, r: LogRecord)
    requires
        logs.len() <= MAX_LOGS,
    ensures
        bounded_push(logs, r).last() == r,
        logs.len() < MAX_LOGS ==> forall|k: int|
            0 <= k < logs.len() ==> #[trigger] bounded_push(logs, r)[k] == logs[k],
        logs.len() == MAX_LOGS ==> forall|k: int|
            0 <= k < logs.len() - 1 ==> #[trigger] bounded_push(logs, r)[k] == logs[k + 1],
        bounded_push(logs, r).len() == if logs.len() < MAX_LOGS {
            logs.len() + 1
        } else {
            MAX_LOGS as nat
        },
{
}

impl View for App {
    type V = AppState;

    closed spec fn view(&self) -> AppState {
        AppState {
            input: self.input_text@,
            logs: entry_views(self.logs@),
            port: self.port,
            active_view: self.active_view,
        }
    }
}

impl App {
    /// The log never holds more than `MAX_LOGS` entries.
    #[verifier::type_invariant]
    spec fn log_bounded(&self) -> bool {
        self.logs@.len() <= MAX_LOGS
    }

    /// Whether the log holds at most `MAX_LOGS` entries, as every `App` does.
    pub open spec fn wf(&self) -> bool {
        self@.logs.len() <= MAX_LOGS
    }

    /// A dashboard with nothing typed, showing the log page, whose log holds
    /// the greeting at time zero.
    pub fn new() -> (app: App)
        ensures
            app.wf(),
            app@.input == Seq::<char>::empty(),
            app@.logs == seq![
                LogRecord {
                    timestamp_ms: 0,
                    message: greeting(),
                    direction: MessageDirection::System,
                },
            ],
            app@.port == DEFAULT_PORT,
            app@.active_view == ActiveView::TcpLogs,
    {
        let greet = LogEntry::new(
            0,
            String::from_str("Ready. Click Start Server to begin listening."),
            MessageDirection::System,
        );
        let mut logs: Vec<LogEntry> = Vec::new();
        logs.push(greet);
        let app = App {
            input_text: String::new(),
            logs,
            port: DEFAULT_PORT,
            active_view: ActiveView::TcpLogs,
        };
        assert(app@.logs =~= seq![
            LogRecord {
                timestamp_ms: 0,
                message: greeting(),
                direction: MessageDirection::System,
            },
        ]);
        app
    }

    /// The message being typed.
    pub fn input_text(&self) -> (s: &str)
        ensures
            s@ == self@.input,
    {
        proof {
            use_type_invariant(&*self);
        }
        self.input_text.as_str()
    }

    /// Replaces the message being typed.
    pub fn set_input_text(&mut self, text: String)
        ensures
            final(self)@.input == text@,
            final(self)@.logs == old(self)@.logs,
            final(self)@.port == old(self)@.port,
            final(self)@.active_view == old(self)@.active_view,
    {
        proof {
            use_type_invariant(&*self);
        }
        self.input_text = text;
    }

    /// The log, oldest entry first.
    pub fn logs(&self) -> (l: &Vec<LogEntry>)
        ensures
            entry_views(l@) == self@.logs,
    {
        proof {
            use_type_invariant(&*self);
        }
        &self.logs
    }

    pub fn port(&self) -> (p: u16)
        ensures
            p == self@.port,
    {
        proof {
            use_type_invariant(&*self);
        }
        self.port
    }

    pub fn active_view(&self) -> (v: ActiveView)
        ensures
            v == self@.active_view,
    {
        proof {
            use_type_invariant(&*self);
        }
        self.active_view
    }

    /// Switches to another page.
    pub fn select_view(&mut self, view: ActiveView)
        ensures
            final(self)@.active_view == view,
            final(self)@.input == old(self)@.input,
            final(self)@.logs == old(self)@.logs,
            final(self)@.port == old(self)@.port,
    {
        proof {
            use_type_invariant(&*self);
        }
        self.active_view = view;
    }

    /// Whether the toolbar and the input bar are shown (only on the log page).
    pub fn shows_log_tools(&self) -> (b: bool)
        ensures
            b == (self@.active_view == ActiveView::TcpLogs),
    {
        proof {
            use_type_invariant(&*self);
        }
        self.active_view == ActiveView::TcpLogs
    }

    /// Adds an entry at the end of the log; when the log is full, its oldest
    /// entry is dropped first.
    pub fn add_log(&mut self, timestamp_ms: u64, message: String, direction: MessageDirection)
        ensures
            final(self).wf(),
            final(self)@.logs == bounded_push(
                old(self)@.logs,
                LogRecord { timestamp_ms, message: message@, direction },
            ),
            final(self)@.input == old(self)@.input,
            final(self)@.port == old(self)@.port,
            final(self)@.active_view == old(self)@.active_view,
    {
        proof {
            use_type_invariant(&*self);
        }
        let mut logs: Vec<LogEntry> = Vec::new();
        std::mem::swap(&mut logs, &mut self.logs);
        let ghost before = logs@;
        if logs.len() >= MAX_LOGS {
            logs.remove(0);
            assert(entry_views(logs@) =~= entry_views(before).drop_first());
        }
        let entry = LogEntry::new(timestamp_ms, message, direction);
        proof {
            lemma_entry_views_push(logs@, entry);
        }
        logs.push(entry);
        self.logs = logs;
    }

    /// Empties the log.
    pub fn clear_logs(&mut self)
        ensures
            final(self).wf(),
            final(self)@.logs == Seq::<LogRecord>::empty(),
            final(self)@.input == old(self)@.input,
            final(self)@.port == old(self)@.port,
            final(self)@.active_view == old(self)@.active_view,
    {
        proof {
            use_type_invariant(&*self);
        }
        self.logs = Vec::new();
        assert(entry_views(self.logs@) =~= Seq::<LogRecord>::empty());
    }

    /// Starts or stops the server: gives the server's new running flag (the
    /// opposite of `was_running`) and logs a system message that says so.
    pub fn toggle_server(&mut self, was_running: bool, now_ms: u64) -> (running: bool)
        ensures
            final(self).wf(),
            running == !was_running,
            final(self)@.logs == bounded_push(
                old(self)@.logs,
                LogRecord {
                    timestamp_ms: now_ms,
                    message: toggle_message(was_running, old(self)@.port),
                    direction: MessageDirection::System,
                },
            ),
            final(self)@.input == old(self)@.input,
            final(self)@.port == old(self)@.port,
            final(self)@.active_view == old(self)@.active_view,
    {
        proof {
            use_type_invariant(&*self);
        }
        if was_running {
            self.add_log(now_ms, String::from_str("Server stopping..."), MessageDirection::System);
            false
        } else {
            let mut text: Vec<char> = Vec::new();
            push_str_chars(&mut text, "Server started on 127.0.0.1:");
            push_decimal(&mut text, self.port as u64);
            let message = string_from_chars(&text);
            self.add_log(now_ms, message, MessageDirection::System);
            true
        }
    }

    /// Whether the typed message can be sent.
    pub fn can_send(&self, running: bool) -> (b: bool)
        ensures
            b == (running && self@.input.len() > 0),
    {
        proof {
            use_type_invariant(&*self);
        }
        running && !self.input_text.as_str().is_empty()
    }

    /// Sends the typed message: when the server runs and something is typed,
    /// gives the message to send, logs it as outgoing and clears the input;
    /// otherwise gives nothing and changes nothing.
    pub fn send_message(&mut self, running: bool, now_ms: u64) -> (sent: Option<String>)
        ensures
            final(self).wf(),
            final(self)@.port == old(self)@.port,
            final(self)@.active_view == old(self)@.active_view,
            (old(self)@.input.len() == 0 || !running) ==> sent is None && final(self)@ == old(
                self,
            )@,
            (old(self)@.input.len() > 0 && running) ==> {
                &&& sent matches Some(m) && m@ == old(self)@.input
                &&& final(self)@.input == Seq::<char>::empty()
                &&& final(self)@.logs == bounded_push(
                    old(self)@.logs,
                    LogRecord {
                        timestamp_ms: now_ms,
                        message: old(self)@.input,
                        direction: MessageDirection::Outgoing,
                    },
                )
            },
    {
        proof {
            use_type_invariant(&*self);
        }
        if self.input_text.as_str().is_empty() || !running {
            return None;
        }
        let msg = self.input_text.clone();
        let logged = self.input_text.clone();
        self.add_log(now_ms, logged, MessageDirection::Outgoing);
        self.input_text = String::new();
        Some(msg)
    }

    /// Logs received messages, in order, all stamped with `now_ms`; tells
    /// whether there were any.
    pub fn receive_messages(&mut self, now_ms: u64, msgs: Vec<String>) -> (new_data: bool)
        ensures
            final(self).wf(),
            new_data == (msgs@.len() > 0),
            final(self)@.logs == bounded_extend(
                old(self)@.logs,
                incoming_records(now_ms, string_views(msgs@)),
            ),
            final(self)@.input == old(self)@.input,
            final(self)@.port == old(self)@.port,
            final(self)@.active_view == old(self)@.active_view,
    {
        proof {
            use_type_invariant(&*self);
        }
        let n = msgs.len();
        let ghost start = self@;
        let ghost views = string_views(msgs@);
        assert(incoming_records(now_ms, views.take(0)) =~= Seq::<LogRecord>::empty());
        for i in 0..n
            invariant
                n == msgs@.len(),
                views == string_views(msgs@),
                self.wf(),
                self@.logs == bounded_extend(start.logs, incoming_records(now_ms, views.take(i as int))),
                self@.input == start.input,
                self@.port == start.port,
                self@.active_view == start.active_view,
        {
            let m = msgs[i].clone();
            self.add_log(now_ms, m, MessageDirection::Incoming);
            proof {
                let recs = incoming_records(now_ms, views.take(i + 1));
                assert(recs.drop_last() =~= incoming_records(now_ms, views.take(i as int)));
                assert(recs.last() == LogRecord {
                    timestamp_ms: now_ms,
                    message: msgs@[i as int]@,
                    direction: MessageDirection::Incoming,
                });
            }
        }
        assert(views.take(n as int) =~= views);
        n > 0
    }

    /// When to draw again: at once when messages arrived, something is typed
    /// or input events are pending; otherwise after half a second.
    pub fn repaint(&self, new_data: bool, has_events: bool) -> (r: Repaint)
        ensures
            (new_data || self@.input.len() > 0 || has_events) ==> r == Repaint::Now,
            !(new_data || self@.input.len() > 0 || has_events) ==> r == Repaint::After(500),
    {
        proof {
            use_type_invariant(&*self);
        }
        if new_data || !self.input_text.as_str().is_empty() || has_events {
            Repaint::Now
        } else {
            Repaint::After(500)
        }
    }

    /// The toolbar's message count, such as `3 messages`.
    pub fn message_count_label(&self) -> (s: String)
        ensures
            s@ == decimal(self@.logs.len()) + " messages"@,
    {
        proof {
            use_type_invariant(&*self);
        }
        let mut text: Vec<char> = Vec::new();
        push_decimal(&mut text, self.logs.len() as u64);
        push_str_chars(&mut text, " messages");
        string_from_chars(&text)
    }

    /// The toolbar's port label, such as `Port: 8080`.
    pub fn port_label(&self) -> (s: String)
        ensures
            s@ == "Port: "@ + decimal(self@.port as nat),
    {
        proof {
            use_type_invariant(&*self);
        }
        let mut text: Vec<char> = Vec::new();
        push_str_chars(&mut text, "Port: ");
        push_decimal(&mut text, self.port as u64);
        string_from_chars(&text)
    }
}

} // verus!
