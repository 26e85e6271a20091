//! Log entries: what the dashboard records, and how one entry is rendered as
//! a line of text.
use vstd::prelude::*;
use vstd::string::*;
use crate::text::{decimal, push_str_chars, push_zero_padded, string_from_chars, zero_padded};
use crate::text_laws::{all_digits, law_zero_padded_reads_back, numeral_value};

verus! {

/// The most entries the dashboard's log holds at once.
pub const MAX_LOGS: usize = 500;

/// Where a logged message came from.
#[derive(Debug, Clone, Copy, PartialEq, Eq, Structural)]
pub enum MessageDirection {
    Incoming,
    Outgoing,
    System,
}

/// One line of the dashboard's log.
pub struct LogEntry {
    pub timestamp_ms: u64,
    pub message: String,
    pub direction: MessageDirection,
}

/// The mathematical value of a `LogEntry`.
pub struct LogRecord {
    pub timestamp_ms: u64,
    pub message: Seq<char>,
    pub direction: MessageDirection,
}

impl View for LogEntry {
    type V = LogRecord;

    open spec fn view(&self) -> LogRecord {
        LogRecord {
            timestamp_ms: self.timestamp_ms,
            message: self.message@,
            direction: self.direction,
        }
    }
}

/// The tag that a rendered line carries for each direction.
pub open spec fn direction_prefix(direction: MessageDirection) -> Seq<char> {
    match direction {
        MessageDirection::Incoming => "[IN] "@,
        MessageDirection::Outgoing => "[OUT] "@,
        MessageDirection::System => ""@,
    }
}

/// `[MM:SS.mmm] ` for a time in milliseconds: whole minutes (at least two
/// digits), the seconds within the minute and the milliseconds within the
/// second.
pub open spec fn clock_stamp(timestamp_ms: u64) -> Seq<char> {
    "["@ + zero_padded((timestamp_ms / 60000) as nat, 2) + ":"@ + zero_padded(
        ((timestamp_ms / 1000) % 60) as nat,
        2,
    ) + "."@ + zero_padded((timestamp_ms % 1000) as nat, 3) + "] "@
}

/// The rendered line of a log record.
pub open spec fn format_record(r: LogRecord) -> Seq<char> {
    clock_stamp(r.timestamp_ms) + direction_prefix(r.direction) + r.message
}

/// Law of the rendered time: the minutes, seconds and milliseconds shown for
/// a timestamp add up to it exactly, with seconds below 60 and milliseconds
/// below 1000.
pub proof fn law_clock_stamp_exact(timestamp_ms: u64)
    ensures
        (timestamp_ms / 60000) * 60000 + ((timestamp_ms / 1000) % 60) * 1000 + timestamp_ms % 1000
            == timestamp_ms,
        (timestamp_ms / 1000) % 60 < 60,
        timestamp_ms % 1000 < 1000,
{
    let t = timestamp_ms as int;
    assert(t == (t / 1000) * 1000 + t % 1000) by (nonlinear_arith);
    assert(t / 1000 == ((t / 1000) / 60) * 60 + (t / 1000) % 60) by (nonlinear_arith);
    assert((t / 1000) / 60 == t / 60000) by (nonlinear_arith)
        requires t >= 0;
    assert(t == (t / 60000) * 60000 + ((t / 1000) % 60) * 1000 + t % 1000) by (nonlinear_arith)
        requires
            t == (t / 1000) * 1000 + t % 1000,
            t / 1000 == ((t / 1000) / 60) * 60 + (t / 1000) % 60,
            (t / 1000) / 60 == t / 60000,
    ;
}

pub proof fn lemma_decimal_short(n: nat)
    ensures
        n < 10 ==> decimal(n).len() == 1,
        n < 100 ==> decimal(n).len() <= 2,
        n < 1000 ==> decimal(n).len() <= 3,
        decimal(n).len() >= 1,
    decreases n,
{
    if n >= 10 {
        lemma_decimal_short(n / 10);
    }
}

/// Law of the rendered time: the stamp is `[`, the minutes, `:`, two digits
/// of seconds, `.`, three digits of milliseconds, `] `; each field reads back
/// as the minutes, seconds within the minute and milliseconds within the
/// second of the timestamp, and the minutes take two digits below 100
/// minutes.
pub proof fn law_clock_stamp_reads_back(ts: u64)
    ensures
        ({
            let c = clock_stamp(ts);
            let k = c.len() - 10;
            &&& k >= 2
            &&& ts / 60000 < 100 ==> k == 2
            &&& c[0] == '['
            &&& all_digits(c.subrange(1, 1 + k))
            &&& numeral_value(c.subrange(1, 1 + k)) == ts / 60000
            &&& c[1 + k] == ':'
            &&& all_digits(c.subrange(2 + k, 4 + k))
            &&& numeral_value(c.subrange(2 + k, 4 + k)) == (ts / 1000) % 60
            &&& c[4 + k] == '.'
            &&& all_digits(c.subrange(5 + k, 8 + k))
            &&& numeral_value(c.subrange(5 + k, 8 + k)) == ts % 1000
            &&& c[8 + k] == ']'
            &&& c[9 + k] == ' '
        }),
{
    let m = (ts / 60000) as nat;
    let sec = ((ts / 1000) % 60) as nat;
    let ms = (ts % 1000) as nat;
    law_zero_padded_reads_back(m, 2);
    law_zero_padded_reads_back(sec, 2);
    law_zero_padded_reads_back(ms, 3);
    lemma_decimal_short(m);
    lemma_decimal_short(sec);
    lemma_decimal_short(ms);
    let z1 = zero_padded(m, 2);
    let z2 = zero_padded(sec, 2);
    let z3 = zero_padded(ms, 3);
    reveal_strlit("[");
    reveal_strlit(":");
    reveal_strlit(".");
    reveal_strlit("] ");
    let c = clock_stamp(ts);
    let k = z1.len() as int;
    assert(c == "["@ + z1 + ":"@ + z2 + "."@ + z3 + "] "@);
    assert(c.len() == k + 10);
    assert(c.subrange(1, 1 + k) =~= z1);
    assert(c.subrange(2 + k, 4 + k) =~= z2);
    assert(c.subrange(5 + k, 8 + k) =~= z3);
    assert(c[0] == '[');
    assert(c[1 + k] == ':');
    assert(c[4 + k] == '.');
    assert(c[8 + k] == ']');
    assert(c[9 + k] == ' ');
}

/// Law of the rendered line: it starts with the time stamp, ends with the
/// message, and between them stands the direction's tag: five characters for
/// received messages, six for sent ones, none for system messages.
pub proof fn law_format_layout(r: LogRecord)
    ensures
        ({
            let f = format_record(r);
            let c = clock_stamp(r.timestamp_ms);
            let tag: int = match r.direction {
                MessageDirection::Incoming => 5,
                MessageDirection::Outgoing => 6,
                MessageDirection::System => 0,
            };
            &&& f.len() == c.len() + tag + r.message.len()
            &&& f.take(c.len() as int) == c
            &&& f.skip(c.len() + tag) == r.message
        }),
{
    reveal_strlit("[IN] ");
    reveal_strlit("[OUT] ");
    reveal_strlit("");
    let f = format_record(r);
    let c = clock_stamp(r.timestamp_ms);
    let p = direction_prefix(r.direction);
    assert(f == c + p + r.message);
    assert(f.take(c.len() as int) =~= c);
    assert(f.skip((c.len() + p.len()) as int) =~= r.message);
}

impl LogEntry {
    pub fn new(timestamp_ms: u64, message: String, direction: MessageDirection) -> (e: LogEntry)
        ensures
            e.timestamp_ms == timestamp_ms,
            e.message == message,
            e.direction == direction,
    {
        LogEntry { timestamp_ms, message, direction }
    }

    /// Renders the entry as `[MM:SS.mmm] <prefix><message>`.
    pub fn format(&self) -> (line: String)
        ensures
            line@ == format_record(self@),
    {
        let ts = self.timestamp_ms;
        let mut out: Vec<char> = Vec::new();
        push_str_chars(&mut out, "[");
        push_zero_padded(&mut out, ts / 60000, 2);
        push_str_chars(&mut out, ":");
        push_zero_padded(&mut out, (ts / 1000) % 60, 2);
        push_str_chars(&mut out, ".");
        push_zero_padded(&mut out, ts % 1000, 3);
        push_str_chars(&mut out, "] ");
        match self.direction {
            MessageDirection::Incoming => push_str_chars(&mut out, "[IN] "),
            MessageDirection::Outgoing => push_str_chars(&mut out, "[OUT] "),
            MessageDirection::System => push_str_chars(&mut out, ""),
        }
        push_str_chars(&mut out, self.message.as_str());
        assert(out@ =~= format_record(self@));
        string_from_chars(&out)
    }
}

} // verus!
