//! The dashboard's TCP protocol: the address the server listens on, how a
//! received request is normalised, which command it names, how a command
//! changes the motor's state, and the fixed replies.
use vstd::prelude::*;
use vstd::string::*;
use vstd::utf8::{
    decode_utf8, encode_utf8, encode_utf8_decode_utf8, encode_utf8_valid_utf8, is_ascii_chars,
    is_ascii_chars_encode_utf8, valid_utf8,
};
use crate::text::{
    char_vec_views, chars_of, decimal, push_decimal, push_str_chars, split_words,
    string_from_chars, string_views, text_is, trim, trim_string, words,
};

verus! {

/// The port the dashboard's server listens on and its client sends to.
pub const DEFAULT_PORT: u16 = 8080;

/// The host part of the server's address.
pub open spec fn default_host() -> Seq<char> {
    "127.0.0.1"@
}

/// `host:port` of the dashboard's server.
pub open spec fn server_address_spec() -> Seq<char> {
    default_host() + ":"@ + decimal(DEFAULT_PORT as nat)
}

/// The address the dashboard's server binds and its client connects to.
pub fn server_address() -> (a: String)
    ensures
        a@ == server_address_spec(),
{
    let mut out: Vec<char> = Vec::new();
    push_str_chars(&mut out, "127.0.0.1");
    push_str_chars(&mut out, ":");
    push_decimal(&mut out, DEFAULT_PORT as u64);
    string_from_chars(&out)
}

/// What `String::from_utf8_lossy` makes of a byte sequence: the UTF-8
/// decoding, with each invalid piece replaced by U+FFFD.
pub uninterp spec fn lossy_utf8(bytes: Seq<u8>) -> Seq<char>;

/// What `str::to_lowercase` makes of a text: its lowercase mapping under
/// the Unicode rules.
pub uninterp spec fn unicode_lowercase(s: Seq<char>) -> Seq<char>;

/// Decodes bytes as UTF-8, replacing invalid pieces (`String::from_utf8_lossy`).
/// Claimed of it: the result is `lossy_utf8` of the bytes, and for valid UTF-8
/// it is the plain decoding, as its documentation says (the input comes back
/// unchanged). How invalid pieces are replaced is not stated.
#[verifier::external_body]
fn decode_lossy(bytes: &[u8]) -> (s: String)
    ensures
        s@ == lossy_utf8(bytes@),
        valid_utf8(bytes@) ==> s@ == decode_utf8(bytes@),
{
    String::from_utf8_lossy(bytes).into_owned()
}

/// A character's ASCII lowercase: `A`–`Z` become `a`–`z`, everything else stays.
pub open spec fn ascii_lower(c: char) -> char {
    let u = c as u32;
    if 65 <= u <= 90 {
        (u + 32) as char
    } else {
        c
    }
}

/// Lowercases a text (`str::to_lowercase`). Claimed of it: the result is
/// `unicode_lowercase` of the text, and on ASCII text it maps `A`–`Z` to
/// `a`–`z` and keeps every other character (Unicode's lowercase mapping of the
/// ASCII range). The mapping beyond ASCII is not stated.
#[verifier::external_body]
fn lowercase(s: &str) -> (r: String)
    ensures
        r@ == unicode_lowercase(s@),
        is_ascii_chars(s@) ==> r@ == s@.map_values(|c: char| ascii_lower(c)),
{
    s.to_lowercase()
}

/// The text of a request as the server reads it: decoded (lossily),
/// lowercased, and trimmed.
pub open spec fn normalized_request(raw: Seq<u8>) -> Seq<char> {
    trim(unicode_lowercase(lossy_utf8(raw)))
}

/// The characters that ASCII bytes stand for.
pub open spec fn ascii_chars_of(raw: Seq<u8>) -> Seq<char> {
    raw.map_values(|b: u8| b as char)
}

/// ASCII bytes are valid UTF-8, and decode to the characters they stand for.
pub proof fn lemma_ascii_bytes_decode(raw: Seq<u8>)
    requires
        forall|i: int| 0 <= i < raw.len() ==> raw[i] < 128,
    ensures
        valid_utf8(raw),
        decode_utf8(raw) == ascii_chars_of(raw),
        is_ascii_chars(ascii_chars_of(raw)),
{
    let chars = ascii_chars_of(raw);
    assert(is_ascii_chars(chars)) by {
        assert forall|i: int| 0 <= i < chars.len() implies '\0' <= #[trigger] chars[i] <= '\u{7f}' by {
            assert(chars[i] == raw[i] as char);
        }
    }
    is_ascii_chars_encode_utf8(chars);
    assert forall|i: int| 0 <= i < chars.len() implies chars[i] as u8 == raw[i] by {
        assert(chars[i] == raw[i] as char);
        assert((raw[i] as char) as u8 == raw[i]);
    }
    assert(encode_utf8(chars) =~= raw);
    encode_utf8_valid_utf8(chars);
    encode_utf8_decode_utf8(chars);
}

/// Turns the bytes of a request into the text that names the command.
///
/// A request made of ASCII bytes is read as its characters, ASCII-lowercased
/// and trimmed, so `STATUS`, `Status` and ` status` name the same command.
pub fn normalize_request(raw: &[u8]) -> (msg: String)
    ensures
        msg@ == normalized_request(raw@),
        (forall|i: int| 0 <= i < raw@.len() ==> raw@[i] < 128) ==> msg@ == trim(
            ascii_chars_of(raw@).map_values(|c: char| ascii_lower(c)),
        ),
{
    proof {
        if forall|i: int| 0 <= i < raw@.len() ==> raw@[i] < 128 {
            lemma_ascii_bytes_decode(raw@);
        }
    }
    let decoded = decode_lossy(raw);
    let lower = lowercase(decoded.as_str());
    trim_string(lower.as_str())
}

/// The state the motor reports.
#[derive(Debug, Clone, Copy, PartialEq, Eq, Structural)]
pub enum MotorState {
    Busy,
    Sleeping,
    Dead,
    On,
    Off,
    Ready,
}

/// The motor's state when the server starts.
pub fn initial_motor_state() -> (s: MotorState)
    ensures
        s == MotorState::Ready,
{
    MotorState::Ready
}

/// A request of the protocol, named by a normalised request text.
#[derive(Debug, Clone, Copy, PartialEq, Eq, Structural)]
pub enum Command {
    /// `status`: report state, axis and world location.
    Status,
    /// `vers`: report the version.
    Version,
    /// `on` or `enable`.
    Enable,
    /// `off` or `disable`.
    Disable,
    /// Anything that starts with `axis`: set the axis from the next three words.
    Axis,
    /// Anything else.
    Unknown,
}

/// The command that a normalised request text names.
pub open spec fn command_of(msg: Seq<char>) -> Command {
    if msg == "status"@ {
        Command::Status
    } else if msg == "vers"@ {
        Command::Version
    } else if msg == "on"@ || msg == "enable"@ {
        Command::Enable
    } else if msg == "off"@ || msg == "disable"@ {
        Command::Disable
    } else if msg.len() >= "axis"@.len() && msg.take("axis"@.len() as int) == "axis"@ {
        Command::Axis
    } else {
        Command::Unknown
    }
}

/// The arguments of an `axis` request: the second, third and fourth words
/// of the text, as far as there are any.
pub open spec fn axis_args_of(msg: Seq<char>) -> Seq<Seq<char>> {
    let ws = words(msg);
    if ws.len() <= 1 {
        Seq::empty()
    } else if ws.len() >= 4 {
        ws.subrange(1, 4)
    } else {
        ws.subrange(1, ws.len() as int)
    }
}

/// The motor's state after a command.
pub open spec fn next_motor_state(state: MotorState, cmd: Command) -> MotorState {
    match cmd {
        Command::Enable => MotorState::On,
        Command::Disable => MotorState::Off,
        _ => state,
    }
}

/// The fixed reply to a command; `status` and `axis` replies carry the motor's
/// numbers and are composed where those are kept.
pub open spec fn fixed_reply(cmd: Command) -> Option<Seq<char>> {
    match cmd {
        Command::Version => Some("the version is 1.2"@),
        Command::Enable => Some("Motor telemetry modified to ON."@),
        Command::Disable => Some("Motor telemetry modified to OFF."@),
        Command::Unknown => Some("i dont see no command like that "@),
        _ => None,
    }
}

/// The reply to an `axis` request whose arguments are not three numbers.
pub open spec fn invalid_axis_reply_spec() -> Seq<char> {
    "invalid man "@
}

impl Command {
    /// The command that a normalised request text names.
    pub fn parse(msg: &str) -> (cmd: Command)
        ensures
            cmd == command_of(msg@),
    {
        let m = msg.to_owned();
        if text_is(&m, "status") {
            Command::Status
        } else if text_is(&m, "vers") {
            Command::Version
        } else if text_is(&m, "on") || text_is(&m, "enable") {
            Command::Enable
        } else if text_is(&m, "off") || text_is(&m, "disable") {
            Command::Disable
        } else {
            let key = "axis";
            let klen = key.unicode_len();
            let mlen = msg.unicode_len();
            if mlen >= klen {
                let head = msg.substring_char(0, klen).to_owned();
                if text_is(&head, key) {
                    return Command::Axis;
                }
            }
            Command::Unknown
        }
    }

    /// The fixed reply to this command, if it has one.
    pub fn reply(&self) -> (r: Option<String>)
        ensures
            r matches Some(s) ==> fixed_reply(*self) == Some(s@),
            r is None ==> fixed_reply(*self) is None,
    {
        match self {
            Command::Version => Some(String::from_str("the version is 1.2")),
            Command::Enable => Some(String::from_str("Motor telemetry modified to ON.")),
            Command::Disable => Some(String::from_str("Motor telemetry modified to OFF.")),
            Command::Unknown => Some(String::from_str("i dont see no command like that ")),
            _ => None,
        }
    }
}

/// The motor's state after a command: `on`/`enable` turn it on,
/// `off`/`disable` turn it off, any other command leaves it.
pub fn apply_command(state: MotorState, cmd: Command) -> (next: MotorState)
    ensures
        next == next_motor_state(state, cmd),
{
    match cmd {
        Command::Enable => MotorState::On,
        Command::Disable => MotorState::Off,
        _ => state,
    }
}

/// The words of an `axis` request that give the x, y and z values.
pub fn axis_args(msg: &str) -> (args: Vec<String>)
    ensures
        string_views(args@) == axis_args_of(msg@),
{
    let cs = chars_of(msg);
    let ws = split_words(&cs);
    let n = ws.len();
    let mut args: Vec<String> = Vec::new();
    if n <= 1 {
        assert(string_views(args@) =~= axis_args_of(msg@));
        return args;
    }
    let end: usize = if n >= 4 {
        4
    } else {
        n
    };
    assert(string_views(args@) =~= char_vec_views(ws@).subrange(1, 1));
    let mut i: usize = 1;
    while i < end
        invariant
            n == ws@.len(),
            end == (if n >= 4 { 4 } else { n }),
            1 <= i <= end,
            string_views(args@) == char_vec_views(ws@).subrange(1, i as int),
        decreases end - i,
    {
        let s = string_from_chars(&ws[i]);
        proof {
            assert(string_views(args@.push(s)) =~= string_views(args@).push(s@));
            assert(char_vec_views(ws@).subrange(1, i + 1) =~= char_vec_views(ws@).subrange(
                1,
                i as int,
            ).push(ws@[i as int]@));
        }
        args.push(s);
        i = i + 1;
    }
    assert(string_views(args@) =~= axis_args_of(msg@));
    args
}

/// The reply to an `axis` request whose arguments are not three numbers.
pub fn invalid_axis_reply() -> (r: String)
    ensures
        r@ == invalid_axis_reply_spec(),
{
    String::from_str("invalid man ")
}

/// What the server answers to a request, apart from the numbers that only
/// the motor's floating-point values give.
pub enum Response {
    /// A reply with fixed text.
    Text(String),
    /// The status report, carrying the motor's state after the request.
    StatusReport(MotorState),
    /// An `axis` request, carrying the words that give x, y and z.
    AxisWords(Vec<String>),
}

/// Handles one normalised request: the motor's state after it, and what to
/// answer.
pub fn respond(state: MotorState, msg: &str) -> (r: (MotorState, Response))
    ensures
        r.0 == next_motor_state(state, command_of(msg@)),
        match command_of(msg@) {
            Command::Status => r.1 matches Response::StatusReport(s) && s == r.0,
            Command::Axis => r.1 matches Response::AxisWords(ws) && string_views(ws@)
                == axis_args_of(msg@),
            c => r.1 matches Response::Text(t) && fixed_reply(c) == Some(t@),
        },
{
    let cmd = Command::parse(msg);
    let next = apply_command(state, cmd);
    match cmd {
        Command::Status => (next, Response::StatusReport(next)),
        Command::Axis => (next, Response::AxisWords(axis_args(msg))),
        _ => {
            let text = cmd.reply();
            (next, Response::Text(text.unwrap()))
        },
    }
}

/// Law of commands: the exact command words name their commands, whatever
/// else may be said of other texts.
pub proof fn law_command_words(msg: Seq<char>)
    ensures
        msg == "status"@ ==> command_of(msg) == Command::Status,
        msg == "vers"@ ==> command_of(msg) == Command::Version,
        (msg == "on"@ || msg == "enable"@) ==> command_of(msg) == Command::Enable,
        (msg == "off"@ || msg == "disable"@) ==> command_of(msg) == Command::Disable,
{
    reveal_strlit("status");
    reveal_strlit("vers");
    reveal_strlit("on");
    reveal_strlit("enable");
    reveal_strlit("off");
    reveal_strlit("disable");
    assert("status"@.len() == 6 && "status"@[0] == 's');
    assert("vers"@.len() == 4 && "vers"@[0] == 'v');
    assert("on"@.len() == 2);
    assert("enable"@.len() == 6 && "enable"@[0] == 'e');
    assert("off"@.len() == 3);
    assert("disable"@.len() == 7);
    if msg == "enable"@ {
        assert(msg[0] != "status"@[0]);
    }
}

/// Law of commands: every text that starts with `axis` (`axis` itself
/// included) names the axis command.
pub proof fn law_axis_prefix_names_axis(msg: Seq<char>)
    requires
        "axis"@.is_prefix_of(msg),
    ensures
        command_of(msg) == Command::Axis,
{
    reveal_strlit("axis");
    reveal_strlit("status");
    reveal_strlit("vers");
    reveal_strlit("on");
    reveal_strlit("enable");
    reveal_strlit("off");
    reveal_strlit("disable");
    assert("axis"@.len() == 4 && "axis"@[0] == 'a');
    assert(msg.subrange(0, 4) =~= "axis"@);
    assert(msg[0] == msg.subrange(0, 4)[0]);
    assert(msg[0] == 'a');
    assert(msg != "status"@) by {
        assert("status"@[0] == 's');
    }
    assert(msg != "vers"@) by {
        assert("vers"@[0] == 'v');
    }
    assert(msg != "on"@ && msg != "off"@) by {
        assert("on"@[0] == 'o' && "off"@[0] == 'o');
    }
    assert(msg != "enable"@) by {
        assert("enable"@[0] == 'e');
    }
    assert(msg != "disable"@) by {
        assert("disable"@[0] == 'd');
    }
    assert(msg.take(4) =~= "axis"@);
}

/// Law of the motor: `on`/`enable` turn it on and `off`/`disable` turn it
/// off whatever its state was; every other command leaves the state as it is.
pub proof fn law_motor_state_after_command(state: MotorState, cmd: Command)
    ensures
        next_motor_state(state, Command::Enable) == MotorState::On,
        next_motor_state(state, Command::Disable) == MotorState::Off,
        cmd != Command::Enable && cmd != Command::Disable ==> next_motor_state(state, cmd)
            == state,
{
}

} // verus!
