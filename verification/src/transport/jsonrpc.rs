//! Requests to a process that speaks JSON-RPC on its standard streams, a line for each message.

use vstd::prelude::*;
use vstd::string::*;

use crate::config;
use crate::json;
use crate::json::{Json, Plain};
use crate::text;
use crate::transport::{AcknowledgementUnknown, TransportError};

verus! {

/// The code of an error that has none.
pub const DEFAULT_ERROR_CODE: i64 = -32000;

/// How long an answer is waited for.
pub const REQUEST_TIMEOUT_SECONDS: u64 = 30;

/// How long a process that was asked to end is waited for.
pub const EXIT_TIMEOUT_SECONDS: u64 = 3;

/// An error that the process answered with.
#[derive(Debug)]
pub struct JsonRpcError {
    pub code: i64,
    pub message: String,
    pub data: Option<Json>,
}

impl JsonRpcError {
    /// What the error says.
    pub fn describe(&self) -> (r: String)
        ensures
            r@ == "JSON-RPC error "@ + text::signed_view(self.code as int) + ": "@ + self.message@,
    {
        "JSON-RPC error ".to_owned().concat(text::signed_decimal(self.code).as_str()).concat(
            ": ",
        ).concat(self.message.as_str())
    }
}

/// `error` is what an answer holds as its error.
pub open spec fn is_error_in(error: JsonRpcError, value: Json) -> bool {
    &&& error.code == (match value.member("code"@) {
        Some(code) => match code.signed() {
            Some(code) => code,
            None => DEFAULT_ERROR_CODE,
        },
        None => DEFAULT_ERROR_CODE,
    })
    &&& error.message@ == (match value.member_text("message"@) {
        Some(message) => message,
        None => "unknown error"@,
    })
    &&& error.data == value.member("data"@)
}

/// Reads the error of an answer.
pub fn parse_rpc_error(value: &Json) -> (r: JsonRpcError)
    ensures
        is_error_in(r, *value),
{
    let code: i64 = match value.get("code") {
        Some(code) => match code.as_i64() {
            Some(code) => code,
            None => DEFAULT_ERROR_CODE,
        },
        None => DEFAULT_ERROR_CODE,
    };
    let message = match value.get_str("message") {
        Some(message) => message.to_owned(),
        None => "unknown error".to_owned(),
    };
    let data = match value.get("data") {
        Some(data) => Some(data.clone()),
        None => None,
    };
    JsonRpcError { code, message, data }
}

/// The requests to a process that are not answered yet, and how it is started.
#[derive(Debug)]
pub struct JsonRpcClient {
    pub command: Vec<String>,
    /// The number of the next request.
    pub next_id: u64,
    /// The numbers of the requests that wait for an answer.
    pub pending: Vec<u64>,
}

/// What a line from the process is.
#[derive(Debug)]
pub enum Incoming {
    /// A message of its own.
    Notification(Json),
    /// The answer to a request that waits for it.
    Answer { id: u64, result: Result<Json, JsonRpcError> },
    /// Nothing that anything waits for.
    Ignored,
}

/// The number of the request that a message answers.
pub open spec fn answered_id(message: Json) -> Option<u64> {
    if message.member_text("method"@) is Some {
        None
    } else {
        match message.member("id"@) {
            Some(id) => id.unsigned(),
            None => None,
        }
    }
}

/// `result` is the result that an answer holds.
pub open spec fn is_result_in(result: Result<Json, JsonRpcError>, message: Json) -> bool {
    match message.member("error"@) {
        Some(value) => result matches Err(error) && is_error_in(error, value),
        None => result == Ok::<Json, JsonRpcError>(
            match message.member("result"@) {
                Some(value) => value,
                None => Json::Null,
            },
        ),
    }
}

impl JsonRpcClient {
    /// The numbers of the requests that wait for an answer.
    pub open spec fn waiting(self) -> Set<u64> {
        self.pending@.to_set()
    }

    /// A client of a command, of which the executable was found at `executable` where it was.
    /// There is none of an empty command.
    pub fn new(command: Vec<String>, executable: Option<String>) -> (r: Option<Self>)
        ensures
            match r {
                None => command@.len() == 0,
                Some(client) => {
                    &&& command@.len() > 0
                    &&& client.command@ == (match executable {
                        Some(path) => command@.update(0, path),
                        None => command@,
                    })
                    &&& client.next_id == 1
                    &&& client.pending@.len() == 0
                },
            },
    {
        if command.len() == 0 {
            return None;
        }
        let mut command = command;
        match executable {
            Some(path) => {
                command.set(0, path);
            },
            None => {},
        }
        Some(JsonRpcClient { command, next_id: 1, pending: Vec::new() })
    }

    /// Starts a request: its number, and the message to be sent.
    pub fn request(&mut self, method: &str, params: Json) -> (r: (u64, Json))
        ensures
            r.0 == old(self).next_id,
            json::shows(
                r.1,
                Plain::Object(
                    map![
                        "method"@ => Plain::Text(method@),
                        "id"@ => Plain::Unsigned(r.0),
                        "params"@ => Plain::Given(params),
                    ],
                ),
            ),
            final(self).next_id == (if old(self).next_id == u64::MAX {
                0
            } else {
                (old(self).next_id + 1) as u64
            }),
            final(self).waiting() == old(self).waiting().insert(r.0),
            final(self).command == old(self).command,
    {
        let id: u64 = self.next_id;
        self.next_id = if id == u64::MAX {
            0
        } else {
            id + 1
        };
        let ghost before = self.pending@;
        self.pending.push(id);
        assert(before.push(id).to_set() =~= before.to_set().insert(id)) by {
            let after = before.push(id);
            assert(after[before.len() as int] == id);
            assert forall|x: u64| before.contains(x) implies after.contains(x) by {
                let k = choose|k: int| 0 <= k < before.len() && before[k] == x;
                assert(after[k] == x);
            }
        }
        let message = Json::object().with("method", json::text_value(method)).with(
            "id",
            json::unsigned_value(id),
        ).with("params", params).build();
        (id, message)
    }

    /// A message that no answer is expected of.
    pub fn notification(&self, method: &str, params: Json) -> (r: Json)
        ensures
            json::shows(
                r,
                Plain::Object(
                    map!["method"@ => Plain::Text(method@), "params"@ => Plain::Given(params)],
                ),
            ),
    {
        Json::object().with("method", json::text_value(method)).with("params", params).build()
    }

    /// Ends waiting for an answer, and tells whether it was waited for.
    pub fn forget(&mut self, id: u64) -> (r: bool)
        ensures
            r == old(self).waiting().contains(id),
            final(self).waiting() == old(self).waiting().remove(id),
            final(self).next_id == old(self).next_id,
            final(self).command == old(self).command,
    {
        let mut kept: Vec<u64> = Vec::new();
        let mut found = false;
        let mut i: usize = 0;
        while i < self.pending.len()
            invariant
                i <= self.pending@.len(),
                *self == *old(self),
                found == self.pending@.take(i as int).contains(id),
                forall|x: u64| #[trigger]
                    kept@.contains(x) == (self.pending@.take(i as int).contains(x) && x != id),
            decreases self.pending@.len() - i,
        {
            let ghost all = self.pending@;
            let ghost before = kept@;
            assert(all.take(i + 1) =~= all.take(i as int).push(all[i as int]));
            proof {
                lemma_push_contains(all.take(i as int), all[i as int]);
                lemma_push_contains(before, all[i as int]);
            }
            if self.pending[i] == id {
                found = true;
            } else {
                kept.push(self.pending[i]);
            }
            i += 1;
        }
        assert(self.pending@.take(i as int) =~= self.pending@);
        self.pending = kept;
        assert(self.waiting() =~= old(self).waiting().remove(id));
        found
    }

    /// Reads a line from the process.
    pub fn receive(&mut self, line: &str) -> (r: Incoming)
        ensures
            final(self).command == old(self).command,
            final(self).next_id == old(self).next_id,
            match json::json_in(vstd::utf8::encode_utf8(line@)) {
                None => r is Ignored && final(self).waiting() == old(self).waiting(),
                Some(message) => if message.member_text("method"@) is Some {
                    r == Incoming::Notification(message) && final(self).waiting() == old(
                        self).waiting()
                } else {
                    match answered_id(message) {
                        Some(id) => {
                            &&& final(self).waiting() == old(self).waiting().remove(id)
                            &&& if old(self).waiting().contains(id) {
                                r matches Incoming::Answer { id: answered, result } && answered
                                    == id && is_result_in(result, message)
                            } else {
                                r is Ignored
                            }
                        },
                        None => r is Ignored && final(self).waiting() == old(self).waiting(),
                    }
                },
            },
    {
        let message = match json::parse_text(line) {
            Some(message) => message,
            None => {
                return Incoming::Ignored;
            },
        };
        if message.get_str("method").is_some() {
            return Incoming::Notification(message);
        }
        let id: u64 = match message.get("id") {
            Some(id) => match id.as_u64() {
                Some(id) => id,
                None => {
                    return Incoming::Ignored;
                },
            },
            None => {
                return Incoming::Ignored;
            },
        };
        if !self.forget(id) {
            return Incoming::Ignored;
        }
        let result = match message.get("error") {
            Some(error) => Err(parse_rpc_error(error)),
            None => Ok(
                match message.get("result") {
                    Some(result) => result.clone(),
                    None => Json::Null,
                },
            ),
        };
        Incoming::Answer { id, result }
    }

    /// Ends waiting for all answers, since the process is gone.
    pub fn abandon(&mut self)
        ensures
            final(self).waiting() == Set::<u64>::empty(),
            final(self).command == old(self).command,
            final(self).next_id == old(self).next_id,
    {
        self.pending = Vec::new();
        assert(self.waiting() =~= Set::<u64>::empty());
    }
}

proof fn lemma_push_contains(s: Seq<u64>, last: u64)
    ensures
        forall|x: u64| #[trigger] s.push(last).contains(x) == (s.contains(x) || x == last),
{
    let after = s.push(last);
    assert(after[s.len() as int] == last);
    assert forall|x: u64| #[trigger] after.contains(x) == (s.contains(x) || x == last) by {
        if s.contains(x) {
            let k = choose|k: int| 0 <= k < s.len() && s[k] == x;
            assert(after[k] == x);
        }
        if after.contains(x) && x != last {
            let k = choose|k: int| 0 <= k < after.len() && after[k] == x;
            assert(s[k] == x);
        }
    }
}

/// What answers another request, or none, leaves a request waiting.
pub proof fn other_answers_leave_requests_waiting(message: Json, waiting: Set<u64>, id: u64)
    requires
        waiting.contains(id),
        answered_id(message) != Some(id),
    ensures
        match answered_id(message) {
            Some(other) => waiting.remove(other).contains(id),
            None => true,
        },
{
}

/// How a request ended.
#[derive(Debug)]
pub enum RequestEnd {
    /// It could not be sent.
    NotSent(String),
    /// It was answered.
    Answered(Result<Json, JsonRpcError>),
    /// It was sent, and the process closed its output or was given up before it answered.
    Ended(String),
    /// It was sent, and waiting for the answer broke off.
    Closed,
    /// It was sent, and the answer did not come in time.
    TimedOut,
}

/// The request was sent, and its answer was lost.
pub open spec fn is_lost(end: RequestEnd) -> bool {
    end is Ended || end is Closed || end is TimedOut
}

/// What is said of a lost answer.
pub open spec fn loss_message(end: RequestEnd, method: Seq<char>) -> Seq<char> {
    match end {
        RequestEnd::Ended(message) => message@,
        RequestEnd::TimedOut => "app-server request timed out: "@ + method,
        _ => "app-server closed while waiting for "@ + method,
    }
}

/// Whether a process is given up after a request ended so.
pub open spec fn gives_up(end: RequestEnd) -> bool {
    end is NotSent || end is Closed || end is TimedOut
}

/// `result` is what a request gives that ended so. Where the request may have had an effect, a lost
/// answer leaves open whether it had.
pub open spec fn is_outcome(
    result: Result<Json, TransportError>,
    method: Seq<char>,
    end: RequestEnd,
    may_have_effect: bool,
) -> bool {
    match end {
        RequestEnd::Answered(Ok(value)) => result == Ok::<Json, TransportError>(value),
        RequestEnd::Answered(Err(error)) => result == Err::<Json, TransportError>(
            TransportError::Rpc(error),
        ),
        RequestEnd::NotSent(message) => result == Err::<Json, TransportError>(
            TransportError::Failed(message),
        ),
        _ => if may_have_effect {
            result matches Err(TransportError::AcknowledgementUnknown(unknown)) && unknown.0@
                == loss_message(end, method)
        } else {
            result matches Err(TransportError::Failed(message)) && message@ == loss_message(
                end,
                method,
            )
        },
    }
}

/// The result of a request, and whether the process is to be given up.
pub fn end_request(method: &str, end: RequestEnd, may_have_effect: bool) -> (r: (
    Result<Json, TransportError>,
    bool,
))
    ensures
        r.1 == gives_up(end),
        is_outcome(r.0, method@, end, may_have_effect),
{
    let (message, give_up): (String, bool) = match end {
        RequestEnd::Answered(Ok(value)) => {
            return (Ok(value), false);
        },
        RequestEnd::Answered(Err(error)) => {
            return (Err(TransportError::Rpc(error)), false);
        },
        RequestEnd::NotSent(message) => {
            return (Err(TransportError::Failed(message)), true);
        },
        RequestEnd::Ended(message) => (message, false),
        RequestEnd::Closed => (
            "app-server closed while waiting for ".to_owned().concat(method),
            true,
        ),
        RequestEnd::TimedOut => ("app-server request timed out: ".to_owned().concat(method), true),
    };
    if may_have_effect {
        (Err(TransportError::AcknowledgementUnknown(AcknowledgementUnknown(message))), give_up)
    } else {
        (Err(TransportError::Failed(message)), give_up)
    }
}

/// A lost acknowledgement is never shown as an unsent request: whatever was sent, may have had an
/// effect and was not answered has an unknown result.
pub proof fn lost_acknowledgements_stay_unknown(
    result: Result<Json, TransportError>,
    method: Seq<char>,
    end: RequestEnd,
)
    requires
        is_lost(end),
        is_outcome(result, method, end, true),
    ensures
        result matches Err(TransportError::AcknowledgementUnknown(_)),
{
}

/// The line that a message is sent as.
pub open spec fn line_of(message: Json) -> Seq<u8> {
    json::json_bytes(message).push(10u8)
}

/// The line that a message is sent as.
pub fn write_line(message: &Json) -> (r: Vec<u8>)
    ensures
        r@ == line_of(*message),
{
    let mut bytes = json::write_bytes(message);
    bytes.push(10u8);
    bytes
}

/// The paths of a name in directories.
pub open spec fn in_directories(directories: Seq<Seq<char>>, name: Seq<char>) -> Seq<Seq<char>> {
    directories.map_values(|directory: Seq<char>| config::joined(directory, name))
}

/// Where executables are commonly installed.
pub open spec fn common_directories(home: Option<Seq<char>>) -> Seq<Seq<char>> {
    let system = seq!["/opt/homebrew/bin"@, "/usr/local/bin"@];
    match home {
        Some(home) => system + seq![
            config::joined(home, ".local/bin"@),
            config::joined(home, ".cargo/bin"@),
        ],
        None => system,
    }
}

/// The paths at which an executable is looked for, one after the other: a name with a directory is
/// its own path, and any other is looked for in the search path and then where executables are
/// commonly installed.
pub open spec fn candidates(
    name: Seq<char>,
    has_directory: bool,
    search_path: Seq<Seq<char>>,
    home: Option<Seq<char>>,
) -> Seq<Seq<char>> {
    if has_directory {
        seq![name]
    } else {
        in_directories(search_path, name) + in_directories(common_directories(home), name)
    }
}

/// The paths at which an executable is looked for, one after the other.
pub fn executable_candidates(
    name: &str,
    has_directory: bool,
    search_path: &Vec<String>,
    home: Option<&str>,
) -> (r: Vec<String>)
    ensures
        text::views(r@) == candidates(
            name@,
            has_directory,
            text::views(search_path@),
            match home {
                Some(home) => Some(home@),
                None => None,
            },
        ),
{
    let mut r: Vec<String> = Vec::new();
    if has_directory {
        r.push(name.to_owned());
        assert(text::views(r@) =~= seq![name@]);
        return r;
    }
    let mut directories: Vec<String> = Vec::new();
    let mut i: usize = 0;
    while i < search_path.len()
        invariant
            i <= search_path@.len(),
            directories@ == search_path@.take(i as int),
        decreases search_path@.len() - i,
    {
        directories.push(search_path[i].clone());
        i += 1;
        assert(directories@ =~= search_path@.take(i as int));
    }
    assert(directories@ =~= search_path@);
    directories.push("/opt/homebrew/bin".to_owned());
    directories.push("/usr/local/bin".to_owned());
    match home {
        Some(home) => {
            directories.push(config::join(home, ".local/bin"));
            directories.push(config::join(home, ".cargo/bin"));
        },
        None => {},
    }
    let ghost home_view = match home {
        Some(home) => Some(home@),
        None => None,
    };
    let ghost all = text::views(search_path@) + common_directories(home_view);
    assert(text::views(directories@) =~= all);
    let mut j: usize = 0;
    while j < directories.len()
        invariant
            j <= directories@.len(),
            text::views(directories@) == all,
            r@.len() == j,
            forall|k: int|
                0 <= k < j ==> (#[trigger] r@[k])@ == config::joined(all[k], name@),
        decreases directories@.len() - j,
    {
        assert(all[j as int] == directories@[j as int]@);
        r.push(config::join(directories[j].as_str(), name));
        j += 1;
    }
    assert(text::views(r@) =~= in_directories(all, name@));
    assert(in_directories(all, name@) =~= in_directories(text::views(search_path@), name@)
        + in_directories(common_directories(home_view), name@));
    r
}

} // verus!
