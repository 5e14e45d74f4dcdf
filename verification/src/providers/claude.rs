//! What the failures and the transcripts mean of the provider that keeps transcripts.

use vstd::prelude::*;
use vstd::string::*;
use vstd::utf8::*;

use crate::json;
use crate::json::Json;
use crate::models::{Session, SessionLog, SessionState};
use crate::text;
use crate::time;
use crate::time::Timestamp;

verus! {

/// A failure sorted into a condition.
#[derive(Debug)]
pub struct ClassifiedError {
    pub condition: String,
    pub provider_code: String,
    pub retry_after_seconds: Option<u64>,
    pub scope: Option<String>,
}

/// The code that details give: their type, or else their code, where it is a text.
pub open spec fn detail_code(details: Option<Json>) -> Option<Seq<char>> {
    match details {
        Some(value) => match value.member("type"@) {
            Some(kind) => kind.text(),
            None => value.member_text("code"@),
        },
        None => None,
    }
}

/// The condition of an error with a detail.
pub open spec fn claude_condition(error: Seq<char>, detail: Option<Seq<char>>) -> Seq<char> {
    if error == "overloaded"@ {
        if detail == Some("model_overloaded"@) {
            "capacity.model_overloaded"@
        } else {
            "capacity.service_overloaded"@
        }
    } else if error == "rate_limit"@ {
        if detail == Some("server_throttled"@) {
            "capacity.server_throttled"@
        } else if detail == Some("usage_limit"@) {
            "quota.usage_exhausted"@
        } else {
            "capacity.rate_limited"@
        }
    } else if error == "authentication_failed"@ {
        "auth.invalid"@
    } else if error == "oauth_org_not_allowed"@ {
        "capability.access_denied"@
    } else if error == "billing_error"@ {
        "billing.required"@
    } else if error == "invalid_request"@ {
        if detail == Some("feature_unsupported"@) {
            "capability.feature_unsupported"@
        } else {
            "request.invalid"@
        }
    } else if error == "model_not_found"@ {
        if detail == Some("access_denied"@) {
            "capability.access_denied"@
        } else {
            "capability.model_unavailable"@
        }
    } else if error == "server_error"@ {
        "service.server_error"@
    } else if error == "max_output_tokens"@ {
        "context.output_limit"@
    } else {
        "failure.unknown"@
    }
}

/// The delay that details ask for.
pub open spec fn detail_delay(details: Option<Json>) -> Option<u64> {
    match details {
        Some(value) => match value.member("retry_after_seconds"@) {
            Some(seconds) => seconds.unsigned(),
            None => match value.member("retryAfterSeconds"@) {
                Some(seconds) => seconds.unsigned(),
                None => None,
            },
        },
        None => None,
    }
}

/// What a condition concerns.
pub open spec fn condition_scope(condition: Seq<char>) -> Option<Seq<char>> {
    if condition == "capacity.model_overloaded"@ {
        Some("model"@)
    } else if condition == "capacity.service_overloaded"@ {
        Some("service"@)
    } else {
        None
    }
}

/// The value that an optional reference refers to.
pub open spec fn owned(value: Option<&Json>) -> Option<Json> {
    match value {
        Some(value) => Some(*value),
        None => None,
    }
}

fn condition_name(error: &str, detail: Option<&str>) -> (r: &'static str)
    ensures
        r@ == claude_condition(
            error@,
            match detail {
                Some(code) => Some(code@),
                None => None,
            },
        ),
{
    if text::same(error, "overloaded") {
        if is_detail(detail, "model_overloaded") {
            "capacity.model_overloaded"
        } else {
            "capacity.service_overloaded"
        }
    } else if text::same(error, "rate_limit") {
        if is_detail(detail, "server_throttled") {
            "capacity.server_throttled"
        } else if is_detail(detail, "usage_limit") {
            "quota.usage_exhausted"
        } else {
            "capacity.rate_limited"
        }
    } else if text::same(error, "authentication_failed") {
        "auth.invalid"
    } else if text::same(error, "oauth_org_not_allowed") {
        "capability.access_denied"
    } else if text::same(error, "billing_error") {
        "billing.required"
    } else if text::same(error, "invalid_request") {
        if is_detail(detail, "feature_unsupported") {
            "capability.feature_unsupported"
        } else {
            "request.invalid"
        }
    } else if text::same(error, "model_not_found") {
        if is_detail(detail, "access_denied") {
            "capability.access_denied"
        } else {
            "capability.model_unavailable"
        }
    } else if text::same(error, "server_error") {
        "service.server_error"
    } else if text::same(error, "max_output_tokens") {
        "context.output_limit"
    } else {
        "failure.unknown"
    }
}

fn is_detail(detail: Option<&str>, code: &str) -> (r: bool)
    ensures
        r == (detail is Some && detail->0@ == code@),
{
    match detail {
        Some(found) => text::same(found, code),
        None => false,
    }
}

fn read_delay(details: Option<&Json>) -> (r: Option<u64>)
    ensures
        r == detail_delay(owned(details)),
{
    match details {
        Some(value) => match value.get("retry_after_seconds") {
            Some(seconds) => seconds.as_u64(),
            None => match value.get("retryAfterSeconds") {
                Some(seconds) => seconds.as_u64(),
                None => None,
            },
        },
        None => None,
    }
}

/// Sorts the failure of a turn into a condition. A rate limit and a missing model are taken
/// cautiously, since what reports them does not always tell limits of the account from passing
/// capacity, or a missing model from a missing entitlement.
pub fn classify_claude_error(error: &str, details: Option<&Json>) -> (r: ClassifiedError)
    ensures
        r.condition@ == claude_condition(error@, detail_code(owned(details))),
        r.provider_code@ == error@,
        r.retry_after_seconds == detail_delay(owned(details)),
        text::option_view(r.scope) == condition_scope(r.condition@),
{
    let detail: Option<&str> = match details {
        Some(value) => match value.get("type") {
            Some(kind) => kind.as_str(),
            None => value.get_str("code"),
        },
        None => None,
    };
    let condition: &'static str = condition_name(error, detail);
    let scope = if text::same(condition, "capacity.model_overloaded") {
        Some("model".to_owned())
    } else if text::same(condition, "capacity.service_overloaded") {
        Some("service".to_owned())
    } else {
        None
    };
    ClassifiedError {
        condition: condition.to_owned(),
        provider_code: error.to_owned(),
        retry_after_seconds: read_delay(details),
        scope,
    }
}

/// The error that a hook's payload names.
pub open spec fn hook_error(payload: Json) -> Seq<char> {
    match payload.member_text("error"@) {
        Some(error) => error,
        None => "unknown"@,
    }
}

/// A payload reports an overload of a model that it names.
pub open spec fn names_overloaded_model(payload: Json) -> bool {
    hook_error(payload) == "overloaded"@ && payload.member_text("model"@) is Some
}

/// Sorts the payload of a failure hook into a condition. Details in prose are not read.
pub fn classify_claude_hook(payload: &Json) -> (r: ClassifiedError)
    ensures
        r.provider_code@ == hook_error(*payload),
        r.condition@ == (if names_overloaded_model(*payload) {
            "capacity.model_overloaded"@
        } else {
            claude_condition(
                hook_error(*payload),
                detail_code(payload.member("error_details"@)),
            )
        }),
        text::option_view(r.scope) == condition_scope(r.condition@),
        r.retry_after_seconds == (match payload.member("error_details"@) {
            Some(Json::Text(_)) => None,
            details => detail_delay(details),
        }),
{
    let error: &str = match payload.get_str("error") {
        Some(error) => error,
        None => "unknown",
    };
    let details = payload.get("error_details");
    let mut classified = classify_claude_error(error, details);
    if text::same(error, "overloaded") && payload.get_str("model").is_some() {
        classified.condition = "capacity.model_overloaded".to_owned();
        classified.scope = Some("model".to_owned());
    }
    match details {
        Some(Json::Text(_)) => {
            classified.retry_after_seconds = None;
        },
        _ => {},
    }
    classified
}

/// The text is a UUID, as `uuid` reads one.
pub uninterp spec fn is_uuid(s: Seq<char>) -> bool;

/// `uuid::Uuid::parse_str`, of which only the success counts.
#[verifier::external_body]
fn reads_as_uuid(s: &str) -> (r: bool)
    ensures
        r == is_uuid(s@),
{
    uuid::Uuid::parse_str(s).is_ok()
}

/// The optional text of a reference.
pub open spec fn optional_view(s: Option<&str>) -> Option<Seq<char>> {
    match s {
        Some(s) => Some(s@),
        None => None,
    }
}

/// Whether a file of a project is the transcript of a session.
pub fn is_transcript(extension: Option<&str>, stem: Option<&str>) -> (r: bool)
    ensures
        r == (optional_view(extension) == Some("jsonl"@) && stem is Some && is_uuid(stem->0@)),
{
    match (extension, stem) {
        (Some(extension), Some(stem)) => text::same(extension, "jsonl") && reads_as_uuid(stem),
        _ => false,
    }
}

/// A session's transcript, as far as it was read.
#[derive(Debug)]
pub struct Transcript {
    pub id: String,
    pub path: String,
    /// How many bytes were read.
    pub offset: u64,
    /// When the file was modified, as far as it was read.
    pub modified: Option<Timestamp>,
    /// The device and the number of the file.
    pub identity: (u64, u64),
    /// Whether something could not be read, so that activity may have been missed.
    pub uncertain: bool,
    pub title: String,
    pub updated_at: Option<Timestamp>,
}

/// Reading a file goes on at `offset`: nowhere in one that is as it was read, and at the start in
/// one that was replaced or cut short, whose activity is then read anew.
pub open spec fn resumes(
    before: Transcript,
    identity: (u64, u64),
    modified: Option<Timestamp>,
    length: u64,
    after: Transcript,
    offset: Option<u64>,
) -> bool {
    &&& after.id == before.id
    &&& after.path == before.path
    &&& after.modified == before.modified
    &&& after.uncertain == before.uncertain
    &&& after.title == before.title
    &&& match offset {
        None => before.is_read(identity, modified, length) && after == before,
        Some(offset) => {
            &&& !before.is_read(identity, modified, length)
            &&& offset == after.offset
            &&& after.identity == identity
            &&& if before.is_replaced(identity, length) {
                after.offset == 0 && after.updated_at is None
            } else {
                after.offset == before.offset && after.updated_at == before.updated_at
            }
        },
    }
}

/// What a record says of its session.
pub struct Activity {
    pub uncertain: bool,
    pub title: Seq<char>,
    pub updated_at: Option<Timestamp>,
}

/// The time of a record.
pub open spec fn time_of(record: Json) -> Option<Timestamp> {
    match record.member_text("timestamp"@) {
        Some(s) => time::text_time(s),
        None => None,
    }
}

/// The time of a record, if it has one.
pub fn record_time(record: &Json) -> (r: Option<Timestamp>)
    ensures
        r == time_of(*record),
{
    match record.get_str("timestamp") {
        Some(s) => time::parse_time(s),
        None => None,
    }
}

/// The record is a message of the user or the assistant.
pub open spec fn is_message(record: Json) -> bool {
    record.member_text("type"@) == Some("user"@) || record.member_text("type"@) == Some(
        "assistant"@,
    )
}

/// The record belongs to a side chain.
pub open spec fn is_sidechain(record: Json) -> bool {
    record.member("isSidechain"@) == Some(Json::Bool(true))
}

/// The title that a record gives its session.
pub open spec fn title_in(record: Json) -> Option<Seq<char>> {
    if record.member_text("aiTitle"@) is Some {
        record.member_text("aiTitle"@)
    } else {
        record.member_text("customTitle"@)
    }
}

/// What is known after a record: only messages are activity, and one with a time settles what could
/// not be read before.
pub open spec fn after_record(known: Activity, record: Option<Json>) -> Activity {
    match record {
        None => Activity { uncertain: true, ..known },
        Some(record) => if is_sidechain(record) {
            known
        } else {
            Activity {
                uncertain: known.uncertain && !(is_message(record) && time_of(record) is Some),
                title: match title_in(record) {
                    Some(title) => title,
                    None => known.title,
                },
                updated_at: if is_message(record) {
                    time::latest(known.updated_at, time_of(record))
                } else {
                    known.updated_at
                },
            }
        },
    }
}

/// What is known after complete lines, one after the other.
pub open spec fn after_lines(known: Activity, lines: Seq<Seq<char>>) -> Activity
    decreases lines.len(),
{
    if lines.len() == 0 {
        known
    } else {
        after_record(
            after_lines(known, lines.drop_last()),
            json::json_in(encode_utf8(lines.last())),
        )
    }
}

/// The number of bytes of lines.
pub open spec fn bytes_of(lines: Seq<Seq<char>>) -> nat
    decreases lines.len(),
{
    if lines.len() == 0 {
        0
    } else {
        bytes_of(lines.drop_last()) + encode_utf8(lines.last()).len()
    }
}

impl Transcript {
    /// A transcript of which nothing was read.
    pub fn new(id: &str, path: &str, identity: (u64, u64)) -> (r: Self)
        ensures
            r.id@ == id@,
            r.path@ == path@,
            r.offset == 0,
            r.modified is None,
            r.identity == identity,
            !r.uncertain,
            r.title@ == id@,
            r.updated_at is None,
    {
        Transcript {
            id: id.to_owned(),
            path: path.to_owned(),
            offset: 0,
            modified: None,
            identity,
            uncertain: false,
            title: id.to_owned(),
            updated_at: None,
        }
    }

    /// What is known of the session.
    pub open spec fn activity(self) -> Activity {
        Activity { uncertain: self.uncertain, title: self.title@, updated_at: self.updated_at }
    }

    /// The file is as it was read.
    pub open spec fn is_read(
        self,
        identity: (u64, u64),
        modified: Option<Timestamp>,
        length: u64,
    ) -> bool {
        self.identity == identity && self.modified == modified && self.offset == length
    }

    /// The file was replaced or cut short since it was read.
    pub open spec fn is_replaced(self, identity: (u64, u64), length: u64) -> bool {
        self.identity != identity || length <= self.offset
    }

    /// Where reading goes on: nowhere in a file that is as it was read, and at the start in one
    /// that was replaced or cut short.
    pub fn resume_at(
        &mut self,
        identity: (u64, u64),
        modified: Option<Timestamp>,
        length: u64,
    ) -> (r: Option<u64>)
        ensures
            resumes(*old(self), identity, modified, length, *final(self), r),
    {
        let same_file = self.identity.0 == identity.0 && self.identity.1 == identity.1;
        let same_time = match (self.modified, modified) {
            (Some(a), Some(b)) => a == b,
            (None, None) => true,
            _ => false,
        };
        if same_file && same_time && self.offset == length {
            return None;
        }
        if !same_file || length <= self.offset {
            self.offset = 0;
            self.identity = identity;
            self.updated_at = None;
        }
        Some(self.offset)
    }

    /// Reads one record, or what is none.
    pub fn read_record(&mut self, record: Option<&Json>)
        ensures
            final(self).activity() == after_record(old(self).activity(), owned(record)),
            final(self).id == old(self).id,
            final(self).path == old(self).path,
            final(self).offset == old(self).offset,
            final(self).modified == old(self).modified,
            final(self).identity == old(self).identity,
    {
        let record = match record {
            None => {
                self.uncertain = true;
                return;
            },
            Some(record) => record,
        };
        if record.is_true("isSidechain") {
            return;
        }
        let message = match record.get_str("type") {
            Some(kind) => text::same(kind, "user") || text::same(kind, "assistant"),
            None => false,
        };
        if message {
            let at = record_time(record);
            self.updated_at = time::later_of(self.updated_at, at);
            if at.is_some() {
                self.uncertain = false;
            }
        }
        match record.get_str("aiTitle") {
            Some(title) => {
                self.title = title.to_owned();
            },
            None => match record.get_str("customTitle") {
                Some(title) => {
                    self.title = title.to_owned();
                },
                None => {},
            },
        }
    }

    /// Reads what was appended to the file: its complete lines. A line that is still being written
    /// is left for the next time.
    pub fn read_appended(&mut self, appended: &str)
        requires
            old(self).offset + encode_utf8(appended@).len() <= u64::MAX,
        ensures
            ({
                let lines = text::line_split(appended@).0;
                &&& final(self).activity() == after_lines(old(self).activity(), lines)
                &&& final(self).offset == old(self).offset + bytes_of(lines)
            }),
            final(self).id == old(self).id,
            final(self).path == old(self).path,
            final(self).modified == old(self).modified,
            final(self).identity == old(self).identity,
    {
        let lines = text::complete_lines(appended);
        let ghost all = text::views(lines@);
        let ghost first = *self;
        proof {
            lemma_lines_fit(appended@);
        }
        let mut i: usize = 0;
        while i < lines.len()
            invariant
                i <= lines@.len(),
                all == text::views(lines@),
                bytes_of(all) <= encode_utf8(appended@).len(),
                first.offset + encode_utf8(appended@).len() <= u64::MAX,
                self.activity() == after_lines(first.activity(), all.take(i as int)),
                self.offset == first.offset + bytes_of(all.take(i as int)),
                self.id == first.id,
                self.path == first.path,
                self.modified == first.modified,
                self.identity == first.identity,
            decreases lines@.len() - i,
        {
            let line: &str = lines[i].as_str();
            proof {
                assert(all.take(i + 1).drop_last() =~= all.take(i as int));
                assert(all.take(i + 1).last() == line@);
                lemma_bytes_grow(all, i + 1);
            }
            let record = json::parse_text(line);
            let length: u64 = line.as_bytes().len() as u64;
            self.offset = self.offset + length;
            match &record {
                Some(record) => {
                    self.read_record(Some(record));
                },
                None => {
                    self.read_record(None);
                },
            }
            i += 1;
        }
        assert(all.take(i as int) =~= all);
    }

    /// Ends reading, given whether all could be read.
    pub fn finish(&mut self, modified: Option<Timestamp>, readable: bool)
        ensures
            final(self).modified == (if readable {
                modified
            } else {
                None
            }),
            final(self).uncertain == (old(self).uncertain || !readable),
            final(self).id == old(self).id,
            final(self).path == old(self).path,
            final(self).offset == old(self).offset,
            final(self).identity == old(self).identity,
            final(self).title == old(self).title,
            final(self).updated_at == old(self).updated_at,
    {
        if readable {
            self.modified = modified;
        } else {
            self.uncertain = true;
            self.modified = None;
        }
    }

    /// The session of the transcript, under the provider's name.
    pub fn session(&self, provider: &str) -> (r: Session)
        ensures
            is_session_of(r, *self, provider@),
    {
        proof {
            reveal_strlit("capabilities");
            reveal_strlit("transcript");
            reveal_strlit("activity_unknown");
            assert("capabilities"@.len() == 12 && "transcript"@.len() == 10
                && "activity_unknown"@.len() == 16);
        }
        let mut capabilities: Vec<Json> = Vec::new();
        capabilities.push(json::text_value("discover"));
        capabilities.push(json::text_value("logs"));
        let mut metadata = Json::object().with("capabilities", Json::array(capabilities)).with(
            "transcript",
            Json::Text(self.path.clone()),
        );
        assert(metadata@.dom() =~= set!["capabilities"@, "transcript"@]);
        if self.uncertain {
            metadata = metadata.with("activity_unknown", Json::Bool(true));
            assert(metadata@.dom() =~= set![
                "capabilities"@,
                "transcript"@,
                "activity_unknown"@,
            ]);
        }
        Session {
            provider: provider.to_owned(),
            id: self.id.clone(),
            title: self.title.clone(),
            state: SessionState::Unknown,
            updated_at: if self.uncertain {
                None
            } else {
                self.updated_at
            },
            metadata: metadata.build(),
        }
    }
}

/// `session` is the session of a transcript. Where activity may have been missed, none is claimed.
pub open spec fn is_session_of(
    session: Session,
    transcript: Transcript,
    provider: Seq<char>,
) -> bool {
    &&& session.provider@ == provider
    &&& session.id == transcript.id
    &&& session.title == transcript.title
    &&& session.state == SessionState::Unknown
    &&& session.updated_at == (if transcript.uncertain {
        None
    } else {
        transcript.updated_at
    })
    &&& session.metadata is Object
    &&& session.metadata->Object_0@.dom() == (if transcript.uncertain {
        set!["capabilities"@, "transcript"@, "activity_unknown"@]
    } else {
        set!["capabilities"@, "transcript"@]
    })
    &&& session.metadata.member("transcript"@) == Some(Json::Text(transcript.path))
    &&& session.metadata.member("capabilities"@) is Some
    &&& session.metadata.member("capabilities"@)->0.elements() is Some
    &&& ({
        let capabilities = session.metadata.member("capabilities"@)->0.elements()->0;
        capabilities.len() == 2 && capabilities[0].text() == Some("discover"@)
            && capabilities[1].text() == Some("logs"@)
    })
    &&& transcript.uncertain ==> session.metadata.member("activity_unknown"@) == Some(
        Json::Bool(true),
    )
}

proof fn lemma_bytes_grow(lines: Seq<Seq<char>>, i: int)
    requires
        0 <= i <= lines.len(),
    ensures
        bytes_of(lines.take(i)) <= bytes_of(lines),
    decreases lines.len() - i,
{
    if i < lines.len() {
        lemma_bytes_grow(lines, i + 1);
        assert(lines.take(i + 1).drop_last() =~= lines.take(i));
    } else {
        assert(lines.take(i) =~= lines);
    }
}

proof fn lemma_encoding_adds(a: Seq<char>, b: Seq<char>)
    ensures
        encode_utf8(a + b).len() == encode_utf8(a).len() + encode_utf8(b).len(),
    decreases a.len(),
{
    reveal_with_fuel(encode_utf8, 2);
    if a.len() == 0 {
        assert(a + b =~= b);
    } else {
        assert((a + b).drop_first() =~= a.drop_first() + b);
        lemma_encoding_adds(a.drop_first(), b);
    }
}

proof fn lemma_lines_fit(s: Seq<char>)
    ensures
        bytes_of(text::line_split(s).0) + encode_utf8(text::line_split(s).1).len() == encode_utf8(
            s,
        ).len(),
    decreases s.len(),
{
    if s.len() == 0 {
        assert(s =~= Seq::<char>::empty());
    } else {
        let rest = s.drop_last();
        let (lines, partial) = text::line_split(rest);
        lemma_lines_fit(rest);
        let last = seq![s.last()];
        assert(s =~= rest + last);
        lemma_encoding_adds(rest, last);
        lemma_encoding_adds(partial, last);
        assert(partial.push(s.last()) =~= partial + last);
        if s.last() == '\n' {
            let all = text::line_split(s).0;
            assert(all.drop_last() =~= lines);
            assert(encode_utf8(Seq::<char>::empty()).len() == 0);
        }
    }
}

/// Splitting a text into lines goes on where it stopped: what was left of a first part is read
/// again with what follows it.
pub proof fn lemma_lines_continue(a: Seq<char>, b: Seq<char>)
    ensures
        ({
            let (first, partial) = text::line_split(a);
            let (more, rest) = text::line_split(partial + b);
            text::line_split(a + b) == (first + more, rest)
        }),
    decreases b.len(),
{
    let (first, partial) = text::line_split(a);
    if b.len() == 0 {
        assert(a + b =~= a);
        assert(partial + b =~= partial);
        lemma_partial_has_no_line(a);
        assert(first + Seq::<Seq<char>>::empty() =~= first);
    } else {
        lemma_lines_continue(a, b.drop_last());
        assert((a + b).drop_last() =~= a + b.drop_last());
        assert((partial + b).drop_last() =~= partial + b.drop_last());
        assert((a + b).last() == b.last());
        assert((partial + b).last() == b.last());
        let (more, rest) = text::line_split(partial + b.drop_last());
        assert(first + more.push(rest.push('\n')) =~= (first + more).push(rest.push('\n')));
    }
}

/// A text without a line break holds no complete line.
pub proof fn lemma_plain_is_partial(s: Seq<char>)
    requires
        !s.contains('\n'),
    ensures
        text::line_split(s) == (Seq::<Seq<char>>::empty(), s),
    decreases s.len(),
{
    if s.len() > 0 {
        assert forall|i: int| 0 <= i < s.drop_last().len() implies s.drop_last()[i] != '\n' by {
            assert(s.contains(s[i]));
        }
        lemma_plain_is_partial(s.drop_last());
        assert(s.contains(s.last()));
        assert(s.drop_last().push(s.last()) =~= s);
    } else {
        assert(s =~= Seq::<char>::empty());
    }
}

proof fn lemma_partial_has_no_line(s: Seq<char>)
    ensures
        !text::line_split(s).1.contains('\n'),
        text::line_split(text::line_split(s).1) == (
            Seq::<Seq<char>>::empty(),
            text::line_split(s).1,
        ),
    decreases s.len(),
{
    if s.len() > 0 {
        lemma_partial_has_no_line(s.drop_last());
        let before = text::line_split(s.drop_last()).1;
        if s.last() != '\n' {
            let partial = before.push(s.last());
            assert forall|i: int| 0 <= i < partial.len() implies partial[i] != '\n' by {
                if i < before.len() {
                    assert(before.contains(before[i]));
                }
            }
        }
    }
    lemma_plain_is_partial(text::line_split(s).1);
}

proof fn lemma_lines_add(known: Activity, a: Seq<Seq<char>>, b: Seq<Seq<char>>)
    ensures
        after_lines(known, a + b) == after_lines(after_lines(known, a), b),
    decreases b.len(),
{
    if b.len() == 0 {
        assert(a + b =~= a);
    } else {
        lemma_lines_add(known, a, b.drop_last());
        assert((a + b).drop_last() =~= a + b.drop_last());
        assert((a + b).last() == b.last());
    }
}

/// Following a transcript as it grows tells the same as reading it at once: what was read of it
/// first, and then what stands from the end of the last complete line on, is all of it.
pub proof fn appends_are_followed(known: Activity, a: Seq<char>, b: Seq<char>)
    ensures
        ({
            let (first, partial) = text::line_split(a);
            after_lines(known, text::line_split(a + b).0) == after_lines(
                after_lines(known, first),
                text::line_split(partial + b).0,
            )
        }),
{
    let (first, partial) = text::line_split(a);
    lemma_lines_continue(a, b);
    lemma_lines_add(known, first, text::line_split(partial + b).0);
}

/// Only messages are activity: no other record changes when a session was last active.
pub proof fn only_messages_are_activity(known: Activity, record: Json)
    requires
        !is_message(record) || is_sidechain(record),
    ensures
        after_record(known, Some(record)).updated_at == known.updated_at,
{
}

/// What a session's activity is never goes back as its transcript is read on.
pub proof fn activity_does_not_go_back(known: Activity, record: Option<Json>)
    ensures
        time::not_after(known.updated_at, after_record(known, record).updated_at),
{
}

/// The texts of a message's blocks.
pub open spec fn block_texts(blocks: Seq<Json>) -> Seq<Seq<char>>
    decreases blocks.len(),
{
    if blocks.len() == 0 {
        Seq::empty()
    } else {
        let before = block_texts(blocks.drop_last());
        match blocks.last().member_text("text"@) {
            Some(s) => before.push(s),
            None => before,
        }
    }
}

/// The text of a record's message: its content, or the texts of its content's blocks, a line each.
pub open spec fn message_view(record: Json) -> Seq<char> {
    match record.nested("message"@, "content"@) {
        Some(content) => match content.text() {
            Some(s) => s,
            None => match content.elements() {
                Some(blocks) => text::joined(block_texts(blocks), "\n"@),
                None => Seq::empty(),
            },
        },
        None => Seq::empty(),
    }
}

/// The text of a record's message.
pub fn message_text(record: &Json) -> (r: String)
    ensures
        r@ == message_view(*record),
{
    let content = match record.get_nested("message", "content") {
        Some(content) => content,
        None => {
            return String::new();
        },
    };
    match content.as_str() {
        Some(s) => {
            return s.to_owned();
        },
        None => {},
    }
    let blocks = match content.as_array() {
        Some(blocks) => blocks,
        None => {
            return String::new();
        },
    };
    let mut texts: Vec<String> = Vec::new();
    let mut i: usize = 0;
    assert(text::views(texts@) =~= block_texts(blocks@.take(0)));
    while i < blocks.len()
        invariant
            i <= blocks@.len(),
            text::views(texts@) == block_texts(blocks@.take(i as int)),
        decreases blocks@.len() - i,
    {
        assert(blocks@.take(i + 1).drop_last() =~= blocks@.take(i as int));
        let ghost before = texts@;
        match blocks[i].get_str("text") {
            Some(s) => {
                texts.push(s.to_owned());
                assert(text::views(texts@) =~= text::views(before).push(s@));
            },
            None => {},
        }
        i += 1;
    }
    assert(blocks@.take(i as int) =~= blocks@);
    text::join(&texts, "\n")
}

/// The record that a line holds, where it is a message that belongs to the session's own course.
pub open spec fn logged(line: Seq<char>) -> Option<Json> {
    match json::json_in(encode_utf8(line)) {
        Some(record) => if is_message(record) && !is_sidechain(record) {
            Some(record)
        } else {
            None
        },
        None => None,
    }
}

/// The records that lines hold of the session's own course.
pub open spec fn logged_records(lines: Seq<Seq<char>>) -> Seq<Json>
    decreases lines.len(),
{
    if lines.len() == 0 {
        Seq::empty()
    } else {
        let before = logged_records(lines.drop_last());
        match logged(lines.last()) {
            Some(record) => before.push(record),
            None => before,
        }
    }
}

/// `log` is the line that a record of the provider's session becomes.
pub open spec fn is_log_of(
    log: SessionLog,
    record: Json,
    provider: Seq<char>,
    session_id: Seq<char>,
) -> bool {
    &&& log.timestamp == time_of(record)
    &&& log.provider@ == provider
    &&& log.session_id@ == session_id
    &&& log.source@ == provider
    &&& log.kind@ == "message"@
    &&& text::option_view(log.role) == record.member_text("type"@)
    &&& log.turn_id is None
    &&& log.condition is None
    &&& log.message@ == message_view(record)
    &&& log.metadata == Json::Null
}

fn log_of(line: &str, provider: &str, session_id: &str) -> (r: Option<SessionLog>)
    ensures
        match r {
            Some(log) => logged(line@) is Some && is_log_of(
                log,
                logged(line@)->0,
                provider@,
                session_id@,
            ),
            None => logged(line@) is None,
        },
{
    let record = match json::parse_text(line) {
        Some(record) => record,
        None => {
            return None;
        },
    };
    let role: String = match record.get_str("type") {
        Some(kind) => if text::same(kind, "user") || text::same(kind, "assistant") {
            kind.to_owned()
        } else {
            return None;
        },
        None => {
            return None;
        },
    };
    if record.is_true("isSidechain") {
        return None;
    }
    Some(
        SessionLog {
            timestamp: record_time(&record),
            provider: provider.to_owned(),
            session_id: session_id.to_owned(),
            source: provider.to_owned(),
            kind: "message".to_owned(),
            role: Some(role),
            turn_id: None,
            condition: None,
            message: message_text(&record),
            metadata: Json::Null,
        },
    )
}

/// The last `limit` records.
pub open spec fn last_records(records: Seq<Json>, limit: nat) -> Seq<Json> {
    if records.len() <= limit {
        records
    } else {
        records.skip(records.len() - limit)
    }
}

/// The last `limit` messages of the lines of a session's transcript.
pub fn session_logs(lines: &Vec<String>, provider: &str, session_id: &str, limit: usize) -> (r: Vec<
    SessionLog,
>)
    ensures
        ({
            let records = last_records(logged_records(text::views(lines@)), limit as nat);
            &&& r@.len() == records.len()
            &&& forall|i: int|
                0 <= i < r@.len() ==> is_log_of(
                    #[trigger] r@[i],
                    records[i],
                    provider@,
                    session_id@,
                )
        }),
{
    let ghost all = text::views(lines@);
    let mut logs: Vec<SessionLog> = Vec::new();
    let mut i: usize = 0;
    assert(logged_records(all.take(0)) =~= Seq::<Json>::empty());
    while i < lines.len()
        invariant
            i <= lines@.len(),
            all == text::views(lines@),
            logs@.len() == logged_records(all.take(i as int)).len(),
            forall|k: int|
                0 <= k < logs@.len() ==> is_log_of(
                    #[trigger] logs@[k],
                    logged_records(all.take(i as int))[k],
                    provider@,
                    session_id@,
                ),
        decreases lines@.len() - i,
    {
        assert(all.take(i + 1).drop_last() =~= all.take(i as int));
        assert(all.take(i + 1).last() == lines@[i as int]@);
        match log_of(lines[i].as_str(), provider, session_id) {
            Some(log) => {
                logs.push(log);
            },
            None => {},
        }
        i += 1;
    }
    assert(all.take(i as int) =~= all);
    let count: usize = logs.len();
    if count <= limit {
        return logs;
    }
    let ghost whole = logs@;
    let tail = logs.split_off(count - limit);
    assert(tail@ =~= whole.skip(count - limit));
    tail
}

/// The transcript of a session, where it has one.
pub open spec fn is_transcript_of(transcripts: Seq<Transcript>, id: Seq<char>, at: int) -> bool {
    &&& 0 <= at < transcripts.len()
    &&& transcripts[at].id@ == id
    &&& forall|k: int| 0 <= k < at ==> (#[trigger] transcripts[k]).id@ != id
}

/// None of the transcripts is that of the session.
pub open spec fn has_no_transcript(transcripts: Seq<Transcript>, id: Seq<char>) -> bool {
    forall|k: int| 0 <= k < transcripts.len() ==> (#[trigger] transcripts[k]).id@ != id
}

/// The place of the first transcript of a session.
pub fn transcript_of(transcripts: &Vec<Transcript>, id: &str) -> (r: Option<usize>)
    ensures
        match r {
            Some(at) => is_transcript_of(transcripts@, id@, at as int),
            None => has_no_transcript(transcripts@, id@),
        },
{
    let mut i: usize = 0;
    while i < transcripts.len()
        invariant
            i <= transcripts@.len(),
            forall|k: int| 0 <= k < i ==> (#[trigger] transcripts@[k]).id@ != id@,
        decreases transcripts@.len() - i,
    {
        if text::same(transcripts[i].id.as_str(), id) {
            return Some(i);
        }
        i += 1;
    }
    None
}

/// The sessions of transcripts, under the provider's name.
pub fn sessions_of(transcripts: &Vec<Transcript>, provider: &str) -> (r: Vec<Session>)
    ensures
        r@.len() == transcripts@.len(),
        forall|i: int|
            0 <= i < r@.len() ==> is_session_of(#[trigger] r@[i], transcripts@[i], provider@),
{
    let mut r: Vec<Session> = Vec::new();
    let mut i: usize = 0;
    while i < transcripts.len()
        invariant
            i <= transcripts@.len(),
            r@.len() == i,
            forall|k: int|
                0 <= k < i ==> is_session_of(#[trigger] r@[k], transcripts@[k], provider@),
        decreases transcripts@.len() - i,
    {
        r.push(transcripts[i].session(provider));
        i += 1;
    }
    r
}

/// The transcripts of a provider's sessions, as far as they were read.
#[derive(Debug)]
pub struct ClaudeProvider {
    /// The provider's name.
    pub name: String,
    pub transcripts: Vec<Transcript>,
}

/// A transcript is kept at this path.
pub open spec fn has_path(transcripts: Seq<Transcript>, path: Seq<char>) -> bool {
    exists|k: int| 0 <= k < transcripts.len() && (#[trigger] transcripts[k]).path@ == path
}

/// A path is among those that were seen.
pub open spec fn was_seen(seen: Seq<String>, path: Seq<char>) -> bool {
    exists|k: int| 0 <= k < seen.len() && (#[trigger] seen[k])@ == path
}

/// No two transcripts have one path.
pub open spec fn paths_differ(transcripts: Seq<Transcript>) -> bool {
    forall|i: int, j: int|
        #![trigger transcripts[i], transcripts[j]]
        0 <= i < j < transcripts.len() ==> transcripts[i].path@ != transcripts[j].path@
}

/// Nothing was read of a transcript.
pub open spec fn is_unread(
    transcript: Transcript,
    id: Seq<char>,
    path: Seq<char>,
    identity: (u64, u64),
) -> bool {
    &&& transcript.id@ == id
    &&& transcript.path@ == path
    &&& transcript.offset == 0
    &&& transcript.modified is None
    &&& transcript.identity == identity
    &&& !transcript.uncertain
    &&& transcript.title@ == id
    &&& transcript.updated_at is None
}

fn saw(seen: &Vec<String>, path: &str) -> (r: bool)
    ensures
        r == was_seen(seen@, path@),
{
    let mut i: usize = 0;
    while i < seen.len()
        invariant
            i <= seen@.len(),
            forall|k: int| 0 <= k < i ==> (#[trigger] seen@[k])@ != path@,
        decreases seen@.len() - i,
    {
        if text::same(seen[i].as_str(), path) {
            assert(seen@[i as int]@ == path@);
            return true;
        }
        i += 1;
    }
    false
}

impl ClaudeProvider {
    /// No transcript is kept twice.
    pub open spec fn well_formed(self) -> bool {
        paths_differ(self.transcripts@)
    }

    /// A provider without transcripts.
    pub fn new(name: &str) -> (r: Self)
        ensures
            r.name@ == name@,
            r.transcripts@.len() == 0,
            r.well_formed(),
    {
        ClaudeProvider { name: name.to_owned(), transcripts: Vec::new() }
    }

    /// The place of the transcript at a path. Where there is none, one is added of which nothing
    /// was read.
    pub fn entry(&mut self, id: &str, path: &str, identity: (u64, u64)) -> (r: usize)
        requires
            old(self).well_formed(),
        ensures
            final(self).well_formed(),
            final(self).name == old(self).name,
            r < final(self).transcripts@.len(),
            final(self).transcripts@[r as int].path@ == path@,
            if has_path(old(self).transcripts@, path@) {
                final(self).transcripts@ == old(self).transcripts@
            } else {
                &&& final(self).transcripts@ == old(self).transcripts@.push(
                    final(self).transcripts@[r as int],
                )
                &&& is_unread(final(self).transcripts@[r as int], id@, path@, identity)
            },
    {
        let mut i: usize = 0;
        while i < self.transcripts.len()
            invariant
                i <= self.transcripts@.len(),
                *self == *old(self),
                self.well_formed(),
                forall|k: int| 0 <= k < i ==> (#[trigger] self.transcripts@[k]).path@ != path@,
            decreases self.transcripts@.len() - i,
        {
            if text::same(self.transcripts[i].path.as_str(), path) {
                assert(has_path(self.transcripts@, path@));
                return i;
            }
            i += 1;
        }
        self.transcripts.push(Transcript::new(id, path, identity));
        i
    }

    /// Takes up that a file was seen: the place of its transcript, and where reading goes on, if
    /// it does.
    pub fn visit(
        &mut self,
        id: &str,
        path: &str,
        identity: (u64, u64),
        modified: Option<Timestamp>,
        length: u64,
    ) -> (r: (usize, Option<u64>))
        requires
            old(self).well_formed(),
        ensures
            final(self).well_formed(),
            final(self).name == old(self).name,
            r.0 < final(self).transcripts@.len(),
            final(self).transcripts@[r.0 as int].path@ == path@,
            if has_path(old(self).transcripts@, path@) {
                let before = old(self).transcripts@[r.0 as int];
                let after = final(self).transcripts@[r.0 as int];
                &&& r.0 < old(self).transcripts@.len()
                &&& final(self).transcripts@ == old(self).transcripts@.update(r.0 as int, after)
                &&& resumes(before, identity, modified, length, after, r.1)
            } else {
                let after = final(self).transcripts@[r.0 as int];
                &&& final(self).transcripts@ == old(self).transcripts@.push(after)
                &&& is_unread(after, id@, path@, identity)
                &&& r.1 == (if modified is None && length == 0 {
                    None::<u64>
                } else {
                    Some(0u64)
                })
            },
    {
        let at: usize = self.entry(id, path, identity);
        let ghost entered = self.transcripts@;
        let offset = self.transcripts[at].resume_at(identity, modified, length);
        proof {
            assert(self.transcripts@ == entered.update(at as int, self.transcripts@[at as int]));
        }
        (at, offset)
    }

    /// Forgets the transcripts whose path was not seen.
    pub fn keep_seen(&mut self, seen: &Vec<String>)
        requires
            old(self).well_formed(),
        ensures
            final(self).well_formed(),
            final(self).name == old(self).name,
            final(self).transcripts@ == old(self).transcripts@.filter(
                |transcript: Transcript| was_seen(seen@, transcript.path@),
            ),
    {
        let ghost all = self.transcripts@;
        let ghost keep = |transcript: Transcript| was_seen(seen@, transcript.path@);
        let ghost mut read: int = 0;
        let mut i: usize = 0;
        proof {
            reveal(Seq::filter);
            assert(all.take(0).filter(keep) =~= Seq::empty());
            assert(Seq::<Transcript>::empty() + all.skip(0) =~= all);
        }
        while i < self.transcripts.len()
            invariant
                self.name == old(self).name,
                0 <= read <= all.len(),
                keep == (|transcript: Transcript| was_seen(seen@, transcript.path@)),
                i == all.take(read).filter(keep).len(),
                self.transcripts@ == all.take(read).filter(keep) + all.skip(read),
                paths_differ(self.transcripts@),
            decreases self.transcripts@.len() - i,
        {
            proof {
                assert(self.transcripts@[i as int] == all[read]);
                all.take(read).lemma_filter_push(all[read], keep);
                assert(all.take(read + 1) =~= all.take(read).push(all[read]));
            }
            let ghost before = self.transcripts@;
            if saw(seen, self.transcripts[i].path.as_str()) {
                i += 1;
                assert(all.take(read + 1).filter(keep) + all.skip(read + 1)
                    =~= self.transcripts@);
            } else {
                let _ = self.transcripts.remove(i);
                assert(self.transcripts@ =~= before.remove(i as int));
                assert(all.take(read + 1).filter(keep) + all.skip(read + 1)
                    =~= self.transcripts@);
            }
            proof {
                read = read + 1;
            }
        }
        assert(all.take(read) =~= all);
        assert(all.filter(keep) + all.skip(read) =~= all.filter(keep));
    }
}

/// A file that was read to its end is not read again while it stays as it is.
pub proof fn unchanged_transcripts_are_not_read(
    transcript: Transcript,
    length: u64,
    after: Transcript,
    offset: Option<u64>,
)
    requires
        transcript.offset == length,
        resumes(
            transcript,
            transcript.identity,
            transcript.modified,
            length,
            after,
            offset,
        ),
    ensures
        offset is None,
        after == transcript,
{
}

} // verus!
