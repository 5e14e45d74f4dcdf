//! What is read of the transcripts that a provider keeps.

use vstd::prelude::*;
use vstd::string::*;

use crate::json;
use crate::json::Json;
use crate::laws::failures;
use crate::models::{Session, SessionLog, SessionState};
use crate::providers::claude;
use crate::providers::claude::{ClaudeProvider, Transcript};
use crate::text;
use crate::time;
use crate::time::Timestamp;

verus! {

/// A record is what the user or the assistant said.
pub open spec fn is_said(record: Json) -> bool {
    failures::tells(record, "type"@, "user"@) || failures::tells(record, "type"@, "assistant"@)
}

/// A record does not belong to the session's own course.
pub open spec fn is_aside(record: Json) -> bool {
    record is Object && record->Object_0@.contains_key("isSidechain"@)
        && record->Object_0@["isSidechain"@] == Json::Bool(true)
}

/// Only files of one kind hold transcripts.
pub proof fn transcripts_are_of_one_kind(extension: Option<&str>, stem: Option<&str>, r: bool)
    requires
        call_ensures(claude::is_transcript, (extension, stem), r),
    ensures
        r ==> extension is Some && extension->0@ == "jsonl"@ && stem is Some,
        extension is Some && extension->0@ == "jsonl"@ && stem is Some ==> r == claude::is_uuid(
            stem->0@,
        ),
{
}

/// A record that cannot be read leaves open whether there was activity; nothing else changes.
pub proof fn unreadable_records_leave_activity_open(
    transcript: &mut Transcript,
    record: Option<&Json>,
)
    requires
        call_ensures(Transcript::read_record, (transcript, record), ()),
        record is None,
    ensures
        final(transcript).uncertain,
        final(transcript).title@ == old(transcript).title@,
        final(transcript).updated_at == old(transcript).updated_at,
{
    lemma_activity(*final(transcript));
}

proof fn lemma_activity(transcript: Transcript)
    ensures
        transcript.activity().uncertain == transcript.uncertain,
        transcript.activity().title == transcript.title@,
        transcript.activity().updated_at == transcript.updated_at,
{
}

/// What is said moves the session's activity to its time, never back, and settles what was left
/// open. What does not belong to the session's own course changes nothing, and any other record
/// gives a title at most.
pub proof fn only_what_is_said_is_activity(
    transcript: &mut Transcript,
    record: Option<&Json>,
    value: &Json,
    at: Option<Timestamp>,
    later: Option<Timestamp>,
)
    requires
        record == Some(value),
        call_ensures(Transcript::read_record, (transcript, record), ()),
        call_ensures(claude::record_time, (value,), at),
        call_ensures(time::later_of, (old(transcript).updated_at, at), later),
    ensures
        is_aside(*value) ==> final(transcript).uncertain == old(transcript).uncertain
            && final(transcript).title@ == old(transcript).title@
            && final(transcript).updated_at == old(transcript).updated_at,
        !is_aside(*value) && is_said(*value) ==> final(transcript).updated_at == later
            && final(transcript).uncertain == (old(transcript).uncertain && at is None),
        !is_aside(*value) && !is_said(*value) ==> final(transcript).updated_at
            == old(transcript).updated_at && final(transcript).uncertain
            == old(transcript).uncertain,
        final(transcript).offset == old(transcript).offset,
        final(transcript).id == old(transcript).id,
{
    lemma_activity(*old(transcript));
    lemma_activity(*final(transcript));
    assert(claude::is_message(*value) == is_said(*value));
    assert(claude::is_sidechain(*value) == is_aside(*value));
}

/// A record gives its session a title, its own before one that was set.
pub proof fn records_give_titles(
    transcript: &mut Transcript,
    record: Option<&Json>,
    value: &Json,
    title: Seq<char>,
)
    requires
        record == Some(value),
        call_ensures(Transcript::read_record, (transcript, record), ()),
        !is_aside(*value),
    ensures
        failures::tells(*value, "aiTitle"@, title) ==> final(transcript).title@ == title,
        !failures::tells_something(*value, "aiTitle"@) && failures::tells(
            *value,
            "customTitle"@,
            title,
        ) ==> final(transcript).title@ == title,
        !failures::tells_something(*value, "aiTitle"@) && !failures::tells_something(
            *value,
            "customTitle"@,
        ) ==> final(transcript).title@ == old(transcript).title@,
{
    lemma_activity(*old(transcript));
    lemma_activity(*final(transcript));
    assert(claude::is_sidechain(*value) == is_aside(*value));
}

/// A time stands where a record says it.
pub proof fn records_tell_their_time(record: &Json, r: Option<Timestamp>, s: Seq<char>)
    requires
        call_ensures(claude::record_time, (record,), r),
    ensures
        failures::tells(*record, "timestamp"@, s) ==> r == time::text_time(s),
        !failures::tells_something(*record, "timestamp"@) ==> r is None,
{
}

/// A file that is as it was read is not read again. One that has grown is read on where reading
/// stopped; another one, or one that has not grown, from its start and with no activity yet.
pub proof fn files_are_read_on(
    transcript: &mut Transcript,
    identity: (u64, u64),
    modified: Option<Timestamp>,
    length: u64,
    r: Option<u64>,
)
    requires
        call_ensures(Transcript::resume_at, (transcript, identity, modified, length), r),
    ensures
        r is None <==> old(transcript).identity == identity && old(transcript).modified == modified
            && old(transcript).offset == length,
        r is Some && old(transcript).identity == identity && length > old(transcript).offset ==> r
            == Some(old(transcript).offset) && final(transcript).updated_at
            == old(transcript).updated_at,
        r is Some && (old(transcript).identity != identity || length <= old(transcript).offset)
            ==> r == Some(0u64) && final(transcript).updated_at is None,
        r is Some ==> final(transcript).identity == identity && final(transcript).offset == r->0,
        final(transcript).title == old(transcript).title,
        final(transcript).uncertain == old(transcript).uncertain,
{
}

/// What is appended counts once its line is complete: a line that goes on is left to be read again.
pub proof fn unfinished_lines_wait(transcript: &mut Transcript, appended: &str)
    requires
        call_ensures(Transcript::read_appended, (transcript, appended), ()),
        forall|i: int| 0 <= i < appended@.len() ==> appended@[i] != '\n',
    ensures
        final(transcript).offset == old(transcript).offset,
        final(transcript).updated_at == old(transcript).updated_at,
        final(transcript).title@ == old(transcript).title@,
        final(transcript).uncertain == old(transcript).uncertain,
{
    claude::lemma_plain_is_partial(appended@);
    lemma_activity(*old(transcript));
    lemma_activity(*final(transcript));
}

/// A complete line counts as its record does, and all its bytes are read.
pub proof fn finished_lines_are_read(
    transcript: &mut Transcript,
    appended: &str,
    line: Seq<char>,
    other: &mut Transcript,
    record: Option<&Json>,
)
    requires
        call_ensures(Transcript::read_appended, (transcript, appended), ()),
        appended@ == line.push('\n'),
        forall|i: int| 0 <= i < line.len() ==> line[i] != '\n',
        *old(other) == *old(transcript),
        record is Some <==> json::json_in(vstd::utf8::encode_utf8(appended@)) is Some,
        record is Some ==> *record->0 == json::json_in(vstd::utf8::encode_utf8(appended@))->0,
        call_ensures(Transcript::read_record, (other, record), ()),
    ensures
        final(transcript).updated_at == final(other).updated_at,
        final(transcript).title@ == final(other).title@,
        final(transcript).uncertain == final(other).uncertain,
        final(transcript).offset == old(transcript).offset + vstd::utf8::encode_utf8(
            appended@,
        ).len(),
{
    claude::lemma_plain_is_partial(line);
    assert(appended@.drop_last() =~= line);
    let lines = text::line_split(appended@).0;
    assert(lines =~= seq![appended@]);
    assert(lines.drop_last() =~= Seq::<Seq<char>>::empty());
    assert(claude::bytes_of(lines.drop_last()) == 0);
    let known = old(transcript).activity();
    assert(claude::after_lines(known, lines.drop_last()) == known);
    lemma_activity(*final(transcript));
    lemma_activity(*final(other));
}

/// A file that could not be read to its end is read again, and its activity is left open.
pub proof fn unread_files_are_read_again(
    transcript: &mut Transcript,
    modified: Option<Timestamp>,
    readable: bool,
)
    requires
        call_ensures(Transcript::finish, (transcript, modified, readable), ()),
    ensures
        readable ==> final(transcript).modified == modified && final(transcript).uncertain
            == old(transcript).uncertain,
        !readable ==> final(transcript).modified is None && final(transcript).uncertain,
        final(transcript).offset == old(transcript).offset,
        final(transcript).updated_at == old(transcript).updated_at,
{
}

/// A session has the name, the title and the activity of its transcript; where that is left open it
/// has none and says so. It can be discovered and read, and its state is not known.
pub proof fn transcripts_become_sessions(transcript: &Transcript, provider: &str, r: Session)
    requires
        call_ensures(Transcript::session, (transcript, provider), r),
    ensures
        r.provider@ == provider@,
        r.id@ == transcript.id@,
        r.title@ == transcript.title@,
        r.state == SessionState::Unknown,
        r.updated_at == (if transcript.uncertain {
            None
        } else {
            transcript.updated_at
        }),
        failures::tells(r.metadata, "transcript"@, transcript.path@),
        r.metadata is Object,
        transcript.uncertain <==> r.metadata->Object_0@.contains_key("activity_unknown"@),
{
    reveal_strlit("capabilities");
    reveal_strlit("transcript");
    reveal_strlit("activity_unknown");
    assert("capabilities"@.len() == 12 && "transcript"@.len() == 10 && "activity_unknown"@.len()
        == 16);
}

/// A message that is a text is that text; without one there is nothing.
pub proof fn messages_are_their_content(record: &Json, r: String, s: Seq<char>)
    requires
        call_ensures(claude::message_text, (record,), r),
    ensures
        *record is Object && (*record)->Object_0@.contains_key("message"@) && failures::tells(
            (*record)->Object_0@["message"@],
            "content"@,
            s,
        ) ==> r@ == s,
        !(*record is Object && (*record)->Object_0@.contains_key("message"@)) ==> r@.len() == 0,
{
}

/// A message of blocks is their texts, a line each; a block without text is left out.
pub proof fn blocks_are_put_in_lines(
    record: &Json,
    longer: &Json,
    blocks: Seq<Json>,
    block: Json,
    s: Seq<char>,
    shown: String,
    r: String,
)
    requires
        call_ensures(claude::message_text, (record,), shown),
        call_ensures(claude::message_text, (longer,), r),
        record.nested("message"@, "content"@) is Some,
        record.nested("message"@, "content"@)->0 is Array,
        record.nested("message"@, "content"@)->0->Array_0@ == blocks,
        longer.nested("message"@, "content"@) is Some,
        longer.nested("message"@, "content"@)->0 is Array,
        longer.nested("message"@, "content"@)->0->Array_0@ == blocks.push(block),
    ensures
        !failures::tells_something(block, "text"@) ==> r@ == shown@,
        failures::tells(block, "text"@, s) && blocks.len() == 0 ==> r@ == s,
        failures::tells(block, "text"@, s) && (exists|i: int|
            0 <= i < blocks.len() && failures::tells_something(#[trigger] blocks[i], "text"@))
            ==> r@ == shown@ + "\n"@ + s,
{
    assert(blocks.push(block).drop_last() =~= blocks);
    let before = claude::block_texts(blocks);
    let after = claude::block_texts(blocks.push(block));
    if failures::tells(block, "text"@, s) {
        assert(after == before.push(s));
        assert(after.drop_last() =~= before);
        if exists|i: int|
            0 <= i < blocks.len() && failures::tells_something(#[trigger] blocks[i], "text"@) {
            let i = choose|i: int|
                0 <= i < blocks.len() && failures::tells_something(#[trigger] blocks[i], "text"@);
            lemma_some_text(blocks, i);
        }
    }
}

proof fn lemma_some_text(blocks: Seq<Json>, i: int)
    requires
        0 <= i < blocks.len(),
        failures::tells_something(blocks[i], "text"@),
    ensures
        claude::block_texts(blocks).len() > 0,
    decreases blocks.len(),
{
    if i < blocks.len() - 1 {
        assert(blocks.drop_last()[i] == blocks[i]);
        lemma_some_text(blocks.drop_last(), i);
    }
}

/// The lines of a session are what was said in its own course, in its order, the last ones and no
/// more than are asked for.
pub proof fn lines_are_what_was_said(
    lines: &Vec<String>,
    provider: &str,
    session_id: &str,
    limit: usize,
    r: Vec<SessionLog>,
    i: int,
)
    requires
        call_ensures(claude::session_logs, (lines, provider, session_id, limit), r),
        0 <= i < r@.len(),
    ensures
        r@.len() <= limit,
        r@[i].provider@ == provider@,
        r@[i].session_id@ == session_id@,
        r@[i].source@ == provider@,
        r@[i].kind@ == "message"@,
        r@[i].role is Some && (r@[i].role->0@ == "user"@ || r@[i].role->0@ == "assistant"@),
        exists|k: int| 0 <= k < lines@.len() && is_line_of(r@[i], (#[trigger] lines@[k])@),
{
    let all = claude::logged_records(text::views(lines@));
    let records = claude::last_records(all, limit as nat);
    let at = all.len() - records.len() + i;
    assert(records[i] == all[at]);
    assert(claude::is_log_of(r@[i], records[i], provider@, session_id@));
    let k = lemma_logged_line(text::views(lines@), at);
    assert(text::views(lines@)[k] == lines@[k]@);
    assert(text::views(lines@).len() == lines@.len());
    assert(is_line_of(r@[i], lines@[k]@));
}

/// A line of activity is what a line of the transcript says.
pub open spec fn is_line_of(log: SessionLog, line: Seq<char>) -> bool {
    match json::json_in(vstd::utf8::encode_utf8(line)) {
        Some(record) => {
            &&& is_said(record)
            &&& !is_aside(record)
            &&& log.timestamp == claude::time_of(record)
            &&& log.message@ == claude::message_view(record)
            &&& failures::tells(record, "type"@, log.role->0@)
        },
        None => false,
    }
}

proof fn lemma_logged_line(lines: Seq<Seq<char>>, at: int) -> (k: int)
    requires
        0 <= at < claude::logged_records(lines).len(),
    ensures
        0 <= k < lines.len(),
        claude::logged(lines[k]) == Some(claude::logged_records(lines)[at]),
    decreases lines.len(),
{
    let before = claude::logged_records(lines.drop_last());
    if at < before.len() {
        let k = lemma_logged_line(lines.drop_last(), at);
        assert(lines.drop_last()[k] == lines[k]);
        k
    } else {
        lines.len() - 1
    }
}

/// Every transcript that is kept is a session, in the same order.
pub proof fn every_transcript_is_a_session(
    transcripts: &Vec<Transcript>,
    provider: &str,
    r: Vec<Session>,
    i: int,
)
    requires
        call_ensures(claude::sessions_of, (transcripts, provider), r),
        0 <= i < transcripts@.len(),
    ensures
        r@.len() == transcripts@.len(),
        r@[i].id@ == transcripts@[i].id@,
        r@[i].provider@ == provider@,
        r@[i].title@ == transcripts@[i].title@,
        transcripts@[i].uncertain ==> r@[i].updated_at is None,
        !transcripts@[i].uncertain ==> r@[i].updated_at == transcripts@[i].updated_at,
{
    assert(claude::is_session_of(r@[i], transcripts@[i], provider@));
}

/// The first transcript of a session is found, wherever there is one.
pub proof fn transcripts_are_found(transcripts: &Vec<Transcript>, id: &str, r: Option<usize>, k: int)
    requires
        call_ensures(claude::transcript_of, (transcripts, id), r),
        0 <= k < transcripts@.len(),
        transcripts@[k].id@ == id@,
    ensures
        r is Some,
        r->0 <= k,
        transcripts@[r->0 as int].id@ == id@,
{
    if r is Some && k < r->0 {
        assert(transcripts@[k].id@ != id@);
    }
    if r is None {
        assert(transcripts@[k].id@ != id@);
    }
}

/// A new file is kept with nothing read of it; one that is kept stays as it is.
pub proof fn new_files_are_kept_unread(
    provider: &mut ClaudeProvider,
    id: &str,
    path: &str,
    identity: (u64, u64),
    r: usize,
)
    requires
        call_ensures(ClaudeProvider::entry, (provider, id, path, identity), r),
    ensures
        r < final(provider).transcripts@.len(),
        final(provider).transcripts@[r as int].path@ == path@,
        (exists|k: int|
            0 <= k < old(provider).transcripts@.len() && (#[trigger] old(provider).transcripts@[k]).path@ == path@) ==> final(provider).transcripts@
            == old(provider).transcripts@,
        (forall|k: int|
            0 <= k < old(provider).transcripts@.len() ==> (#[trigger] old(provider).transcripts@[k]).path@ != path@) ==> {
            &&& final(provider).transcripts@.len() == old(provider).transcripts@.len() + 1
            &&& final(provider).transcripts@[r as int].id@ == id@
            &&& final(provider).transcripts@[r as int].title@ == id@
            &&& final(provider).transcripts@[r as int].offset == 0
            &&& final(provider).transcripts@[r as int].updated_at is None
            &&& !final(provider).transcripts@[r as int].uncertain
        },
{
    let before = old(provider).transcripts@;
    if exists|k: int| 0 <= k < before.len() && (#[trigger] before[k]).path@ == path@ {
        assert(claude::has_path(before, path@));
    }
}

/// Only files that are still there are kept.
pub proof fn missing_files_are_dropped(
    provider: &mut ClaudeProvider,
    seen: &Vec<String>,
    transcript: Transcript,
)
    requires
        call_ensures(ClaudeProvider::keep_seen, (provider, seen), ()),
    ensures
        final(provider).transcripts@.contains(transcript) <==> old(provider).transcripts@.contains(transcript) && exists|k: int|
            0 <= k < seen@.len() && (#[trigger] seen@[k])@ == transcript.path@,
{
    let before = old(provider).transcripts@;
    let after = final(provider).transcripts@;
    let keep = |transcript: Transcript| claude::was_seen(seen@, transcript.path@);
    assert(after == before.filter(keep));
    if after.contains(transcript) {
        let i = choose|i: int| 0 <= i < after.len() && after[i] == transcript;
        before.lemma_filter_pred(keep, i);
        before.lemma_filter_contains_rev(keep, transcript);
        assert(claude::was_seen(seen@, transcript.path@));
    }
    if before.contains(transcript) && claude::was_seen(seen@, transcript.path@) {
        let i = choose|i: int| 0 <= i < before.len() && before[i] == transcript;
        before.lemma_filter_contains(keep, i);
    }
}

} // verus!
