//! The accumulated result of one invocation, the line classifier that folds
//! each decoded record into it, and the final gate on required fields.
use vstd::prelude::*;
use crate::record::{ErrorField, Record};
use crate::text::{contains, has_substring, lower_of, opt_view, push_char, to_lowercase};

verus! {

/// Most records kept in `GeminiResult::all_messages`.
pub const MAX_MESSAGES_LIMIT: usize = 10000;

/// Notice the CLI prints about its own `--prompt` flag; never assistant text.
pub const PROMPT_DEPRECATION_WARNING: &'static str = "The --prompt (-p) flag has been deprecated";

/// Prefix of a narrative line taken from an error record.
pub const ERROR_PREFIX: &'static str = "gemini error: ";

/// Narrative line when no session identifier was seen.
pub const MISSING_SESSION_ID: &'static str = "Failed to get `SESSION_ID` from the gemini session.";

/// Narrative line when no assistant text was seen.
pub const MISSING_AGENT_MESSAGES: &'static str = "Failed to get `agent_messages` from the gemini session.";

/// State accumulated over one invocation.
#[derive(Debug)]
pub struct GeminiResult {
    pub success: bool,
    pub session_id: String,
    pub agent_messages: String,
    pub all_messages: Vec<serde_json::Value>,
    pub error: Option<String>,
}

pub open spec fn newline() -> Seq<char> {
    seq!['\n']
}

/// The narrative `prev` extended by `line`: a newline joins them, and an
/// absent or empty narrative is replaced.
pub open spec fn extend_spec(prev: Option<Seq<char>>, line: Seq<char>) -> Seq<char> {
    if prev is Some && prev->0.len() > 0 {
        prev->0 + newline() + line
    } else {
        line
    }
}

/// Joins `a` and `b` with a newline, or yields `b` when `a` is empty.
pub open spec fn join_spec(a: Seq<char>, b: Seq<char>) -> Seq<char> {
    if a.len() > 0 {
        a + newline() + b
    } else {
        b
    }
}

impl GeminiResult {
    /// The state before any record: successful, nothing seen.
    pub fn new() -> (r: GeminiResult)
        ensures
            r.success,
            r.session_id@.len() == 0,
            r.agent_messages@.len() == 0,
            r.all_messages@.len() == 0,
            r.error is None,
    {
        GeminiResult {
            success: true,
            session_id: String::new(),
            agent_messages: String::new(),
            all_messages: Vec::new(),
            error: None,
        }
    }

    /// The record sequence respects its cap.
    pub open spec fn wf(&self) -> bool {
        self.all_messages@.len() <= MAX_MESSAGES_LIMIT
    }
}

/// Extends a narrative by one line, never dropping what it held.
pub fn extend_narrative(prev: Option<String>, line: &str) -> (r: String)
    ensures
        r@ == extend_spec(opt_view(prev), line@),
{
    match prev {
        Some(p) => {
            if p.as_str().is_empty() {
                line.to_owned()
            } else {
                let mut out = p;
                push_char(&mut out, '\n');
                out.append(line);
                out
            }
        },
        None => line.to_owned(),
    }
}

/// A record whose type says "message" and role says "assistant".
pub open spec fn is_assistant_message(r: &Record) -> bool {
    &&& r.kind is Some
    &&& r.kind->0@ == "message"@
    &&& r.role is Some
    &&& r.role->0@ == "assistant"@
}

/// The assistant text that a record contributes, if any.
pub open spec fn assistant_text(r: &Record) -> Option<Seq<char>> {
    if is_assistant_message(r) && r.content is Some && !has_substring(
        r.content->0@,
        PROMPT_DEPRECATION_WARNING@,
    ) {
        Some(r.content->0@)
    } else {
        None
    }
}

/// A lowercased type that names a failure or an error.
pub open spec fn type_signals(lowered: Seq<char>) -> bool {
    has_substring(lowered, "fail"@) || has_substring(lowered, "error"@)
}

/// The record's type names a failure. The type "message" names none, so it
/// is not lowercased; any other type is lowercased first.
pub open spec fn type_names_failure(r: &Record) -> bool {
    r.kind is Some && r.kind->0@ != "message"@ && type_signals(lower_of(r.kind->0@))
}

/// The record marks the invocation failed.
pub open spec fn signals_error(r: &Record) -> bool {
    type_names_failure(r) || !(r.error is Absent)
}

/// The narrative line an error record carries, if any: the message of its
/// error object, or else its top-level message.
pub open spec fn error_line(r: &Record) -> Option<Seq<char>> {
    match r.error {
        ErrorField::Object(Some(m)) => Some(ERROR_PREFIX@ + m@),
        _ => match r.message {
            Some(m) => Some(ERROR_PREFIX@ + m@),
            None => None,
        },
    }
}

/// Whether a type discriminator, already lowercased, names a failure.
pub fn type_signals_error(lowered: &str) -> (r: bool)
    ensures
        r == type_signals(lowered@),
{
    contains(lowered, "fail") || contains(lowered, "error")
}

fn prefixed(m: &String) -> (r: String)
    ensures
        r@ == ERROR_PREFIX@ + m@,
{
    let mut out = ERROR_PREFIX.to_owned();
    out.append(m.as_str());
    out
}

/// `after` is `before` once the classifier has seen `rec`: the record is kept
/// while under the cap, a non-empty session identifier replaces the last one,
/// assistant text is newline-joined, and an error record fails the result and
/// extends the narrative with its message.
pub open spec fn classified(before: GeminiResult, rec: Record, after: GeminiResult) -> bool {
    let messages = if before.all_messages@.len() < MAX_MESSAGES_LIMIT {
        before.all_messages@.push(rec.value)
    } else {
        before.all_messages@
    };
    let session_id = if rec.session_id is Some && rec.session_id->0@.len() > 0 {
        rec.session_id->0@
    } else {
        before.session_id@
    };
    let agent_messages = match assistant_text(&rec) {
        Some(c) => join_spec(before.agent_messages@, c),
        None => before.agent_messages@,
    };
    let error = if signals_error(&rec) && error_line(&rec) is Some {
        Some(extend_spec(opt_view(before.error), error_line(&rec)->0))
    } else {
        opt_view(before.error)
    };
    &&& after.all_messages@ == messages
    &&& after.session_id@ == session_id
    &&& after.agent_messages@ == agent_messages
    &&& after.success == (before.success && !signals_error(&rec))
    &&& opt_view(after.error) == error
}

/// Folds one decoded record into the accumulated result.
pub fn process_json_line(line_data: Record, result: &mut GeminiResult)
    requires
        old(result).wf(),
    ensures
        final(result).wf(),
        classified(*old(result), line_data, *final(result)),
{
    let Record { value, session_id, kind, role, content, error, message } = line_data;

    if result.all_messages.len() < MAX_MESSAGES_LIMIT {
        result.all_messages.push(value);
    }

    if let Some(sid) = session_id {
        if !sid.as_str().is_empty() {
            result.session_id = sid;
        }
    }

    let is_message = match &kind {
        Some(k) => *k == "message".to_owned(),
        None => false,
    };
    let is_assistant = match &role {
        Some(r) => *r == "assistant".to_owned(),
        None => false,
    };
    if is_message && is_assistant {
        if let Some(c) = content {
            if !contains(c.as_str(), PROMPT_DEPRECATION_WARNING) {
                let ghost prev = result.agent_messages@;
                if !result.agent_messages.as_str().is_empty() {
                    push_char(&mut result.agent_messages, '\n');
                }
                result.agent_messages.append(c.as_str());
                proof {
                    assert(prev.push('\n') =~= prev + newline());
                    assert(Seq::<char>::empty() + c@ =~= c@);
                }
            }
        }
    }

    let type_error = match &kind {
        Some(k) => !is_message && type_signals_error(to_lowercase(k.as_str()).as_str()),
        None => false,
    };
    let has_error_member = match &error {
        ErrorField::Absent => false,
        _ => true,
    };
    if type_error || has_error_member {
        result.success = false;
        let line = match &error {
            ErrorField::Object(Some(m)) => Some(prefixed(m)),
            _ => match &message {
                Some(m) => Some(prefixed(m)),
                None => None,
            },
        };
        if let Some(l) = line {
            let prev = result.error.take();
            result.error = Some(extend_narrative(prev, l.as_str()));
        }
    }
}

/// The narrative lines owed for missing required fields, newline-joined.
pub open spec fn missing_fields_text(session_id: Seq<char>, agent_messages: Seq<char>) -> Seq<char> {
    if session_id.len() == 0 && agent_messages.len() == 0 {
        MISSING_SESSION_ID@ + newline() + MISSING_AGENT_MESSAGES@
    } else if session_id.len() == 0 {
        MISSING_SESSION_ID@
    } else {
        MISSING_AGENT_MESSAGES@
    }
}

/// The narrative after the required-field gate: unchanged when both fields
/// are present, else extended by the lines for what is missing.
pub open spec fn gated_error(
    error: Option<Seq<char>>,
    session_id: Seq<char>,
    agent_messages: Seq<char>,
) -> Option<Seq<char>> {
    if session_id.len() > 0 && agent_messages.len() > 0 {
        error
    } else {
        Some(extend_spec(error, missing_fields_text(session_id, agent_messages)))
    }
}

/// Fails the result when the session identifier or the assistant text is
/// missing, extending the narrative with one line for each.
pub fn enforce_required_fields(result: GeminiResult) -> (r: GeminiResult)
    ensures
        r.session_id == result.session_id,
        r.agent_messages == result.agent_messages,
        r.all_messages == result.all_messages,
        r.success == (result.success && result.session_id@.len() > 0
            && result.agent_messages@.len() > 0),
        opt_view(r.error) == gated_error(
            opt_view(result.error),
            result.session_id@,
            result.agent_messages@,
        ),
{
    let mut result = result;
    let no_session = result.session_id.as_str().is_empty();
    let no_messages = result.agent_messages.as_str().is_empty();
    if no_session || no_messages {
        let errors = if no_session && no_messages {
            let mut both = MISSING_SESSION_ID.to_owned();
            push_char(&mut both, '\n');
            both.append(MISSING_AGENT_MESSAGES);
            both
        } else if no_session {
            MISSING_SESSION_ID.to_owned()
        } else {
            MISSING_AGENT_MESSAGES.to_owned()
        };
        result.success = false;
        let prev = result.error.take();
        result.error = Some(extend_narrative(prev, errors.as_str()));
    }
    result
}

/// The record sequence never grows past its cap, whatever the stream holds.
pub proof fn lemma_records_capped(before: GeminiResult, rec: Record, after: GeminiResult)
    requires
        before.wf(),
        classified(before, rec, after),
    ensures
        after.wf(),
        after.all_messages@.len() <= MAX_MESSAGES_LIMIT,
        before.all_messages@.len() == MAX_MESSAGES_LIMIT ==> after.all_messages@
            == before.all_messages@,
{
}

/// A record whose content holds the deprecation notice adds no assistant
/// text, while a session identifier it carries is still taken; an assistant
/// message of that kind without an error member changes nothing else.
pub proof fn lemma_deprecation_notice_skipped(
    before: GeminiResult,
    rec: Record,
    after: GeminiResult,
)
    requires
        classified(before, rec, after),
        rec.content is Some,
        has_substring(rec.content->0@, PROMPT_DEPRECATION_WARNING@),
    ensures
        after.agent_messages@ == before.agent_messages@,
        rec.session_id is Some && rec.session_id->0@.len() > 0 ==> after.session_id@
            == rec.session_id->0@,
        is_assistant_message(&rec) && rec.error is Absent ==> {
            &&& after.success == before.success
            &&& opt_view(after.error) == opt_view(before.error)
        },
{
}

/// Two assistant records, with texts `a` then `b`, leave `a`, a newline,
/// then `b` as the assistant text of a result that held none.
pub proof fn lemma_assistant_text_in_order(
    r0: GeminiResult,
    first: Record,
    r1: GeminiResult,
    second: Record,
    r2: GeminiResult,
)
    requires
        r0.agent_messages@.len() == 0,
        classified(r0, first, r1),
        classified(r1, second, r2),
        is_assistant_message(&first),
        is_assistant_message(&second),
        first.content is Some,
        second.content is Some,
        first.content->0@.len() > 0,
        !has_substring(first.content->0@, PROMPT_DEPRECATION_WARNING@),
        !has_substring(second.content->0@, PROMPT_DEPRECATION_WARNING@),
    ensures
        r2.agent_messages@ == first.content->0@ + newline() + second.content->0@,
{
}

} // verus!
