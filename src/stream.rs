//! The output aggregator: what one invocation collects from the child's two
//! streams, line by line, with caps that bound its memory, and the
//! reconciliation with the exit status once both streams are drained.
use vstd::prelude::*;
use crate::classify::{
    classified, enforce_required_fields, extend_narrative, extend_spec, gated_error,
    is_assistant_message, missing_fields_text, newline, process_json_line,
    signals_error, GeminiResult, MAX_MESSAGES_LIMIT, MISSING_AGENT_MESSAGES, MISSING_SESSION_ID,
    PROMPT_DEPRECATION_WARNING,
};
use crate::record::{decode_record, fields_of, is_json_text, Record};
use crate::text::{
    char_len_utf8, char_utf8_len, decimal, has_substring, is_blank, lemma_substring_within,
    lemma_utf8_len_concat, lemma_utf8_len_push, lemma_utf8_len_single, opt_view, push_char, push_decimal,
    trim, trimmed, utf8_len,
};

verus! {

/// Most unparsable lines kept for diagnosis.
pub const MAX_NON_JSON_LINES: usize = 1000;

/// Most bytes of diagnostic output kept, marker excluded.
pub const MAX_STDERR_BYTES: usize = 100_000;

/// Appended once to the diagnostic capture when bytes had to be dropped.
pub const STDERR_TRUNCATED: &'static str = "\n... (stderr truncated)";

/// The longest prefix of `s` whose UTF-8 encoding fits in `budget` bytes.
pub open spec fn fit_prefix(s: Seq<char>, budget: nat) -> Seq<char>
    decreases s.len(),
{
    if s.len() == 0 || char_utf8_len(s[0]) > budget {
        Seq::<char>::empty()
    } else {
        seq![s[0]] + fit_prefix(s.drop_first(), (budget - char_utf8_len(s[0])) as nat)
    }
}

/// What a diagnostic line adds to the capture: the line, after a newline
/// when an earlier line was taken.
pub open spec fn stderr_piece(started: bool, line: Seq<char>) -> Seq<char> {
    if started {
        newline() + line
    } else {
        line
    }
}

/// The diagnostic capture after one more line: the whole piece when it fits
/// under the cap; else as much of it as fits, and the capture is closed.
pub open spec fn stderr_step(
    body: Seq<char>,
    truncated: bool,
    started: bool,
    line: Seq<char>,
) -> (Seq<char>, bool) {
    let piece = stderr_piece(started, line);
    if truncated {
        (body, true)
    } else if utf8_len(body) + utf8_len(piece) <= MAX_STDERR_BYTES {
        (body + piece, false)
    } else {
        (body + fit_prefix(piece, (MAX_STDERR_BYTES - utf8_len(body)) as nat), true)
    }
}

/// The capture after the diagnostic lines `lines`, from an empty one.
pub open spec fn stderr_fold(lines: Seq<Seq<char>>) -> (Seq<char>, bool)
    decreases lines.len(),
{
    if lines.len() == 0 {
        (Seq::<char>::empty(), false)
    } else {
        let prev = stderr_fold(lines.drop_last());
        stderr_step(prev.0, prev.1, lines.len() > 1, lines.last())
    }
}

/// The records kept of the decoded values `values`: the first ones, up to the cap.
pub open spec fn kept_records(values: Seq<serde_json::Value>) -> Seq<serde_json::Value> {
    if values.len() <= MAX_MESSAGES_LIMIT {
        values
    } else {
        values.subrange(0, MAX_MESSAGES_LIMIT as int)
    }
}

/// The capture as text: the kept bytes, then the marker if any were dropped.
pub open spec fn capture_text(body: Seq<char>, truncated: bool) -> Seq<char> {
    if truncated {
        body + STDERR_TRUNCATED@
    } else {
        body
    }
}

proof fn lemma_fit_prefix_fits(s: Seq<char>, budget: nat)
    ensures
        utf8_len(fit_prefix(s, budget)) <= budget,
    decreases s.len(),
{
    if s.len() == 0 || char_utf8_len(s[0]) > budget {
        assert(utf8_len(Seq::<char>::empty()) == 0);
    } else {
        let rest = (budget - char_utf8_len(s[0])) as nat;
        lemma_fit_prefix_fits(s.drop_first(), rest);
        lemma_utf8_len_single(s[0]);
        lemma_utf8_len_concat(seq![s[0]], fit_prefix(s.drop_first(), rest));
    }
}

/// Keeps the whole of `s` exactly when it fits.
proof fn lemma_fit_prefix_whole(s: Seq<char>, budget: nat)
    ensures
        (fit_prefix(s, budget) == s) == (utf8_len(s) <= budget),
    decreases s.len(),
{
    if s.len() == 0 {
        assert(utf8_len(s) == 0);
        assert(fit_prefix(s, budget) =~= s);
    } else {
        let c = s[0];
        let rest = s.drop_first();
        assert(s =~= seq![c] + rest);
        lemma_utf8_len_single(c);
        lemma_utf8_len_concat(seq![c], rest);
        assert(utf8_len(s) == char_utf8_len(c) + utf8_len(rest));
        if char_utf8_len(c) > budget {
            assert(fit_prefix(s, budget).len() == 0);
            assert(fit_prefix(s, budget) != s);
        } else {
            let b2 = (budget - char_utf8_len(c)) as nat;
            lemma_fit_prefix_whole(rest, b2);
            assert(fit_prefix(s, budget) == seq![c] + fit_prefix(rest, b2));
            if fit_prefix(rest, b2) != rest {
                assert((seq![c] + fit_prefix(rest, b2)).drop_first() =~= fit_prefix(rest, b2));
                assert(fit_prefix(s, budget) != s);
            } else {
                assert(fit_prefix(s, budget) == s);
            }
        }
    }
}

/// Appends to `out` the longest prefix of `s` that fits in `budget` bytes;
/// returns its byte length and whether it is the whole of `s`.
fn push_fit_prefix(out: &mut String, s: &str, budget: usize) -> (r: (usize, bool))
    ensures
        final(out)@ == old(out)@ + fit_prefix(s@, budget as nat),
        r.0 == utf8_len(fit_prefix(s@, budget as nat)),
        r.1 == (fit_prefix(s@, budget as nat) == s@),
{
    let ghost full = s@;
    let mut used: usize = 0;
    let ghost start = out@;
    let mut done = false;
    proof {
        assert(start + full.subrange(0, 0) =~= start);
        assert(full.subrange(0, full.len() as int) =~= full);
        assert(full.subrange(0, 0) + fit_prefix(full, budget as nat) =~= fit_prefix(full, budget as nat));
        assert(utf8_len(full.subrange(0, 0)) == 0);
    }
    for c in it: s.chars()
        invariant
            it.seq() == full,
            used <= budget,
            done ==> {
                &&& out@ == start + fit_prefix(full, budget as nat)
                &&& used == utf8_len(fit_prefix(full, budget as nat))
                &&& fit_prefix(full, budget as nat) != full
            },
            !done ==> {
                &&& out@ == start + full.subrange(0, it.index() as int)
                &&& used == utf8_len(full.subrange(0, it.index() as int))
                &&& fit_prefix(full, budget as nat) == full.subrange(0, it.index() as int)
                    + fit_prefix(full.subrange(it.index() as int, full.len() as int), (budget - used) as nat)
            },
    {
        if !done {
            let w = char_len_utf8(c);
            let ghost i = it.index() as int;
            let ghost tail = full.subrange(i, full.len() as int);
            proof {
                assert(tail[0] == c);
                assert(tail.drop_first() =~= full.subrange(i + 1, full.len() as int));
                assert(full.subrange(0, i + 1) =~= full.subrange(0, i).push(c));
                lemma_utf8_len_push(full.subrange(0, i), c);
            }
            if w <= budget - used {
                push_char(out, c);
                used = used + w;
                proof {
                    assert(start + full.subrange(0, i) + seq![c] =~= start + full.subrange(0, i + 1));
                    assert(full.subrange(0, i) + (seq![c] + fit_prefix(tail.drop_first(), (budget - used) as nat))
                        =~= full.subrange(0, i + 1) + fit_prefix(tail.drop_first(), (budget - used) as nat));
                }
            } else {
                done = true;
                proof {
                    assert(fit_prefix(tail, (budget - (used as nat)) as nat) =~= Seq::<char>::empty());
                    assert(fit_prefix(full, budget as nat) =~= full.subrange(0, i));
                    assert(full.subrange(0, i).len() < full.len());
                }
            }
        }
    }
    proof {
        if !done {
            assert(full.subrange(full.len() as int, full.len() as int) =~= Seq::<char>::empty());
            assert(fit_prefix(Seq::<char>::empty(), (budget - used) as nat) =~= Seq::<char>::empty());
            assert(fit_prefix(full, budget as nat) =~= full);
        }
    }
    (used, !done)
}

/// Heads the narrative when the child exits with a failure status.
pub const EXIT_FAILED: &'static str = "gemini command failed with exit code: ";

/// Introduces the diagnostic capture in a failure narrative.
pub const STDERR_SECTION: &'static str = "\nStderr: ";

/// Introduces the unparsable lines in a failure narrative.
pub const NON_JSON_SECTION: &'static str = "\nNon-JSON output: ";

/// Narrative when the child exits cleanly without one line of JSON.
pub const NO_VALID_JSON: &'static str = "No valid JSON output received from gemini CLI.\nOutput: ";

/// How the child ended: whether its status means success, and its exit code
/// when it exited rather than being stopped by a signal.
pub struct ExitOutcome {
    pub success: bool,
    pub code: Option<i32>,
}

/// Everything gathered from the child's two streams so far, with the history
/// of what was read: every diagnostic line and every decoded value, in order.
pub struct StreamState {
    pub result: GeminiResult,
    pub stderr_output: String,
    pub stderr_truncated: bool,
    pub stderr_started: bool,
    pub non_json_lines: Vec<String>,
    pub valid_json_seen: bool,
    pub stderr_lines: Ghost<Seq<Seq<char>>>,
    pub records: Ghost<Seq<serde_json::Value>>,
}

/// The texts of a list of strings.
pub open spec fn lines_view(v: Seq<String>) -> Seq<Seq<char>> {
    v.map_values(|s: String| s@)
}

/// The lines joined by newlines.
pub open spec fn join_lines(lines: Seq<Seq<char>>) -> Seq<char>
    decreases lines.len(),
{
    if lines.len() == 0 {
        Seq::<char>::empty()
    } else if lines.len() == 1 {
        lines[0]
    } else {
        join_lines(lines.drop_last()) + newline() + lines.last()
    }
}

/// How an exit code is shown: `Some(<decimal>)`, or `None` for a signal.
pub open spec fn code_text(code: Option<i32>) -> Seq<char> {
    match code {
        Some(n) => "Some("@ + decimal(n as int) + ")"@,
        None => "None"@,
    }
}

impl StreamState {
    /// Caps hold: records, unparsable lines, and kept diagnostic bytes; the
    /// capture is the fold of the diagnostic lines read, and the records kept
    /// are the first decoded values.
    pub open spec fn wf(&self) -> bool {
        &&& self.result.wf()
        &&& self.non_json_lines@.len() <= MAX_NON_JSON_LINES
        &&& utf8_len(self.stderr_output@) <= MAX_STDERR_BYTES
        &&& self.stderr_started == (self.stderr_lines@.len() > 0)
        &&& (self.stderr_output@, self.stderr_truncated) == stderr_fold(self.stderr_lines@)
        &&& self.result.all_messages@ == kept_records(self.records@)
    }

    /// Nothing has been read yet.
    pub open spec fn is_fresh(&self) -> bool {
        &&& self.result.success
        &&& self.result.session_id@.len() == 0
        &&& self.result.agent_messages@.len() == 0
        &&& self.result.all_messages@.len() == 0
        &&& self.result.error is None
        &&& self.stderr_output@.len() == 0
        &&& !self.stderr_truncated
        &&& !self.stderr_started
        &&& self.non_json_lines@.len() == 0
        &&& !self.valid_json_seen
        &&& self.stderr_lines@.len() == 0
        &&& self.records@.len() == 0
    }

    /// The diagnostic capture as it would be reported.
    pub open spec fn capture(&self) -> Seq<char> {
        capture_text(self.stderr_output@, self.stderr_truncated)
    }

    /// The narrative when the child exits with a failure status: the
    /// classifier's narrative, or else the exit code; then the diagnostic
    /// capture and the unparsable lines, each when there is any.
    pub open spec fn failure_narrative(&self, code: Option<i32>) -> Seq<char> {
        let base = match opt_view(self.result.error) {
            Some(e) => e,
            None => EXIT_FAILED@ + code_text(code),
        };
        let with_stderr = if self.capture().len() > 0 {
            base + STDERR_SECTION@ + self.capture()
        } else {
            base
        };
        let lines = lines_view(self.non_json_lines@);
        if lines.len() > 0 {
            with_stderr + NON_JSON_SECTION@ + join_lines(lines)
        } else {
            with_stderr
        }
    }

    /// Only unparsable lines were seen, and at least one.
    pub open spec fn only_unparsable(&self) -> bool {
        self.non_json_lines@.len() > 0 && !self.valid_json_seen
    }

    /// The narrative once the exit status is known, before the required-field gate.
    pub open spec fn reconciled_error(&self, exit: ExitOutcome) -> Option<Seq<char>> {
        if !exit.success {
            Some(self.failure_narrative(exit.code))
        } else if self.only_unparsable() {
            Some(
                extend_spec(
                    opt_view(self.result.error),
                    NO_VALID_JSON@ + join_lines(lines_view(self.non_json_lines@)),
                ),
            )
        } else {
            opt_view(self.result.error)
        }
    }

    /// Success once the exit status is known, before the required-field gate.
    pub open spec fn reconciled_success(&self, exit: ExitOutcome) -> bool {
        self.result.success && exit.success && !self.only_unparsable()
    }

    /// `out` is what the invocation reports once the child ended with `exit`.
    pub open spec fn finished(&self, exit: ExitOutcome, out: GeminiResult) -> bool {
        &&& out.session_id == self.result.session_id
        &&& out.agent_messages == self.result.agent_messages
        &&& out.all_messages == self.result.all_messages
        &&& out.success == (self.reconciled_success(exit) && self.result.session_id@.len() > 0
            && self.result.agent_messages@.len() > 0)
        &&& opt_view(out.error) == gated_error(
            self.reconciled_error(exit),
            self.result.session_id@,
            self.result.agent_messages@,
        )
    }

    pub fn new() -> (r: StreamState)
        ensures
            r.wf(),
            r.is_fresh(),
    {
        let s = StreamState {
            result: GeminiResult::new(),
            stderr_output: String::new(),
            stderr_truncated: false,
            stderr_started: false,
            non_json_lines: Vec::new(),
            valid_json_seen: false,
            stderr_lines: Ghost(Seq::empty()),
            records: Ghost(Seq::empty()),
        };
        proof {
            assert(utf8_len(s.stderr_output@) == 0);
            assert(s.stderr_output@ =~= Seq::<char>::empty());
            assert(s.result.all_messages@ =~= kept_records(s.records@));
        }
        s
    }

    /// Takes one line of the diagnostic stream.
    pub fn on_stderr_line(&mut self, line: &str)
        requires
            old(self).wf(),
        ensures
            final(self).wf(),
            (final(self).stderr_output@, final(self).stderr_truncated) == stderr_step(
                old(self).stderr_output@,
                old(self).stderr_truncated,
                old(self).stderr_started,
                line@,
            ),
            final(self).stderr_started,
            final(self).stderr_lines@ == old(self).stderr_lines@.push(line@),
            final(self).result == old(self).result,
            final(self).records == old(self).records,
            final(self).non_json_lines == old(self).non_json_lines,
            final(self).valid_json_seen == old(self).valid_json_seen,
    {
        let ghost lines = self.stderr_lines@.push(line@);
        proof {
            assert(lines.drop_last() =~= self.stderr_lines@);
        }
        self.stderr_lines = Ghost(lines);
        let started = self.stderr_started;
        self.stderr_started = true;
        if self.stderr_truncated {
            return;
        }
        let ghost body = self.stderr_output@;
        let ghost piece = stderr_piece(started, line@);
        let used = self.stderr_output.as_str().len();
        let remaining = MAX_STDERR_BYTES - used;
        proof {
            lemma_fit_prefix_whole(piece, remaining as nat);
            lemma_fit_prefix_fits(piece, remaining as nat);
            lemma_utf8_len_concat(body, fit_prefix(piece, remaining as nat));
        }
        if !started {
            let (_, whole) = push_fit_prefix(&mut self.stderr_output, line, remaining);
            if !whole {
                self.stderr_truncated = true;
            }
        } else if remaining == 0 {
            self.stderr_truncated = true;
            proof {
                assert(piece[0] == '\n');
                assert(fit_prefix(piece, 0) =~= Seq::<char>::empty());
                assert(body + fit_prefix(piece, 0) =~= body);
            }
        } else {
            proof {
                assert(piece[0] == '\n');
                assert(piece.drop_first() =~= line@);
                assert(fit_prefix(piece, remaining as nat) == seq!['\n'] + fit_prefix(line@, (remaining - 1) as nat));
            }
            push_char(&mut self.stderr_output, '\n');
            let (_, whole) = push_fit_prefix(&mut self.stderr_output, line, remaining - 1);
            if !whole {
                self.stderr_truncated = true;
            }
            proof {
                assert(body.push('\n') + fit_prefix(line@, (remaining - 1) as nat)
                    =~= body + (seq!['\n'] + fit_prefix(line@, (remaining - 1) as nat)));
                if fit_prefix(line@, (remaining - 1) as nat) == line@ {
                    assert(fit_prefix(piece, remaining as nat) =~= piece);
                } else {
                    assert(fit_prefix(piece, remaining as nat).drop_first() =~= fit_prefix(line@, (remaining - 1) as nat));
                }
            }
        }
    }

    /// `after` is this state once the record `rec` has been taken.
    pub open spec fn recorded(&self, rec: Record, after: StreamState) -> bool {
        &&& classified(self.result, rec, after.result)
        &&& after.valid_json_seen
        &&& after.records@ == self.records@.push(rec.value)
        &&& after.stderr_output == self.stderr_output
        &&& after.stderr_truncated == self.stderr_truncated
        &&& after.stderr_started == self.stderr_started
        &&& after.stderr_lines == self.stderr_lines
        &&& after.non_json_lines == self.non_json_lines
    }

    /// Takes one record decoded from the primary stream.
    pub fn on_record(&mut self, rec: Record)
        requires
            old(self).wf(),
        ensures
            final(self).wf(),
            old(self).recorded(rec, *final(self)),
    {
        let ghost values = self.records@.push(rec.value);
        proof {
            if self.records@.len() < MAX_MESSAGES_LIMIT {
                assert(kept_records(values) =~= self.result.all_messages@.push(rec.value));
            } else {
                assert(kept_records(values) =~= kept_records(self.records@));
            }
        }
        self.records = Ghost(values);
        self.valid_json_seen = true;
        process_json_line(rec, &mut self.result);
    }

    /// Takes one line of the primary stream: blank lines are skipped; a line
    /// that decodes is classified; any other is kept, trimmed, while under the cap.
    pub fn on_stdout_line(&mut self, line: &str)
        requires
            old(self).wf(),
        ensures
            final(self).wf(),
            final(self).stderr_output == old(self).stderr_output,
            final(self).stderr_truncated == old(self).stderr_truncated,
            final(self).stderr_started == old(self).stderr_started,
            final(self).stderr_lines == old(self).stderr_lines,
            is_blank(line@) ==> *final(self) == *old(self),
            !is_blank(line@) && is_json_text(trimmed(line@)) ==> {
                &&& final(self).valid_json_seen
                &&& final(self).non_json_lines == old(self).non_json_lines
                &&& exists|rec: Record|
                    {
                        &&& fields_of(rec, trimmed(line@))
                        &&& classified(old(self).result, rec, final(self).result)
                        &&& final(self).records@ == old(self).records@.push(rec.value)
                    }
            },
            !is_blank(line@) && !is_json_text(trimmed(line@)) ==> {
                &&& final(self).result == old(self).result
                &&& final(self).records == old(self).records
                &&& final(self).valid_json_seen == old(self).valid_json_seen
                &&& lines_view(final(self).non_json_lines@) == if old(self).non_json_lines@.len()
                    < MAX_NON_JSON_LINES {
                    lines_view(old(self).non_json_lines@).push(trimmed(line@))
                } else {
                    lines_view(old(self).non_json_lines@)
                }
            },
    {
        let t = trim(line);
        if t.is_empty() {
            return;
        }
        match decode_record(t) {
            Some(rec) => {
                let ghost r = rec;
                self.on_record(rec);
                assert(fields_of(r, trimmed(line@)));
                assert(classified(old(self).result, r, self.result));
            },
            None => {
                if self.non_json_lines.len() < MAX_NON_JSON_LINES {
                    self.non_json_lines.push(t.to_owned());
                    proof {
                        assert(lines_view(self.non_json_lines@) =~= lines_view(
                            old(self).non_json_lines@,
                        ).push(trimmed(line@)));
                    }
                }
            },
        }
    }

    /// The diagnostic capture: kept bytes, then the marker if any were dropped.
    pub fn stderr_capture(&self) -> (r: String)
        ensures
            r@ == self.capture(),
    {
        let mut out = self.stderr_output.clone();
        if self.stderr_truncated {
            out.append(STDERR_TRUNCATED);
        }
        out
    }

    /// Combines the exit status with what was gathered, then applies the
    /// required-field gate.
    pub fn finish(self, exit: ExitOutcome) -> (r: GeminiResult)
        ensures
            self.finished(exit, r),
    {
        let capture = self.stderr_capture();
        let StreamState { result, non_json_lines, valid_json_seen, .. } = self;
        let mut result = result;
        if !exit.success {
            result.success = false;
            let mut narrative = match result.error.take() {
                Some(e) => e,
                None => {
                    let mut m = EXIT_FAILED.to_owned();
                    append_code(&mut m, exit.code);
                    m
                },
            };
            if !capture.as_str().is_empty() {
                narrative.append(STDERR_SECTION);
                narrative.append(capture.as_str());
            }
            if non_json_lines.len() > 0 {
                narrative.append(NON_JSON_SECTION);
                let joined = join_strings(&non_json_lines);
                narrative.append(joined.as_str());
            }
            result.error = Some(narrative);
        } else if non_json_lines.len() > 0 && !valid_json_seen {
            result.success = false;
            let mut m = NO_VALID_JSON.to_owned();
            let joined = join_strings(&non_json_lines);
            m.append(joined.as_str());
            let prev = result.error.take();
            result.error = Some(extend_narrative(prev, m.as_str()));
        }
        enforce_required_fields(result)
    }
}

/// Appends how an exit code is shown.
fn append_code(s: &mut String, code: Option<i32>)
    ensures
        final(s)@ == old(s)@ + code_text(code),
{
    match code {
        Some(n) => {
            s.append("Some(");
            push_decimal(s, n);
            s.append(")");
        },
        None => s.append("None"),
    }
}

/// The strings joined by newlines.
pub fn join_strings(v: &Vec<String>) -> (r: String)
    ensures
        r@ == join_lines(lines_view(v@)),
{
    let mut out = String::new();
    let mut i: usize = 0;
    while i < v.len()
        invariant
            i <= v.len(),
            out@ == join_lines(lines_view(v@.subrange(0, i as int))),
        decreases v.len() - i,
    {
        let ghost prev = v@.subrange(0, i as int);
        if i > 0 {
            push_char(&mut out, '\n');
        }
        out.append(v[i].as_str());
        proof {
            let next = v@.subrange(0, i + 1);
            assert(next.drop_last() =~= prev);
            assert(lines_view(next).drop_last() =~= lines_view(prev));
            assert(lines_view(next).last() == v@[i as int]@);
            if i == 0 {
                assert(Seq::<char>::empty() + v@[0]@ =~= v@[0]@);
            } else {
                assert(out@ =~= join_lines(lines_view(prev)) + newline() + v@[i as int]@);
            }
        }
        i = i + 1;
    }
    proof {
        assert(v@.subrange(0, v@.len() as int) =~= v@);
    }
    out
}

/// A fresh invocation that takes one assistant record carrying a session
/// identifier and text, and no error member, and whose child then exits cleanly,
/// succeeds with that identifier and that text.
pub proof fn lemma_single_assistant_record(
    s0: StreamState,
    rec: Record,
    s1: StreamState,
    exit: ExitOutcome,
    out: GeminiResult,
)
    requires
        s0.is_fresh(),
        s0.recorded(rec, s1),
        s1.finished(exit, out),
        exit.success,
        is_assistant_message(&rec),
        rec.error is Absent,
        rec.session_id is Some,
        rec.session_id->0@.len() > 0,
        rec.content is Some,
        rec.content->0@.len() > 0,
        !has_substring(rec.content->0@, PROMPT_DEPRECATION_WARNING@),
    ensures
        out.success,
        out.session_id@ == rec.session_id->0@,
        out.agent_messages@ == rec.content->0@,
{
}

/// A child that prints nothing and exits cleanly fails the invocation, with
/// a narrative naming the missing session identifier and the missing
/// assistant text.
pub proof fn lemma_silent_child_fails(s: StreamState, exit: ExitOutcome, out: GeminiResult)
    requires
        s.is_fresh(),
        exit.success,
        s.finished(exit, out),
    ensures
        !out.success,
        out.error is Some,
        out.error->0@ == MISSING_SESSION_ID@ + newline() + MISSING_AGENT_MESSAGES@,
        has_substring(out.error->0@, MISSING_SESSION_ID@),
        has_substring(out.error->0@, MISSING_AGENT_MESSAGES@),
{
    assert(lines_view(s.non_json_lines@).len() == 0);
    lemma_substring_within(
        Seq::<char>::empty(),
        MISSING_SESSION_ID@,
        newline() + MISSING_AGENT_MESSAGES@,
    );
    lemma_substring_within(
        MISSING_SESSION_ID@ + newline(),
        MISSING_AGENT_MESSAGES@,
        Seq::<char>::empty(),
    );
    assert(Seq::<char>::empty() + MISSING_SESSION_ID@ + (newline() + MISSING_AGENT_MESSAGES@)
        =~= MISSING_SESSION_ID@ + newline() + MISSING_AGENT_MESSAGES@);
    assert(MISSING_SESSION_ID@ + newline() + MISSING_AGENT_MESSAGES@ + Seq::<char>::empty()
        =~= MISSING_SESSION_ID@ + newline() + MISSING_AGENT_MESSAGES@);
}

/// A child that exits with a failure status after printing only unparsable
/// lines fails the invocation, and the narrative holds both the exit code
/// message and those lines.
pub proof fn lemma_failed_exit_reports_raw_lines(s: StreamState, exit: ExitOutcome, out: GeminiResult)
    requires
        s.result.error is None,
        s.non_json_lines@.len() > 0,
        !exit.success,
        s.finished(exit, out),
    ensures
        !out.success,
        out.error is Some,
        has_substring(out.error->0@, EXIT_FAILED@ + code_text(exit.code)),
        has_substring(out.error->0@, join_lines(lines_view(s.non_json_lines@))),
{
    let head = EXIT_FAILED@ + code_text(exit.code);
    let with_stderr = if s.capture().len() > 0 {
        head + STDERR_SECTION@ + s.capture()
    } else {
        head
    };
    let joined = join_lines(lines_view(s.non_json_lines@));
    let narrative = s.failure_narrative(exit.code);
    assert(narrative == with_stderr + NON_JSON_SECTION@ + joined);
    let text = out.error->0@;
    let tail = if s.result.session_id@.len() > 0 && s.result.agent_messages@.len() > 0 {
        Seq::<char>::empty()
    } else {
        newline() + missing_fields_text(s.result.session_id@, s.result.agent_messages@)
    };
    assert(head.len() > 0) by {
        reveal_strlit("gemini command failed with exit code: ");
    }
    assert(text =~= narrative + tail);
    let rest = (if s.capture().len() > 0 {
        STDERR_SECTION@ + s.capture()
    } else {
        Seq::<char>::empty()
    }) + NON_JSON_SECTION@ + joined + tail;
    assert(text =~= Seq::<char>::empty() + head + rest);
    lemma_substring_within(Seq::<char>::empty(), head, rest);
    assert(text =~= (with_stderr + NON_JSON_SECTION@) + joined + tail);
    lemma_substring_within(with_stderr + NON_JSON_SECTION@, joined, tail);
}

/// The longest fitting prefix is a prefix.
proof fn lemma_fit_prefix_is_prefix(s: Seq<char>, budget: nat)
    ensures
        fit_prefix(s, budget).len() <= s.len(),
        fit_prefix(s, budget) == s.subrange(0, fit_prefix(s, budget).len() as int),
    decreases s.len(),
{
    if s.len() == 0 || char_utf8_len(s[0]) > budget {
        assert(s.subrange(0, 0) =~= Seq::<char>::empty());
    } else {
        let b2 = (budget - char_utf8_len(s[0])) as nat;
        let rest = fit_prefix(s.drop_first(), b2);
        lemma_fit_prefix_is_prefix(s.drop_first(), b2);
        assert(seq![s[0]] + rest =~= s.subrange(0, (rest.len() + 1) as int));
    }
}

/// Over any diagnostic lines, the capture keeps at most its cap of bytes. It
/// is closed exactly when the newline-joined lines exceed the cap; until then
/// it is those lines whole, and after that a prefix of them followed, when
/// reported, by the truncation marker.
pub proof fn lemma_capture_of_lines(lines: Seq<Seq<char>>)
    ensures
        utf8_len(stderr_fold(lines).0) <= MAX_STDERR_BYTES,
        !stderr_fold(lines).1 <==> utf8_len(join_lines(lines)) <= MAX_STDERR_BYTES,
        !stderr_fold(lines).1 ==> stderr_fold(lines).0 == join_lines(lines),
        stderr_fold(lines).1 ==> {
            let b = stderr_fold(lines).0;
            let c = capture_text(b, true);
            &&& b.len() <= join_lines(lines).len()
            &&& b == join_lines(lines).subrange(0, b.len() as int)
            &&& c.subrange(b.len() as int, c.len() as int) == STDERR_TRUNCATED@
        },
    decreases lines.len(),
{
    if lines.len() == 0 {
        assert(utf8_len(Seq::<char>::empty()) == 0);
    } else {
        let pre = lines.drop_last();
        let l = lines.last();
        lemma_capture_of_lines(pre);
        let (b, t) = stderr_fold(pre);
        let j = join_lines(pre);
        let piece = stderr_piece(pre.len() > 0, l);
        if lines.len() == 1 {
            assert(lines[0] == l);
            assert(j =~= Seq::<char>::empty());
            assert(join_lines(lines) =~= j + piece);
        } else {
            assert(join_lines(lines) =~= j + piece);
        }
        lemma_utf8_len_concat(j, piece);
        if t {
            assert(j + piece == join_lines(lines));
            assert(b == (j + piece).subrange(0, b.len() as int));
        } else {
            let budget = (MAX_STDERR_BYTES - utf8_len(b)) as nat;
            if utf8_len(b) + utf8_len(piece) > MAX_STDERR_BYTES {
                let fp = fit_prefix(piece, budget);
                lemma_fit_prefix_fits(piece, budget);
                lemma_fit_prefix_is_prefix(piece, budget);
                lemma_utf8_len_concat(b, fp);
                assert(b + fp =~= (j + piece).subrange(0, (b + fp).len() as int));
            }
        }
        let nb = stderr_fold(lines).0;
        let c = capture_text(nb, true);
        assert(c.subrange(nb.len() as int, c.len() as int) =~= STDERR_TRUNCATED@);
    }
}

/// However many records the child prints, the result keeps at most the cap,
/// and they are the first decoded values, in the order read.
pub proof fn lemma_records_in_order(s: StreamState)
    requires
        s.wf(),
    ensures
        s.result.all_messages@.len() <= MAX_MESSAGES_LIMIT,
        s.records@.len() <= MAX_MESSAGES_LIMIT ==> s.result.all_messages@ == s.records@,
        s.records@.len() > MAX_MESSAGES_LIMIT ==> s.result.all_messages@ == s.records@.subrange(
            0,
            MAX_MESSAGES_LIMIT as int,
        ),
{
}

} // verus!
