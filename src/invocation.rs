//! The invocation request and the decisions taken around the child process:
//! input validation, the argument vector, configuration cleanup, the deadline,
//! and how a drained or abandoned run concludes.
use vstd::prelude::*;
use crate::classify::GeminiResult;
use crate::stream::{lines_view, ExitOutcome, StreamState};
use crate::text::{is_blank, opt_view, push_char, trim, trimmed};

verus! {

/// Deadline when none is configured, in seconds.
pub const DEFAULT_TIMEOUT_SECS: u64 = 600;

/// Longest deadline accepted, in seconds.
pub const MAX_TIMEOUT_SECS: u64 = 3600;

/// Largest project instruction file that is prepended, in bytes.
pub const MAX_CONFIG_SIZE: u64 = 100_000;

/// Program run when no other is configured.
pub const DEFAULT_PROGRAM: &'static str = "gemini";

/// One invocation request.
#[derive(Debug)]
pub struct Options {
    pub prompt: String,
    pub session_id: Option<String>,
    pub additional_args: Vec<String>,
}

/// Parameters of one tool call: the instruction and, to continue a
/// conversation, its session identifier.
pub struct GeminiArgs {
    pub prompt: String,
    pub session_id: Option<String>,
}

/// A fatal outcome of an invocation.
#[derive(Debug, PartialEq, Eq, Structural)]
pub enum FatalError {
    /// The instruction is empty or whitespace only.
    InvalidPrompt,
    /// The deadline passed; the child was stopped.
    TimedOut { secs: u64 },
}

/// The program to run and its arguments.
pub struct CommandLine {
    pub program: String,
    pub args: Vec<String>,
}

/// How draining the child's streams ended.
pub enum DrainOutcome {
    /// Both streams reached their end and the child exited.
    Drained(StreamState, ExitOutcome),
    /// The deadline passed first.
    DeadlineExceeded,
}

/// The deadline for a configured value: kept when within bounds, the
/// ceiling when above it, the default when absent or zero.
pub open spec fn timeout_for(configured: Option<u64>) -> u64 {
    match configured {
        Some(t) => if 0 < t && t <= MAX_TIMEOUT_SECS {
            t
        } else if t > MAX_TIMEOUT_SECS {
            MAX_TIMEOUT_SECS
        } else {
            DEFAULT_TIMEOUT_SECS
        },
        None => DEFAULT_TIMEOUT_SECS,
    }
}

/// Each argument trimmed, and those left empty dropped, in order.
pub open spec fn cleaned_args(args: Seq<Seq<char>>) -> Seq<Seq<char>>
    decreases args.len(),
{
    if args.len() == 0 {
        Seq::<Seq<char>>::empty()
    } else {
        let rest = cleaned_args(args.drop_last());
        let t = trimmed(args.last());
        if t.len() > 0 {
            rest.push(t)
        } else {
            rest
        }
    }
}

/// The arguments handed to the child: streamed JSON output, the configured
/// extra arguments, then the instruction, with the resume directive when a
/// session is resumed.
pub open spec fn command_args(opts: Options) -> Seq<Seq<char>> {
    let head = seq!["-o"@, "stream-json"@] + lines_view(opts.additional_args@);
    match opts.session_id {
        Some(sid) => head + seq!["--prompt"@, opts.prompt@, "--resume"@, sid@],
        None => head.push(opts.prompt@),
    }
}

/// The deadline in seconds for the configured value.
pub fn default_timeout_secs(configured: Option<u64>) -> (r: u64)
    ensures
        r == timeout_for(configured),
{
    match configured {
        Some(t) => {
            if t > 0 && t <= MAX_TIMEOUT_SECS {
                t
            } else if t > MAX_TIMEOUT_SECS {
                MAX_TIMEOUT_SECS
            } else {
                DEFAULT_TIMEOUT_SECS
            }
        },
        None => DEFAULT_TIMEOUT_SECS,
    }
}

/// The configured extra arguments, trimmed, without the empty ones.
pub fn default_additional_args(configured: &Vec<String>) -> (r: Vec<String>)
    ensures
        lines_view(r@) == cleaned_args(lines_view(configured@)),
{
    let mut out: Vec<String> = Vec::new();
    let mut i: usize = 0;
    while i < configured.len()
        invariant
            i <= configured.len(),
            lines_view(out@) == cleaned_args(lines_view(configured@.subrange(0, i as int))),
        decreases configured.len() - i,
    {
        let t = trim(configured[i].as_str());
        proof {
            let next = lines_view(configured@.subrange(0, i + 1));
            assert(next.drop_last() =~= lines_view(configured@.subrange(0, i as int)));
            assert(next.last() == configured@[i as int]@);
        }
        if !t.is_empty() {
            out.push(t.to_owned());
            proof {
                assert(lines_view(out@) =~= cleaned_args(lines_view(configured@.subrange(0, i as int))).push(t@));
            }
        }
        i = i + 1;
    }
    proof {
        assert(configured@.subrange(0, configured@.len() as int) =~= configured@);
    }
    out
}

/// A configuration path given by override: the value trimmed, unless empty.
pub fn config_path_override(value: Option<String>) -> (r: Option<String>)
    ensures
        r is Some <==> (value is Some && !is_blank(value->0@)),
        r is Some ==> r->0@ == trimmed(value->0@),
{
    match value {
        Some(v) => {
            let t = trim(v.as_str());
            if t.is_empty() {
                None
            } else {
                Some(t.to_owned())
            }
        },
        None => None,
    }
}

/// Whether a project instruction file of `size` bytes is small enough to use.
pub fn config_size_ok(size: u64) -> (r: bool)
    ensures
        r == (size <= MAX_CONFIG_SIZE),
{
    size <= MAX_CONFIG_SIZE
}

/// The project instructions to prepend: the file's text as it stands,
/// unless it is blank.
pub fn accept_config_text(content: String) -> (r: Option<String>)
    ensures
        r is Some <==> !is_blank(content@),
        r is Some ==> r->0 == content,
{
    if trim(content.as_str()).is_empty() {
        None
    } else {
        Some(content)
    }
}

/// The instruction sent to the child: the project instructions, a blank
/// line, then the caller's instruction; or the caller's alone.
pub fn prepare_prompt(config: Option<String>, user_prompt: &str) -> (r: String)
    ensures
        r@ == match config {
            Some(c) => c@ + seq!['\n', '\n'] + user_prompt@,
            None => user_prompt@,
        },
{
    match config {
        Some(c) => {
            let ghost cv = c@;
            let mut out = c;
            push_char(&mut out, '\n');
            push_char(&mut out, '\n');
            out.append(user_prompt);
            proof {
                assert(cv.push('\n').push('\n') + user_prompt@ =~= cv + seq!['\n', '\n'] + user_prompt@);
            }
            out
        },
        None => user_prompt.to_owned(),
    }
}

/// Rejects an instruction that is empty or whitespace only.
pub fn check_prompt(prompt: &str) -> (r: Result<(), FatalError>)
    ensures
        r is Ok <==> !is_blank(prompt@),
        r is Err ==> r == Err::<(), FatalError>(FatalError::InvalidPrompt),
{
    if trim(prompt).is_empty() {
        Err(FatalError::InvalidPrompt)
    } else {
        Ok(())
    }
}

fn push_str_arg(args: &mut Vec<String>, s: &str)
    ensures
        lines_view(final(args)@) == lines_view(old(args)@).push(s@),
{
    args.push(s.to_owned());
    proof {
        assert(lines_view(args@) =~= lines_view(old(args)@).push(s@));
    }
}

/// The program and arguments for one invocation; `program` is the configured
/// program, if any.
pub fn build_command(opts: &Options, program: Option<String>) -> (r: CommandLine)
    ensures
        r.program@ == match program {
            Some(p) => p@,
            None => DEFAULT_PROGRAM@,
        },
        lines_view(r.args@) == command_args(*opts),
{
    let program = match program {
        Some(p) => p,
        None => DEFAULT_PROGRAM.to_owned(),
    };
    let mut args: Vec<String> = Vec::new();
    push_str_arg(&mut args, "-o");
    push_str_arg(&mut args, "stream-json");
    let mut i: usize = 0;
    while i < opts.additional_args.len()
        invariant
            i <= opts.additional_args.len(),
            lines_view(args@) == seq!["-o"@, "stream-json"@] + lines_view(
                opts.additional_args@.subrange(0, i as int),
            ),
        decreases opts.additional_args.len() - i,
    {
        push_str_arg(&mut args, opts.additional_args[i].as_str());
        proof {
            assert(lines_view(opts.additional_args@.subrange(0, i + 1)) =~= lines_view(
                opts.additional_args@.subrange(0, i as int),
            ).push(opts.additional_args@[i as int]@));
            assert(seq!["-o"@, "stream-json"@] + lines_view(opts.additional_args@.subrange(0, i + 1))
                =~= (seq!["-o"@, "stream-json"@] + lines_view(
                opts.additional_args@.subrange(0, i as int),
            )).push(opts.additional_args@[i as int]@));
        }
        i = i + 1;
    }
    proof {
        assert(opts.additional_args@.subrange(0, opts.additional_args@.len() as int)
            =~= opts.additional_args@);
    }
    let ghost head = lines_view(args@);
    match &opts.session_id {
        Some(sid) => {
            push_str_arg(&mut args, "--prompt");
            push_str_arg(&mut args, opts.prompt.as_str());
            push_str_arg(&mut args, "--resume");
            push_str_arg(&mut args, sid.as_str());
            proof {
                assert(head.push("--prompt"@).push(opts.prompt@).push("--resume"@).push(sid@)
                    =~= head + seq!["--prompt"@, opts.prompt@, "--resume"@, sid@]);
            }
        },
        None => {
            push_str_arg(&mut args, opts.prompt.as_str());
        },
    }
    CommandLine { program, args }
}

/// How an invocation concludes: a drained run is finished against its exit
/// status; a run past its deadline is a fatal error and nothing of it is kept.
pub fn conclude(outcome: DrainOutcome, timeout_secs: u64) -> (r: Result<GeminiResult, FatalError>)
    ensures
        match outcome {
            DrainOutcome::Drained(state, exit) => r is Ok && state.finished(exit, r->Ok_0),
            DrainOutcome::DeadlineExceeded => r == Err::<GeminiResult, FatalError>(
                FatalError::TimedOut { secs: timeout_secs },
            ),
        },
{
    match outcome {
        DrainOutcome::Drained(state, exit) => Ok(state.finish(exit)),
        DrainOutcome::DeadlineExceeded => Err(FatalError::TimedOut { secs: timeout_secs }),
    }
}

impl GeminiArgs {
    /// The invocation request for these parameters, with the configured extra
    /// arguments; an empty session identifier counts as none.
    pub fn into_options(self, additional_args: Vec<String>) -> (r: Result<Options, FatalError>)
        ensures
            r is Ok <==> !is_blank(self.prompt@),
            r is Err ==> r == Err::<Options, FatalError>(FatalError::InvalidPrompt),
            r is Ok ==> {
                &&& r->Ok_0.prompt == self.prompt
                &&& r->Ok_0.additional_args == additional_args
                &&& opt_view(r->Ok_0.session_id) == if self.session_id is Some
                    && self.session_id->0@.len() > 0 {
                    opt_view(self.session_id)
                } else {
                    None
                }
            },
    {
        match check_prompt(self.prompt.as_str()) {
            Err(e) => Err(e),
            Ok(()) => {
                let session_id = match self.session_id {
                    Some(s) => if s.as_str().is_empty() {
                        None
                    } else {
                        Some(s)
                    },
                    None => None,
                };
                Ok(Options { prompt: self.prompt, session_id, additional_args })
            },
        }
    }
}

} // verus!
