//! One call of the generation endpoint: what is sent, how the reply is
//! checked, and when a failed attempt is tried again.

use vstd::prelude::*;
use crate::tools::{advertised_tools, declaration_of, get_tools, ToolDeclaration, ToolKind};
use crate::transcript::{clone_turns, parts_view, turns_view, Part, PartView, Turn};

verus! {

/// Seconds after which an attempt is given up.
pub const API_TIMEOUT_SECS: u64 = 60;

/// Number of times a failed call is tried again.
pub const MAX_API_RETRIES: u32 = 3;

/// Seconds to wait before the first new attempt.
pub const INITIAL_BACKOFF_SECS: u64 = 1;

/// The model that answers.
pub const MODEL_VERSION: &'static str = "gemini-2.5-pro-exp-03-25";

/// The address of the endpoint for a model, with the key of the caller.
pub open spec fn endpoint_address(model_version: Seq<char>, api_key: Seq<char>) -> Seq<char> {
    "https://generativelanguage.googleapis.com/v1beta/models/"@ + model_version
        + ":generateContent?key="@ + api_key
}

/// Builds the address of the endpoint.
pub fn endpoint_url(model_version: &str, api_key: &str) -> (r: String)
    ensures
        r@ == endpoint_address(model_version@, api_key@),
{
    let mut r = "https://generativelanguage.googleapis.com/v1beta/models/".to_owned();
    r.push_str(model_version);
    r.push_str(":generateContent?key=");
    r.push_str(api_key);
    r
}

/// What one call sends: the transcript, the system prompt beside it, the
/// media type of the answer, and the tools if they are offered.
#[derive(Debug, PartialEq, Eq)]
pub struct GenerationRequest {
    pub contents: Vec<Turn>,
    pub system_instruction: String,
    pub response_mime_type: String,
    pub tools: Option<Vec<ToolDeclaration>>,
}

/// Builds the request of one call. The system prompt travels beside the
/// transcript, never as a turn of it.
pub fn build_request(system_prompt: &str, transcript: &Vec<Turn>, with_tools: bool) -> (r:
    GenerationRequest)
    ensures
        turns_view(r.contents@) == turns_view(transcript@),
        r.system_instruction@ == system_prompt@,
        r.response_mime_type@ == "text/plain"@,
        r.tools.is_some() == with_tools,
        with_tools ==> r.tools.unwrap()@.map_values(|d: ToolDeclaration| d@)
            == advertised_tools().map_values(|k: ToolKind| declaration_of(k)),
{
    GenerationRequest {
        contents: clone_turns(transcript),
        system_instruction: system_prompt.to_owned(),
        response_mime_type: "text/plain".to_owned(),
        tools: if with_tools {
            Some(get_tools())
        } else {
            None
        },
    }
}

/// The reply of the endpoint as it came: the parts of each candidate if the
/// reply holds candidates, and the text of the error object if it holds one.
#[derive(Debug, PartialEq, Eq)]
pub struct RawReply {
    pub candidates: Option<Vec<Vec<Part>>>,
    pub error: Option<String>,
}

/// Why a call of the endpoint failed.
#[derive(Debug, PartialEq, Eq)]
pub enum GenerationError {
    /// The request did not get through, or the answer could not be read.
    Transport(String),
    /// No answer came in time.
    TimedOut,
    /// The endpoint answered with an error object.
    Api(String),
    /// The answer holds neither candidates nor an error object.
    MissingCandidates,
}

/// Mathematical value of a `GenerationError`.
pub enum GenerationErrorView {
    Transport(Seq<char>),
    TimedOut,
    Api(Seq<char>),
    MissingCandidates,
}

impl View for GenerationError {
    type V = GenerationErrorView;

    open spec fn view(&self) -> GenerationErrorView {
        match self {
            GenerationError::Transport(s) => GenerationErrorView::Transport(s@),
            GenerationError::TimedOut => GenerationErrorView::TimedOut,
            GenerationError::Api(s) => GenerationErrorView::Api(s@),
            GenerationError::MissingCandidates => GenerationErrorView::MissingCandidates,
        }
    }
}

/// Whether a new attempt can mend the failure: a fault of the transport or
/// a timeout can be mended, an answer of the wrong shape cannot.
pub open spec fn retryable(e: GenerationErrorView) -> bool {
    e is Transport || e is TimedOut
}

/// The text of an error.
pub open spec fn error_text(e: GenerationErrorView) -> Seq<char> {
    match e {
        GenerationErrorView::Transport(s) => s,
        GenerationErrorView::TimedOut => "Gemini API attempt timed out"@,
        GenerationErrorView::Api(s) => "Gemini API error: "@ + s,
        GenerationErrorView::MissingCandidates =>
            "Invalid response structure from Gemini API: Missing 'candidates'"@,
    }
}

impl GenerationError {
    /// Whether a new attempt can mend the failure.
    pub fn is_retryable(&self) -> (r: bool)
        ensures
            r == retryable(self@),
    {
        match self {
            GenerationError::Transport(_) => true,
            GenerationError::TimedOut => true,
            GenerationError::Api(_) => false,
            GenerationError::MissingCandidates => false,
        }
    }

    /// The text of the error.
    pub fn message(&self) -> (r: String)
        ensures
            r@ == error_text(self@),
    {
        match self {
            GenerationError::Transport(s) => s.clone(),
            GenerationError::TimedOut => "Gemini API attempt timed out".to_owned(),
            GenerationError::Api(s) => {
                let mut r = "Gemini API error: ".to_owned();
                r.push_str(s.as_str());
                r
            },
            GenerationError::MissingCandidates =>
                "Invalid response structure from Gemini API: Missing 'candidates'".to_owned(),
        }
    }
}

/// The parts that a reply hands to the conversation: those of its first
/// candidate, and none if it has no candidate.
pub open spec fn reply_parts(candidates: Seq<Seq<PartView>>) -> Seq<PartView> {
    if candidates.len() > 0 {
        candidates[0]
    } else {
        Seq::empty()
    }
}

/// Checks the shape of a reply. A reply with candidates gives the parts of
/// the first one. A reply without candidates is an error of the endpoint:
/// with its error object where it sent one, of the shape where it did not.
pub fn check_reply(reply: RawReply) -> (r: Result<Vec<Part>, GenerationError>)
    ensures
        match reply.candidates {
            Some(candidates) => r.is_ok() && parts_view(r.unwrap()@) == reply_parts(
                candidates@.map_values(|c: Vec<Part>| parts_view(c@)),
            ),
            None => match reply.error {
                Some(e) => r.is_err() && r.unwrap_err()@ == GenerationErrorView::Api(e@),
                None => r.is_err() && r.unwrap_err()@ == GenerationErrorView::MissingCandidates,
            },
        },
{
    let RawReply { candidates, error } = reply;
    match candidates {
        Some(mut candidates) => {
            if candidates.len() > 0 {
                let ghost all = candidates@;
                let first = candidates.swap_remove(0);
                assert(first == all[0]);
                Ok(first)
            } else {
                let parts: Vec<Part> = Vec::new();
                assert(parts_view(parts@) =~= Seq::<PartView>::empty());
                Ok(parts)
            }
        },
        None => match error {
            Some(e) => Err(GenerationError::Api(e)),
            None => Err(GenerationError::MissingCandidates),
        },
    }
}

/// Two to the power of `n`.
pub open spec fn doubled(n: nat) -> nat
    decreases n,
{
    if n == 0 {
        1
    } else {
        2 * doubled((n - 1) as nat)
    }
}

/// What is done after a failed attempt.
#[derive(Debug, PartialEq, Eq)]
pub enum RetryDecision {
    /// Wait for so many seconds, then try again.
    Retry { wait_secs: u64 },
    /// Give up after so many attempts, with the error of the last one.
    GiveUp { attempts: u32, error: GenerationError },
}

/// Mathematical value of a `RetryDecision`.
pub enum RetryDecisionView {
    Retry { wait_secs: nat },
    GiveUp { attempts: nat, error: GenerationErrorView },
}

impl View for RetryDecision {
    type V = RetryDecisionView;

    open spec fn view(&self) -> RetryDecisionView {
        match self {
            RetryDecision::Retry { wait_secs } => RetryDecisionView::Retry {
                wait_secs: *wait_secs as nat,
            },
            RetryDecision::GiveUp { attempts, error } => RetryDecisionView::GiveUp {
                attempts: *attempts as nat,
                error: error@,
            },
        }
    }
}

/// The text of the error with which a call is given up.
pub open spec fn give_up_text(attempts: nat, error: GenerationErrorView) -> Seq<char> {
    if error is TimedOut {
        "Gemini API call timed out after "@ + crate::text::decimal(attempts) + " attempts"@
    } else if retryable(error) {
        "Gemini API call failed after "@ + crate::text::decimal(attempts) + " attempts"@
    } else {
        error_text(error)
    }
}

/// Builds the text of the error with which a call is given up: the number
/// of attempts where they ran out, the error itself where none was left to
/// make.
pub fn give_up_message(attempts: u32, error: &GenerationError) -> (r: String)
    ensures
        r@ == give_up_text(attempts as nat, error@),
{
    match error {
        GenerationError::TimedOut => {
            let mut r = "Gemini API call timed out after ".to_owned();
            crate::text::push_decimal(&mut r, attempts as u64);
            r.push_str(" attempts");
            r
        },
        GenerationError::Transport(_) => {
            let mut r = "Gemini API call failed after ".to_owned();
            crate::text::push_decimal(&mut r, attempts as u64);
            r.push_str(" attempts");
            r
        },
        _ => error.message(),
    }
}

/// The attempts of one call: how many have failed, and how long to wait
/// before the next.
#[derive(Clone, Copy, Debug, PartialEq, Eq)]
pub struct RetryState {
    failures: u32,
    delay_secs: u64,
}

/// The decision after one more failure, when `failures` attempts had failed
/// before: an error that no new attempt can mend ends the call at once; any
/// other is followed by a new attempt, after a wait that doubles each time,
/// until the attempts have run out.
pub open spec fn decide_retry(failures: nat, error: GenerationErrorView) -> RetryDecisionView {
    if retryable(error) && failures < MAX_API_RETRIES {
        RetryDecisionView::Retry { wait_secs: INITIAL_BACKOFF_SECS as nat * doubled(failures) }
    } else {
        RetryDecisionView::GiveUp { attempts: failures + 1, error }
    }
}

impl RetryState {
    /// Number of attempts that have failed.
    pub closed spec fn failures(&self) -> nat {
        self.failures as nat
    }

    /// Whether the state is well formed: the attempts have not run out, and
    /// the wait has doubled with each failure.
    pub closed spec fn wf(&self) -> bool {
        &&& self.failures <= MAX_API_RETRIES
        &&& self.delay_secs == INITIAL_BACKOFF_SECS * doubled(self.failures as nat)
    }

    /// The state before the first attempt.
    pub fn new() -> (r: Self)
        ensures
            r.wf(),
            r.failures() == 0,
    {
        RetryState { failures: 0, delay_secs: INITIAL_BACKOFF_SECS }
    }

    /// Number of attempts that have failed.
    pub fn failed_attempts(&self) -> (r: u32)
        ensures
            r == self.failures(),
    {
        self.failures
    }

    /// Whether another attempt may follow a failure that can be mended.
    pub fn attempts_left(&self) -> (r: bool)
        ensures
            r == (self.failures() < MAX_API_RETRIES),
    {
        self.failures < MAX_API_RETRIES
    }

    /// Takes the failure of an attempt and decides what follows.
    pub fn on_failure(&mut self, error: GenerationError) -> (r: RetryDecision)
        requires
            old(self).wf(),
        ensures
            r@ == decide_retry(old(self).failures(), error@),
            final(self).wf(),
            final(self).failures() == (if r is Retry {
                old(self).failures() + 1
            } else {
                old(self).failures()
            }),
    {
        if error.is_retryable() && self.failures < MAX_API_RETRIES {
            let wait_secs: u64 = self.delay_secs;
            proof {
                lemma_doubled_bound(self.failures as nat);
            }
            self.failures = self.failures + 1;
            self.delay_secs = self.delay_secs * 2;
            RetryDecision::Retry { wait_secs }
        } else {
            RetryDecision::GiveUp { attempts: self.failures + 1, error }
        }
    }
}

/// The wait stays small as long as attempts are left.
proof fn lemma_doubled_bound(n: nat)
    requires
        n <= MAX_API_RETRIES,
    ensures
        doubled(n) <= 8,
        doubled(n + 1) == 2 * doubled(n),
{
    reveal_with_fuel(doubled, 5);
}

/// Number of attempts that a call makes when its attempts fail with the
/// given errors in turn, after so many failures: it stops at the first
/// failure after which no new attempt follows.
pub open spec fn attempts_made(failures: nat, errors: Seq<GenerationErrorView>) -> nat
    decreases errors.len(),
{
    if errors.len() == 0 {
        0
    } else if decide_retry(failures, errors[0]) is Retry {
        1 + attempts_made(failures + 1, errors.drop_first())
    } else {
        1
    }
}

/// Whatever the errors are, a call makes no more attempts than one and the
/// number of new attempts that are allowed.
pub proof fn lemma_attempts_capped(failures: nat, errors: Seq<GenerationErrorView>)
    requires
        failures <= MAX_API_RETRIES,
    ensures
        attempts_made(failures, errors) <= MAX_API_RETRIES + 1 - failures,
    decreases errors.len(),
{
    if errors.len() > 0 && decide_retry(failures, errors[0]) is Retry {
        lemma_attempts_capped(failures + 1, errors.drop_first());
    }
}

/// An error that no new attempt can mend ends the call at once.
pub proof fn lemma_fatal_error_is_not_retried(failures: nat, error: GenerationErrorView)
    requires
        !retryable(error),
    ensures
        decide_retry(failures, error) == (RetryDecisionView::GiveUp {
            attempts: failures + 1,
            error,
        }),
{
}

} // verus!
