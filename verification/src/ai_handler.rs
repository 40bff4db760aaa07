//! The conversation with the generation endpoint: the prompt that opens it,
//! the bounded rounds of tool calls, and the classifier for ambiguous
//! mentions.

use vstd::prelude::*;
use crate::db::{entries_view, LogEntry, LogEntryView};
use crate::text::{contains, contains_text, lowercase, to_chars, to_lowercase};
use crate::tools::{
    build_missing_argument_response, build_response, build_unknown_response,
    missing_argument_response, resolve_call, resolved, response_for, unknown_response, Resolution,
    ResolutionView, ToolCall, ToolCallView, ToolResult, ToolResultView,
};
use crate::transcript::{
    clone_invocations, invocations_view, lemma_map_push, parts_view, turns_view,
    ChatbotResponse, ChatbotResponseView, Part, PartView, Role, ToolArgs, ToolInvocation,
    ToolInvocationView, Turn, TurnView,
};

verus! {

/// Number of rounds in which the model may call tools before it has to
/// answer in text.
pub const MAX_FUNCTION_CALL_TURNS: usize = 2;

/// One line of history as the model reads it.
pub open spec fn history_line(e: LogEntryView) -> Seq<char> {
    e.channel + " "@ + e.nick + ": "@ + e.message
}

/// The lines of a history, one per entry, separated by line feeds.
pub open spec fn formatted_history(history: Seq<LogEntryView>) -> Seq<char>
    decreases history.len(),
{
    if history.len() == 0 {
        Seq::empty()
    } else if history.len() == 1 {
        history_line(history[0])
    } else {
        formatted_history(history.drop_last()) + "\n"@ + history_line(history.last())
    }
}

/// Appends the lines of `history` to `out`.
fn push_history(out: &mut String, history: &Vec<LogEntry>)
    ensures
        final(out)@ == old(out)@ + formatted_history(entries_view(history@)),
{
    let ghost all = entries_view(history@);
    let mut i: usize = 0;
    assert(all.take(0) =~= Seq::<LogEntryView>::empty());
    while i < history.len()
        invariant
            i <= history.len(),
            all == entries_view(history@),
            out@ == old(out)@ + formatted_history(all.take(i as int)),
        decreases history.len() - i,
    {
        if i > 0 {
            out.push_str("\n");
        }
        let entry = &history[i];
        out.push_str(entry.channel.as_str());
        out.push_str(" ");
        out.push_str(entry.nick.as_str());
        out.push_str(": ");
        out.push_str(entry.message.as_str());
        proof {
            let next = all.take(i + 1);
            assert(next.drop_last() =~= all.take(i as int));
            assert(next.last() == entry@);
            let line = history_line(entry@);
            if i == 0 {
                assert(out@ =~= old(out)@ + line);
            } else {
                assert(out@ =~= old(out)@ + (formatted_history(all.take(i as int)) + "\n"@
                    + line));
            }
        }
        i += 1;
    }
    assert(all.take(i as int) =~= all);
}

/// Formats chat history for the prompt.
pub fn format_history(history: &Vec<LogEntry>) -> (r: String)
    ensures
        r@ == formatted_history(entries_view(history@)),
{
    let mut r = String::new();
    push_history(&mut r, history);
    assert(Seq::<char>::empty() + formatted_history(entries_view(history@))
        =~= formatted_history(entries_view(history@)));
    r
}

/// The text of the user turn that opens a conversation. A line that was
/// addressed to the assistant is quoted as the trigger; any other line joins
/// the history and the model is told that it speaks by chance.
pub open spec fn prompt_text(
    history: Seq<LogEntryView>,
    channel: Seq<char>,
    nick: Seq<char>,
    message: Seq<char>,
    was_addressed: bool,
) -> Seq<char> {
    if was_addressed {
        "History:\n"@ + formatted_history(history) + "\n\n Current Trigger from "@ + nick + ":\n"@
            + message
    } else {
        "History:\n"@ + formatted_history(
            history.push(LogEntryView { timestamp: 0, channel, nick, message }),
        )
            + "\n\n Current trigger: Random chance (interject your opinion in the current conversation)"@
    }
}

/// Builds the text of the user turn that opens a conversation.
pub fn build_prompt(
    history: Vec<LogEntry>,
    channel: &str,
    triggering_nick: &str,
    triggering_message: &str,
    was_addressed: bool,
) -> (r: String)
    ensures
        r@ == prompt_text(
            entries_view(history@),
            channel@,
            triggering_nick@,
            triggering_message@,
            was_addressed,
        ),
{
    let mut history = history;
    let mut r = "History:\n".to_owned();
    if was_addressed {
        push_history(&mut r, &history);
        r.push_str("\n\n Current Trigger from ");
        r.push_str(triggering_nick);
        r.push_str(":\n");
        r.push_str(triggering_message);
    } else {
        let entry = LogEntry {
            timestamp: 0,
            channel: channel.to_owned(),
            nick: triggering_nick.to_owned(),
            message: triggering_message.to_owned(),
        };
        proof {
            lemma_map_push(history@, entry, |e: LogEntry| e@);
        }
        history.push(entry);
        push_history(&mut r, &history);
        r.push_str(
            "\n\n Current trigger: Random chance (interject your opinion in the current conversation)",
        );
    }
    r
}

/// Why a conversation was given up: the model broke the protocol. What
/// goes wrong with a tool is told to the model and ends nothing.
#[derive(Clone, Copy, Debug, PartialEq, Eq, Structural)]
pub enum ConversationError {
    /// The model sent neither a function call nor text.
    MissingText,
    /// The model asked for a tool in the round in which none was offered.
    ToolsWithheld,
    /// The model sent a function call without a name.
    MissingFunctionName,
}

impl ConversationError {
    /// The text of the error.
    pub open spec fn spec_message(self) -> Seq<char> {
        match self {
            ConversationError::MissingText => "Gemini response missing text part"@,
            ConversationError::ToolsWithheld =>
                "Function call loop exceeded limit but model still requested calls"@,
            ConversationError::MissingFunctionName => "Function call missing name"@,
        }
    }

    /// The text of the error.
    pub fn message(self) -> (r: String)
        ensures
            r@ == self.spec_message(),
    {
        match self {
            ConversationError::MissingText => "Gemini response missing text part".to_owned(),
            ConversationError::ToolsWithheld =>
                "Function call loop exceeded limit but model still requested calls".to_owned(),
            ConversationError::MissingFunctionName => "Function call missing name".to_owned(),
        }
    }
}

/// What a conversation waits for.
#[derive(Clone, Copy, Debug, PartialEq, Eq, Structural)]
pub enum Phase {
    /// The transcript is to be sent; the model's reply is awaited.
    AwaitingReply,
    /// A tool is to be run; its result is awaited.
    AwaitingTool,
    /// The conversation has ended, in an answer or in an error.
    Finished,
}

/// What the caller of a conversation has to do next.
#[derive(Debug, PartialEq, Eq)]
pub enum Action {
    /// Send the transcript to the endpoint and hand back the reply.
    CallModel,
    /// Run the tool and hand back its result.
    RunTool(ToolCall),
    /// The conversation ended with this answer.
    Finish(ChatbotResponse),
    /// The conversation ended with this error.
    Fail(ConversationError),
}

/// Mathematical value of an `Action`.
pub enum ActionView {
    CallModel,
    RunTool(ToolCallView),
    Finish(ChatbotResponseView),
    Fail(ConversationError),
}

impl View for Action {
    type V = ActionView;

    open spec fn view(&self) -> ActionView {
        match self {
            Action::CallModel => ActionView::CallModel,
            Action::RunTool(call) => ActionView::RunTool(call@),
            Action::Finish(response) => ActionView::Finish(response@),
            Action::Fail(e) => ActionView::Fail(*e),
        }
    }
}

/// Mathematical value of a `Conversation`.
pub struct ConversationView {
    /// The turns so far.
    pub transcript: Seq<TurnView>,
    /// The tools invoked so far, over all rounds.
    pub invoked: Seq<ToolInvocationView>,
    /// Number of completed rounds of tool calls.
    pub round: nat,
    /// Number of rounds in which tools are offered.
    pub max_rounds: nat,
    /// What the conversation waits for.
    pub phase: Phase,
    /// Position in the model's last turn of the next part to look at.
    pub cursor: nat,
    /// The function responses of the current round so far.
    pub responses: Seq<PartView>,
    /// The image that a tool of the current round fetched last, if any.
    pub image: Option<(Seq<char>, Seq<char>)>,
}

/// The state in which a conversation begins: one user turn with the prompt.
pub open spec fn initial(prompt: Seq<char>, max_rounds: nat) -> ConversationView {
    ConversationView {
        transcript: seq![TurnView { role: Role::User, parts: seq![PartView::Text(prompt)] }],
        invoked: Seq::empty(),
        round: 0,
        max_rounds,
        phase: Phase::AwaitingReply,
        cursor: 0,
        responses: Seq::empty(),
        image: None,
    }
}

/// The parts of the last turn: while tools run, the model's requests.
pub open spec fn pending(s: ConversationView) -> Seq<PartView> {
    s.transcript.last().parts
}

/// Whether one of the parts is a function call.
pub open spec fn has_call(parts: Seq<PartView>) -> bool {
    exists|i: int| 0 <= i < parts.len() && parts[i] is FunctionCall
}

/// The first text among the parts.
pub open spec fn first_text(parts: Seq<PartView>) -> Option<Seq<char>>
    decreases parts.len(),
{
    if parts.len() == 0 {
        None
    } else {
        match parts[0] {
            PartView::Text(t) => Some(t),
            _ => first_text(parts.drop_first()),
        }
    }
}

/// The state after the last call of a round: the image, if one was fetched,
/// in a user turn of its own, then all function responses in one user turn.
pub open spec fn close_round(s: ConversationView) -> ConversationView {
    let with_image = match s.image {
        Some((mime_type, data)) => s.transcript.push(
            TurnView { role: Role::User, parts: seq![PartView::InlineData { mime_type, data }] },
        ),
        None => s.transcript,
    };
    ConversationView {
        transcript: with_image.push(TurnView { role: Role::User, parts: s.responses }),
        round: s.round + 1,
        phase: Phase::AwaitingReply,
        cursor: 0,
        responses: Seq::empty(),
        image: None,
        ..s
    }
}

/// Works through the model's requests from the cursor on, in the order in
/// which the model made them. Each call is recorded before anything else
/// is done with it. A call of a tool that the registry does not hold, and
/// a call without the argument that its tool takes, is answered at once
/// with an error for the model, and the walk goes on; any other call stops
/// the walk until the tool's result is there. After the last part the round
/// is closed and the model is called again.
pub open spec fn advance(s: ConversationView) -> (ConversationView, ActionView)
    decreases pending(s).len() - s.cursor,
{
    if s.cursor >= pending(s).len() {
        (close_round(s), ActionView::CallModel)
    } else {
        match pending(s)[s.cursor as int] {
            PartView::FunctionCall { name: None, args } => (
                ConversationView { phase: Phase::Finished, ..s },
                ActionView::Fail(ConversationError::MissingFunctionName),
            ),
            PartView::FunctionCall { name: Some(name), args } => {
                let recorded = s.invoked.push(ToolInvocationView { name, args });
                match resolved(name, args) {
                    ResolutionView::Unknown => advance(
                        ConversationView {
                            invoked: recorded,
                            cursor: s.cursor + 1,
                            responses: s.responses.push(unknown_response(name)),
                            ..s
                        },
                    ),
                    ResolutionView::MissingArgument(kind) => advance(
                        ConversationView {
                            invoked: recorded,
                            cursor: s.cursor + 1,
                            responses: s.responses.push(missing_argument_response(name, kind)),
                            ..s
                        },
                    ),
                    ResolutionView::Run(call) => (
                        ConversationView { invoked: recorded, phase: Phase::AwaitingTool, ..s },
                        ActionView::RunTool(call),
                    ),
                }
            },
            _ => advance(ConversationView { cursor: s.cursor + 1, ..s }),
        }
    }
}

/// The state and the action after the model's reply. The reply joins the
/// transcript as a model turn. Without a function call in it, its first text
/// is the answer. With one, the tools are run if they were offered in this
/// round, and the conversation fails if they were not.
pub open spec fn after_reply(s: ConversationView, parts: Seq<PartView>) -> (
    ConversationView,
    ActionView,
) {
    let transcript = s.transcript.push(TurnView { role: Role::Model, parts });
    let ended = ConversationView { transcript, phase: Phase::Finished, ..s };
    if !has_call(parts) {
        match first_text(parts) {
            Some(text) => (
                ended,
                ActionView::Finish(
                    ChatbotResponseView { text_response: text, invoked_tools: s.invoked },
                ),
            ),
            None => (ended, ActionView::Fail(ConversationError::MissingText)),
        }
    } else if s.round >= s.max_rounds {
        (ended, ActionView::Fail(ConversationError::ToolsWithheld))
    } else {
        advance(
            ConversationView {
                transcript,
                phase: Phase::AwaitingTool,
                cursor: 0,
                responses: Seq::empty(),
                image: None,
                ..s
            },
        )
    }
}

/// The name of the call at the cursor.
pub open spec fn awaited_name(s: ConversationView) -> Seq<char> {
    match pending(s)[s.cursor as int] {
        PartView::FunctionCall { name: Some(name), .. } => name,
        _ => Seq::empty(),
    }
}

/// The state and the action after the result of the tool that was run.
/// The result becomes the function response of the call at the cursor; an
/// image replaces the one that the round held before. Then the walk goes on
/// behind that call.
pub open spec fn after_tool_result(s: ConversationView, result: ToolResultView) -> (
    ConversationView,
    ActionView,
) {
    advance(
        ConversationView {
            cursor: s.cursor + 1,
            responses: s.responses.push(response_for(awaited_name(s), result)),
            image: match result {
                ToolResultView::Image { mime_type, data } => Some((mime_type, data)),
                _ => s.image,
            },
            ..s
        },
    )
}

/// What holds of every state of a conversation: no more rounds are done
/// than are allowed, and while a tool runs, tools were offered in this round
/// and the cursor stands on a named function call of the model's last turn.
pub open spec fn well_formed(s: ConversationView) -> bool {
    &&& s.round <= s.max_rounds
    &&& s.phase == Phase::AwaitingTool ==> {
        &&& s.round < s.max_rounds
        &&& s.transcript.len() > 0
        &&& s.cursor < pending(s).len()
        &&& pending(s)[s.cursor as int] matches PartView::FunctionCall { name: Some(_), .. }
    }
}

/// A conversation with the generation endpoint, from the opening prompt to
/// the final answer. It owns the transcript and says after each event what
/// is to be done next; the caller talks to the endpoint and runs the tools.
pub struct Conversation {
    transcript: Vec<Turn>,
    invoked_tools: Vec<ToolInvocation>,
    round: usize,
    max_rounds: usize,
    phase: Phase,
    cursor: usize,
    responses: Vec<Part>,
    image: Option<(String, String)>,
}

impl View for Conversation {
    type V = ConversationView;

    closed spec fn view(&self) -> ConversationView {
        ConversationView {
            transcript: turns_view(self.transcript@),
            invoked: invocations_view(self.invoked_tools@),
            round: self.round as nat,
            max_rounds: self.max_rounds as nat,
            phase: self.phase,
            cursor: self.cursor as nat,
            responses: parts_view(self.responses@),
            image: match self.image {
                Some((mime_type, data)) => Some((mime_type@, data@)),
                None => None,
            },
        }
    }
}

/// Finds the first text among the parts.
pub fn find_first_text(parts: &Vec<Part>) -> (r: Option<String>)
    ensures
        r.is_some() == first_text(parts_view(parts@)).is_some(),
        r matches Some(t) ==> first_text(parts_view(parts@)) == Some(t@),
{
    let ghost all = parts_view(parts@);
    let mut i: usize = 0;
    assert(all.skip(0) =~= all);
    while i < parts.len()
        invariant
            i <= parts.len(),
            all == parts_view(parts@),
            first_text(all) == first_text(all.skip(i as int)),
        decreases parts.len() - i,
    {
        let ghost rest = all.skip(i as int);
        assert(rest[0] == parts@[i as int]@);
        assert(rest.drop_first() =~= all.skip(i + 1));
        match &parts[i] {
            Part::Text(t) => {
                return Some(t.clone());
            },
            _ => {},
        }
        i += 1;
    }
    None
}

/// Tests whether one of the parts is a function call.
pub fn contains_call(parts: &Vec<Part>) -> (r: bool)
    ensures
        r == has_call(parts_view(parts@)),
{
    let ghost all = parts_view(parts@);
    let mut i: usize = 0;
    while i < parts.len()
        invariant
            i <= parts.len(),
            all == parts_view(parts@),
            forall|j: int| 0 <= j < i ==> !(all[j] is FunctionCall),
        decreases parts.len() - i,
    {
        assert(all[i as int] == parts@[i as int]@);
        match &parts[i] {
            Part::FunctionCall { .. } => {
                return true;
            },
            _ => {},
        }
        i += 1;
    }
    false
}

impl Conversation {
    /// Whether the state is well formed.
    pub open spec fn wf(&self) -> bool {
        well_formed(self@)
    }

    /// Opens a conversation with the prompt as its one user turn.
    pub fn begin(prompt: String, max_rounds: usize) -> (r: Self)
        ensures
            r@ == initial(prompt@, max_rounds as nat),
            r.wf(),
    {
        let mut parts: Vec<Part> = Vec::new();
        parts.push(Part::Text(prompt));
        let mut transcript: Vec<Turn> = Vec::new();
        transcript.push(Turn { role: Role::User, parts });
        let r = Conversation {
            transcript,
            invoked_tools: Vec::new(),
            round: 0,
            max_rounds,
            phase: Phase::AwaitingReply,
            cursor: 0,
            responses: Vec::new(),
            image: None,
        };
        proof {
            let want = initial(prompt@, max_rounds as nat);
            assert(r@.transcript[0].parts =~= want.transcript[0].parts);
            assert(r@.transcript =~= want.transcript);
            assert(r@.invoked =~= want.invoked);
            assert(r@.responses =~= want.responses);
        }
        r
    }

    /// The turns so far: what is sent to the endpoint.
    pub fn transcript(&self) -> (r: &Vec<Turn>)
        ensures
            turns_view(r@) == self@.transcript,
    {
        &self.transcript
    }

    /// Whether tools are offered to the model in the current round: in all
    /// but the last one.
    pub fn tools_enabled(&self) -> (r: bool)
        ensures
            r == (self@.round < self@.max_rounds),
    {
        self.round < self.max_rounds
    }

    /// What the conversation waits for.
    pub fn phase(&self) -> (r: Phase)
        ensures
            r == self@.phase,
    {
        self.phase
    }

    /// Number of completed rounds of tool calls.
    pub fn round(&self) -> (r: usize)
        ensures
            r == self@.round,
    {
        self.round
    }

    /// Closes the round: the image and the function responses join the
    /// transcript.
    fn finish_round(&mut self)
        requires
            old(self)@.round < old(self)@.max_rounds,
        ensures
            final(self)@ == close_round(old(self)@),
    {
        let mut image: Option<(String, String)> = None;
        std::mem::swap(&mut image, &mut self.image);
        match image {
            Some((mime_type, data)) => {
                let mut parts: Vec<Part> = Vec::new();
                parts.push(Part::InlineData { mime_type, data });
                let turn = Turn { role: Role::User, parts };
                proof {
                    assert(turn@.parts =~= seq![
                        PartView::InlineData { mime_type: mime_type@, data: data@ },
                    ]);
                    lemma_map_push(self.transcript@, turn, |t: Turn| t@);
                }
                self.transcript.push(turn);
            },
            None => {},
        }
        let mut responses: Vec<Part> = Vec::new();
        std::mem::swap(&mut responses, &mut self.responses);
        let turn = Turn { role: Role::User, parts: responses };
        proof {
            lemma_map_push(self.transcript@, turn, |t: Turn| t@);
        }
        self.transcript.push(turn);
        self.round = self.round + 1;
        self.phase = Phase::AwaitingReply;
        self.cursor = 0;
        proof {
            assert(self@.responses =~= Seq::<PartView>::empty());
        }
    }

    /// Works through the model's requests from the cursor on.
    fn advance(&mut self) -> (action: Action)
        requires
            old(self)@.round < old(self)@.max_rounds,
            old(self)@.transcript.len() > 0,
            old(self)@.cursor <= pending(old(self)@).len(),
        ensures
            (final(self)@, action@) == advance(old(self)@),
    {
        let last: usize = self.transcript.len() - 1;
        loop
            invariant
                self@.round < self@.max_rounds,
                self.transcript@.len() == last + 1,
                self@.cursor <= pending(self@).len(),
                advance(self@) == advance(old(self)@),
            decreases pending(self@).len() - self@.cursor,
        {
            let ghost here = self@;
            assert(pending(here) == self.transcript@[last as int]@.parts);
            if self.cursor >= self.transcript[last].parts.len() {
                self.finish_round();
                return Action::CallModel;
            }
            assert(pending(here)[self.cursor as int] == self.transcript@[last as int].parts@[self.cursor as int]@);
            let call: Option<(Option<String>, ToolArgs)> =
                match &self.transcript[last].parts[self.cursor] {
                Part::FunctionCall { name, args } => Some(
                    (
                        match name {
                            Some(n) => Some(n.clone()),
                            None => None,
                        },
                        args.clone(),
                    ),
                ),
                _ => None,
            };
            match call {
                None => {
                    self.cursor = self.cursor + 1;
                },
                Some((None, _)) => {
                    self.phase = Phase::Finished;
                    return Action::Fail(ConversationError::MissingFunctionName);
                },
                Some((Some(name), args)) => {
                    let resolution = resolve_call(name.as_str(), &args);
                    let record = ToolInvocation { name: name.clone(), args };
                    proof {
                        lemma_map_push(self.invoked_tools@, record, |t: ToolInvocation| t@);
                    }
                    self.invoked_tools.push(record);
                    match resolution {
                        Resolution::Unknown => {
                            let response = build_unknown_response(name.as_str());
                            proof {
                                lemma_map_push(self.responses@, response, |p: Part| p@);
                            }
                            self.responses.push(response);
                            self.cursor = self.cursor + 1;
                        },
                        Resolution::MissingArgument(kind) => {
                            let response = build_missing_argument_response(name.as_str(), kind);
                            proof {
                                lemma_map_push(self.responses@, response, |p: Part| p@);
                            }
                            self.responses.push(response);
                            self.cursor = self.cursor + 1;
                        },
                        Resolution::Run(call) => {
                            self.phase = Phase::AwaitingTool;
                            return Action::RunTool(call);
                        },
                    }
                },
            }
        }
    }

    /// Takes the model's reply and says what is to be done next.
    pub fn accept_reply(&mut self, parts: Vec<Part>) -> (action: Action)
        requires
            old(self).wf(),
            old(self)@.phase == Phase::AwaitingReply,
        ensures
            (final(self)@, action@) == after_reply(old(self)@, parts_view(parts@)),
            final(self).wf(),
    {
        let calls = contains_call(&parts);
        let text = if calls {
            None
        } else {
            find_first_text(&parts)
        };
        let turn = Turn { role: Role::Model, parts };
        proof {
            lemma_map_push(self.transcript@, turn, |t: Turn| t@);
        }
        self.transcript.push(turn);
        if !calls {
            self.phase = Phase::Finished;
            match text {
                Some(t) => Action::Finish(
                    ChatbotResponse {
                        text_response: t,
                        invoked_tools: clone_invocations(&self.invoked_tools),
                    },
                ),
                None => Action::Fail(ConversationError::MissingText),
            }
        } else if self.round >= self.max_rounds {
            self.phase = Phase::Finished;
            Action::Fail(ConversationError::ToolsWithheld)
        } else {
            self.phase = Phase::AwaitingTool;
            self.cursor = 0;
            self.responses = Vec::new();
            self.image = None;
            proof {
                assert(self@.responses =~= Seq::<PartView>::empty());
            }
            let action = self.advance();
            proof {
                lemma_advance_well_formed(
                    ConversationView {
                        transcript: old(self)@.transcript.push(
                            TurnView { role: Role::Model, parts: parts_view(parts@) },
                        ),
                        phase: Phase::AwaitingTool,
                        cursor: 0,
                        responses: Seq::empty(),
                        image: None,
                        ..old(self)@
                    },
                );
            }
            action
        }
    }

    /// Takes the result of the tool that was run and says what is to be
    /// done next.
    pub fn accept_tool_result(&mut self, result: ToolResult) -> (action: Action)
        requires
            old(self).wf(),
            old(self)@.phase == Phase::AwaitingTool,
        ensures
            (final(self)@, action@) == after_tool_result(old(self)@, result@),
            final(self).wf(),
    {
        let last: usize = self.transcript.len() - 1;
        assert(pending(self@) == self.transcript@[last as int]@.parts);
        let count: usize = self.transcript[last].parts.len();
        let next: usize = self.cursor + 1;
        assert(pending(self@)[self.cursor as int] == self.transcript@[last as int].parts@[self.cursor as int]@);
        let name: String = match &self.transcript[last].parts[self.cursor] {
            Part::FunctionCall { name: Some(n), .. } => n.clone(),
            _ => String::new(),
        };
        let (response, image) = build_response(name.as_str(), result);
        proof {
            lemma_map_push(self.responses@, response, |p: Part| p@);
        }
        self.responses.push(response);
        match image {
            Some(pair) => {
                self.image = Some(pair);
            },
            None => {},
        }
        self.cursor = next;
        let ghost middle = self@;
        let action = self.advance();
        proof {
            lemma_advance_well_formed(middle);
        }
        action
    }
}

/// The walk through the model's requests leaves a well-formed state.
pub proof fn lemma_advance_well_formed(s: ConversationView)
    requires
        s.round < s.max_rounds,
        s.transcript.len() > 0,
        s.cursor <= pending(s).len(),
    ensures
        well_formed(advance(s).0),
        advance(s).0.max_rounds == s.max_rounds,
        advance(s).0.round == (if advance(s).1 is CallModel {
            s.round + 1
        } else {
            s.round
        }),
        advance(s).1 is CallModel <==> advance(s).0.phase == Phase::AwaitingReply,
        advance(s).1 is RunTool <==> advance(s).0.phase == Phase::AwaitingTool,
        !(advance(s).1 is Finish),
        advance(s).1 is Fail ==> advance(s).1 == ActionView::Fail(
            ConversationError::MissingFunctionName,
        ),
        s.transcript.is_prefix_of(advance(s).0.transcript),
        s.invoked.is_prefix_of(advance(s).0.invoked),
    decreases pending(s).len() - s.cursor,
{
    if s.cursor >= pending(s).len() {
        let with_image = match s.image {
            Some((mime_type, data)) => s.transcript.push(
                TurnView {
                    role: Role::User,
                    parts: seq![PartView::InlineData { mime_type, data }],
                },
            ),
            None => s.transcript,
        };
        assert(s.transcript.is_prefix_of(with_image));
        assert(with_image.is_prefix_of(close_round(s).transcript));
    } else {
        match pending(s)[s.cursor as int] {
            PartView::FunctionCall { name: None, args } => {},
            PartView::FunctionCall { name: Some(name), args } => {
                let recorded = s.invoked.push(ToolInvocationView { name, args });
                assert(s.invoked.is_prefix_of(recorded));
                match resolved(name, args) {
                    ResolutionView::Unknown => {
                        lemma_advance_well_formed(
                            ConversationView {
                                invoked: recorded,
                                cursor: s.cursor + 1,
                                responses: s.responses.push(unknown_response(name)),
                                ..s
                            },
                        );
                    },
                    ResolutionView::MissingArgument(kind) => {
                        lemma_advance_well_formed(
                            ConversationView {
                                invoked: recorded,
                                cursor: s.cursor + 1,
                                responses: s.responses.push(
                                    missing_argument_response(name, kind),
                                ),
                                ..s
                            },
                        );
                    },
                    ResolutionView::Run(call) => {},
                }
            },
            _ => {
                lemma_advance_well_formed(ConversationView { cursor: s.cursor + 1, ..s });
            },
        }
    }
}

/// Something that happens to a conversation: the model replies, or a tool
/// that was run hands back its result.
pub enum EventView {
    Reply(Seq<PartView>),
    ToolDone(ToolResultView),
}

/// The state after an event. An event that the conversation does not wait
/// for leaves it as it is.
pub open spec fn after_event(s: ConversationView, e: EventView) -> ConversationView {
    match e {
        EventView::Reply(parts) => if s.phase == Phase::AwaitingReply {
            after_reply(s, parts).0
        } else {
            s
        },
        EventView::ToolDone(result) => if s.phase == Phase::AwaitingTool {
            after_tool_result(s, result).0
        } else {
            s
        },
    }
}

/// The state after a sequence of events.
pub open spec fn after_events(s: ConversationView, events: Seq<EventView>) -> ConversationView
    decreases events.len(),
{
    if events.len() == 0 {
        s
    } else {
        after_events(after_event(s, events[0]), events.drop_first())
    }
}

/// Number of replies of the model that a conversation takes in while the
/// events happen: the number of calls of the endpoint that were answered.
pub open spec fn replies_taken(s: ConversationView, events: Seq<EventView>) -> nat
    decreases events.len(),
{
    if events.len() == 0 {
        0
    } else {
        let taken: nat = if events[0] is Reply && s.phase == Phase::AwaitingReply {
            1
        } else {
            0
        };
        taken + replies_taken(after_event(s, events[0]), events.drop_first())
    }
}

/// Number of replies that a conversation can still take in.
pub open spec fn replies_left(s: ConversationView) -> nat {
    match s.phase {
        Phase::AwaitingReply => (s.max_rounds + 1 - s.round) as nat,
        Phase::AwaitingTool => (s.max_rounds - s.round) as nat,
        Phase::Finished => 0,
    }
}

/// Every event leaves a well-formed state, keeps what the transcript and the
/// list of invoked tools held, and uses up one of the replies that are left
/// if it is a reply that the conversation waited for.
pub proof fn lemma_event_step(s: ConversationView, e: EventView)
    requires
        well_formed(s),
    ensures
        well_formed(after_event(s, e)),
        after_event(s, e).max_rounds == s.max_rounds,
        s.transcript.is_prefix_of(after_event(s, e).transcript),
        s.invoked.is_prefix_of(after_event(s, e).invoked),
        e is Reply && s.phase == Phase::AwaitingReply ==> replies_left(after_event(s, e)) + 1
            <= replies_left(s),
        replies_left(after_event(s, e)) <= replies_left(s),
{
    match e {
        EventView::Reply(parts) => {
            if s.phase == Phase::AwaitingReply {
                let transcript = s.transcript.push(TurnView { role: Role::Model, parts });
                assert(s.transcript.is_prefix_of(transcript));
                if has_call(parts) && s.round < s.max_rounds {
                    let scanning = ConversationView {
                        transcript,
                        phase: Phase::AwaitingTool,
                        cursor: 0,
                        responses: Seq::empty(),
                        image: None,
                        ..s
                    };
                    lemma_advance_well_formed(scanning);
                }
            }
        },
        EventView::ToolDone(result) => {
            if s.phase == Phase::AwaitingTool {
                let scanning = ConversationView {
                    cursor: s.cursor + 1,
                    responses: s.responses.push(response_for(awaited_name(s), result)),
                    image: match result {
                        ToolResultView::Image { mime_type, data } => Some((mime_type, data)),
                        _ => s.image,
                    },
                    ..s
                };
                lemma_advance_well_formed(scanning);
            }
        },
    }
}

/// Whatever the model and the tools do, a conversation takes in no more
/// replies than it has left.
pub proof fn lemma_replies_bounded(s: ConversationView, events: Seq<EventView>)
    requires
        well_formed(s),
    ensures
        replies_taken(s, events) <= replies_left(s),
        well_formed(after_events(s, events)),
        s.transcript.is_prefix_of(after_events(s, events).transcript),
        s.invoked.is_prefix_of(after_events(s, events).invoked),
    decreases events.len(),
{
    if events.len() > 0 {
        lemma_event_step(s, events[0]);
        lemma_replies_bounded(after_event(s, events[0]), events.drop_first());
    }
}

/// The round cap: from its beginning, a conversation calls the endpoint at
/// most once more than it has rounds, whatever the model and the tools do.
pub proof fn lemma_round_cap(prompt: Seq<char>, max_rounds: nat, events: Seq<EventView>)
    ensures
        replies_taken(initial(prompt, max_rounds), events) <= max_rounds + 1,
{
    lemma_replies_bounded(initial(prompt, max_rounds), events);
}

/// What goes wrong with a tool never ends a conversation. A reply with
/// function calls in a round in which tools are offered fails only where a
/// call has no name; a call of an unknown tool or without its argument is
/// answered to the model.
pub proof fn lemma_tool_errors_are_not_fatal(s: ConversationView, parts: Seq<PartView>)
    requires
        well_formed(s),
        s.phase == Phase::AwaitingReply,
        s.round < s.max_rounds,
        has_call(parts),
        forall|i: int|
            0 <= i < parts.len() ==> !(#[trigger] parts[i] matches PartView::FunctionCall {
                name: None,
                ..
            }),
    ensures
        !(after_reply(s, parts).1 is Fail),
{
    let scanning = ConversationView {
        transcript: s.transcript.push(TurnView { role: Role::Model, parts }),
        phase: Phase::AwaitingTool,
        cursor: 0,
        responses: Seq::empty(),
        image: None,
        ..s
    };
    lemma_named_calls_do_not_fail(scanning);
}

/// The walk through requests that all have a name ends in no error.
proof fn lemma_named_calls_do_not_fail(s: ConversationView)
    requires
        s.transcript.len() > 0,
        s.cursor <= pending(s).len(),
        forall|i: int|
            0 <= i < pending(s).len() ==> !(#[trigger] pending(s)[i] matches PartView::FunctionCall {
                name: None,
                ..
            }),
    ensures
        !(advance(s).1 is Fail),
    decreases pending(s).len() - s.cursor,
{
    if s.cursor < pending(s).len() {
        match pending(s)[s.cursor as int] {
            PartView::FunctionCall { name: None, args } => {},
            PartView::FunctionCall { name: Some(name), args } => {
                let recorded = s.invoked.push(ToolInvocationView { name, args });
                match resolved(name, args) {
                    ResolutionView::Unknown => {
                        lemma_named_calls_do_not_fail(
                            ConversationView {
                                invoked: recorded,
                                cursor: s.cursor + 1,
                                responses: s.responses.push(unknown_response(name)),
                                ..s
                            },
                        );
                    },
                    ResolutionView::MissingArgument(kind) => {
                        lemma_named_calls_do_not_fail(
                            ConversationView {
                                invoked: recorded,
                                cursor: s.cursor + 1,
                                responses: s.responses.push(
                                    missing_argument_response(name, kind),
                                ),
                                ..s
                            },
                        );
                    },
                    ResolutionView::Run(call) => {},
                }
            },
            _ => {
                lemma_named_calls_do_not_fail(ConversationView { cursor: s.cursor + 1, ..s });
            },
        }
    }
}

/// A function call in the round in which no tools were offered ends the
/// conversation with an error.
pub proof fn lemma_call_after_last_round_is_fatal(s: ConversationView, parts: Seq<PartView>)
    requires
        well_formed(s),
        s.phase == Phase::AwaitingReply,
        s.round == s.max_rounds,
        has_call(parts),
    ensures
        after_reply(s, parts).1 == ActionView::Fail(ConversationError::ToolsWithheld),
        after_reply(s, parts).0.phase == Phase::Finished,
{
}

/// The system prompt of the check whether a line that mentions the
/// assistant is addressed to it.
pub open spec fn mention_prompt(name: Seq<char>) -> Seq<char> {
    "You are "@ + name + ". Check if the provided message is aimed at "@ + name
        + ", or if it is merely a mention. Respond with a single word, \"respond\" or \"mention\"."@
}

/// Builds the system prompt of the mention check.
pub fn build_mention_prompt(chatbot_name: &str) -> (r: String)
    ensures
        r@ == mention_prompt(chatbot_name@),
{
    let mut r = "You are ".to_owned();
    r.push_str(chatbot_name);
    r.push_str(". Check if the provided message is aimed at ");
    r.push_str(chatbot_name);
    r.push_str(
        ", or if it is merely a mention. Respond with a single word, \"respond\" or \"mention\".",
    );
    r
}

/// Reads the lower-cased verdict of the mention check: only one that holds
/// the word `respond` asks for an answer.
pub fn verdict_asks_for_answer(lowered: &str) -> (r: bool)
    ensures
        r == contains(lowered@, "respond"@),
{
    let haystack = to_chars(lowered);
    let needle = to_chars("respond");
    contains_text(&haystack, &needle)
}

/// Reads the verdict of the mention check. A verdict that names neither
/// choice counts as a mere mention: the assistant stays silent.
pub fn interpret_mention_reply(reply: &str) -> (r: bool)
    ensures
        r == contains(lowercase(reply@), "respond"@),
{
    let lowered = to_lowercase(reply);
    verdict_asks_for_answer(lowered.as_str())
}

/// The transcript of a question that is asked once, without history.
pub fn single_turn(prompt: &str) -> (r: Vec<Turn>)
    ensures
        turns_view(r@) == seq![
            TurnView { role: Role::User, parts: seq![PartView::Text(prompt@)] },
        ],
{
    let mut parts: Vec<Part> = Vec::new();
    parts.push(Part::Text(prompt.to_owned()));
    let mut r: Vec<Turn> = Vec::new();
    r.push(Turn { role: Role::User, parts });
    proof {
        assert(r@[0]@.parts =~= seq![PartView::Text(prompt@)]);
        assert(turns_view(r@) =~= seq![
            TurnView { role: Role::User, parts: seq![PartView::Text(prompt@)] },
        ]);
    }
    r
}

/// The text of the first part, where the first part is text.
pub open spec fn leading_text(parts: Seq<PartView>) -> Option<Seq<char>> {
    if parts.len() > 0 && parts[0] is Text {
        Some(parts[0]->Text_0)
    } else {
        None
    }
}

/// The answer to a question that was asked once: the text of the first
/// part of the reply.
pub fn single_turn_answer(parts: &Vec<Part>) -> (r: Result<String, ConversationError>)
    ensures
        match leading_text(parts_view(parts@)) {
            Some(t) => r.is_ok() && r.unwrap()@ == t,
            None => r == Err::<String, ConversationError>(ConversationError::MissingText),
        },
{
    if parts.len() == 0 {
        return Err(ConversationError::MissingText);
    }
    assert(parts_view(parts@)[0] == parts@[0]@);
    match &parts[0] {
        Part::Text(t) => Ok(t.clone()),
        _ => Err(ConversationError::MissingText),
    }
}

} // verus!
