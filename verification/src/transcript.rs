//! The conversation transcript: role-tagged turns made of parts, and the
//! records of the tools that a conversation invoked.

use vstd::prelude::*;

verus! {

/// Who speaks in a turn. Tool results travel in user turns.
#[derive(Clone, Copy, Debug, PartialEq, Eq, Structural)]
pub enum Role {
    User,
    Model,
}

/// Mapping a function over a sequence and then appending the image of `x`
/// is mapping it over the sequence with `x` appended.
pub proof fn lemma_map_push<A, B>(s: Seq<A>, x: A, f: spec_fn(A) -> B)
    ensures
        s.push(x).map_values(f) == s.map_values(f).push(f(x)),
{
    assert(s.push(x).map_values(f) =~= s.map_values(f).push(f(x)));
}

/// The value of one member of a tool's argument object.
#[derive(Debug, PartialEq, Eq)]
pub enum ArgValue {
    /// A string, by its content.
    Text(String),
    /// Any other value, by its JSON text.
    Other(String),
}

/// Mathematical value of an `ArgValue`.
pub enum ArgValueView {
    Text(Seq<char>),
    Other(Seq<char>),
}

impl View for ArgValue {
    type V = ArgValueView;

    open spec fn view(&self) -> ArgValueView {
        match self {
            ArgValue::Text(s) => ArgValueView::Text(s@),
            ArgValue::Other(s) => ArgValueView::Other(s@),
        }
    }
}

impl Clone for ArgValue {
    fn clone(&self) -> (r: Self)
        ensures
            r@ == self@,
    {
        match self {
            ArgValue::Text(s) => ArgValue::Text(s.clone()),
            ArgValue::Other(s) => ArgValue::Other(s.clone()),
        }
    }
}

/// One member of a tool's argument object.
#[derive(Debug, PartialEq, Eq)]
pub struct Argument {
    pub name: String,
    pub value: ArgValue,
}

/// Mathematical value of an `Argument`.
pub struct ArgumentView {
    pub name: Seq<char>,
    pub value: ArgValueView,
}

impl View for Argument {
    type V = ArgumentView;

    open spec fn view(&self) -> ArgumentView {
        ArgumentView { name: self.name@, value: self.value@ }
    }
}

impl Clone for Argument {
    fn clone(&self) -> (r: Self)
        ensures
            r@ == self@,
    {
        Argument { name: self.name.clone(), value: self.value.clone() }
    }
}

/// The loosely typed argument object of a tool call: its members in order.
#[derive(Debug, PartialEq, Eq)]
pub struct ToolArgs {
    pub members: Vec<Argument>,
}

impl View for ToolArgs {
    type V = Seq<ArgumentView>;

    open spec fn view(&self) -> Seq<ArgumentView> {
        self.members@.map_values(|a: Argument| a@)
    }
}

impl Clone for ToolArgs {
    fn clone(&self) -> (r: Self)
        ensures
            r@ == self@,
    {
        let mut members: Vec<Argument> = Vec::new();
        let mut i: usize = 0;
        while i < self.members.len()
            invariant
                i <= self.members.len(),
                members@.map_values(|a: Argument| a@) == self@.take(i as int),
            decreases self.members.len() - i,
        {
            let member = self.members[i].clone();
            proof {
                lemma_map_push(members@, member, |a: Argument| a@);
                assert(self@.take(i as int).push(self@[i as int]) =~= self@.take(i + 1));
            }
            members.push(member);
            i += 1;
        }
        assert(self@.take(i as int) =~= self@);
        ToolArgs { members }
    }
}

/// The string value of the first member called `key`, if that member holds
/// a string.
pub open spec fn text_argument(args: Seq<ArgumentView>, key: Seq<char>) -> Option<Seq<char>>
    decreases args.len(),
{
    if args.len() == 0 {
        None
    } else if args[0].name == key {
        match args[0].value {
            ArgValueView::Text(s) => Some(s),
            ArgValueView::Other(_) => None,
        }
    } else {
        text_argument(args.drop_first(), key)
    }
}

impl ToolArgs {
    /// An argument object without members.
    pub fn empty() -> (r: Self)
        ensures
            r@ == Seq::<ArgumentView>::empty(),
    {
        let r = ToolArgs { members: Vec::new() };
        assert(r@ =~= Seq::<ArgumentView>::empty());
        r
    }

    /// An argument object with the one string member `name`.
    pub fn single(name: &str, value: &str) -> (r: Self)
        ensures
            r@ == seq![ArgumentView { name: name@, value: ArgValueView::Text(value@) }],
    {
        let mut members: Vec<Argument> = Vec::new();
        members.push(Argument { name: name.to_owned(), value: ArgValue::Text(value.to_owned()) });
        let r = ToolArgs { members };
        assert(r@ =~= seq![ArgumentView { name: name@, value: ArgValueView::Text(value@) }]);
        r
    }

    /// Looks up the string member `key`.
    pub fn text(&self, key: &str) -> (r: Option<String>)
        ensures
            r.is_some() == text_argument(self@, key@).is_some(),
            r matches Some(s) ==> text_argument(self@, key@) == Some(s@),
    {
        let mut i: usize = 0;
        assert(self@.skip(0) =~= self@);
        while i < self.members.len()
            invariant
                i <= self.members.len(),
                text_argument(self@, key@) == text_argument(self@.skip(i as int), key@),
            decreases self.members.len() - i,
        {
            let ghost rest = self@.skip(i as int);
            assert(rest[0] == self.members@[i as int]@);
            assert(rest.drop_first() =~= self@.skip(i + 1));
            if self.members[i].name.as_str().eq(key) {
                assert(rest.len() > 0 && rest[0].name == key@);
                match &self.members[i].value {
                    ArgValue::Text(s) => {
                        assert(rest[0].value == ArgValueView::Text(s@));
                        return Some(s.clone());
                    },
                    ArgValue::Other(s) => {
                        assert(rest[0].value == ArgValueView::Other(s@));
                        return None;
                    },
                }
            }
            assert(rest.len() > 0 && rest[0].name != key@);
            i += 1;
        }
        None
    }
}

/// What a tool handed back: a result, or the text of an error.
#[derive(Debug, PartialEq, Eq)]
pub enum ToolOutcome {
    Result(String),
    Error(String),
}

/// Mathematical value of a `ToolOutcome`.
pub enum ToolOutcomeView {
    Result(Seq<char>),
    Error(Seq<char>),
}

impl View for ToolOutcome {
    type V = ToolOutcomeView;

    open spec fn view(&self) -> ToolOutcomeView {
        match self {
            ToolOutcome::Result(s) => ToolOutcomeView::Result(s@),
            ToolOutcome::Error(s) => ToolOutcomeView::Error(s@),
        }
    }
}

impl Clone for ToolOutcome {
    fn clone(&self) -> (r: Self)
        ensures
            r@ == self@,
    {
        match self {
            ToolOutcome::Result(s) => ToolOutcome::Result(s.clone()),
            ToolOutcome::Error(s) => ToolOutcome::Error(s.clone()),
        }
    }
}

/// One atomic content unit of a turn.
#[derive(Debug, PartialEq, Eq)]
#[allow(inconsistent_fields)]
pub enum Part {
    /// Plain text.
    Text(String),
    /// A request of the model to run a tool. The name is absent where the
    /// model sent a call without one.
    FunctionCall { name: Option<String>, args: ToolArgs },
    /// What a tool handed back.
    FunctionResponse { name: String, outcome: ToolOutcome },
    /// Binary data in base64, with its media type.
    InlineData { mime_type: String, data: String },
}

/// Mathematical value of a `Part`.
#[allow(inconsistent_fields)]
pub enum PartView {
    Text(Seq<char>),
    FunctionCall { name: Option<Seq<char>>, args: Seq<ArgumentView> },
    FunctionResponse { name: Seq<char>, outcome: ToolOutcomeView },
    InlineData { mime_type: Seq<char>, data: Seq<char> },
}

impl View for Part {
    type V = PartView;

    open spec fn view(&self) -> PartView {
        match self {
            Part::Text(s) => PartView::Text(s@),
            Part::FunctionCall { name, args } => PartView::FunctionCall {
                name: match name {
                    Some(n) => Some(n@),
                    None => None,
                },
                args: args@,
            },
            Part::FunctionResponse { name, outcome } => PartView::FunctionResponse {
                name: name@,
                outcome: outcome@,
            },
            Part::InlineData { mime_type, data } => PartView::InlineData {
                mime_type: mime_type@,
                data: data@,
            },
        }
    }
}

impl Clone for Part {
    fn clone(&self) -> (r: Self)
        ensures
            r@ == self@,
    {
        match self {
            Part::Text(s) => Part::Text(s.clone()),
            Part::FunctionCall { name, args } => Part::FunctionCall {
                name: match name {
                    Some(n) => Some(n.clone()),
                    None => None,
                },
                args: args.clone(),
            },
            Part::FunctionResponse { name, outcome } => Part::FunctionResponse {
                name: name.clone(),
                outcome: outcome.clone(),
            },
            Part::InlineData { mime_type, data } => Part::InlineData {
                mime_type: mime_type.clone(),
                data: data.clone(),
            },
        }
    }
}

/// The parts of a vector, each by its mathematical value.
pub open spec fn parts_view(parts: Seq<Part>) -> Seq<PartView> {
    parts.map_values(|p: Part| p@)
}

/// One role-tagged entry of a transcript.
#[derive(Debug, PartialEq, Eq)]
pub struct Turn {
    pub role: Role,
    pub parts: Vec<Part>,
}

/// Mathematical value of a `Turn`.
pub struct TurnView {
    pub role: Role,
    pub parts: Seq<PartView>,
}

impl View for Turn {
    type V = TurnView;

    open spec fn view(&self) -> TurnView {
        TurnView { role: self.role, parts: parts_view(self.parts@) }
    }
}

/// The turns of a vector, each by its mathematical value.
pub open spec fn turns_view(turns: Seq<Turn>) -> Seq<TurnView> {
    turns.map_values(|t: Turn| t@)
}

/// Copies a vector of parts.
pub fn clone_parts(parts: &Vec<Part>) -> (r: Vec<Part>)
    ensures
        parts_view(r@) == parts_view(parts@),
{
    let mut r: Vec<Part> = Vec::new();
    let mut i: usize = 0;
    while i < parts.len()
        invariant
            i <= parts.len(),
            parts_view(r@) == parts_view(parts@).take(i as int),
        decreases parts.len() - i,
    {
        let part = parts[i].clone();
        proof {
            lemma_map_push(r@, part, |p: Part| p@);
            assert(parts_view(parts@).take(i as int).push(parts_view(parts@)[i as int])
                =~= parts_view(parts@).take(i + 1));
        }
        r.push(part);
        i += 1;
    }
    assert(parts_view(parts@).take(i as int) =~= parts_view(parts@));
    r
}

impl Clone for Turn {
    fn clone(&self) -> (r: Self)
        ensures
            r@ == self@,
    {
        Turn { role: self.role, parts: clone_parts(&self.parts) }
    }
}

/// Copies a transcript.
pub fn clone_turns(turns: &Vec<Turn>) -> (r: Vec<Turn>)
    ensures
        turns_view(r@) == turns_view(turns@),
{
    let mut r: Vec<Turn> = Vec::new();
    let mut i: usize = 0;
    while i < turns.len()
        invariant
            i <= turns.len(),
            turns_view(r@) == turns_view(turns@).take(i as int),
        decreases turns.len() - i,
    {
        let turn = turns[i].clone();
        proof {
            lemma_map_push(r@, turn, |t: Turn| t@);
            assert(turns_view(turns@).take(i as int).push(turns_view(turns@)[i as int])
                =~= turns_view(turns@).take(i + 1));
        }
        r.push(turn);
        i += 1;
    }
    assert(turns_view(turns@).take(i as int) =~= turns_view(turns@));
    r
}

/// Record of one requested tool call, kept for auditing.
#[derive(Debug, PartialEq, Eq)]
pub struct ToolInvocation {
    pub name: String,
    pub args: ToolArgs,
}

/// Mathematical value of a `ToolInvocation`.
pub struct ToolInvocationView {
    pub name: Seq<char>,
    pub args: Seq<ArgumentView>,
}

impl View for ToolInvocation {
    type V = ToolInvocationView;

    open spec fn view(&self) -> ToolInvocationView {
        ToolInvocationView { name: self.name@, args: self.args@ }
    }
}

impl Clone for ToolInvocation {
    fn clone(&self) -> (r: Self)
        ensures
            r@ == self@,
    {
        ToolInvocation { name: self.name.clone(), args: self.args.clone() }
    }
}

/// The invocations of a vector, each by its mathematical value.
pub open spec fn invocations_view(records: Seq<ToolInvocation>) -> Seq<ToolInvocationView> {
    records.map_values(|t: ToolInvocation| t@)
}

/// Copies a vector of invocation records.
pub fn clone_invocations(records: &Vec<ToolInvocation>) -> (r: Vec<ToolInvocation>)
    ensures
        invocations_view(r@) == invocations_view(records@),
{
    let mut r: Vec<ToolInvocation> = Vec::new();
    let mut i: usize = 0;
    while i < records.len()
        invariant
            i <= records.len(),
            invocations_view(r@) == invocations_view(records@).take(i as int),
        decreases records.len() - i,
    {
        let record = records[i].clone();
        proof {
            lemma_map_push(r@, record, |t: ToolInvocation| t@);
            assert(invocations_view(records@).take(i as int).push(
                invocations_view(records@)[i as int],
            ) =~= invocations_view(records@).take(i + 1));
        }
        r.push(record);
        i += 1;
    }
    assert(invocations_view(records@).take(i as int) =~= invocations_view(records@));
    r
}

/// The answer of a conversation: the final text and every tool invoked on
/// the way, in the order of invocation.
#[derive(Debug, PartialEq, Eq)]
pub struct ChatbotResponse {
    pub text_response: String,
    pub invoked_tools: Vec<ToolInvocation>,
}

/// Mathematical value of a `ChatbotResponse`.
pub struct ChatbotResponseView {
    pub text_response: Seq<char>,
    pub invoked_tools: Seq<ToolInvocationView>,
}

impl View for ChatbotResponse {
    type V = ChatbotResponseView;

    open spec fn view(&self) -> ChatbotResponseView {
        ChatbotResponseView {
            text_response: self.text_response@,
            invoked_tools: invocations_view(self.invoked_tools@),
        }
    }
}

impl Clone for ChatbotResponse {
    fn clone(&self) -> (r: Self)
        ensures
            r@ == self@,
    {
        ChatbotResponse {
            text_response: self.text_response.clone(),
            invoked_tools: clone_invocations(&self.invoked_tools),
        }
    }
}

} // verus!
