//! The commands that administrators send to the assistant in private: how
//! a line is read as a command, what the command asks of the store of
//! channels and administrators, and what is answered and done.

use vstd::prelude::*;
use crate::text::{
    after_first_word, equal_ignoring_ascii_case, find_word, first_word, joined, lowercase,
    push_joined, same, same_ignoring_ascii_case, to_chars, to_lowercase, to_string_range,
};
use crate::transcript::lemma_map_push;

verus! {

/// A command of an administrator.
#[derive(Debug, PartialEq, Eq)]
pub enum AdminCommand {
    /// The sender is no administrator.
    Refused,
    /// Join a channel now and whenever the assistant connects.
    Join(String),
    /// Leave a channel and join it no more.
    Part(String),
    /// Make someone an administrator.
    AddAdmin(String),
    /// Make someone an administrator no more.
    DelAdmin(String),
    /// The sender asked to be removed.
    RemoveSelf,
    /// Name the administrators.
    ListAdmins,
    /// Name the channels that are joined on connecting.
    ListChannels,
    /// Speak at the next event.
    Interject,
    /// Name the commands.
    Help,
    /// A command that lacks its argument, by its usage.
    Usage(Usage),
    /// Anything else.
    Unknown,
}

/// The commands that take an argument.
#[derive(Clone, Copy, Debug, PartialEq, Eq, Structural)]
pub enum Usage {
    Join,
    Part,
    AddAdmin,
    DelAdmin,
}

/// Mathematical value of an `AdminCommand`.
pub enum AdminCommandView {
    Refused,
    Join(Seq<char>),
    Part(Seq<char>),
    AddAdmin(Seq<char>),
    DelAdmin(Seq<char>),
    RemoveSelf,
    ListAdmins,
    ListChannels,
    Interject,
    Help,
    Usage(Usage),
    Unknown,
}

impl View for AdminCommand {
    type V = AdminCommandView;

    open spec fn view(&self) -> AdminCommandView {
        match self {
            AdminCommand::Refused => AdminCommandView::Refused,
            AdminCommand::Join(c) => AdminCommandView::Join(c@),
            AdminCommand::Part(c) => AdminCommandView::Part(c@),
            AdminCommand::AddAdmin(n) => AdminCommandView::AddAdmin(n@),
            AdminCommand::DelAdmin(n) => AdminCommandView::DelAdmin(n@),
            AdminCommand::RemoveSelf => AdminCommandView::RemoveSelf,
            AdminCommand::ListAdmins => AdminCommandView::ListAdmins,
            AdminCommand::ListChannels => AdminCommandView::ListChannels,
            AdminCommand::Interject => AdminCommandView::Interject,
            AdminCommand::Help => AdminCommandView::Help,
            AdminCommand::Usage(u) => AdminCommandView::Usage(*u),
            AdminCommand::Unknown => AdminCommandView::Unknown,
        }
    }
}

/// The name of a channel as it is stored and joined: with `#` before it.
pub open spec fn channel_name(argument: Seq<char>) -> Seq<char> {
    if argument.len() > 0 && argument[0] == '#' {
        argument
    } else {
        seq!['#'] + argument
    }
}

/// Puts `#` before the name of a channel that lacks it.
pub fn normalize_channel(argument: &str) -> (r: String)
    ensures
        r@ == channel_name(argument@),
{
    let chars = to_chars(argument);
    if chars.len() > 0 && chars[0] == '#' {
        argument.to_owned()
    } else {
        let mut r = String::new();
        r.push('#');
        r.push_str(argument);
        assert(r@ =~= seq!['#'] + argument@);
        r
    }
}

/// The command that a word in lower case and the word behind it stand for,
/// for a sender who is an administrator. An empty argument is none.
pub open spec fn command_for(word: Seq<char>, argument: Seq<char>, sender: Seq<char>) -> AdminCommandView {
    let given = argument.len() > 0;
    if word == "!join"@ {
        if given {
            AdminCommandView::Join(channel_name(argument))
        } else {
            AdminCommandView::Usage(Usage::Join)
        }
    } else if word == "!part"@ {
        if given {
            AdminCommandView::Part(channel_name(argument))
        } else {
            AdminCommandView::Usage(Usage::Part)
        }
    } else if word == "!add_admin"@ {
        if given {
            AdminCommandView::AddAdmin(argument)
        } else {
            AdminCommandView::Usage(Usage::AddAdmin)
        }
    } else if word == "!del_admin"@ {
        if !given {
            AdminCommandView::Usage(Usage::DelAdmin)
        } else if equal_ignoring_ascii_case(argument, sender) {
            AdminCommandView::RemoveSelf
        } else {
            AdminCommandView::DelAdmin(argument)
        }
    } else if word == "!admins"@ {
        AdminCommandView::ListAdmins
    } else if word == "!channels"@ {
        AdminCommandView::ListChannels
    } else if word == "!interject"@ {
        AdminCommandView::Interject
    } else if word == "!help"@ {
        AdminCommandView::Help
    } else {
        AdminCommandView::Unknown
    }
}

/// Reads a command from its word in lower case and its argument.
pub fn interpret_command(word: &str, argument: &str, sender: &str) -> (r: AdminCommand)
    ensures
        r@ == command_for(word@, argument@, sender@),
{
    let given: bool = to_chars(argument).len() > 0;
    if same(word, "!join") {
        if given {
            AdminCommand::Join(normalize_channel(argument))
        } else {
            AdminCommand::Usage(Usage::Join)
        }
    } else if same(word, "!part") {
        if given {
            AdminCommand::Part(normalize_channel(argument))
        } else {
            AdminCommand::Usage(Usage::Part)
        }
    } else if same(word, "!add_admin") {
        if given {
            AdminCommand::AddAdmin(argument.to_owned())
        } else {
            AdminCommand::Usage(Usage::AddAdmin)
        }
    } else if same(word, "!del_admin") {
        if !given {
            AdminCommand::Usage(Usage::DelAdmin)
        } else if same_ignoring_ascii_case(argument, sender) {
            AdminCommand::RemoveSelf
        } else {
            AdminCommand::DelAdmin(argument.to_owned())
        }
    } else if same(word, "!admins") {
        AdminCommand::ListAdmins
    } else if same(word, "!channels") {
        AdminCommand::ListChannels
    } else if same(word, "!interject") {
        AdminCommand::Interject
    } else if same(word, "!help") {
        AdminCommand::Help
    } else {
        AdminCommand::Unknown
    }
}

/// The command that a private line stands for. Only an administrator is
/// heard. The first word of the line names the command, in any case of its
/// letters; the second word is its argument.
pub open spec fn command_of(is_admin: bool, sender: Seq<char>, line: Seq<char>) -> AdminCommandView {
    if !is_admin {
        AdminCommandView::Refused
    } else if first_word(line).len() == 0 {
        AdminCommandView::Unknown
    } else {
        command_for(lowercase(first_word(line)), first_word(after_first_word(line)), sender)
    }
}

/// Reads a private line as a command.
pub fn read_admin_command(is_admin: bool, sender: &str, line: &str) -> (r: AdminCommand)
    ensures
        r@ == command_of(is_admin, sender@, line@),
{
    if !is_admin {
        return AdminCommand::Refused;
    }
    let chars = to_chars(line);
    let len: usize = chars.len();
    assert(chars@.subrange(0, len as int) =~= chars@);
    let (start, end) = find_word(&chars, 0, len);
    if start == end {
        return AdminCommand::Unknown;
    }
    let (from, to) = find_word(&chars, end, len);
    let word = to_string_range(&chars, start, end);
    let argument = to_string_range(&chars, from, to);
    let lowered = to_lowercase(word.as_str());
    interpret_command(lowered.as_str(), argument.as_str(), sender)
}

/// What a command asks of the store of channels and administrators.
#[derive(Debug, PartialEq, Eq)]
pub enum StoreRequest {
    AddChannel(String),
    RemoveChannel(String),
    AddAdmin(String),
    RemoveAdmin(String),
    ListAdmins,
    ListChannels,
}

/// Mathematical value of a `StoreRequest`.
pub enum StoreRequestView {
    AddChannel(Seq<char>),
    RemoveChannel(Seq<char>),
    AddAdmin(Seq<char>),
    RemoveAdmin(Seq<char>),
    ListAdmins,
    ListChannels,
}

impl View for StoreRequest {
    type V = StoreRequestView;

    open spec fn view(&self) -> StoreRequestView {
        match self {
            StoreRequest::AddChannel(c) => StoreRequestView::AddChannel(c@),
            StoreRequest::RemoveChannel(c) => StoreRequestView::RemoveChannel(c@),
            StoreRequest::AddAdmin(n) => StoreRequestView::AddAdmin(n@),
            StoreRequest::RemoveAdmin(n) => StoreRequestView::RemoveAdmin(n@),
            StoreRequest::ListAdmins => StoreRequestView::ListAdmins,
            StoreRequest::ListChannels => StoreRequestView::ListChannels,
        }
    }
}

/// What a command asks of the store, if anything.
pub open spec fn request_of(command: AdminCommandView) -> Option<StoreRequestView> {
    match command {
        AdminCommandView::Join(c) => Some(StoreRequestView::AddChannel(c)),
        AdminCommandView::Part(c) => Some(StoreRequestView::RemoveChannel(c)),
        AdminCommandView::AddAdmin(n) => Some(StoreRequestView::AddAdmin(n)),
        AdminCommandView::DelAdmin(n) => Some(StoreRequestView::RemoveAdmin(n)),
        AdminCommandView::ListAdmins => Some(StoreRequestView::ListAdmins),
        AdminCommandView::ListChannels => Some(StoreRequestView::ListChannels),
        _ => None,
    }
}

/// Says what a command asks of the store.
pub fn store_request(command: &AdminCommand) -> (r: Option<StoreRequest>)
    ensures
        match request_of(command@) {
            Some(request) => r.is_some() && r.unwrap()@ == request,
            None => r.is_none(),
        },
{
    match command {
        AdminCommand::Join(c) => Some(StoreRequest::AddChannel(c.clone())),
        AdminCommand::Part(c) => Some(StoreRequest::RemoveChannel(c.clone())),
        AdminCommand::AddAdmin(n) => Some(StoreRequest::AddAdmin(n.clone())),
        AdminCommand::DelAdmin(n) => Some(StoreRequest::RemoveAdmin(n.clone())),
        AdminCommand::ListAdmins => Some(StoreRequest::ListAdmins),
        AdminCommand::ListChannels => Some(StoreRequest::ListChannels),
        _ => None,
    }
}

/// What the store answered.
#[derive(Debug, PartialEq, Eq)]
pub enum StoreAnswer {
    /// Nothing was asked.
    Nothing,
    /// Whether the store was changed by what was asked.
    Changed(bool),
    /// The names that were asked for.
    Names(Vec<String>),
    /// The store failed.
    Failed,
}

/// Mathematical value of a `StoreAnswer`.
pub enum StoreAnswerView {
    Nothing,
    Changed(bool),
    Names(Seq<Seq<char>>),
    Failed,
}

impl View for StoreAnswer {
    type V = StoreAnswerView;

    open spec fn view(&self) -> StoreAnswerView {
        match self {
            StoreAnswer::Nothing => StoreAnswerView::Nothing,
            StoreAnswer::Changed(b) => StoreAnswerView::Changed(*b),
            StoreAnswer::Names(names) => StoreAnswerView::Names(
                names@.map_values(|s: String| s@),
            ),
            StoreAnswer::Failed => StoreAnswerView::Failed,
        }
    }
}

/// Something that the assistant does on the chat server or to itself.
#[derive(Debug, PartialEq, Eq)]
pub enum BotAction {
    /// Send a private line to the sender of the command.
    Reply(String),
    /// Join a channel.
    Join(String),
    /// Leave a channel.
    Part(String),
    /// Strike a channel from the set of channels that are joined.
    Forget(String),
    /// Make the scheduler act at the next event.
    ForceInterjection,
}

/// Mathematical value of a `BotAction`.
pub enum BotActionView {
    Reply(Seq<char>),
    Join(Seq<char>),
    Part(Seq<char>),
    Forget(Seq<char>),
    ForceInterjection,
}

impl View for BotAction {
    type V = BotActionView;

    open spec fn view(&self) -> BotActionView {
        match self {
            BotAction::Reply(s) => BotActionView::Reply(s@),
            BotAction::Join(s) => BotActionView::Join(s@),
            BotAction::Part(s) => BotActionView::Part(s@),
            BotAction::Forget(s) => BotActionView::Forget(s@),
            BotAction::ForceInterjection => BotActionView::ForceInterjection,
        }
    }
}

/// The actions of a vector, each by its mathematical value.
pub open spec fn actions_view(actions: Seq<BotAction>) -> Seq<BotActionView> {
    actions.map_values(|a: BotAction| a@)
}

/// How a command is used.
pub open spec fn usage_text(usage: Usage) -> Seq<char> {
    match usage {
        Usage::Join => "Usage: !join #channel"@,
        Usage::Part => "Usage: !part #channel"@,
        Usage::AddAdmin => "Usage: !add_admin <nickname>"@,
        Usage::DelAdmin => "Usage: !del_admin <nickname>"@,
    }
}

/// The answer to a request for names: the names in one line behind a
/// heading, a line of its own where there are none, an excuse where the
/// store failed.
pub open spec fn names_reply(
    answer: StoreAnswerView,
    heading: Seq<char>,
    none: Seq<char>,
    excuse: Seq<char>,
) -> Seq<BotActionView> {
    match answer {
        StoreAnswerView::Names(names) => if names.len() == 0 {
            seq![BotActionView::Reply(none)]
        } else {
            seq![BotActionView::Reply(heading + joined(names, ", "@))]
        },
        StoreAnswerView::Failed => seq![BotActionView::Reply(excuse)],
        _ => Seq::empty(),
    }
}

/// What is answered and done for a command, given what the store answered
/// and whether the assistant is in the channel that the command names.
/// Where the store failed to change, nothing is done.
pub open spec fn actions_for(command: AdminCommandView, answer: StoreAnswerView, joined: bool) -> Seq<
    BotActionView,
> {
    match command {
        AdminCommandView::Refused => seq![
            BotActionView::Reply("Sorry, I only take commands from registered admins, desu~"@),
        ],
        AdminCommandView::Join(channel) => match answer {
            StoreAnswerView::Changed(true) => seq![
                BotActionView::Reply("Okay! Added "@ + channel + " and joining now!"@),
                BotActionView::Join(channel),
            ],
            StoreAnswerView::Changed(false) => seq![
                BotActionView::Reply("I already know about "@ + channel + "!"@),
            ],
            _ => Seq::empty(),
        },
        AdminCommandView::Part(channel) => match answer {
            StoreAnswerView::Changed(true) => seq![
                BotActionView::Reply(
                    "Got it! Leaving "@ + channel + " and won't rejoin automatically."@,
                ),
                BotActionView::Part(channel),
            ],
            StoreAnswerView::Changed(false) => if joined {
                seq![
                    BotActionView::Reply(
                        "Okay, leaving "@ + channel
                            + " for this session (wasn't set to auto-join)."@,
                    ),
                    BotActionView::Part(channel),
                    BotActionView::Forget(channel),
                ]
            } else {
                seq![
                    BotActionView::Reply("I wasn't set to auto-join "@ + channel + " anyway."@),
                ]
            },
            _ => Seq::empty(),
        },
        AdminCommandView::AddAdmin(nick) => match answer {
            StoreAnswerView::Changed(true) => seq![
                BotActionView::Reply("Okay, '"@ + nick + "' is now an admin!"@),
            ],
            StoreAnswerView::Changed(false) => seq![
                BotActionView::Reply(
                    "Failed to add '"@ + nick + "' (maybe already an admin?)."@,
                ),
            ],
            _ => Seq::empty(),
        },
        AdminCommandView::DelAdmin(nick) => match answer {
            StoreAnswerView::Changed(true) => seq![
                BotActionView::Reply("Okay, '"@ + nick + "' is no longer an admin."@),
            ],
            StoreAnswerView::Changed(false) => seq![
                BotActionView::Reply("Failed to remove '"@ + nick + "' (maybe not an admin?)."@),
            ],
            _ => Seq::empty(),
        },
        AdminCommandView::RemoveSelf => seq![
            BotActionView::Reply("You can't remove yourself, silly!"@),
        ],
        AdminCommandView::ListAdmins => names_reply(
            answer,
            "Registered admins: "@,
            "There are no registered admins!"@,
            "Oops, couldn't check the admin list right now."@,
        ),
        AdminCommandView::ListChannels => names_reply(
            answer,
            "Auto-join channels: "@,
            "I'm not set to auto-join any channels."@,
            "Oops, couldn't check the channel list right now."@,
        ),
        AdminCommandView::Interject => seq![
            BotActionView::ForceInterjection,
            BotActionView::Reply("Okay, I'll try to interject soon!"@),
        ],
        AdminCommandView::Help => seq![
            BotActionView::Reply(
                "Admin commands: !join <#chan>, !part <#chan>, !add_admin <nick>, !del_admin <nick>, !admins, !channels, !help"@,
            ),
        ],
        AdminCommandView::Usage(usage) => seq![BotActionView::Reply(usage_text(usage))],
        AdminCommandView::Unknown => seq![
            BotActionView::Reply("Hmm? Unknown command or format. Try !help."@),
        ],
    }
}

/// A text between two others.
fn wrap(before: &str, middle: &str, after: &str) -> (r: String)
    ensures
        r@ == before@ + middle@ + after@,
{
    let mut r = before.to_owned();
    r.push_str(middle);
    r.push_str(after);
    r
}

/// One reply and nothing else.
fn reply_only(text: String) -> (r: Vec<BotAction>)
    ensures
        actions_view(r@) == seq![BotActionView::Reply(text@)],
{
    let mut r: Vec<BotAction> = Vec::new();
    r.push(BotAction::Reply(text));
    assert(actions_view(r@) =~= seq![BotActionView::Reply(text@)]);
    r
}

/// A reply and one action behind it.
fn reply_then(text: String, action: BotAction) -> (r: Vec<BotAction>)
    ensures
        actions_view(r@) == seq![BotActionView::Reply(text@), action@],
{
    let mut r: Vec<BotAction> = Vec::new();
    r.push(BotAction::Reply(text));
    r.push(action);
    assert(actions_view(r@) =~= seq![BotActionView::Reply(text@), action@]);
    r
}

/// Nothing to do.
fn no_actions() -> (r: Vec<BotAction>)
    ensures
        actions_view(r@) == Seq::<BotActionView>::empty(),
{
    let r: Vec<BotAction> = Vec::new();
    assert(actions_view(r@) =~= Seq::<BotActionView>::empty());
    r
}

/// Answers a request for names.
fn reply_names(answer: &StoreAnswer, heading: &str, none: &str, excuse: &str) -> (r: Vec<
    BotAction,
>)
    ensures
        actions_view(r@) == names_reply(answer@, heading@, none@, excuse@),
{
    match answer {
        StoreAnswer::Names(names) => {
            if names.len() == 0 {
                reply_only(none.to_owned())
            } else {
                let mut text = heading.to_owned();
                push_joined(&mut text, names, ", ");
                reply_only(text)
            }
        },
        StoreAnswer::Failed => reply_only(excuse.to_owned()),
        _ => no_actions(),
    }
}

/// Says what is answered and done for a command.
pub fn admin_actions(command: &AdminCommand, answer: &StoreAnswer, joined: bool) -> (r: Vec<
    BotAction,
>)
    ensures
        actions_view(r@) == actions_for(command@, answer@, joined),
{
    match command {
        AdminCommand::Refused => reply_only(
            "Sorry, I only take commands from registered admins, desu~".to_owned(),
        ),
        AdminCommand::Join(channel) => match answer {
            StoreAnswer::Changed(true) => reply_then(
                wrap("Okay! Added ", channel.as_str(), " and joining now!"),
                BotAction::Join(channel.clone()),
            ),
            StoreAnswer::Changed(false) => reply_only(
                wrap("I already know about ", channel.as_str(), "!"),
            ),
            _ => no_actions(),
        },
        AdminCommand::Part(channel) => match answer {
            StoreAnswer::Changed(true) => reply_then(
                wrap("Got it! Leaving ", channel.as_str(), " and won't rejoin automatically."),
                BotAction::Part(channel.clone()),
            ),
            StoreAnswer::Changed(false) => {
                if joined {
                    let mut r = reply_then(
                        wrap(
                            "Okay, leaving ",
                            channel.as_str(),
                            " for this session (wasn't set to auto-join).",
                        ),
                        BotAction::Part(channel.clone()),
                    );
                    let forget = BotAction::Forget(channel.clone());
                    proof {
                        lemma_map_push(r@, forget, |a: BotAction| a@);
                    }
                    r.push(forget);
                    assert(actions_view(r@) =~= actions_for(command@, answer@, joined));
                    r
                } else {
                    reply_only(wrap("I wasn't set to auto-join ", channel.as_str(), " anyway."))
                }
            },
            _ => no_actions(),
        },
        AdminCommand::AddAdmin(nick) => match answer {
            StoreAnswer::Changed(true) => reply_only(
                wrap("Okay, '", nick.as_str(), "' is now an admin!"),
            ),
            StoreAnswer::Changed(false) => reply_only(
                wrap("Failed to add '", nick.as_str(), "' (maybe already an admin?)."),
            ),
            _ => no_actions(),
        },
        AdminCommand::DelAdmin(nick) => match answer {
            StoreAnswer::Changed(true) => reply_only(
                wrap("Okay, '", nick.as_str(), "' is no longer an admin."),
            ),
            StoreAnswer::Changed(false) => reply_only(
                wrap("Failed to remove '", nick.as_str(), "' (maybe not an admin?)."),
            ),
            _ => no_actions(),
        },
        AdminCommand::RemoveSelf => reply_only("You can't remove yourself, silly!".to_owned()),
        AdminCommand::ListAdmins => reply_names(
            answer,
            "Registered admins: ",
            "There are no registered admins!",
            "Oops, couldn't check the admin list right now.",
        ),
        AdminCommand::ListChannels => reply_names(
            answer,
            "Auto-join channels: ",
            "I'm not set to auto-join any channels.",
            "Oops, couldn't check the channel list right now.",
        ),
        AdminCommand::Interject => {
            let mut r: Vec<BotAction> = Vec::new();
            r.push(BotAction::ForceInterjection);
            r.push(BotAction::Reply("Okay, I'll try to interject soon!".to_owned()));
            assert(actions_view(r@) =~= actions_for(command@, answer@, joined));
            r
        },
        AdminCommand::Help => reply_only(
            "Admin commands: !join <#chan>, !part <#chan>, !add_admin <nick>, !del_admin <nick>, !admins, !channels, !help".to_owned(),
        ),
        AdminCommand::Usage(usage) => reply_only(
            match usage {
                Usage::Join => "Usage: !join #channel".to_owned(),
                Usage::Part => "Usage: !part #channel".to_owned(),
                Usage::AddAdmin => "Usage: !add_admin <nickname>".to_owned(),
                Usage::DelAdmin => "Usage: !del_admin <nickname>".to_owned(),
            },
        ),
        AdminCommand::Unknown => reply_only("Hmm? Unknown command or format. Try !help.".to_owned()),
    }
}

} // verus!
