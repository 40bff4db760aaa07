//! The registry of tools that the model may ask for: their names, what is
//! advertised of them, and the shape of a resolved call and of its result.

use vstd::prelude::*;
use crate::text::same;
use crate::transcript::{
    text_argument, ArgumentView, Part, PartView, ToolArgs, ToolOutcome, ToolOutcomeView,
};

verus! {

/// The tools that can be run for the model.
#[derive(Clone, Copy, Debug, PartialEq, Eq, Structural)]
pub enum ToolKind {
    RollDice,
    DownloadTorrent,
    FetchImage,
    ReadWebpage,
}

impl ToolKind {
    /// The name under which the tool is advertised and called.
    pub open spec fn spec_name(self) -> Seq<char> {
        match self {
            ToolKind::RollDice => "roll_dice"@,
            ToolKind::DownloadTorrent => "download_torrent"@,
            ToolKind::FetchImage => "fetch_and_prepare_image"@,
            ToolKind::ReadWebpage => "read_webpage_content"@,
        }
    }

    /// The name of the one argument that the tool takes, a string.
    pub open spec fn spec_argument(self) -> Seq<char> {
        match self {
            ToolKind::RollDice => "dice_notation"@,
            ToolKind::DownloadTorrent => "nyaa_url"@,
            ToolKind::FetchImage => "url"@,
            ToolKind::ReadWebpage => "url"@,
        }
    }

    /// What the tool does, as told to the model.
    pub open spec fn spec_description(self) -> Seq<char> {
        match self {
            ToolKind::RollDice =>
                "Rolls one or more dice with a specified number of sides. E.g., 3d6 means roll 3 six-sided dice."@,
            ToolKind::DownloadTorrent =>
                "Downloads a torrent file from a Nyaa.si URL. Extracts the magnet link and initiates the download."@,
            ToolKind::FetchImage =>
                "Downloads an image from a URL, encodes it, and prepares it for the AI to process. Checks a cache first."@,
            ToolKind::ReadWebpage =>
                "Fetches a webpage URL, extracts the main article text (like reader mode), and returns it."@,
        }
    }

    /// What the argument means, as told to the model.
    pub open spec fn spec_argument_description(self) -> Seq<char> {
        match self {
            ToolKind::RollDice =>
                "The dice notation string (e.g., '1d20', '3d6', '2d10+5'). It must be in the format [number]d[sides][+/-modifier]."@,
            ToolKind::DownloadTorrent =>
                "The full URL of the Nyaa.si torrent page (e.g., 'https://nyaa.si/view/123456')."@,
            ToolKind::FetchImage =>
                "The full URL of the image file (e.g., ending in .jpg, .png, .webp)."@,
            ToolKind::ReadWebpage => "The full URL of the webpage to read."@,
        }
    }

    /// The name under which the tool is advertised and called.
    pub fn name(self) -> (r: &'static str)
        ensures
            r@ == self.spec_name(),
    {
        match self {
            ToolKind::RollDice => "roll_dice",
            ToolKind::DownloadTorrent => "download_torrent",
            ToolKind::FetchImage => "fetch_and_prepare_image",
            ToolKind::ReadWebpage => "read_webpage_content",
        }
    }

    /// The name of the one argument that the tool takes.
    pub fn argument(self) -> (r: &'static str)
        ensures
            r@ == self.spec_argument(),
    {
        match self {
            ToolKind::RollDice => "dice_notation",
            ToolKind::DownloadTorrent => "nyaa_url",
            ToolKind::FetchImage => "url",
            ToolKind::ReadWebpage => "url",
        }
    }

    /// What the tool does, as told to the model.
    pub fn description(self) -> (r: &'static str)
        ensures
            r@ == self.spec_description(),
    {
        match self {
            ToolKind::RollDice =>
                "Rolls one or more dice with a specified number of sides. E.g., 3d6 means roll 3 six-sided dice.",
            ToolKind::DownloadTorrent =>
                "Downloads a torrent file from a Nyaa.si URL. Extracts the magnet link and initiates the download.",
            ToolKind::FetchImage =>
                "Downloads an image from a URL, encodes it, and prepares it for the AI to process. Checks a cache first.",
            ToolKind::ReadWebpage =>
                "Fetches a webpage URL, extracts the main article text (like reader mode), and returns it.",
        }
    }

    /// What the argument means, as told to the model.
    pub fn argument_description(self) -> (r: &'static str)
        ensures
            r@ == self.spec_argument_description(),
    {
        match self {
            ToolKind::RollDice =>
                "The dice notation string (e.g., '1d20', '3d6', '2d10+5'). It must be in the format [number]d[sides][+/-modifier].",
            ToolKind::DownloadTorrent =>
                "The full URL of the Nyaa.si torrent page (e.g., 'https://nyaa.si/view/123456').",
            ToolKind::FetchImage =>
                "The full URL of the image file (e.g., ending in .jpg, .png, .webp).",
            ToolKind::ReadWebpage => "The full URL of the webpage to read.",
        }
    }
}

/// The tool that `name` stands for, if it is one of the registry.
pub open spec fn tool_kind(name: Seq<char>) -> Option<ToolKind> {
    if name == ToolKind::RollDice.spec_name() {
        Some(ToolKind::RollDice)
    } else if name == ToolKind::DownloadTorrent.spec_name() {
        Some(ToolKind::DownloadTorrent)
    } else if name == ToolKind::FetchImage.spec_name() {
        Some(ToolKind::FetchImage)
    } else if name == ToolKind::ReadWebpage.spec_name() {
        Some(ToolKind::ReadWebpage)
    } else {
        None
    }
}

/// Looks a name up in the registry.
pub fn find_tool(name: &str) -> (r: Option<ToolKind>)
    ensures
        r == tool_kind(name@),
{
    if same(name, ToolKind::RollDice.name()) {
        Some(ToolKind::RollDice)
    } else if same(name, ToolKind::DownloadTorrent.name()) {
        Some(ToolKind::DownloadTorrent)
    } else if same(name, ToolKind::FetchImage.name()) {
        Some(ToolKind::FetchImage)
    } else if same(name, ToolKind::ReadWebpage.name()) {
        Some(ToolKind::ReadWebpage)
    } else {
        None
    }
}

/// Every tool of the registry is found again under its own name.
pub proof fn lemma_registry_names_distinct(kind: ToolKind)
    ensures
        tool_kind(kind.spec_name()) == Some(kind),
{
    reveal_strlit("roll_dice");
    reveal_strlit("download_torrent");
    reveal_strlit("fetch_and_prepare_image");
    reveal_strlit("read_webpage_content");
    match kind {
        ToolKind::RollDice => {},
        ToolKind::DownloadTorrent => {
            assert("download_torrent"@[0] != "roll_dice"@[0]);
        },
        ToolKind::FetchImage => {
            assert("fetch_and_prepare_image"@[0] != "roll_dice"@[0]);
            assert("fetch_and_prepare_image"@[0] != "download_torrent"@[0]);
        },
        ToolKind::ReadWebpage => {
            assert("read_webpage_content"@[1] != "roll_dice"@[1]);
            assert("read_webpage_content"@[0] != "download_torrent"@[0]);
            assert("read_webpage_content"@[0] != "fetch_and_prepare_image"@[0]);
        },
    }
}

/// One property of a tool's parameter object.
#[derive(Debug, PartialEq, Eq)]
pub struct ToolProperty {
    pub name: String,
    pub value_type: String,
    pub description: String,
}

/// Mathematical value of a `ToolProperty`.
pub struct ToolPropertyView {
    pub name: Seq<char>,
    pub value_type: Seq<char>,
    pub description: Seq<char>,
}

impl View for ToolProperty {
    type V = ToolPropertyView;

    open spec fn view(&self) -> ToolPropertyView {
        ToolPropertyView {
            name: self.name@,
            value_type: self.value_type@,
            description: self.description@,
        }
    }
}

/// What is advertised of one tool: its name, what it does, the properties of
/// its parameter object, and which of them are required.
#[derive(Debug, PartialEq, Eq)]
pub struct ToolDeclaration {
    pub name: String,
    pub description: String,
    pub properties: Vec<ToolProperty>,
    pub required: Vec<String>,
}

/// Mathematical value of a `ToolDeclaration`.
pub struct ToolDeclarationView {
    pub name: Seq<char>,
    pub description: Seq<char>,
    pub properties: Seq<ToolPropertyView>,
    pub required: Seq<Seq<char>>,
}

impl View for ToolDeclaration {
    type V = ToolDeclarationView;

    open spec fn view(&self) -> ToolDeclarationView {
        ToolDeclarationView {
            name: self.name@,
            description: self.description@,
            properties: self.properties@.map_values(|p: ToolProperty| p@),
            required: self.required@.map_values(|s: String| s@),
        }
    }
}

/// The declaration of one tool: a parameter object with the tool's one
/// argument, a required string.
pub open spec fn declaration_of(kind: ToolKind) -> ToolDeclarationView {
    ToolDeclarationView {
        name: kind.spec_name(),
        description: kind.spec_description(),
        properties: seq![
            ToolPropertyView {
                name: kind.spec_argument(),
                value_type: "string"@,
                description: kind.spec_argument_description(),
            },
        ],
        required: seq![kind.spec_argument()],
    }
}

/// The tools in the order in which they are advertised.
pub open spec fn advertised_tools() -> Seq<ToolKind> {
    seq![
        ToolKind::RollDice,
        ToolKind::DownloadTorrent,
        ToolKind::FetchImage,
        ToolKind::ReadWebpage,
    ]
}

/// Builds the declaration of one tool.
pub fn declare(kind: ToolKind) -> (r: ToolDeclaration)
    ensures
        r@ == declaration_of(kind),
{
    let mut properties: Vec<ToolProperty> = Vec::new();
    properties.push(
        ToolProperty {
            name: kind.argument().to_owned(),
            value_type: "string".to_owned(),
            description: kind.argument_description().to_owned(),
        },
    );
    let mut required: Vec<String> = Vec::new();
    required.push(kind.argument().to_owned());
    let r = ToolDeclaration {
        name: kind.name().to_owned(),
        description: kind.description().to_owned(),
        properties,
        required,
    };
    assert(r@.properties =~= declaration_of(kind).properties);
    assert(r@.required =~= declaration_of(kind).required);
    r
}

/// The declarations of all tools, as they are advertised to the endpoint.
pub fn get_tools() -> (r: Vec<ToolDeclaration>)
    ensures
        r@.map_values(|d: ToolDeclaration| d@) == advertised_tools().map_values(
            |k: ToolKind| declaration_of(k),
        ),
{
    let mut r: Vec<ToolDeclaration> = Vec::new();
    r.push(declare(ToolKind::RollDice));
    r.push(declare(ToolKind::DownloadTorrent));
    r.push(declare(ToolKind::FetchImage));
    r.push(declare(ToolKind::ReadWebpage));
    assert(r@.map_values(|d: ToolDeclaration| d@) =~= advertised_tools().map_values(
        |k: ToolKind| declaration_of(k),
    ));
    r
}

/// A call that is ready to run: the tool and the value of its argument.
#[derive(Debug, PartialEq, Eq)]
pub struct ToolCall {
    pub kind: ToolKind,
    pub argument: String,
}

/// Mathematical value of a `ToolCall`.
pub struct ToolCallView {
    pub kind: ToolKind,
    pub argument: Seq<char>,
}

impl View for ToolCall {
    type V = ToolCallView;

    open spec fn view(&self) -> ToolCallView {
        ToolCallView { kind: self.kind, argument: self.argument@ }
    }
}

/// What the registry makes of a call that the model requested.
#[derive(Debug, PartialEq, Eq)]
pub enum Resolution {
    /// The call of a tool of the registry, ready to run.
    Run(ToolCall),
    /// The name is not one of the registry.
    Unknown,
    /// The tool is one of the registry, but the string argument that it
    /// takes is not among the arguments.
    MissingArgument(ToolKind),
}

/// Mathematical value of a `Resolution`.
pub enum ResolutionView {
    Run(ToolCallView),
    Unknown,
    MissingArgument(ToolKind),
}

impl View for Resolution {
    type V = ResolutionView;

    open spec fn view(&self) -> ResolutionView {
        match self {
            Resolution::Run(call) => ResolutionView::Run(call@),
            Resolution::Unknown => ResolutionView::Unknown,
            Resolution::MissingArgument(kind) => ResolutionView::MissingArgument(*kind),
        }
    }
}

/// What the registry makes of a name and an argument object: the tool is
/// looked up by the name, and its one argument among the members of the
/// object.
pub open spec fn resolved(name: Seq<char>, args: Seq<ArgumentView>) -> ResolutionView {
    match tool_kind(name) {
        None => ResolutionView::Unknown,
        Some(kind) => match text_argument(args, kind.spec_argument()) {
            None => ResolutionView::MissingArgument(kind),
            Some(argument) => ResolutionView::Run(ToolCallView { kind, argument }),
        },
    }
}

/// Resolves a requested call against the registry.
pub fn resolve_call(name: &str, args: &ToolArgs) -> (r: Resolution)
    ensures
        r@ == resolved(name@, args@),
{
    match find_tool(name) {
        None => Resolution::Unknown,
        Some(kind) => match args.text(kind.argument()) {
            None => Resolution::MissingArgument(kind),
            Some(argument) => Resolution::Run(ToolCall { kind, argument }),
        },
    }
}

/// What running a tool gave.
#[derive(Debug, PartialEq, Eq)]
pub enum ToolResult {
    /// The tool's answer as text.
    Text(String),
    /// An image for the model to look at: media type and base64 payload.
    Image { mime_type: String, data: String },
    /// The text of the tool's error.
    Error(String),
}

/// Mathematical value of a `ToolResult`.
pub enum ToolResultView {
    Text(Seq<char>),
    Image { mime_type: Seq<char>, data: Seq<char> },
    Error(Seq<char>),
}

impl View for ToolResult {
    type V = ToolResultView;

    open spec fn view(&self) -> ToolResultView {
        match self {
            ToolResult::Text(s) => ToolResultView::Text(s@),
            ToolResult::Image { mime_type, data } => ToolResultView::Image {
                mime_type: mime_type@,
                data: data@,
            },
            ToolResult::Error(s) => ToolResultView::Error(s@),
        }
    }
}

/// What the model is told in place of the payload of a fetched image.
pub open spec fn image_notice() -> Seq<char> {
    "Image fetched successfully. Please refer to the provided image data."@
}

/// The function response that reports `result` for the tool called `name`.
pub open spec fn response_for(name: Seq<char>, result: ToolResultView) -> PartView {
    PartView::FunctionResponse {
        name,
        outcome: match result {
            ToolResultView::Text(s) => ToolOutcomeView::Result(s),
            ToolResultView::Image { .. } => ToolOutcomeView::Result(image_notice()),
            ToolResultView::Error(e) => ToolOutcomeView::Error(e),
        },
    }
}

/// The function response for a name that the registry does not hold.
pub open spec fn unknown_response(name: Seq<char>) -> PartView {
    PartView::FunctionResponse {
        name,
        outcome: ToolOutcomeView::Error("Unknown function: "@ + name),
    }
}

/// What the model is told where it called a tool without the string
/// argument that the tool takes.
pub open spec fn missing_argument_text(kind: ToolKind) -> Seq<char> {
    "Missing '"@ + kind.spec_argument() + "' argument for "@ + kind.spec_name()
}

/// The function response for a call that lacks its argument: the error of
/// the tool, told to the model like any other.
pub open spec fn missing_argument_response(name: Seq<char>, kind: ToolKind) -> PartView {
    response_for(name, ToolResultView::Error(missing_argument_text(kind)))
}

/// Builds the function response for a call that lacks its argument.
pub fn build_missing_argument_response(name: &str, kind: ToolKind) -> (r: Part)
    ensures
        r@ == missing_argument_response(name@, kind),
{
    let mut message = "Missing '".to_owned();
    message.push_str(kind.argument());
    message.push_str("' argument for ");
    message.push_str(kind.name());
    Part::FunctionResponse { name: name.to_owned(), outcome: ToolOutcome::Error(message) }
}

/// Builds the function response that reports `result`; an image is handed
/// back beside it.
pub fn build_response(name: &str, result: ToolResult) -> (r: (Part, Option<(String, String)>))
    ensures
        r.0@ == response_for(name@, result@),
        match result@ {
            ToolResultView::Image { mime_type, data } => r.1.is_some() && r.1.unwrap().0@
                == mime_type && r.1.unwrap().1@ == data,
            _ => r.1.is_none(),
        },
{
    match result {
        ToolResult::Text(s) => (
            Part::FunctionResponse { name: name.to_owned(), outcome: ToolOutcome::Result(s) },
            None,
        ),
        ToolResult::Image { mime_type, data } => (
            Part::FunctionResponse {
                name: name.to_owned(),
                outcome: ToolOutcome::Result(
                    "Image fetched successfully. Please refer to the provided image data.".to_owned(),
                ),
            },
            Some((mime_type, data)),
        ),
        ToolResult::Error(e) => (
            Part::FunctionResponse { name: name.to_owned(), outcome: ToolOutcome::Error(e) },
            None,
        ),
    }
}

/// Builds the function response for a name that the registry does not hold.
pub fn build_unknown_response(name: &str) -> (r: Part)
    ensures
        r@ == unknown_response(name@),
{
    let mut message = "Unknown function: ".to_owned();
    message.push_str(name);
    Part::FunctionResponse { name: name.to_owned(), outcome: ToolOutcome::Error(message) }
}

} // verus!
