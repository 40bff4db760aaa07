use emulbot::ai_handler::{
    build_mention_prompt, build_prompt, contains_call, find_first_text, format_history,
    interpret_mention_reply, single_turn, single_turn_answer, verdict_asks_for_answer, Action,
    Conversation, ConversationError, Phase, MAX_FUNCTION_CALL_TURNS,
};
use emulbot::db::LogEntry;
use emulbot::dispatch::run_dice_tool;
use emulbot::tools::{ToolCall, ToolKind, ToolResult};
use emulbot::transcript::{
    ArgValue, Argument, ChatbotResponse, Part, Role, ToolArgs, ToolInvocation, ToolOutcome, Turn,
};

fn entry(channel: &str, nick: &str, message: &str) -> LogEntry {
    LogEntry {
        timestamp: 1_700_000_000,
        channel: channel.to_string(),
        nick: nick.to_string(),
        message: message.to_string(),
    }
}

fn call(name: &str, key: &str, value: &str) -> Part {
    Part::FunctionCall { name: Some(name.to_string()), args: ToolArgs::single(key, value) }
}

fn text(t: &str) -> Part {
    Part::Text(t.to_string())
}

#[test]
fn history_is_one_line_per_entry() {
    assert_eq!(format_history(&vec![]), "");
    assert_eq!(format_history(&vec![entry("#a", "bob", "hi")]), "#a bob: hi");
    assert_eq!(
        format_history(&vec![entry("#a", "bob", "hi"), entry("#a", "eve", "ho")]),
        "#a bob: hi\n#a eve: ho"
    );
}

#[test]
fn prompt_quotes_a_line_that_was_addressed() {
    let prompt = build_prompt(vec![entry("#a", "bob", "hi")], "#a", "eve", "Emul: roll", true);
    assert_eq!(prompt, "History:\n#a bob: hi\n\n Current Trigger from eve:\nEmul: roll");
    let prompt = build_prompt(vec![], "#test", "tester", "roll 2d6", true);
    assert_eq!(prompt, "History:\n\n\n Current Trigger from tester:\nroll 2d6");
}

#[test]
fn prompt_puts_a_chance_line_into_the_history() {
    let prompt = build_prompt(vec![entry("#a", "bob", "hi")], "#a", "eve", "ho", false);
    assert_eq!(
        prompt,
        "History:\n#a bob: hi\n#a eve: ho\n\n Current trigger: Random chance (interject your opinion in the current conversation)"
    );
}

#[test]
fn end_to_end_roll_two_d_six() {
    let prompt = build_prompt(vec![], "#test", "tester", "roll 2d6", true);
    let mut conversation = Conversation::begin(prompt.clone(), MAX_FUNCTION_CALL_TURNS);
    // First generation call: tools are offered.
    assert_eq!(conversation.phase(), Phase::AwaitingReply);
    assert!(conversation.tools_enabled());
    assert_eq!(
        conversation.transcript(),
        &vec![Turn { role: Role::User, parts: vec![Part::Text(prompt)] }]
    );
    // The model asks for the dice.
    let action = conversation.accept_reply(vec![call("roll_dice", "dice_notation", "2d6")]);
    assert_eq!(
        action,
        Action::RunTool(ToolCall { kind: ToolKind::RollDice, argument: "2d6".to_string() })
    );
    assert_eq!(conversation.phase(), Phase::AwaitingTool);
    let result = run_dice_tool("2d6");
    let report = match &result {
        ToolResult::Text(report) => report.clone(),
        other => panic!("the dice tool failed: {:?}", other),
    };
    assert!(report.starts_with("Rolled 2d6: ["));
    // The function response is injected; the second call follows.
    let action = conversation.accept_tool_result(result);
    assert_eq!(action, Action::CallModel);
    assert_eq!(conversation.round(), 1);
    assert!(conversation.tools_enabled());
    let transcript = conversation.transcript();
    assert_eq!(transcript.len(), 3);
    assert_eq!(
        transcript[1],
        Turn { role: Role::Model, parts: vec![call("roll_dice", "dice_notation", "2d6")] }
    );
    assert_eq!(
        transcript[2],
        Turn {
            role: Role::User,
            parts: vec![Part::FunctionResponse {
                name: "roll_dice".to_string(),
                outcome: ToolOutcome::Result(report),
            }],
        }
    );
    // The model answers in text.
    let action = conversation.accept_reply(vec![text("You rolled a seven.")]);
    let response = match action {
        Action::Finish(response) => response,
        other => panic!("no answer: {:?}", other),
    };
    assert!(!response.text_response.is_empty());
    assert_eq!(response.text_response, "You rolled a seven.");
    assert_eq!(
        response.invoked_tools,
        vec![ToolInvocation {
            name: "roll_dice".to_string(),
            args: ToolArgs {
                members: vec![Argument {
                    name: "dice_notation".to_string(),
                    value: ArgValue::Text("2d6".to_string()),
                }],
            },
        }]
    );
    assert_eq!(conversation.phase(), Phase::Finished);
}

#[test]
fn model_that_always_calls_tools_hits_the_round_cap() {
    let max_rounds = 2;
    let mut conversation = Conversation::begin("p".to_string(), max_rounds);
    let mut generation_calls = 0;
    let failure = loop {
        generation_calls += 1;
        assert!(generation_calls <= max_rounds + 1);
        let mut action = conversation.accept_reply(vec![call("roll_dice", "dice_notation", "1d2")]);
        while let Action::RunTool(_) = action {
            action = conversation.accept_tool_result(ToolResult::Text("1".to_string()));
        }
        match action {
            Action::CallModel => {}
            Action::Fail(e) => break e,
            other => panic!("unexpected {:?}", other),
        }
    };
    assert_eq!(failure, ConversationError::ToolsWithheld);
    assert_eq!(generation_calls, max_rounds + 1);
    assert_eq!(conversation.phase(), Phase::Finished);
    assert_eq!(
        failure.message(),
        "Function call loop exceeded limit but model still requested calls"
    );
}

#[test]
fn tools_are_withheld_in_the_last_round_only() {
    let mut conversation = Conversation::begin("p".to_string(), 1);
    assert!(conversation.tools_enabled());
    let action = conversation.accept_reply(vec![call("nonsense", "x", "y")]);
    // An unknown tool is answered at once; the round is closed.
    assert_eq!(action, Action::CallModel);
    assert!(!conversation.tools_enabled());
    assert_eq!(
        conversation.transcript()[2],
        Turn {
            role: Role::User,
            parts: vec![Part::FunctionResponse {
                name: "nonsense".to_string(),
                outcome: ToolOutcome::Error("Unknown function: nonsense".to_string()),
            }],
        }
    );
    let action = conversation.accept_reply(vec![text("done")]);
    assert_eq!(
        action,
        Action::Finish(ChatbotResponse {
            text_response: "done".to_string(),
            invoked_tools: vec![ToolInvocation {
                name: "nonsense".to_string(),
                args: ToolArgs::single("x", "y"),
            }],
        })
    );
}

#[test]
fn zero_rounds_means_text_only() {
    let mut conversation = Conversation::begin("p".to_string(), 0);
    assert!(!conversation.tools_enabled());
    let action = conversation.accept_reply(vec![call("roll_dice", "dice_notation", "1d2")]);
    assert_eq!(action, Action::Fail(ConversationError::ToolsWithheld));
}

#[test]
fn reply_without_text_or_call_is_fatal() {
    let mut conversation = Conversation::begin("p".to_string(), 2);
    let action = conversation.accept_reply(vec![]);
    assert_eq!(action, Action::Fail(ConversationError::MissingText));
    assert_eq!(ConversationError::MissingText.message(), "Gemini response missing text part");
    let mut conversation = Conversation::begin("p".to_string(), 2);
    let action = conversation.accept_reply(vec![Part::InlineData {
        mime_type: "image/png".to_string(),
        data: "AAAA".to_string(),
    }]);
    assert_eq!(action, Action::Fail(ConversationError::MissingText));
}

#[test]
fn first_text_is_the_answer() {
    let mut conversation = Conversation::begin("p".to_string(), 2);
    let action = conversation.accept_reply(vec![
        Part::InlineData { mime_type: "image/png".to_string(), data: "AAAA".to_string() },
        text("one"),
        text("two"),
    ]);
    assert_eq!(
        action,
        Action::Finish(ChatbotResponse { text_response: "one".to_string(), invoked_tools: vec![] })
    );
}

#[test]
fn call_without_name_is_fatal() {
    let mut conversation = Conversation::begin("p".to_string(), 2);
    let action = conversation
        .accept_reply(vec![Part::FunctionCall { name: None, args: ToolArgs::empty() }]);
    assert_eq!(action, Action::Fail(ConversationError::MissingFunctionName));
    assert_eq!(ConversationError::MissingFunctionName.message(), "Function call missing name");
}

#[test]
fn call_without_its_argument_is_told_to_the_model() {
    let mut conversation = Conversation::begin("p".to_string(), 2);
    let request = Part::FunctionCall { name: Some("roll_dice".to_string()), args: ToolArgs::empty() };
    // The call is answered with an error at once; the run goes on.
    let action = conversation.accept_reply(vec![request.clone()]);
    assert_eq!(action, Action::CallModel);
    assert_eq!(conversation.phase(), Phase::AwaitingReply);
    assert_eq!(conversation.round(), 1);
    let transcript = conversation.transcript();
    assert_eq!(transcript.len(), 3);
    assert_eq!(transcript[1], Turn { role: Role::Model, parts: vec![request] });
    assert_eq!(
        transcript[2],
        Turn {
            role: Role::User,
            parts: vec![Part::FunctionResponse {
                name: "roll_dice".to_string(),
                outcome: ToolOutcome::Error(
                    "Missing 'dice_notation' argument for roll_dice".to_string()
                ),
            }],
        }
    );
    let action = conversation.accept_reply(vec![text("sorry")]);
    assert_eq!(
        action,
        Action::Finish(ChatbotResponse {
            text_response: "sorry".to_string(),
            invoked_tools: vec![ToolInvocation {
                name: "roll_dice".to_string(),
                args: ToolArgs::empty(),
            }],
        })
    );
}

#[test]
fn each_tool_names_the_argument_that_is_missing() {
    let mut conversation = Conversation::begin("p".to_string(), 2);
    // An argument under another name, or one that is no string, is missing.
    let number = ToolArgs {
        members: vec![Argument { name: "url".to_string(), value: ArgValue::Other("7".to_string()) }],
    };
    let action = conversation.accept_reply(vec![
        call("fetch_and_prepare_image", "link", "x"),
        call("roll_dice", "url", "2d6"),
        call("download_torrent", "url", "x"),
        Part::FunctionCall { name: Some("read_webpage_content".to_string()), args: number },
    ]);
    assert_eq!(action, Action::CallModel);
    let told = |name: &str, error: &str| Part::FunctionResponse {
        name: name.to_string(),
        outcome: ToolOutcome::Error(error.to_string()),
    };
    assert_eq!(
        conversation.transcript()[2].parts,
        vec![
            told("fetch_and_prepare_image", "Missing 'url' argument for fetch_and_prepare_image"),
            told("roll_dice", "Missing 'dice_notation' argument for roll_dice"),
            told("download_torrent", "Missing 'nyaa_url' argument for download_torrent"),
            told("read_webpage_content", "Missing 'url' argument for read_webpage_content"),
        ]
    );
}

#[test]
fn several_calls_keep_their_order_and_the_image_goes_first() {
    let mut conversation = Conversation::begin("p".to_string(), 2);
    let reply = vec![
        text("let me look"),
        call("fetch_and_prepare_image", "url", "http://x/a.png"),
        call("mystery", "a", "b"),
        call("download_torrent", "nyaa_url", "http://n/1"),
        call("read_webpage_content", "url", "http://x/"),
    ];
    let action = conversation.accept_reply(reply.clone());
    assert_eq!(
        action,
        Action::RunTool(ToolCall {
            kind: ToolKind::FetchImage,
            argument: "http://x/a.png".to_string()
        })
    );
    let action = conversation.accept_tool_result(ToolResult::Image {
        mime_type: "image/png".to_string(),
        data: "QUJD".to_string(),
    });
    // The unknown tool in between was answered on the way.
    assert_eq!(
        action,
        Action::RunTool(ToolCall {
            kind: ToolKind::DownloadTorrent,
            argument: "http://n/1".to_string()
        })
    );
    let action = conversation.accept_tool_result(ToolResult::Error("no magnet".to_string()));
    assert_eq!(
        action,
        Action::RunTool(ToolCall { kind: ToolKind::ReadWebpage, argument: "http://x/".to_string() })
    );
    let action = conversation.accept_tool_result(ToolResult::Text("page text".to_string()));
    assert_eq!(action, Action::CallModel);
    let transcript = conversation.transcript();
    assert_eq!(transcript.len(), 4);
    assert_eq!(transcript[1], Turn { role: Role::Model, parts: reply });
    assert_eq!(
        transcript[2],
        Turn {
            role: Role::User,
            parts: vec![Part::InlineData {
                mime_type: "image/png".to_string(),
                data: "QUJD".to_string(),
            }],
        }
    );
    assert_eq!(
        transcript[3],
        Turn {
            role: Role::User,
            parts: vec![
                Part::FunctionResponse {
                    name: "fetch_and_prepare_image".to_string(),
                    outcome: ToolOutcome::Result(
                        "Image fetched successfully. Please refer to the provided image data."
                            .to_string()
                    ),
                },
                Part::FunctionResponse {
                    name: "mystery".to_string(),
                    outcome: ToolOutcome::Error("Unknown function: mystery".to_string()),
                },
                Part::FunctionResponse {
                    name: "download_torrent".to_string(),
                    outcome: ToolOutcome::Error("no magnet".to_string()),
                },
                Part::FunctionResponse {
                    name: "read_webpage_content".to_string(),
                    outcome: ToolOutcome::Result("page text".to_string()),
                },
            ],
        }
    );
    let action = conversation.accept_reply(vec![text("all done")]);
    match action {
        Action::Finish(response) => {
            let names: Vec<&str> = response.invoked_tools.iter().map(|t| t.name.as_str()).collect();
            assert_eq!(
                names,
                vec![
                    "fetch_and_prepare_image",
                    "mystery",
                    "download_torrent",
                    "read_webpage_content"
                ]
            );
        }
        other => panic!("no answer: {:?}", other),
    }
}

#[test]
fn failing_tool_does_not_end_the_conversation() {
    let mut conversation = Conversation::begin("p".to_string(), 2);
    let action = conversation.accept_reply(vec![call("roll_dice", "dice_notation", "0d6")]);
    assert!(matches!(action, Action::RunTool(_)));
    let result = run_dice_tool("0d6");
    assert_eq!(
        result,
        ToolResult::Error("Number of dice must be between 1 and 100.".to_string())
    );
    assert_eq!(conversation.accept_tool_result(result), Action::CallModel);
    assert_eq!(
        conversation.transcript()[2].parts,
        vec![Part::FunctionResponse {
            name: "roll_dice".to_string(),
            outcome: ToolOutcome::Error("Number of dice must be between 1 and 100.".to_string()),
        }]
    );
}

#[test]
fn invocation_is_recorded_before_the_tool_runs() {
    let mut conversation = Conversation::begin("p".to_string(), 2);
    let action = conversation.accept_reply(vec![
        call("roll_dice", "dice_notation", "1d4"),
        call("roll_dice", "nothing", "1d4"),
        Part::FunctionCall { name: None, args: ToolArgs::empty() },
    ]);
    assert!(matches!(action, Action::RunTool(_)));
    let action = conversation.accept_tool_result(ToolResult::Text("x".to_string()));
    // The second call lacks its argument and is answered; the third has no
    // name, which ends the run after the first was run.
    assert_eq!(action, Action::Fail(ConversationError::MissingFunctionName));
    assert_eq!(conversation.phase(), Phase::Finished);
}

#[test]
fn parts_are_searched() {
    assert!(!contains_call(&vec![text("a")]));
    assert!(contains_call(&vec![text("a"), call("x", "y", "z")]));
    assert_eq!(find_first_text(&vec![call("x", "y", "z"), text("a"), text("b")]), Some("a".to_string()));
    assert_eq!(find_first_text(&vec![call("x", "y", "z")]), None);
}

#[test]
fn mention_prompt_names_the_assistant() {
    assert_eq!(
        build_mention_prompt("TestBot"),
        "You are TestBot. Check if the provided message is aimed at TestBot, or if it is merely a mention. Respond with a single word, \"respond\" or \"mention\"."
    );
}

#[test]
fn mention_verdict_defaults_to_silence() {
    assert!(interpret_mention_reply("respond"));
    assert!(interpret_mention_reply("Respond."));
    assert!(interpret_mention_reply("I would RESPOND here"));
    assert!(!interpret_mention_reply("mention"));
    assert!(!interpret_mention_reply("Mention"));
    assert!(!interpret_mention_reply("no idea"));
    assert!(!interpret_mention_reply(""));
    // A verdict that names both counts as a request for an answer.
    assert!(interpret_mention_reply("mention, or respond"));
    assert!(verdict_asks_for_answer("respond"));
    assert!(!verdict_asks_for_answer("RESPOND"));
}

#[test]
fn single_question_and_its_answer() {
    assert_eq!(
        single_turn("Briefly explain."),
        vec![Turn { role: Role::User, parts: vec![text("Briefly explain.")] }]
    );
    assert_eq!(single_turn_answer(&vec![text("a"), text("b")]), Ok("a".to_string()));
    assert_eq!(
        single_turn_answer(&vec![call("x", "y", "z"), text("b")]),
        Err(ConversationError::MissingText)
    );
    assert_eq!(single_turn_answer(&vec![]), Err(ConversationError::MissingText));
}
