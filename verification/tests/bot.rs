use emulbot::bluenoise::BlueNoiseInterjecter;
use emulbot::bot::{
    addressing_of, begin_trigger, classify_addressing, failure_notice, find_last_char,
    finish_trigger, next_reconnect_delay, route_message, split_response, Addressing, IrcEvent,
    MessageAction, TriggerStep, INITIAL_RECONNECT_DELAY_SECS, RESPONSE_LINE_LIMIT,
};
use emulbot::text::to_chars;

#[test]
fn test_split_response() {
    let response = "This is a test response. It should be split into multiple\nmessages.";
    let parts = split_response(500, response);
    assert_eq!(parts.len(), 2);
    assert_eq!(parts[0], "This is a test response. It should be split into multiple");
    assert_eq!(parts[1], "messages.");
}

#[test]
fn test_split_long_line() {
    let response = "This is a test response. It should be split into multiple messages. This line is long enough to be split into multiple parts.";
    let parts = split_response(60, response);
    assert_eq!(parts[0], "This is a test response. It should be split into multiple");
    assert_eq!(parts[1], "messages. This line is long enough to be split into");
    assert_eq!(parts[2], "multiple parts.");
}

fn split_by_slicing(limit: usize, response: &str) -> Vec<String> {
    let mut parts = Vec::new();
    for line in response.lines() {
        let mut remaining = line;
        while !remaining.is_empty() {
            if remaining.len() <= limit {
                parts.push(remaining.to_string());
                break;
            } else {
                let split_at = remaining[..limit].rfind(' ').unwrap_or(limit);
                parts.push(remaining[..split_at].to_string());
                remaining = remaining[split_at..].trim_start();
            }
        }
    }
    parts
}

#[test]
fn splitting_agrees_with_slicing_on_plain_text() {
    let samples = [
        "",
        "\n",
        "\n\n",
        "one",
        "one\n",
        "one\r\ntwo\r\n",
        "one\rtwo",
        "tail\r",
        " leading space and then quite a lot more text behind it",
        "nospacesatallinthisverylonglinewhichhastobecutbruteforce",
        "a b c d e f g h i j k l m n o p q r s t u v w x y z",
        "word      many     spaces      between      the      words",
        "x\n\ny\n \nz",
        "trailing spaces      \nnext",
        "          ",
        "ab          cd",
    ];
    for sample in samples {
        for limit in [1usize, 2, 3, 5, 8, 13, 60, 430] {
            assert_eq!(
                split_response(limit, sample),
                split_by_slicing(limit, sample),
                "limit {} on {:?}",
                limit,
                sample
            );
        }
    }
}

#[test]
fn pieces_stay_within_the_limit() {
    let text = "The quick brown fox jumps over the lazy dog. ".repeat(40);
    let parts = split_response(RESPONSE_LINE_LIMIT, &text);
    assert!(parts.len() > 1);
    for part in &parts {
        assert!(part.len() <= RESPONSE_LINE_LIMIT);
    }
    let text = "ä".repeat(1000);
    let parts = split_response(430, &text);
    assert_eq!(parts.iter().map(|p| p.len()).collect::<Vec<_>>(), vec![430, 430, 430, 430, 280]);
    assert_eq!(parts, split_by_slicing(430, &text));
}

#[test]
fn wide_characters_are_never_cut_in_two() {
    // Three bytes each: only one fits into four bytes.
    assert_eq!(split_response(4, "日本語"), vec!["日", "本", "語"]);
    assert_eq!(split_response(6, "日本語"), vec!["日本", "語"]);
    assert_eq!(split_response(6, "日本語"), split_by_slicing(6, "日本語"));
    assert_eq!(split_response(7, "日本 語です"), vec!["日本", "語で", "す"]);
    // A character that does not fit at all goes alone.
    assert_eq!(split_response(1, "aä b"), vec!["a", "ä", "b"]);
    assert_eq!(split_response(0, "ab"), vec!["a", "b"]);
    assert_eq!(split_response(0, " "), vec![""]);
}

#[test]
fn last_character_is_found() {
    let v = to_chars("a b c");
    assert_eq!(find_last_char(&v, 0, 5, ' '), 3);
    assert_eq!(find_last_char(&v, 0, 3, ' '), 1);
    assert_eq!(find_last_char(&v, 0, 1, ' '), 1);
    assert_eq!(find_last_char(&v, 2, 5, 'b'), 0);
}

#[test]
fn reconnect_wait_doubles_up_to_five_minutes() {
    let mut delay = INITIAL_RECONNECT_DELAY_SECS;
    let mut seen = vec![delay];
    for _ in 0..8 {
        delay = next_reconnect_delay(delay);
        seen.push(delay);
    }
    assert_eq!(seen, vec![5, 10, 20, 40, 80, 160, 300, 300, 300]);
    assert_eq!(next_reconnect_delay(149), 298);
    assert_eq!(next_reconnect_delay(150), 300);
    assert_eq!(next_reconnect_delay(u64::MAX), 300);
    assert_eq!(next_reconnect_delay(0), 0);
}

#[test]
fn failure_is_told_to_the_sender() {
    assert_eq!(failure_notice("tester"), "tester: Eeep! I had trouble thinking about that...");
}

#[test]
fn lines_are_classified() {
    assert_eq!(classify_addressing("emul", "emul: hello"), Addressing::Direct);
    assert_eq!(classify_addressing("emul", "emul, hello"), Addressing::Direct);
    assert_eq!(classify_addressing("emul", "emul hello"), Addressing::Direct);
    assert_eq!(classify_addressing("emul", "  emul"), Addressing::Direct);
    assert_eq!(classify_addressing("emul", "emul:"), Addressing::Direct);
    assert_eq!(classify_addressing("emul", "emulator is slow"), Addressing::Unaddressed);
    assert_eq!(classify_addressing("emul", "i saw emul earlier"), Addressing::Mentioned);
    assert_eq!(classify_addressing("emul", "what about emulators"), Addressing::Mentioned);
    assert_eq!(classify_addressing("emul", "hey,emul"), Addressing::Unaddressed);
    assert_eq!(classify_addressing("emul", "hello there"), Addressing::Unaddressed);
    assert_eq!(classify_addressing("emul", ""), Addressing::Unaddressed);
    assert_eq!(classify_addressing("", ": x"), Addressing::Direct);
    assert_eq!(classify_addressing("", "x y"), Addressing::Mentioned);
    assert_eq!(classify_addressing("", "x"), Addressing::Unaddressed);
}

#[test]
fn case_does_not_matter_for_addressing() {
    assert_eq!(addressing_of("Emul", "EMUL: roll 2d6"), Addressing::Direct);
    assert_eq!(addressing_of("TestBot", "Hey TestBot, what do you think?"), Addressing::Mentioned);
    assert_eq!(addressing_of("TestBot", "I saw TESTBOT in the channel earlier."), Addressing::Mentioned);
    assert_eq!(addressing_of("TestBot", "nothing here"), Addressing::Unaddressed);
}

#[test]
fn direct_line_is_answered_without_the_schedulers() {
    let mut mention = BlueNoiseInterjecter::new(20, 100);
    let mut general = BlueNoiseInterjecter::new(2, 100);
    let step = begin_trigger(Addressing::Direct, &mut mention, &mut general);
    assert_eq!(step, TriggerStep::Respond { addressed: true });
    assert_eq!(mention.message_count(), 0);
    assert_eq!(general.message_count(), 0);
}

#[test]
fn mention_is_an_event_for_the_mention_scheduler() {
    let mut mention = BlueNoiseInterjecter::new(20, 100);
    let mut general = BlueNoiseInterjecter::new(2, 100);
    // Too soon for the scheduler to act: the model is asked.
    let step = begin_trigger(Addressing::Mentioned, &mut mention, &mut general);
    assert_eq!(step, TriggerStep::AskClassifier);
    assert_eq!(mention.message_count(), 1);
    assert_eq!(general.message_count(), 0);
    // A forced scheduler acts: the line counts as addressed.
    mention.force_next_interjection();
    let step = begin_trigger(Addressing::Mentioned, &mut mention, &mut general);
    assert_eq!(step, TriggerStep::Respond { addressed: true });
    assert_eq!(general.message_count(), 0);
}

#[test]
fn other_lines_are_events_for_the_general_scheduler() {
    let mut mention = BlueNoiseInterjecter::new(20, 100);
    let mut general = BlueNoiseInterjecter::new(2, 100);
    let step = begin_trigger(Addressing::Unaddressed, &mut mention, &mut general);
    assert_eq!(step, TriggerStep::Ignore);
    assert_eq!(general.message_count(), 1);
    assert_eq!(mention.message_count(), 0);
    general.force_next_interjection();
    let step = begin_trigger(Addressing::Unaddressed, &mut mention, &mut general);
    assert_eq!(step, TriggerStep::Respond { addressed: false });
}

#[test]
fn verdict_of_the_model_settles_a_mention() {
    let mut general = BlueNoiseInterjecter::new(2, 100);
    assert_eq!(finish_trigger(true, &mut general), TriggerStep::Respond { addressed: true });
    assert_eq!(general.message_count(), 0);
    assert_eq!(finish_trigger(false, &mut general), TriggerStep::Ignore);
    assert_eq!(general.message_count(), 1);
    general.force_next_interjection();
    assert_eq!(finish_trigger(false, &mut general), TriggerStep::Respond { addressed: false });
}

fn some(s: &str) -> Option<String> {
    Some(s.to_string())
}

#[test]
fn traffic_is_routed() {
    assert_eq!(
        route_message(
            "Emul",
            IrcEvent::Notice {
                sender: some("NickServ"),
                text: "Password accepted - you are now recognized.".to_string()
            }
        ),
        MessageAction::JoinStoredChannels
    );
    assert_eq!(
        route_message(
            "Emul",
            IrcEvent::Notice {
                sender: some("NickServ"),
                text: "Emul is not a registered nickname.".to_string()
            }
        ),
        MessageAction::JoinStoredChannels
    );
    assert_eq!(
        route_message(
            "Emul",
            IrcEvent::Notice { sender: some("nickserv"), text: "you are now recognized".to_string() }
        ),
        MessageAction::Nothing
    );
    assert_eq!(
        route_message(
            "Emul",
            IrcEvent::Notice { sender: None, text: "you are now recognized".to_string() }
        ),
        MessageAction::Nothing
    );
    assert_eq!(
        route_message("Emul", IrcEvent::Notice { sender: some("NickServ"), text: "hello".to_string() }),
        MessageAction::Nothing
    );
    assert_eq!(
        route_message("Emul", IrcEvent::Join { sender: some("Emul"), channel: "#a".to_string() }),
        MessageAction::NoteJoined("#a".to_string())
    );
    assert_eq!(
        route_message("Emul", IrcEvent::Join { sender: some("bob"), channel: "#a".to_string() }),
        MessageAction::Nothing
    );
    assert_eq!(
        route_message("Emul", IrcEvent::Join { sender: None, channel: "#a".to_string() }),
        MessageAction::Nothing
    );
    assert_eq!(
        route_message("Emul", IrcEvent::Part { sender: some("Emul"), channel: "#a".to_string() }),
        MessageAction::NoteLeft("#a".to_string())
    );
    assert_eq!(
        route_message("Emul", IrcEvent::Kick { sender: some("Emul"), channel: "#a".to_string() }),
        MessageAction::NoteLeft("#a".to_string())
    );
    assert_eq!(
        route_message("Emul", IrcEvent::Kick { sender: some("op"), channel: "#a".to_string() }),
        MessageAction::Nothing
    );
    assert_eq!(
        route_message(
            "Emul",
            IrcEvent::Privmsg { sender: some("bob"), target: "Emul".to_string(), text: "!help".to_string() }
        ),
        MessageAction::AdminCommand { nick: "bob".to_string(), text: "!help".to_string() }
    );
    assert_eq!(
        route_message(
            "Emul",
            IrcEvent::Privmsg { sender: None, target: "#a".to_string(), text: "hi".to_string() }
        ),
        MessageAction::Buffer {
            channel: "#a".to_string(),
            nick: "unknown".to_string(),
            text: "hi".to_string()
        }
    );
    assert_eq!(
        route_message(
            "Emul",
            IrcEvent::Privmsg { sender: some("bob"), target: "&local".to_string(), text: "hi".to_string() }
        ),
        MessageAction::Nothing
    );
    assert_eq!(route_message("Emul", IrcEvent::Other), MessageAction::Nothing);
}
