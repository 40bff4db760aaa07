use emulbot::generation::{
    build_request, check_reply, endpoint_url, give_up_message, GenerationError, RawReply,
    RetryDecision, RetryState, INITIAL_BACKOFF_SECS, MAX_API_RETRIES, MODEL_VERSION,
};
use emulbot::transcript::{Part, Role, Turn};

fn transcript() -> Vec<Turn> {
    vec![Turn { role: Role::User, parts: vec![Part::Text("hello".to_string())] }]
}

#[test]
fn request_carries_prompt_beside_transcript() {
    let request = build_request("You are a test bot.", &transcript(), true);
    assert_eq!(request.contents, transcript());
    assert_eq!(request.system_instruction, "You are a test bot.");
    assert_eq!(request.response_mime_type, "text/plain");
    let tools = request.tools.unwrap();
    assert_eq!(tools.len(), 4);
    assert_eq!(tools[0].name, "roll_dice");
    let request = build_request("You are a test bot.", &transcript(), false);
    assert_eq!(request.tools, None);
}

#[test]
fn endpoint_address_names_model_and_key() {
    assert_eq!(
        endpoint_url(MODEL_VERSION, "k3y"),
        "https://generativelanguage.googleapis.com/v1beta/models/gemini-2.5-pro-exp-03-25:generateContent?key=k3y"
    );
}

#[test]
fn reply_with_candidates_gives_the_first_ones_parts() {
    let reply = RawReply {
        candidates: Some(vec![
            vec![Part::Text("a".to_string())],
            vec![Part::Text("b".to_string())],
        ]),
        error: None,
    };
    assert_eq!(check_reply(reply), Ok(vec![Part::Text("a".to_string())]));
    let reply = RawReply { candidates: Some(vec![]), error: Some("ignored".to_string()) };
    assert_eq!(check_reply(reply), Ok(vec![]));
}

#[test]
fn reply_without_candidates_is_an_error_of_the_endpoint() {
    let reply = RawReply { candidates: None, error: Some("{\"code\":429}".to_string()) };
    let error = check_reply(reply).unwrap_err();
    assert_eq!(error, GenerationError::Api("{\"code\":429}".to_string()));
    assert_eq!(error.message(), "Gemini API error: {\"code\":429}");
    assert!(!error.is_retryable());
    let reply = RawReply { candidates: None, error: None };
    let error = check_reply(reply).unwrap_err();
    assert_eq!(error, GenerationError::MissingCandidates);
    assert_eq!(
        error.message(),
        "Invalid response structure from Gemini API: Missing 'candidates'"
    );
    assert!(!error.is_retryable());
}

#[test]
fn backoff_doubles_until_attempts_run_out() {
    let mut state = RetryState::new();
    let mut waits = Vec::new();
    let mut attempts = 0;
    let last = loop {
        attempts += 1;
        match state.on_failure(GenerationError::Transport("connection reset".to_string())) {
            RetryDecision::Retry { wait_secs } => waits.push(wait_secs),
            RetryDecision::GiveUp { attempts, error } => break (attempts, error),
        }
        assert!(attempts <= MAX_API_RETRIES);
    };
    assert_eq!(waits, vec![1, 2, 4]);
    assert_eq!(waits[0], INITIAL_BACKOFF_SECS);
    assert_eq!(attempts, MAX_API_RETRIES + 1);
    assert_eq!(last.0, 4);
    assert_eq!(last.1, GenerationError::Transport("connection reset".to_string()));
    assert_eq!(give_up_message(last.0, &last.1), "Gemini API call failed after 4 attempts");
    assert_eq!(state.failed_attempts(), 3);
    assert!(!state.attempts_left());
}

#[test]
fn timeouts_are_tried_again_like_other_failures() {
    let mut state = RetryState::new();
    assert_eq!(state.on_failure(GenerationError::TimedOut), RetryDecision::Retry { wait_secs: 1 });
    assert_eq!(
        state.on_failure(GenerationError::Transport("x".to_string())),
        RetryDecision::Retry { wait_secs: 2 }
    );
    assert_eq!(state.on_failure(GenerationError::TimedOut), RetryDecision::Retry { wait_secs: 4 });
    assert_eq!(
        state.on_failure(GenerationError::TimedOut),
        RetryDecision::GiveUp { attempts: 4, error: GenerationError::TimedOut }
    );
    assert_eq!(
        give_up_message(4, &GenerationError::TimedOut),
        "Gemini API call timed out after 4 attempts"
    );
    assert_eq!(GenerationError::TimedOut.message(), "Gemini API attempt timed out");
    assert!(GenerationError::TimedOut.is_retryable());
}

#[test]
fn answer_of_wrong_shape_is_not_tried_again() {
    let mut state = RetryState::new();
    assert!(state.attempts_left());
    assert_eq!(
        state.on_failure(GenerationError::MissingCandidates),
        RetryDecision::GiveUp { attempts: 1, error: GenerationError::MissingCandidates }
    );
    assert_eq!(state.failed_attempts(), 0);
    assert_eq!(
        give_up_message(1, &GenerationError::Api("quota".to_string())),
        "Gemini API error: quota"
    );
}
