use line_bridge::ask::{
    conclude, gui_ask_sender, is_line_driven_turn, normalize_answer, route, set_gui_ask_sender,
    set_line_driven_turn, terminal_answer, AskError, AskOutcome, AskRoute, AskState, AskUserTool,
    GuiNext, ASK_TIMEOUT_SECS,
};
use serde_json::Value;
use tokio::sync::{mpsc, oneshot};

fn json(s: &str) -> Value {
    serde_json::from_str(s).unwrap()
}

#[test]
fn gui_ask_sender_round_trips_answer() {
    let (sender, mut requests) = mpsc::unbounded_channel();
    let mut state = AskState::new();
    set_gui_ask_sender(&mut state, Some(sender));

    let route = AskUserTool
        .call(&mut state, &json("{ \"question\": \"Ready?\" }"))
        .expect("ask call");
    let ask = match route {
        AskRoute::Gui(ask) => ask,
        other => panic!("{:?}", other),
    };
    let (response, mut answer) = oneshot::channel();
    let delivered = gui_ask_sender(&state).unwrap().send(ask.request(response)).is_ok();
    assert!(matches!(ask.sent(delivered), GuiNext::AwaitAnswer));

    let req = requests.try_recv().expect("ask request");
    assert_eq!(req.question, "Ready?");
    req.response.send("yes".to_string()).expect("send response");

    let got = answer.try_recv().expect("join ask");
    assert_eq!(conclude(AskOutcome::Answered(got)), "yes");
    set_gui_ask_sender(&mut state, None);
    assert!(gui_ask_sender(&state).is_none());
}

#[test]
fn line_driven_turn_short_circuits_without_gui_modal() {
    let (sender, mut requests) = mpsc::unbounded_channel();
    let mut state = AskState::new();
    set_gui_ask_sender(&mut state, Some(sender));
    set_line_driven_turn(&mut state, true);
    assert!(is_line_driven_turn(&state));

    let result = match AskUserTool
        .call(&mut state, &json("{ \"question\": \"Which file?\" }"))
        .expect("ask call")
    {
        AskRoute::Reply(result) => result,
        other => panic!("{:?}", other),
    };

    assert!(result.contains("LINE"), "got: {result}");
    assert!(result.contains("Which file?"), "got: {result}");
    assert!(requests.try_recv().is_err(), "GUI modal was invoked");
    assert_eq!(state.next_ask_id, 1);

    set_line_driven_turn(&mut state, false);
    assert!(!is_line_driven_turn(&state));
}

#[test]
fn line_reply_in_full() {
    let mut state = AskState::new();
    set_line_driven_turn(&mut state, true);
    match route(&mut state, "Which \"file\"?".to_string()) {
        AskRoute::Reply(reply) => assert_eq!(
            reply,
            "(user is on LINE — please rephrase \"Which \"file\"?\" as part of your reply text; \
             their next LINE message will be the answer)"
        ),
        other => panic!("{:?}", other),
    }
}

#[test]
fn input_without_question_is_rejected() {
    for text in ["{}", "{\"question\": 3}", "[\"question\"]", "\"question\"", "null"] {
        let mut state = AskState::new();
        match AskUserTool.call(&mut state, &json(text)) {
            Err(AskError::MissingField(name)) => assert_eq!(name, "question"),
            other => panic!("{:?}", other),
        }
    }
}

#[test]
fn terminal_is_the_last_resort() {
    let mut state = AskState::new();
    match AskUserTool.call(&mut state, &json("{\"question\": \"\", \"x\": 1}")) {
        Ok(AskRoute::Terminal(ask)) => assert_eq!(
            ask.prompt(),
            "\n\x1b[36m[agent asks]: \x1b[0m\n\x1b[36m> \x1b[0m"
        ),
        other => panic!("{:?}", other),
    }
    assert_eq!(state.next_ask_id, 1);
}

#[test]
fn undelivered_request_falls_back_to_terminal() {
    let (sender, requests) = mpsc::unbounded_channel();
    drop(requests);
    let mut state = AskState::new();
    set_gui_ask_sender(&mut state, Some(sender));
    let ask = match route(&mut state, "q".to_string()) {
        AskRoute::Gui(ask) => ask,
        other => panic!("{:?}", other),
    };
    let (response, _answer) = oneshot::channel();
    let delivered = gui_ask_sender(&state).unwrap().send(ask.request(response)).is_ok();
    assert!(!delivered);
    match ask.sent(delivered) {
        GuiNext::Terminal(ask) => {
            assert_eq!(ask.prompt(), "\n\x1b[36m[agent asks]: q\x1b[0m\n\x1b[36m> \x1b[0m")
        }
        other => panic!("{:?}", other),
    }
    assert_eq!(state.next_ask_id, 2);
}

#[test]
fn requests_are_numbered() {
    let (sender, _requests) = mpsc::unbounded_channel();
    let mut state = AskState::new();
    set_gui_ask_sender(&mut state, Some(sender));
    for expected in [1u64, 2, 3] {
        match route(&mut state, "q".to_string()) {
            AskRoute::Gui(ask) => assert_eq!(ask.id, expected),
            other => panic!("{:?}", other),
        }
    }
    state.next_ask_id = u64::MAX;
    match route(&mut state, "q".to_string()) {
        AskRoute::Gui(ask) => assert_eq!(ask.id, u64::MAX),
        other => panic!("{:?}", other),
    }
    assert_eq!(state.next_ask_id, 0);
}

#[test]
fn answers_are_normalized() {
    assert_eq!(normalize_answer("  yes\n".to_string()), "yes");
    assert_eq!(normalize_answer(" \n ".to_string()), "(no response from user)");
    assert_eq!(
        normalize_answer(normalize_answer(String::new())),
        "(no response from user)"
    );
    assert_eq!(terminal_answer(" two words \r\n"), "two words");
    assert_eq!(normalize_answer(terminal_answer(" a ")), normalize_answer(" a ".to_string()));
}

#[test]
fn wait_outcomes() {
    assert_eq!(conclude(AskOutcome::Answered(" a ".to_string())), "a");
    assert_eq!(conclude(AskOutcome::Lost), "(no response from user)");
    assert_eq!(
        conclude(AskOutcome::TimedOut),
        format!(
            "(no response — user did not reply within {} minutes)",
            ASK_TIMEOUT_SECS / 60
        )
    );
    assert_eq!(ASK_TIMEOUT_SECS, 1_800);
}

#[test]
fn tool_describes_itself() {
    assert_eq!(AskUserTool.name(), "AskUserQuestion");
    assert_eq!(
        AskUserTool.description(),
        "Ask the user a question and wait for their typed response. Use when \
         you need clarification, a decision, or any input that can't be \
         resolved from context or tools alone."
    );
    assert!(!AskUserTool.requires_approval(&json("{\"question\": \"q\"}")));
    let schema = AskUserTool.input_schema();
    assert_eq!(schema.json_type, "object");
    assert_eq!(schema.properties.len(), 1);
    assert_eq!(schema.properties[0].name, "question");
    assert_eq!(schema.properties[0].json_type, "string");
    assert_eq!(schema.properties[0].description, "The question to ask the user");
    assert_eq!(schema.required, ["question"]);
}
