use ai_chat::chat::{Chat, SendError, Step, Turn, DEFAULT_HISTORY_LIMIT, DEFAULT_MAX_FUNCTION_CALLS};
use ai_chat::dto::{AssistantMessage, FunctionCall, Message};
use ai_chat::funcs::FunctionDeclaration;
use ai_chat::history::History;
use ai_chat::payload::{dispatch_payload, DispatchOutcome};
use std::convert::Infallible;

#[derive(Default)]
struct MemoryHistory {
    messages: Vec<Message>,
}

impl History for MemoryHistory {
    type Err = Infallible;

    fn read(&mut self) -> Result<Vec<Message>, Infallible> {
        Ok(self.messages.clone())
    }

    fn write(&mut self, messages: &[Message]) -> Result<(), Infallible> {
        self.messages = messages.to_vec();
        Ok(())
    }
}

/// A store whose writes land in a shared log, so that a test can look at them.
struct SharedHistory<'a> {
    log: &'a std::cell::RefCell<Vec<Message>>,
}

impl History for SharedHistory<'_> {
    type Err = Infallible;

    fn read(&mut self) -> Result<Vec<Message>, Infallible> {
        Ok(self.log.borrow().clone())
    }

    fn write(&mut self, messages: &[Message]) -> Result<(), Infallible> {
        *self.log.borrow_mut() = messages.to_vec();
        Ok(())
    }
}

type Handler = fn(&str) -> Result<String, String>;

struct Outcome {
    result: Result<String, SendError<(), Infallible>>,
    requests: Vec<Vec<Message>>,
}

/// Runs one send: the provider answers with `replies` in order, and each
/// registered function is looked up in `handlers` by the chat's own lookup.
fn run<H: History<Err = Infallible>>(
    chat: &mut Chat<H>,
    handlers: &[Handler],
    user: &str,
    replies: Vec<AssistantMessage>,
) -> Outcome {
    let mut requests = Vec::new();
    let mut replies = replies.into_iter();
    let mut turn: Turn = match chat.begin(user.to_string()) {
        Ok(turn) => turn,
        Err(e) => match e {},
    };
    let mut step = Step::Request;
    loop {
        step = match step {
            Step::Request => {
                requests.push(turn.messages().clone());
                let reply = replies.next().expect("provider ran out of replies");
                turn.on_reply(reply)
            }
            Step::Call(fc) => {
                let outcome = match chat.function_index(&fc.name) {
                    None => DispatchOutcome::NotFound,
                    Some(i) => match fc.args.trim() {
                        a if !a.starts_with('{') => DispatchOutcome::InvalidArguments(format!("expected an object: {a}")),
                        a => match handlers[i](a) {
                            Ok(out) => DispatchOutcome::Completed(out),
                            Err(e) => DispatchOutcome::Failed(e),
                        },
                    },
                };
                let payload = dispatch_payload(&fc.name, outcome);
                turn.on_result(payload)
            }
            Step::Finished(text) => {
                match chat.finish(turn) {
                    Ok(()) => {}
                    Err(e) => match e {},
                }
                return Outcome { result: Ok(text), requests };
            }
            Step::TooManyFunctionCalls => {
                return Outcome { result: Err(SendError::TooManyFunctionCalls), requests };
            }
        };
    }
}

fn call(name: &str, args: &str) -> AssistantMessage {
    AssistantMessage::FunctionCall(FunctionCall {
        name: name.to_string(),
        content: None,
        args: args.to_string(),
    })
}

fn content(text: &str) -> AssistantMessage {
    AssistantMessage::Content(text.to_string())
}

fn declaration(name: &str) -> FunctionDeclaration {
    FunctionDeclaration { name: name.to_string(), description: None, args: None }
}

fn answer_42(_args: &str) -> Result<String, String> {
    Ok("42".to_string())
}

fn always_fails(_args: &str) -> Result<String, String> {
    Err("boom".to_string())
}

#[test]
fn scenario_plain_answer() {
    let log = std::cell::RefCell::new(Vec::new());
    let mut chat = Chat::new(SharedHistory { log: &log });
    chat.system_message(Some("S".to_string()));
    let out = run(&mut chat, &[], "hello", vec![content("hi")]);
    assert_eq!(Ok("hi".to_string()), out.result.map_err(|_| ()));
    assert_eq!(
        vec![Message::System("S".to_string()), Message::User("hello".to_string())],
        out.requests[0]
    );
    assert_eq!(
        vec![
            Message::User("hello".to_string()),
            Message::Assistant(AssistantMessage::Content("hi".to_string())),
        ],
        *log.borrow()
    );
}

#[test]
fn scenario_function_call_then_answer() {
    let log = std::cell::RefCell::new(Vec::new());
    let mut chat = Chat::new(SharedHistory { log: &log });
    chat.function(declaration("foo"));
    let out = run(&mut chat, &[answer_42], "what?", vec![call("foo", "{}"), content("done")]);
    assert_eq!(Ok("done".to_string()), out.result.map_err(|_| ()));
    assert_eq!(2, out.requests.len());
    assert_eq!(
        vec![
            Message::User("what?".to_string()),
            Message::Assistant(call("foo", "{}")),
            Message::Function { name: "foo".to_string(), content: "42".to_string() },
            Message::Assistant(AssistantMessage::Content("done".to_string())),
        ],
        *log.borrow()
    );
}

#[test]
fn scenario_malformed_arguments_continue_the_loop() {
    let log = std::cell::RefCell::new(Vec::new());
    let mut chat = Chat::new(SharedHistory { log: &log });
    chat.function(declaration("foo"));
    let out = run(&mut chat, &[answer_42], "go", vec![call("foo", "not json"), content("sorry")]);
    assert_eq!(Ok("sorry".to_string()), out.result.map_err(|_| ()));
    let log = log.borrow();
    match &log[2] {
        Message::Function { name, content } => {
            assert_eq!("foo", name);
            assert_eq!(
                "{\"error\":\"Invalid arguments: expected an object: not json\"}",
                content
            );
        }
        other => panic!("expected a function result, got {other:?}"),
    }
    assert_eq!(4, log.len());
}

#[test]
fn unknown_function_yields_error_payload() {
    let log = std::cell::RefCell::new(Vec::new());
    let mut chat = Chat::new(SharedHistory { log: &log });
    let out = run(&mut chat, &[], "go", vec![call("nope", "{}"), content("ok")]);
    assert_eq!(Ok("ok".to_string()), out.result.map_err(|_| ()));
    assert_eq!(
        Message::Function {
            name: "nope".to_string(),
            content: "{\"error\":\"Function not found: nope\"}".to_string(),
        },
        log.borrow()[2]
    );
}

#[test]
fn failing_handler_yields_error_payload() {
    let mut chat = Chat::new(MemoryHistory::default());
    chat.function(declaration("bad"));
    let out = run(&mut chat, &[always_fails], "go", vec![call("bad", "{}"), content("ok")]);
    assert!(out.result.is_ok());
    assert_eq!(
        Message::Function {
            name: "bad".to_string(),
            content: "{\"error\":\"Execution failed: boom\"}".to_string(),
        },
        out.requests[1][2]
    );
}

#[test]
fn loop_finishes_after_n_provider_calls() {
    for n in 1..=DEFAULT_MAX_FUNCTION_CALLS {
        let mut chat = Chat::new(MemoryHistory::default());
        chat.function(declaration("foo"));
        let mut replies: Vec<AssistantMessage> = (1..n).map(|_| call("foo", "{}")).collect();
        replies.push(content("end"));
        replies.push(content("unused"));
        let out = run(&mut chat, &[answer_42], "go", replies);
        assert_eq!(Ok("end".to_string()), out.result.map_err(|_| ()));
        assert_eq!(n, out.requests.len());
    }
}

#[test]
fn loop_gives_up_after_ten_calls() {
    let log = std::cell::RefCell::new(vec![Message::User("old".to_string())]);
    let mut chat = Chat::new(SharedHistory { log: &log });
    chat.function(declaration("foo"));
    let replies: Vec<AssistantMessage> = (0..20).map(|_| call("foo", "{}")).collect();
    let out = run(&mut chat, &[answer_42], "go", replies);
    assert!(matches!(out.result, Err(SendError::TooManyFunctionCalls)));
    assert_eq!(10, out.requests.len());
    assert_eq!(vec![Message::User("old".to_string())], *log.borrow());
}

#[test]
fn turn_refuses_replies_past_the_bound() {
    let mut chat = Chat::new(MemoryHistory::default());
    let mut turn = chat.begin("go".to_string()).unwrap();
    for _ in 1..DEFAULT_MAX_FUNCTION_CALLS {
        assert!(matches!(turn.on_reply(call("f", "{}")), Step::Call(_)));
        assert!(turn.awaiting_result());
        assert_eq!(Step::Request, turn.on_result("x".to_string()));
        assert!(!turn.awaiting_result());
    }
    assert!(matches!(turn.on_reply(call("f", "{}")), Step::Call(_)));
    assert_eq!(Step::TooManyFunctionCalls, turn.on_result("x".to_string()));
    assert_eq!(
        &Message::Function { name: "f".to_string(), content: "x".to_string() },
        turn.messages().last().unwrap()
    );
    let len = turn.messages().len();
    assert_eq!(Step::TooManyFunctionCalls, turn.on_reply(content("late")));
    assert_eq!(len, turn.messages().len());
    assert_eq!(DEFAULT_MAX_FUNCTION_CALLS, turn.provider_calls());
}

#[test]
fn system_message_is_sent_once_and_never_persisted() {
    let log = std::cell::RefCell::new(Vec::new());
    let mut chat = Chat::new(SharedHistory { log: &log });
    chat.system_message(Some("rules".to_string()));
    chat.function(declaration("foo"));
    for round in 0..3 {
        let out = run(&mut chat, &[answer_42], "q", vec![call("foo", "{}"), content("a")]);
        assert!(out.result.is_ok());
        for request in &out.requests {
            assert_eq!(1, request.iter().filter(|m| m.is_system()).count(), "round {round}");
            assert!(request[0].is_system());
        }
        assert_eq!(0, log.borrow().iter().filter(|m| m.is_system()).count());
    }
}

#[test]
fn history_is_trimmed_to_the_limit() {
    let log = std::cell::RefCell::new(Vec::new());
    let mut chat = Chat::new(SharedHistory { log: &log });
    chat.history_limit(3);
    let out = run(&mut chat, &[], "one", vec![content("a")]);
    assert!(out.result.is_ok());
    let out = run(&mut chat, &[], "two", vec![content("b")]);
    assert!(out.result.is_ok());
    assert_eq!(
        vec![
            Message::Assistant(AssistantMessage::Content("a".to_string())),
            Message::User("two".to_string()),
            Message::Assistant(AssistantMessage::Content("b".to_string())),
        ],
        *log.borrow()
    );
    assert_eq!(15, DEFAULT_HISTORY_LIMIT);
}

#[test]
fn requests_carry_history_between_system_and_user() {
    let mut chat = Chat::new(MemoryHistory {
        messages: vec![Message::User("before".to_string())],
    });
    chat.system_message(Some("S".to_string()));
    let out = run(&mut chat, &[], "now", vec![content("x")]);
    assert_eq!(
        vec![
            Message::System("S".to_string()),
            Message::User("before".to_string()),
            Message::User("now".to_string()),
        ],
        out.requests[0]
    );
}

#[test]
fn function_lookup_takes_the_first_of_a_name() {
    let mut chat = Chat::new(MemoryHistory::default());
    chat.function(declaration("a"));
    chat.function(declaration("b"));
    chat.function(declaration("b"));
    assert_eq!(Some(1), chat.function_index(&"b".to_string()));
    assert_eq!(Some(0), chat.function_index(&"a".to_string()));
    assert_eq!(None, chat.function_index(&"c".to_string()));
    assert_eq!(3, chat.declarations_list().len());
}

#[test]
fn loop_bound_is_configurable() {
    let mut chat = Chat::new(MemoryHistory::default());
    chat.max_function_calls(3);
    chat.function(declaration("foo"));
    let replies: Vec<AssistantMessage> = (0..20).map(|_| call("foo", "{}")).collect();
    let out = run(&mut chat, &[answer_42], "go", replies);
    assert!(matches!(out.result, Err(SendError::TooManyFunctionCalls)));
    assert_eq!(3, out.requests.len());
    assert_eq!(10, DEFAULT_MAX_FUNCTION_CALLS);
}

/// A store that counts how often it is read.
struct CountingHistory<'a> {
    reads: &'a std::cell::Cell<usize>,
    messages: Vec<Message>,
}

impl History for CountingHistory<'_> {
    type Err = Infallible;

    fn read(&mut self) -> Result<Vec<Message>, Infallible> {
        self.reads.set(self.reads.get() + 1);
        Ok(self.messages.clone())
    }

    fn write(&mut self, messages: &[Message]) -> Result<(), Infallible> {
        self.messages = messages.to_vec();
        Ok(())
    }
}

#[test]
fn second_send_reuses_the_snapshot() {
    let reads = std::cell::Cell::new(0);
    let mut chat = Chat::new(CountingHistory { reads: &reads, messages: vec![] });
    chat.system_message(Some("S".to_string()));
    let first = run(&mut chat, &[], "m1", vec![content("a1")]);
    assert!(first.result.is_ok());
    let second = run(&mut chat, &[], "m2", vec![content("a2")]);
    assert!(second.result.is_ok());
    assert_eq!(1, reads.get());
    assert_eq!(
        vec![
            Message::System("S".to_string()),
            Message::User("m1".to_string()),
            Message::Assistant(AssistantMessage::Content("a1".to_string())),
            Message::User("m2".to_string()),
        ],
        second.requests[0]
    );
}
