use citadel::agent::Agent;
use citadel::agent::AgentEvent;
use citadel::agent::Effect;
use citadel::agent::Wait;
use citadel::display::Color;
use citadel::display::Line;
use citadel::runner::ExecutionResult;
use citadel::session::ArgValue;
use citadel::session::Message;
use citadel::session::Role;
use citadel::session::Session;
use citadel::session::ToolCall;
use citadel::tools::ToolRequest;

fn line_text(l: &Line) -> String {
    l.segments.iter().map(|s| s.text.as_str()).collect()
}

fn shown(effects: &[Effect]) -> Vec<String> {
    effects
        .iter()
        .map(|e| match e {
            Effect::Show(l) => line_text(l),
            Effect::SaveSession => "<save>".to_string(),
        })
        .collect()
}

fn reply(content: &str, calls: Vec<ToolCall>) -> Message {
    Message { role: Role::Assistant, content: content.to_string(), tool_calls: calls, images: None, thinking: None }
}

fn call(name: &str, args: Vec<(&str, &str)>) -> ToolCall {
    ToolCall {
        name: name.to_string(),
        arguments: args.into_iter().map(|(k, v)| (k.to_string(), ArgValue::Text(v.to_string()))).collect(),
        raw_arguments: "{}".to_string(),
    }
}

#[test]
fn empty_objective_aborts() {
    let (mut a, turn) = Agent::start(Session::new("s".to_string()));
    assert_eq!(shown(&turn.effects), vec!["Enter your mission objective: "]);
    match &turn.effects[0] {
        Effect::Show(l) => {
            assert!(!l.ends_line);
            assert_eq!(l.segments[0].color, Some(Color::Blue));
            assert!(l.segments[0].bold);
        },
        _ => panic!(),
    }
    assert!(matches!(turn.wait, Wait::ReadLine));
    let turn = a.next(AgentEvent::Line(" \t\n".to_string()));
    assert_eq!(shown(&turn.effects), vec!["Mission aborted."]);
    assert!(matches!(turn.wait, Wait::Stop));
    assert!(a.session().history.is_empty());
    assert!(!a.accepts(&AgentEvent::Line("x".to_string())));
}

#[test]
fn conversation_without_tools() {
    let (mut a, _) = Agent::start(Session::new("s".to_string()));
    let turn = a.next(AgentEvent::Line("  build a script \n".to_string()));
    assert_eq!(shown(&turn.effects), vec!["<save>"]);
    assert!(matches!(turn.wait, Wait::CallModel));
    assert_eq!(a.session().history[0].content, "build a script");
    assert_eq!(a.session().history[0].role, Role::User);
    let turn = a.next(AgentEvent::ModelReply(reply("All done.", vec![])));
    assert_eq!(shown(&turn.effects), vec!["Citadel: All done.", "<save>", "> "]);
    assert!(matches!(turn.wait, Wait::ReadLine));
    assert_eq!(a.session().history[1].role, Role::Assistant);
    let turn = a.next(AgentEvent::Line("and test it\n".to_string()));
    assert_eq!(shown(&turn.effects), vec!["<save>"]);
    assert_eq!(a.session().history[2].content, "and test it");
    let _ = a.next(AgentEvent::ModelReply(reply("Tested.", vec![])));
    let turn = a.next(AgentEvent::Line(" QuIt \n".to_string()));
    assert_eq!(shown(&turn.effects), vec!["Session saved. Exiting."]);
    assert!(matches!(turn.wait, Wait::Stop));
    assert_eq!(a.session().history.len(), 4);
}

#[test]
fn exit_words_only_end_the_session_whole() {
    let (mut a, _) = Agent::start(Session::new("s".to_string()));
    let _ = a.next(AgentEvent::Line("go".to_string()));
    let _ = a.next(AgentEvent::ModelReply(reply("ok", vec![])));
    let turn = a.next(AgentEvent::Line("exit now".to_string()));
    assert!(matches!(turn.wait, Wait::CallModel));
    assert_eq!(a.session().history[2].content, "exit now");
    let _ = a.next(AgentEvent::ModelReply(reply("ok", vec![])));
    let turn = a.next(AgentEvent::Line("".to_string()));
    assert!(matches!(turn.wait, Wait::CallModel));
    assert_eq!(a.session().history[4].content, "");
    let _ = a.next(AgentEvent::ModelReply(reply("ok", vec![])));
    let turn = a.next(AgentEvent::Line("EXIT".to_string()));
    assert!(matches!(turn.wait, Wait::Stop));
}

#[test]
fn tool_calls_are_answered_in_order() {
    let (mut a, _) = Agent::start(Session::new("s".to_string()));
    let _ = a.next(AgentEvent::Line("work".to_string()));
    let calls = vec![
        call("write_file", vec![("path", "a.py"), ("content", "print(1)")]),
        call("delete_file", vec![("path", "a.py")]),
        call("read_file", vec![("path", "b.txt")]),
    ];
    let turn = a.next(AgentEvent::ModelReply(reply("", calls)));
    assert_eq!(shown(&turn.effects), vec!["Guardian Intercept: Agent wants to call write_file"]);
    match turn.wait {
        Wait::RunTool(ToolRequest::WriteFile { path, content }) => {
            assert_eq!(path, "a.py");
            assert_eq!(content, "print(1)");
        },
        _ => panic!(),
    }
    let turn = a.next(AgentEvent::ToolFinished(Ok("Successfully wrote to a.py".to_string())));
    assert_eq!(
        shown(&turn.effects),
        vec!["Guardian Intercept: Agent wants to call delete_file", "Guardian Intercept: Agent wants to call read_file"]
    );
    assert!(matches!(turn.wait, Wait::RunTool(ToolRequest::ReadFile { .. })));
    let turn = a.next(AgentEvent::ToolFinished(Err("Path does not exist: b.txt".to_string())));
    assert_eq!(shown(&turn.effects), vec!["<save>"]);
    assert!(matches!(turn.wait, Wait::CallModel));
    let h = &a.session().history;
    assert_eq!(h.len(), 5);
    assert_eq!(h[1].tool_calls.len(), 3);
    let tool_texts: Vec<&str> = h[2..].iter().map(|m| m.content.as_str()).collect();
    assert_eq!(tool_texts, vec!["Successfully wrote to a.py", "Unknown tool", "Path does not exist: b.txt"]);
    assert!(h[2..].iter().all(|m| m.role == Role::Tool));
}

#[test]
fn only_unknown_tools_go_straight_back_to_the_model() {
    let (mut a, _) = Agent::start(Session::new("s".to_string()));
    let _ = a.next(AgentEvent::Line("work".to_string()));
    let turn = a.next(AgentEvent::ModelReply(reply("", vec![call("fly", vec![])])));
    assert_eq!(shown(&turn.effects), vec!["Guardian Intercept: Agent wants to call fly", "<save>"]);
    assert!(matches!(turn.wait, Wait::CallModel));
    assert_eq!(a.session().history[2].content, "Unknown tool");
}

#[test]
fn command_results_are_reported() {
    let (mut a, _) = Agent::start(Session::new("s".to_string()));
    let _ = a.next(AgentEvent::Line("run".to_string()));
    let run = ToolCall {
        name: "run_command".to_string(),
        arguments: vec![
            ("program".to_string(), ArgValue::Text("python3".to_string())),
            ("args".to_string(), ArgValue::List(vec![Some("s.py".to_string())])),
        ],
        raw_arguments: "{\"program\":\"python3\",\"args\":[\"s.py\"]}".to_string(),
    };
    let turn = a.next(AgentEvent::ModelReply(reply("", vec![run, call("run_command", vec![("program", "false")])])));
    match turn.wait {
        Wait::RunTool(ToolRequest::RunCommand { program, args }) => {
            assert_eq!(program, "python3");
            assert_eq!(args, vec!["s.py".to_string()]);
        },
        _ => panic!(),
    }
    let _ = a.next(AgentEvent::CommandFinished(Ok(ExecutionResult {
        stdout: "hi\n".to_string(),
        stderr: String::new(),
        exit_code: Some(-1),
    })));
    let _ = a.next(AgentEvent::CommandFinished(Err("Command 'false' timed out after 10s".to_string())));
    let h = &a.session().history;
    assert_eq!(h[2].content, "Stdout: hi\n\nStderr: \nExit Code: Some(-1)");
    assert_eq!(h[3].content, "Execution failed: Command 'false' timed out after 10s");
    let (mut b, _) = Agent::start(Session::new("t".to_string()));
    let _ = b.next(AgentEvent::Line("run".to_string()));
    let _ = b.next(AgentEvent::ModelReply(reply("", vec![call("run_command", vec![])])));
    let _ = b.next(AgentEvent::CommandFinished(Ok(ExecutionResult {
        stdout: String::new(),
        stderr: "killed".to_string(),
        exit_code: None,
    })));
    assert_eq!(b.session().history[2].content, "Stdout: \nStderr: killed\nExit Code: None");
}

#[test]
fn agent_limits() {
    let r = citadel::agent::agent_runner();
    assert_eq!(r.timeout_secs(), 10);
    assert_eq!(r.max_memory_bytes(), Some(512 * 1024 * 1024));
    assert_eq!(r.max_output_bytes(), 1024 * 1024);
}

#[test]
fn resumed_session_recalls_last_message() {
    let mut s = Session::new("old".to_string());
    s.history.push(Message::new(Role::User, "hello".to_string()));
    s.history.push(Message::new(Role::Assistant, "x".repeat(70)));
    let (a, turn) = Agent::start(s);
    assert_eq!(
        shown(&turn.effects),
        vec!["Resuming session...".to_string(), format!("Last message (Assistant): {}...", "x".repeat(50))]
    );
    assert!(matches!(turn.wait, Wait::CallModel));
    assert_eq!(a.session().id, "old");
    let mut s = Session::new("old".to_string());
    s.history.push(Message::new(Role::Tool, "short".to_string()));
    let (_, turn) = Agent::start(s);
    assert_eq!(shown(&turn.effects)[1], "Last message (Tool): short...");
}
