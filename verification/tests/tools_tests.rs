use citadel::session::ArgValue;
use citadel::session::ToolCall;
use citadel::tools::citadel_tools;
use citadel::tools::get_citadel_system_prompt;
use citadel::tools::tool_request;
use citadel::tools::ParamKind;
use citadel::tools::ToolRequest;

#[test]
fn system_prompt_text() {
    let expected = r#"You are the Reagis Sentinel, a secure AI agent.
    You operate inside an isolated "Citadel" sandbox.

    To interact with the filesystem or run commands, you MUST respond with a raw JSON object.
    Do not include any conversational text when calling a tool.

    AVAILABLE TOOLS:
    1. {"tool": "write_file", "parameters": {"path": "script.py", "content": "print('hello')"}}
    2. {"tool": "read_file", "parameters": {"path": "data.txt"}}
    3. {"tool": "run_command", "parameters": {"program": "python3", "args": ["script.py"]}}

    After you receive an 'OBSERVATION' from the system, analyze it and continue or finish."#;
    assert_eq!(get_citadel_system_prompt(), expected);
}

#[test]
fn prompt_names_the_offered_tools() {
    let prompt = get_citadel_system_prompt();
    for t in citadel_tools() {
        assert!(prompt.contains(&format!("{{\"tool\": \"{}\", \"parameters\": {{", t.name)));
        for p in &t.params {
            assert!(prompt.contains(&format!("\"{}\": ", p.name)));
        }
    }
}

#[test]
fn tool_catalog() {
    let t = citadel_tools();
    let names: Vec<&str> = t.iter().map(|x| x.name.as_str()).collect();
    assert_eq!(names, vec!["read_file", "write_file", "run_command"]);
    assert_eq!(t[0].description, "Read content from a file in the secure sandbox");
    assert_eq!(t[2].params[1].name, "args");
    assert_eq!(t[2].params[1].kind, ParamKind::TextList);
    assert_eq!(t[1].params.len(), 2);
}

fn call(name: &str, args: Vec<(&str, ArgValue)>) -> ToolCall {
    ToolCall {
        name: name.to_string(),
        arguments: args.into_iter().map(|(k, v)| (k.to_string(), v)).collect(),
        raw_arguments: "{}".to_string(),
    }
}

#[test]
fn requests_read_from_arguments() {
    match tool_request(&call("write_file", vec![("path", ArgValue::Text("a.py".into())), ("content", ArgValue::Text("x".into()))])) {
        ToolRequest::WriteFile { path, content } => {
            assert_eq!(path, "a.py");
            assert_eq!(content, "x");
        },
        _ => panic!(),
    }
    match tool_request(&call("read_file", vec![("path", ArgValue::Other)])) {
        ToolRequest::ReadFile { path } => assert_eq!(path, ""),
        _ => panic!(),
    }
    match tool_request(&call(
        "run_command",
        vec![("program", ArgValue::Text("python3".into())), ("args", ArgValue::List(vec![Some("s.py".into()), None]))],
    )) {
        ToolRequest::RunCommand { program, args } => {
            assert_eq!(program, "python3");
            assert_eq!(args, vec!["s.py".to_string(), String::new()]);
        },
        _ => panic!(),
    }
    match tool_request(&call("run_command", vec![("args", ArgValue::Text("s.py".into()))])) {
        ToolRequest::RunCommand { program, args } => {
            assert_eq!(program, "");
            assert!(args.is_empty());
        },
        _ => panic!(),
    }
}

#[test]
fn offered_tools_are_handled_and_others_unknown() {
    for t in citadel_tools() {
        assert!(!matches!(tool_request(&call(&t.name, vec![])), ToolRequest::Unknown));
    }
    assert!(matches!(tool_request(&call("delete_file", vec![])), ToolRequest::Unknown));
    assert!(matches!(tool_request(&call("Read_File", vec![])), ToolRequest::Unknown));
}
