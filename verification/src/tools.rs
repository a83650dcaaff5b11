use vstd::prelude::*;
use vstd::string::StringExecFns;
use crate::session::ArgValue;
use crate::session::ToolCall;
use crate::text::decimal;
use crate::text::push_decimal;
use crate::text::text_equals;

verus! {

/// The start of the instructions that introduce the agent to the model, up
/// to the list of tools.
pub const PROMPT_HEAD: &'static str = "You are the Reagis Sentinel, a secure AI agent.\n    You operate inside an isolated \"Citadel\" sandbox.\n\n    To interact with the filesystem or run commands, you MUST respond with a raw JSON object.\n    Do not include any conversational text when calling a tool.\n\n    AVAILABLE TOOLS:\n";

/// The end of the instructions, after the list of tools.
pub const PROMPT_TAIL: &'static str = "\n    After you receive an 'OBSERVATION' from the system, analyze it and continue or finish.";

/// The tools that the instructions show the model, each with an example
/// value (as JSON text) for each of its parameters, in the order shown.
pub open spec fn prompt_examples() -> Seq<(Seq<char>, Seq<(Seq<char>, Seq<char>)>)> {
    seq![
        ("write_file"@, seq![("path"@, "\"script.py\""@), ("content"@, "\"print('hello')\""@)]),
        ("read_file"@, seq![("path"@, "\"data.txt\""@)]),
        ("run_command"@, seq![("program"@, "\"python3\""@), ("args"@, "[\"script.py\"]"@)]),
    ]
}

/// A parameter with its example value, as JSON: `"key": value`.
pub open spec fn param_entry(p: (Seq<char>, Seq<char>)) -> Seq<char> {
    "\""@ + p.0 + "\": "@ + p.1
}

/// The parameters with their example values, separated by ", ".
pub open spec fn params_text(ps: Seq<(Seq<char>, Seq<char>)>) -> Seq<char>
    decreases ps.len(),
{
    if ps.len() == 0 {
        seq![]
    } else if ps.len() == 1 {
        param_entry(ps[0])
    } else {
        params_text(ps.drop_last()) + ", "@ + param_entry(ps.last())
    }
}

/// The line that shows the model tool number `n` with example arguments:
/// `    n. {"tool": "name", "parameters": {...}}`.
pub open spec fn example_line(n: nat, e: (Seq<char>, Seq<(Seq<char>, Seq<char>)>)) -> Seq<char> {
    "    "@ + decimal(n) + ". {\"tool\": \""@ + e.0 + "\", \"parameters\": {"@ + params_text(e.1) + "}}\n"@
}

/// The lines of the numbered list of tools.
pub open spec fn example_lines(es: Seq<(Seq<char>, Seq<(Seq<char>, Seq<char>)>)>) -> Seq<char>
    decreases es.len(),
{
    if es.len() == 0 {
        seq![]
    } else {
        example_lines(es.drop_last()) + example_line(es.len(), es.last())
    }
}

/// The instructions that introduce the agent to the model.
pub open spec fn system_prompt() -> Seq<char> {
    PROMPT_HEAD@ + example_lines(prompt_examples()) + PROMPT_TAIL@
}

/// The parameter names of each offered tool, in the order of
/// `offered_tool_names`.
pub open spec fn offered_tool_params() -> Seq<Seq<Seq<char>>> {
    seq![seq!["path"@], seq!["path"@, "content"@], seq!["program"@, "args"@]]
}

/// The keys of a list of parameters with example values.
pub open spec fn param_keys(ps: Seq<(Seq<char>, Seq<char>)>) -> Seq<Seq<char>> {
    ps.map_values(|p: (Seq<char>, Seq<char>)| p.0)
}

fn append_example(s: &mut String, n: u64, name: &str, params: &[(&str, &str)])
    ensures
        final(s)@ == old(s)@ + example_line(
            n as nat,
            (name@, params@.map_values(|p: (&str, &str)| (p.0@, p.1@))),
        ),
{
    let ghost ps = params@.map_values(|p: (&str, &str)| (p.0@, p.1@));
    s.append("    ");
    push_decimal(s, n);
    s.append(". {\"tool\": \"");
    s.append(name);
    s.append("\", \"parameters\": {");
    let ghost before = s@;
    let mut i: usize = 0;
    while i < params.len()
        invariant
            i <= params@.len(),
            ps == params@.map_values(|p: (&str, &str)| (p.0@, p.1@)),
            s@ == before + params_text(ps.take(i as int)),
        decreases params.len() - i,
    {
        let (k, v) = params[i];
        proof {
            assert(ps.take(i + 1).drop_last() =~= ps.take(i as int));
            assert(ps.take(i + 1).last() == (k@, v@));
            if i == 0 {
                assert(ps.take(0) =~= Seq::<(Seq<char>, Seq<char>)>::empty());
            }
        }
        if i > 0 {
            s.append(", ");
        }
        s.append("\"");
        s.append(k);
        s.append("\": ");
        s.append(v);
        i = i + 1;
        assert(s@ =~= before + params_text(ps.take(i as int)));
    }
    assert(ps.take(params@.len() as int) =~= ps);
    s.append("}}\n");
    assert(final(s)@ =~= old(s)@ + example_line(n as nat, (name@, ps)));
}

/// The instructions that introduce the agent to the model: what it is, how
/// to call a tool, and an example call of each tool it is offered.
pub fn get_citadel_system_prompt() -> (r: String)
    ensures
        r@ == system_prompt(),
{
    let ghost es = prompt_examples();
    let write_params: [(&str, &str); 2] = [("path", "\"script.py\""), ("content", "\"print('hello')\"")];
    let read_params: [(&str, &str); 1] = [("path", "\"data.txt\"")];
    let run_params: [(&str, &str); 2] = [("program", "\"python3\""), ("args", "[\"script.py\"]")];
    let mut s = String::from_str(PROMPT_HEAD);
    let ghost head = s@;
    append_example(&mut s, 1, "write_file", write_params.as_slice());
    let ghost one = s@;
    append_example(&mut s, 2, "read_file", read_params.as_slice());
    let ghost two = s@;
    append_example(&mut s, 3, "run_command", run_params.as_slice());
    let ghost three = s@;
    s.append(PROMPT_TAIL);
    proof {
        assert(write_params@.map_values(|p: (&str, &str)| (p.0@, p.1@)) =~= es[0].1);
        assert(read_params@.map_values(|p: (&str, &str)| (p.0@, p.1@)) =~= es[1].1);
        assert(run_params@.map_values(|p: (&str, &str)| (p.0@, p.1@)) =~= es[2].1);
        assert(es.take(1).drop_last() =~= es.take(0));
        assert(es.take(2).drop_last() =~= es.take(1));
        assert(es.take(3).drop_last() =~= es.take(2));
        assert(es.take(3) =~= es);
        assert(example_lines(es.take(0)) =~= Seq::<char>::empty());
        assert(example_lines(es.take(1)) == example_line(1, es[0]));
        assert(one =~= head + example_lines(es.take(1)));
        assert(two =~= head + example_lines(es.take(2)));
        assert(three =~= head + example_lines(es));
    }
    s
}

/// The kind of value a tool parameter takes.
#[derive(PartialEq, Eq, Structural, Clone, Copy, Debug)]
pub enum ParamKind {
    /// A text.
    Text,
    /// A list of texts.
    TextList,
}

/// A parameter of a tool; every parameter of the agent's tools is required.
pub struct ToolParam {
    pub name: String,
    pub kind: ParamKind,
}

/// A tool that the model is offered.
pub struct ToolSpec {
    pub name: String,
    pub description: String,
    pub params: Vec<ToolParam>,
}

pub open spec fn param_is(p: ToolParam, name: Seq<char>, kind: ParamKind) -> bool {
    p.name@ == name && p.kind == kind
}

pub open spec fn tool_is(t: ToolSpec, name: Seq<char>, description: Seq<char>) -> bool {
    t.name@ == name && t.description@ == description
}

/// The names of a tool's parameters.
pub open spec fn param_names(ps: Seq<ToolParam>) -> Seq<Seq<char>> {
    ps.map_values(|p: ToolParam| p.name@)
}

/// The names of the tools that the model is offered, in order.
pub open spec fn offered_tool_names() -> Seq<Seq<char>> {
    seq!["read_file"@, "write_file"@, "run_command"@]
}

fn param(name: &str, kind: ParamKind) -> (p: ToolParam)
    ensures
        param_is(p, name@, kind),
{
    ToolParam { name: String::from_str(name), kind }
}

/// The tools that the model is offered: reading a file, writing a file,
/// and running a command, each with its required parameters.
pub fn citadel_tools() -> (r: Vec<ToolSpec>)
    ensures
        r@.len() == 3,
        forall|i: int| 0 <= i < 3 ==> #[trigger] r@[i].name@ == offered_tool_names()[i],
        forall|i: int| 0 <= i < 3 ==> #[trigger] param_names(r@[i].params@) == offered_tool_params()[i],
        tool_is(r@[0], "read_file"@, "Read content from a file in the secure sandbox"@),
        r@[0].params@.len() == 1,
        param_is(r@[0].params@[0], "path"@, ParamKind::Text),
        tool_is(r@[1], "write_file"@, "Write content to a file in the secure sandbox"@),
        r@[1].params@.len() == 2,
        param_is(r@[1].params@[0], "path"@, ParamKind::Text),
        param_is(r@[1].params@[1], "content"@, ParamKind::Text),
        tool_is(r@[2], "run_command"@, "Execute a command securely within the sandbox."@),
        r@[2].params@.len() == 2,
        param_is(r@[2].params@[0], "program"@, ParamKind::Text),
        param_is(r@[2].params@[1], "args"@, ParamKind::TextList),
{
    let mut read_params: Vec<ToolParam> = Vec::new();
    read_params.push(param("path", ParamKind::Text));
    let mut write_params: Vec<ToolParam> = Vec::new();
    write_params.push(param("path", ParamKind::Text));
    write_params.push(param("content", ParamKind::Text));
    let mut run_params: Vec<ToolParam> = Vec::new();
    run_params.push(param("program", ParamKind::Text));
    run_params.push(param("args", ParamKind::TextList));
    let mut r: Vec<ToolSpec> = Vec::new();
    r.push(
        ToolSpec {
            name: String::from_str("read_file"),
            description: String::from_str("Read content from a file in the secure sandbox"),
            params: read_params,
        },
    );
    r.push(
        ToolSpec {
            name: String::from_str("write_file"),
            description: String::from_str("Write content to a file in the secure sandbox"),
            params: write_params,
        },
    );
    r.push(
        ToolSpec {
            name: String::from_str("run_command"),
            description: String::from_str("Execute a command securely within the sandbox."),
            params: run_params,
        },
    );
    r
}

/// What a tool call asks the agent to do.
pub enum ToolRequest {
    WriteFile { path: String, content: String },
    ReadFile { path: String },
    RunCommand { program: String, args: Vec<String> },
    /// A tool the agent does not have.
    Unknown,
}

/// The value of the first argument named `key`, if any.
pub open spec fn lookup(args: Seq<(String, ArgValue)>, key: Seq<char>) -> Option<ArgValue>
    decreases args.len(),
{
    if args.len() == 0 {
        None
    } else if args[0].0@ == key {
        Some(args[0].1)
    } else {
        lookup(args.drop_first(), key)
    }
}

/// An argument read as a text: its text, or "" when it is missing or not a
/// text.
pub open spec fn text_arg(args: Seq<(String, ArgValue)>, key: Seq<char>) -> Seq<char> {
    match lookup(args, key) {
        Some(ArgValue::Text(s)) => s@,
        _ => seq![],
    }
}

/// The texts of a list item: its text, or "" when it is not a text.
pub open spec fn item_text(item: Option<String>) -> Seq<char> {
    match item {
        Some(s) => s@,
        None => seq![],
    }
}

/// An argument read as a list of texts: its items, each read as a text, or
/// no items when it is missing or not a list.
pub open spec fn list_arg(args: Seq<(String, ArgValue)>, key: Seq<char>) -> Seq<Seq<char>> {
    match lookup(args, key) {
        Some(ArgValue::List(items)) => items@.map_values(|x: Option<String>| item_text(x)),
        _ => seq![],
    }
}

/// The texts of a list of strings.
pub open spec fn texts(v: Seq<String>) -> Seq<Seq<char>> {
    v.map_values(|s: String| s@)
}

/// What a tool call asks for, by the tool's name and its arguments.
pub open spec fn requested(call: ToolCall, req: ToolRequest) -> bool {
    let args = call.arguments@;
    if call.name@ == "write_file"@ {
        req matches ToolRequest::WriteFile { path, content } && path@ == text_arg(args, "path"@)
            && content@ == text_arg(args, "content"@)
    } else if call.name@ == "read_file"@ {
        req matches ToolRequest::ReadFile { path } && path@ == text_arg(args, "path"@)
    } else if call.name@ == "run_command"@ {
        req matches ToolRequest::RunCommand { program, args: list } && program@ == text_arg(
            args,
            "program"@,
        ) && texts(list@) == list_arg(args, "args"@)
    } else {
        req is Unknown
    }
}

fn find_arg(args: &Vec<(String, ArgValue)>, key: &str) -> (r: Option<usize>)
    ensures
        match r {
            Some(i) => i < args@.len() && lookup(args@, key@) == Some(args@[i as int].1),
            None => lookup(args@, key@) is None,
        },
{
    let mut i: usize = 0;
    assert(args@.skip(0) =~= args@);
    while i < args.len()
        invariant
            i <= args@.len(),
            lookup(args@, key@) == lookup(args@.skip(i as int), key@),
        decreases args.len() - i,
    {
        assert(args@.skip(i as int)[0] == args@[i as int]);
        if text_equals(args[i].0.as_str(), key) {
            return Some(i);
        }
        assert(args@.skip(i as int).drop_first() =~= args@.skip(i + 1));
        i = i + 1;
    }
    None
}

fn text_argument(args: &Vec<(String, ArgValue)>, key: &str) -> (r: String)
    ensures
        r@ == text_arg(args@, key@),
{
    match find_arg(args, key) {
        Some(i) => match &args[i].1 {
            ArgValue::Text(s) => s.clone(),
            _ => String::new(),
        },
        None => String::new(),
    }
}

fn list_argument(args: &Vec<(String, ArgValue)>, key: &str) -> (r: Vec<String>)
    ensures
        texts(r@) == list_arg(args@, key@),
{
    let mut r: Vec<String> = Vec::new();
    match find_arg(args, key) {
        Some(i) => match &args[i].1 {
            ArgValue::List(items) => {
                let mut j: usize = 0;
                while j < items.len()
                    invariant
                        j <= items@.len(),
                        texts(r@) == items@.take(j as int).map_values(
                            |x: Option<String>| item_text(x),
                        ),
                    decreases items.len() - j,
                {
                    let t = match &items[j] {
                        Some(s) => s.clone(),
                        None => String::new(),
                    };
                    assert(t@ == item_text(items@[j as int]));
                    let ghost before = r@;
                    r.push(t);
                    assert(items@.take(j + 1) =~= items@.take(j as int).push(items@[j as int]));
                    assert(r@ == before.push(t));
                    assert(texts(r@) =~= texts(before).push(t@));
                    assert(items@.take(j + 1).map_values(|x: Option<String>| item_text(x))
                        =~= items@.take(j as int).map_values(|x: Option<String>| item_text(x)).push(
                        item_text(items@[j as int]),
                    ));
                    j = j + 1;
                    assert(texts(r@) =~= items@.take(j as int).map_values(
                        |x: Option<String>| item_text(x),
                    ));
                }
                assert(items@.take(items@.len() as int) =~= items@);
            },
            _ => {
                assert(texts(r@) =~= Seq::<Seq<char>>::empty());
            },
        },
        None => {
            assert(texts(r@) =~= Seq::<Seq<char>>::empty());
        },
    }
    r
}

/// Reads what a tool call asks for: the tool is chosen by name, and each
/// argument is read as the tool needs it, a missing or ill-typed one as
/// empty.
pub fn tool_request(call: &ToolCall) -> (r: ToolRequest)
    ensures
        requested(*call, r),
{
    let name = call.name.as_str();
    if text_equals(name, "write_file") {
        ToolRequest::WriteFile {
            path: text_argument(&call.arguments, "path"),
            content: text_argument(&call.arguments, "content"),
        }
    } else if text_equals(name, "read_file") {
        ToolRequest::ReadFile { path: text_argument(&call.arguments, "path") }
    } else if text_equals(name, "run_command") {
        ToolRequest::RunCommand {
            program: text_argument(&call.arguments, "program"),
            args: list_argument(&call.arguments, "args"),
        }
    } else {
        ToolRequest::Unknown
    }
}

/// An argument is found by its name: the value of the first argument with
/// that name, and none when no argument has it.
pub proof fn lookup_finds_first_named(args: Seq<(String, ArgValue)>, key: Seq<char>)
    ensures
        (forall|i: int| 0 <= i < args.len() ==> (#[trigger] args[i]).0@ != key) ==> lookup(args, key) is None,
        forall|i: int|
            0 <= i < args.len() && (#[trigger] args[i]).0@ == key && (forall|j: int| 0 <= j < i ==> args[j].0@ != key)
                ==> lookup(args, key) == Some(args[i].1),
    decreases args.len(),
{
    if args.len() > 0 {
        lookup_finds_first_named(args.drop_first(), key);
        assert forall|i: int|
            0 <= i < args.len() && (#[trigger] args[i]).0@ == key && (forall|j: int| 0 <= j < i ==> args[j].0@ != key)
            implies lookup(args, key) == Some(args[i].1) by {
            if i > 0 {
                assert(args[0].0@ != key);
                assert(args.drop_first()[i - 1] == args[i]);
                assert forall|j: int| 0 <= j < i - 1 implies args.drop_first()[j].0@ != key by {
                    assert(args.drop_first()[j] == args[j + 1]);
                }
            }
        }
        if forall|i: int| 0 <= i < args.len() ==> (#[trigger] args[i]).0@ != key {
            assert(args[0].0@ != key);
            assert forall|i: int| 0 <= i < args.drop_first().len() implies (#[trigger] args.drop_first()[i]).0@ != key by {
                assert(args.drop_first()[i] == args[i + 1]);
            }
        }
    }
}

/// A text argument is the text of the first argument with its name, and
/// empty when there is none or the first is not a text.
pub proof fn text_arg_is_first_named_text(args: Seq<(String, ArgValue)>, key: Seq<char>, i: int)
    requires
        0 <= i < args.len(),
        args[i].0@ == key,
        forall|j: int| 0 <= j < i ==> args[j].0@ != key,
    ensures
        args[i].1 matches ArgValue::Text(t) ==> text_arg(args, key) == t@,
        !(args[i].1 is Text) ==> text_arg(args, key) == Seq::<char>::empty(),
{
    lookup_finds_first_named(args, key);
}

/// Each request reads its arguments by the names of the parameters that
/// the offered tool declares: reading a file takes its path from the
/// argument "path"; writing one takes "path" and "content"; running a
/// command takes "program" and the list "args".
pub proof fn requests_read_declared_parameters(call: ToolCall, req: ToolRequest)
    requires
        requested(call, req),
    ensures
        offered_tool_params()[0] == seq![seq!['p', 'a', 't', 'h']],
        offered_tool_params()[1] == seq![seq!['p', 'a', 't', 'h'], seq!['c', 'o', 'n', 't', 'e', 'n', 't']],
        offered_tool_params()[2] == seq![seq!['p', 'r', 'o', 'g', 'r', 'a', 'm'], seq!['a', 'r', 'g', 's']],
        call.name@ == offered_tool_names()[0] ==> (req matches ToolRequest::ReadFile { path } && path@ == text_arg(
            call.arguments@,
            offered_tool_params()[0][0],
        )),
        call.name@ == offered_tool_names()[1] ==> (req matches ToolRequest::WriteFile { path, content } && path@
            == text_arg(call.arguments@, offered_tool_params()[1][0]) && content@ == text_arg(
            call.arguments@,
            offered_tool_params()[1][1],
        )),
        call.name@ == offered_tool_names()[2] ==> (req matches ToolRequest::RunCommand { program, args } && program@
            == text_arg(call.arguments@, offered_tool_params()[2][0]) && texts(args@) == list_arg(
            call.arguments@,
            offered_tool_params()[2][1],
        )),
{
    reveal_strlit("read_file");
    reveal_strlit("write_file");
    reveal_strlit("run_command");
    reveal_strlit("path");
    reveal_strlit("content");
    reveal_strlit("program");
    reveal_strlit("args");
    assert("path"@ =~= seq!['p', 'a', 't', 'h']);
    assert("content"@ =~= seq!['c', 'o', 'n', 't', 'e', 'n', 't']);
    assert("program"@ =~= seq!['p', 'r', 'o', 'g', 'r', 'a', 'm']);
    assert("args"@ =~= seq!['a', 'r', 'g', 's']);
    assert(offered_tool_params()[0] =~= seq![seq!['p', 'a', 't', 'h']]);
    assert(offered_tool_params()[1] =~= seq![seq!['p', 'a', 't', 'h'], seq!['c', 'o', 'n', 't', 'e', 'n', 't']]);
    assert(offered_tool_params()[2] =~= seq![seq!['p', 'r', 'o', 'g', 'r', 'a', 'm'], seq!['a', 'r', 'g', 's']]);
    assert("read_file"@[0] != "write_file"@[0]);
    assert("run_command"@[0] != "write_file"@[0]);
    assert("run_command"@.len() != "read_file"@.len());
}

/// Every tool that the model is offered is one the agent handles, and
/// every other name is refused as unknown.
pub proof fn offered_tools_are_handled(call: ToolCall, req: ToolRequest)
    requires
        requested(call, req),
    ensures
        req is Unknown <==> !offered_tool_names().contains(call.name@),
{
    reveal_strlit("read_file");
    reveal_strlit("write_file");
    reveal_strlit("run_command");
    if offered_tool_names().contains(call.name@) {
        let i = choose|i: int| 0 <= i < 3 && offered_tool_names()[i] == call.name@;
        assert(i == 0 || i == 1 || i == 2);
    } else {
        assert(offered_tool_names()[0] == "read_file"@);
        assert(offered_tool_names()[1] == "write_file"@);
        assert(offered_tool_names()[2] == "run_command"@);
    }
}

/// The instructions show the model exactly the tools it is offered, each
/// once, and each with exactly the parameters that the tool's description
/// requires, in the same order.
pub proof fn prompt_shows_exactly_the_offered_tools()
    ensures
        prompt_examples().len() == offered_tool_names().len(),
        forall|i: int|
            0 <= i < prompt_examples().len() ==> exists|j: int|
                0 <= j < offered_tool_names().len() && #[trigger] prompt_examples()[i].0 == offered_tool_names()[j]
                    && param_keys(prompt_examples()[i].1) == offered_tool_params()[j],
        forall|j: int|
            0 <= j < offered_tool_names().len() ==> exists|i: int|
                0 <= i < prompt_examples().len() && prompt_examples()[i].0 == #[trigger] offered_tool_names()[j],
{
    let es = prompt_examples();
    let names = offered_tool_names();
    let params = offered_tool_params();
    assert(param_keys(es[0].1) =~= params[1]);
    assert(param_keys(es[1].1) =~= params[0]);
    assert(param_keys(es[2].1) =~= params[2]);
    assert(es[0].0 == names[1]);
    assert(es[1].0 == names[0]);
    assert(es[2].0 == names[2]);
    assert forall|i: int| 0 <= i < es.len() implies exists|j: int|
        0 <= j < names.len() && #[trigger] es[i].0 == names[j] && param_keys(es[i].1) == params[j] by {
        if i == 0 {
            assert(es[0].0 == names[1] && param_keys(es[0].1) == params[1]);
        } else if i == 1 {
            assert(es[1].0 == names[0] && param_keys(es[1].1) == params[0]);
        } else {
            assert(es[2].0 == names[2] && param_keys(es[2].1) == params[2]);
        }
    }
    assert forall|j: int| 0 <= j < names.len() implies exists|i: int|
        0 <= i < es.len() && es[i].0 == #[trigger] names[j] by {
        if j == 0 {
            assert(es[1].0 == names[0]);
        } else if j == 1 {
            assert(es[0].0 == names[1]);
        } else {
            assert(es[2].0 == names[2]);
        }
    }
}

} // verus!
