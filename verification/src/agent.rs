use vstd::prelude::*;
use vstd::string::StringExecFns;
use crate::display::Color;
use crate::display::Line;
use crate::display::is_labelled_line;
use crate::display::is_plain_line;
use crate::display::segment_is;
use crate::display::labelled_line;
use crate::display::single_line;
use crate::runner::CommandRunner;
use crate::runner::ExecutionResult;
use crate::runner::mib;
use crate::session::Message;
use crate::session::Role;
use crate::session::Session;
use crate::session::ToolCall;
use crate::text::char_prefix;
use crate::text::eq_ignore_ascii_case;
use crate::text::equals_ignoring_ascii_case;
use crate::text::first_chars;
use crate::text::is_trim_of;
use crate::text::push_signed_decimal;
use crate::text::signed_decimal;
use crate::text::signed_decimal_reads_back;
use crate::text::signed_value;
use crate::text::decimal_reads_back;
use crate::text::trim;
use crate::tools::ToolRequest;
use crate::tools::offered_tool_names;
use crate::tools::offered_tools_are_handled;
use crate::tools::requested;
use crate::tools::tool_request;

verus! {

/// Where the agent's conversation stands.
pub enum Phase {
    /// A new session: waiting for the user's mission objective.
    AwaitingObjective,
    /// Waiting for the model's reply to the history.
    AwaitingModel,
    /// Running the tool calls of the reply at index `reply` of the history;
    /// call `next` is being run.
    RunningTools { reply: usize, next: usize },
    /// Waiting for the user's next line after a reply.
    AwaitingUser,
    /// The session is over.
    Finished,
}

/// Something the agent does before it waits.
pub enum Effect {
    /// Show a line to the user.
    Show(Line),
    /// Save the session with its current history.
    SaveSession,
}

/// What the agent waits for.
pub enum Wait {
    /// A line typed by the user.
    ReadLine,
    /// The model's reply to the history.
    CallModel,
    /// The outcome of running a tool.
    RunTool(ToolRequest),
    /// Nothing: the session is over.
    Stop,
}

/// What the agent does in one step: its effects, in order, then what it
/// waits for.
pub struct Turn {
    pub effects: Vec<Effect>,
    pub wait: Wait,
}

/// The directory that the agent works in.
pub const WORKSPACE_DIR: &'static str = "./citadel_workspace";

/// The model that the agent talks to.
pub const MODEL_NAME: &'static str = "llama3";

/// The limits for the agent's commands: a 10 s timeout, 512 MiB of memory,
/// and 1 MiB kept of each output stream.
pub fn agent_runner() -> (r: CommandRunner)
    ensures
        r.timeout() == 10,
        r.memory_cap() == Some((512 * mib()) as u64),
        r.output_cap() == mib(),
{
    CommandRunner::new(10, Some(512), 1024 * 1024)
}

/// What the agent was waiting for.
pub enum AgentEvent {
    /// A line the user typed, as read.
    Line(String),
    /// The model's reply.
    ModelReply(Message),
    /// The result of reading or writing a file: a text either way.
    ToolFinished(Result<String, String>),
    /// The result of running a command.
    CommandFinished(Result<ExecutionResult, String>),
}

/// The agent: a session and where its conversation stands.
pub struct Agent {
    session: Session,
    phase: Phase,
    saved: Ghost<Seq<Message>>,
}

/// How `Debug` shows a role.
pub open spec fn role_name(r: Role) -> Seq<char> {
    match r {
        Role::User => "User"@,
        Role::Assistant => "Assistant"@,
        Role::System => "System"@,
        Role::Tool => "Tool"@,
    }
}

/// How `Debug` shows an optional exit code.
pub open spec fn exit_code_debug(c: Option<i32>) -> Seq<char> {
    match c {
        Some(v) => "Some("@ + signed_decimal(v as int) + ")"@,
        None => "None"@,
    }
}

/// The text that reports a tool's outcome to the model: a file operation's
/// text, success or failure alike; a command's output and exit code, or
/// its failure.
pub open spec fn tool_status(ev: AgentEvent) -> Seq<char> {
    match ev {
        AgentEvent::ToolFinished(Ok(s)) => s@,
        AgentEvent::ToolFinished(Err(e)) => e@,
        AgentEvent::CommandFinished(Ok(r)) => "Stdout: "@ + r.stdout@ + "\nStderr: "@ + r.stderr@
            + "\nExit Code: "@ + exit_code_debug(r.exit_code),
        AgentEvent::CommandFinished(Err(e)) => "Execution failed: "@ + e@,
        _ => seq![],
    }
}

pub open spec fn is_message(m: Message, role: Role, text: Seq<char>) -> bool {
    m.role == role && m.content@ == text && m.tool_calls@.len() == 0 && m.images is None && m.thinking is None
}

pub open spec fn shows_plain(e: Effect, text: Seq<char>) -> bool {
    e matches Effect::Show(l) && is_plain_line(l, text)
}

/// The prompt for the mission objective, in bold blue, on the same line.
pub open spec fn shows_objective_prompt(e: Effect) -> bool {
    e matches Effect::Show(l) && !l.ends_line && l.segments@.len() == 1 && segment_is(
        l.segments@[0],
        "Enter your mission objective: "@,
        Some(Color::Blue),
        true,
    )
}

/// The prompt for the user's next line, in bold blue, on the same line.
pub open spec fn shows_input_prompt(e: Effect) -> bool {
    e matches Effect::Show(l) && !l.ends_line && l.segments@.len() == 1 && segment_is(
        l.segments@[0],
        "> "@,
        Some(Color::Blue),
        true,
    )
}

/// The notice that a saved session is resumed, in yellow.
pub open spec fn shows_resuming(e: Effect) -> bool {
    e matches Effect::Show(l) && l.ends_line && l.segments@.len() == 1 && segment_is(
        l.segments@[0],
        "Resuming session..."@,
        Some(Color::Yellow),
        false,
    )
}

/// The reminder of the last message: its role and at most its first 50
/// characters.
pub open spec fn shows_last_message(e: Effect, m: Message) -> bool {
    shows_plain(
        e,
        "Last message ("@ + role_name(m.role) + "): "@ + char_prefix(m.content@, 50) + "..."@,
    )
}

/// The notice that the model asks for a tool, naming the tool.
pub open spec fn shows_intercept(e: Effect, name: Seq<char>) -> bool {
    e matches Effect::Show(l) && is_labelled_line(
        l,
        "Guardian Intercept: Agent wants to call"@,
        Color::Red,
        true,
        name,
        Some(Color::Cyan),
    )
}

/// The model's answer, after a bold green label.
pub open spec fn shows_reply(e: Effect, content: Seq<char>) -> bool {
    e matches Effect::Show(l) && is_labelled_line(l, "Citadel:"@, Color::Green, true, content, None)
}

/// Whether a tool name is one the agent handles.
pub open spec fn is_known_tool(name: Seq<char>) -> bool {
    offered_tool_names().contains(name)
}

/// The first call at or after `from` whose tool the agent handles, or the
/// number of calls when there is none.
pub open spec fn next_known(calls: Seq<ToolCall>, from: int) -> int
    decreases calls.len() - from,
{
    if from >= calls.len() {
        calls.len() as int
    } else if is_known_tool(calls[from].name@) {
        from
    } else {
        next_known(calls, from + 1)
    }
}

/// Whether a list of effects saves the session.
pub open spec fn saves(effects: Seq<Effect>) -> bool {
    exists|i: int| 0 <= i < effects.len() && effects[i] is SaveSession
}

/// Which events the agent takes in each phase.
pub open spec fn event_accepted(phase: Phase, ev: AgentEvent) -> bool {
    match phase {
        Phase::AwaitingObjective => ev is Line,
        Phase::AwaitingUser => ev is Line,
        Phase::AwaitingModel => ev is ModelReply,
        Phase::RunningTools { .. } => ev is ToolFinished || ev is CommandFinished,
        Phase::Finished => false,
    }
}

impl Agent {
    /// The conversation so far.
    pub closed spec fn history(&self) -> Seq<Message> {
        self.session.history@
    }

    /// The session's identifier.
    pub closed spec fn id(&self) -> Seq<char> {
        self.session.id@
    }

    pub closed spec fn phase(&self) -> Phase {
        self.phase
    }

    /// The history as it was last saved (or loaded).
    pub closed spec fn saved(&self) -> Seq<Message> {
        self.saved@
    }

    /// The tool calls of the reply at index `reply` of the history.
    pub open spec fn calls(&self, reply: int) -> Seq<ToolCall> {
        self.history()[reply].tool_calls@
    }

    /// The agent is consistent. In every phase but running tools, the saved
    /// session is the current history: nothing is lost when the agent waits
    /// on the model or on the user. While tools run, the history holds the
    /// reply and one tool message for each call before the current one, and
    /// the saved session is the history before the reply.
    pub open spec fn wf(&self) -> bool {
        match self.phase() {
            Phase::RunningTools { reply, next } => {
                &&& reply < self.history().len()
                &&& next < self.calls(reply as int).len()
                &&& self.history().len() == reply + 1 + next
                &&& forall|t: int|
                    0 <= t < next ==> (#[trigger] self.history()[reply + 1 + t]).role == Role::Tool
                &&& is_known_tool(self.calls(reply as int)[next as int].name@)
                &&& self.saved() == self.history().take(reply as int)
            },
            _ => self.saved() == self.history(),
        }
    }

    /// How the agent begins on a session: a new session asks for the
    /// mission objective; a saved one is resumed, recalling its last
    /// message, and goes to the model.
    pub open spec fn begins(&self, turn: Turn) -> bool {
        &&& self.saved() == self.history()
        &&& if self.history().len() == 0 {
            &&& self.phase() is AwaitingObjective
            &&& turn.effects@.len() == 1
            &&& shows_objective_prompt(turn.effects@[0])
            &&& turn.wait is ReadLine
        } else {
            &&& self.phase() is AwaitingModel
            &&& turn.effects@.len() == 2
            &&& shows_resuming(turn.effects@[0])
            &&& shows_last_message(turn.effects@[1], self.history().last())
            &&& turn.wait is CallModel
        }
    }

    /// How the agent goes on with the calls of the reply at `reply` of
    /// `base`, from call `from`: it names each call; a call of a tool it
    /// does not have is answered "Unknown tool" at once; it stops at the
    /// first call of a tool it has, to run it; after the last call it saves
    /// the session and goes back to the model.
    pub open spec fn continues_tools(
        &self,
        base: Seq<Message>,
        reply: int,
        from: int,
        effects: Seq<Effect>,
        wait: Wait,
    ) -> bool {
        let calls = base[reply].tool_calls@;
        let stop = next_known(calls, from);
        let k = stop - from;
        &&& self.history().len() == base.len() + k
        &&& self.history().take(base.len() as int) == base
        &&& forall|t: int|
            0 <= t < k ==> is_message(#[trigger] self.history()[base.len() + t], Role::Tool, "Unknown tool"@)
        &&& effects.len() == k + 1
        &&& forall|t: int| 0 <= t < k ==> shows_intercept(#[trigger] effects[t], calls[from + t].name@)
        &&& if stop < calls.len() {
            &&& shows_intercept(effects[k], calls[stop].name@)
            &&& self.phase() == (Phase::RunningTools { reply: reply as usize, next: stop as usize })
            &&& wait matches Wait::RunTool(req) && requested(calls[stop], req)
        } else {
            &&& effects[k] is SaveSession
            &&& self.phase() is AwaitingModel
            &&& wait is CallModel
        }
    }

    /// The user's line, trimmed, is added to the history, the session is
    /// saved, and the agent goes to the model.
    pub open spec fn takes_user_line(pre: Agent, raw: Seq<char>, post: Agent, turn: Turn) -> bool {
        &&& post.history().len() == pre.history().len() + 1
        &&& post.history().drop_last() == pre.history()
        &&& post.history().last().role == Role::User
        &&& post.history().last().tool_calls@.len() == 0
        &&& post.history().last().images is None
        &&& post.history().last().thinking is None
        &&& is_trim_of(raw, post.history().last().content@)
        &&& turn.effects@.len() == 1
        &&& turn.effects@[0] is SaveSession
        &&& post.phase() is AwaitingModel
        &&& turn.wait is CallModel
    }

    /// The session ends with a notice, the history unchanged.
    pub open spec fn ends(pre: Agent, post: Agent, turn: Turn, notice: Seq<char>) -> bool {
        &&& post.history() == pre.history()
        &&& post.phase() is Finished
        &&& turn.effects@.len() == 1
        &&& shows_plain(turn.effects@[0], notice)
        &&& turn.wait is Stop
    }

    /// One step of the agent: from `pre` and the event it waited for, the
    /// agent `post` and its turn.
    pub open spec fn advances(pre: Agent, ev: AgentEvent, post: Agent, turn: Turn) -> bool {
        &&& post.id() == pre.id()
        &&& post.saved() == (if saves(turn.effects@) {
            post.history()
        } else {
            pre.saved()
        })
        &&& match (pre.phase(), ev) {
            (Phase::AwaitingObjective, AgentEvent::Line(raw)) => if is_trim_of(raw@, seq![]) {
                Agent::ends(pre, post, turn, "Mission aborted."@)
            } else {
                Agent::takes_user_line(pre, raw@, post, turn)
            },
            (Phase::AwaitingUser, AgentEvent::Line(raw)) => if exists|t: Seq<char>|
                is_trim_of(raw@, t) && (eq_ignore_ascii_case(t, "exit"@) || eq_ignore_ascii_case(
                    t,
                    "quit"@,
                )) {
                Agent::ends(pre, post, turn, "Session saved. Exiting."@)
            } else {
                Agent::takes_user_line(pre, raw@, post, turn)
            },
            (Phase::AwaitingModel, AgentEvent::ModelReply(m)) => if m.tool_calls@.len() > 0 {
                post.continues_tools(
                    pre.history().push(m),
                    pre.history().len() as int,
                    0,
                    turn.effects@,
                    turn.wait,
                )
            } else {
                &&& post.history().len() == pre.history().len() + 1
                &&& post.history().drop_last() == pre.history()
                &&& is_message(post.history().last(), Role::Assistant, m.content@)
                &&& turn.effects@.len() == 3
                &&& shows_reply(turn.effects@[0], m.content@)
                &&& turn.effects@[1] is SaveSession
                &&& shows_input_prompt(turn.effects@[2])
                &&& post.phase() is AwaitingUser
                &&& turn.wait is ReadLine
            },
            (Phase::RunningTools { reply, next }, ev) => {
                let n = pre.history().len();
                &&& (ev is ToolFinished || ev is CommandFinished)
                &&& post.history().len() > n
                &&& post.history().take(n as int) == pre.history()
                &&& is_message(post.history()[n as int], Role::Tool, tool_status(ev))
                &&& post.continues_tools(
                    post.history().take(n as int + 1),
                    reply as int,
                    next + 1,
                    turn.effects@,
                    turn.wait,
                )
            },
            _ => false,
        }
    }
}

fn objective_prompt() -> (e: Effect)
    ensures
        shows_objective_prompt(e),
{
    Effect::Show(single_line(String::from_str("Enter your mission objective: "), Some(Color::Blue), true, false))
}

fn input_prompt() -> (e: Effect)
    ensures
        shows_input_prompt(e),
{
    Effect::Show(single_line(String::from_str("> "), Some(Color::Blue), true, false))
}

fn plain(text: &str) -> (e: Effect)
    ensures
        shows_plain(e, text@),
{
    Effect::Show(single_line(String::from_str(text), None, false, true))
}

fn append_role_name(s: &mut String, r: Role)
    ensures
        final(s)@ == old(s)@ + role_name(r),
{
    match r {
        Role::User => s.append("User"),
        Role::Assistant => s.append("Assistant"),
        Role::System => s.append("System"),
        Role::Tool => s.append("Tool"),
    }
}

fn last_message_line(m: &Message) -> (e: Effect)
    ensures
        shows_last_message(e, *m),
{
    let mut t = String::from_str("Last message (");
    append_role_name(&mut t, m.role);
    t.append("): ");
    let preview = first_chars(m.content.as_str(), 50);
    t.append(preview.as_str());
    t.append("...");
    Effect::Show(single_line(t, None, false, true))
}

fn intercept(name: &String) -> (e: Effect)
    ensures
        shows_intercept(e, name@),
{
    Effect::Show(
        labelled_line("Guardian Intercept: Agent wants to call", Color::Red, true, name.clone(), Some(Color::Cyan)),
    )
}

fn append_exit_code(s: &mut String, c: Option<i32>)
    ensures
        final(s)@ == old(s)@ + exit_code_debug(c),
{
    match c {
        Some(v) => {
            s.append("Some(");
            push_signed_decimal(s, v);
            s.append(")");
            assert(final(s)@ =~= old(s)@ + exit_code_debug(c));
        },
        None => s.append("None"),
    }
}

fn status_text(ev: AgentEvent) -> (t: String)
    requires
        ev is ToolFinished || ev is CommandFinished,
    ensures
        t@ == tool_status(ev),
{
    match ev {
        AgentEvent::ToolFinished(Ok(s)) => s,
        AgentEvent::ToolFinished(Err(e)) => e,
        AgentEvent::CommandFinished(Ok(r)) => {
            let mut t = String::from_str("Stdout: ");
            t.append(r.stdout.as_str());
            t.append("\nStderr: ");
            t.append(r.stderr.as_str());
            t.append("\nExit Code: ");
            append_exit_code(&mut t, r.exit_code);
            t
        },
        AgentEvent::CommandFinished(Err(e)) => {
            let mut t = String::from_str("Execution failed: ");
            t.append(e.as_str());
            t
        },
        _ => String::new(),
    }
}

/// Whether the user's trimmed line ends the session.
fn is_exit_word(t: &str) -> (b: bool)
    ensures
        b == (eq_ignore_ascii_case(t@, "exit"@) || eq_ignore_ascii_case(t@, "quit"@)),
{
    equals_ignoring_ascii_case(t, "exit") || equals_ignoring_ascii_case(t, "quit")
}

impl ToolRequest {
    /// Whether the request is for a tool the agent does not have.
    pub fn is_unknown(&self) -> (b: bool)
        ensures
            b == (*self is Unknown),
    {
        match self {
            ToolRequest::Unknown => true,
            _ => false,
        }
    }
}

/// A text has only one trimmed form.
proof fn lemma_trim_unique(s: Seq<char>, t1: Seq<char>, t2: Seq<char>)
    requires
        is_trim_of(s, t1),
        is_trim_of(s, t2),
    ensures
        t1 == t2,
{
    let (i1, j1) = choose|i: int, j: int|
        0 <= i <= j <= s.len() && t1 == s.subrange(i, j) && (forall|k: int|
            0 <= k < i ==> crate::text::is_white_space(#[trigger] s[k])) && (forall|k: int|
            j <= k < s.len() ==> crate::text::is_white_space(#[trigger] s[k])) && (i < j
            ==> !crate::text::is_white_space(s[i]) && !crate::text::is_white_space(s[j - 1]));
    let (i2, j2) = choose|i: int, j: int|
        0 <= i <= j <= s.len() && t2 == s.subrange(i, j) && (forall|k: int|
            0 <= k < i ==> crate::text::is_white_space(#[trigger] s[k])) && (forall|k: int|
            j <= k < s.len() ==> crate::text::is_white_space(#[trigger] s[k])) && (i < j
            ==> !crate::text::is_white_space(s[i]) && !crate::text::is_white_space(s[j - 1]));
    if i1 < j1 && i2 < j2 {
        if i1 < i2 {
            assert(crate::text::is_white_space(s[i1]));
        }
        if i2 < i1 {
            assert(crate::text::is_white_space(s[i2]));
        }
        if j1 < j2 {
            assert(crate::text::is_white_space(s[j2 - 1]));
        }
        if j2 < j1 {
            assert(crate::text::is_white_space(s[j1 - 1]));
        }
    } else if i1 < j1 {
        // t2 is empty: every character is white space
        assert(crate::text::is_white_space(s[i1])) by {
            if i1 < i2 {
            } else {
                assert(i1 >= j2);
            }
        }
    } else if i2 < j2 {
        assert(crate::text::is_white_space(s[i2])) by {
            if i2 < i1 {
            } else {
                assert(i2 >= j1);
            }
        }
    }
    assert(t1 =~= t2);
}

impl Agent {
    /// The session, with its current history.
    pub fn session(&self) -> (s: &Session)
        ensures
            s.history@ == self.history(),
            s.id@ == self.id(),
    {
        &self.session
    }

    /// Starts the agent on a session, new or loaded.
    pub fn start(session: Session) -> (r: (Agent, Turn))
        ensures
            r.0.wf(),
            r.0.history() == session.history@,
            r.0.id() == session.id@,
            r.0.begins(r.1),
    {
        let mut effects: Vec<Effect> = Vec::new();
        if session.history.len() == 0 {
            effects.push(objective_prompt());
            let agent = Agent { saved: Ghost(session.history@), session, phase: Phase::AwaitingObjective };
            (agent, Turn { effects, wait: Wait::ReadLine })
        } else {
            proof {
                reveal_strlit("Resuming session...");
            }
            effects.push(
                Effect::Show(single_line(String::from_str("Resuming session..."), Some(Color::Yellow), false, true)),
            );
            let last = session.history.len() - 1;
            effects.push(last_message_line(&session.history[last]));
            let agent = Agent { saved: Ghost(session.history@), session, phase: Phase::AwaitingModel };
            (agent, Turn { effects, wait: Wait::CallModel })
        }
    }

    /// Whether the agent takes `ev` in its present phase.
    pub fn accepts(&self, ev: &AgentEvent) -> (b: bool)
        ensures
            b == event_accepted(self.phase(), *ev),
    {
        match (&self.phase, ev) {
            (Phase::AwaitingObjective, AgentEvent::Line(_)) => true,
            (Phase::AwaitingUser, AgentEvent::Line(_)) => true,
            (Phase::AwaitingModel, AgentEvent::ModelReply(_)) => true,
            (Phase::RunningTools { .. }, AgentEvent::ToolFinished(_)) => true,
            (Phase::RunningTools { .. }, AgentEvent::CommandFinished(_)) => true,
            _ => false,
        }
    }

    fn continue_tools(&mut self, reply: usize, from: usize, effects: &mut Vec<Effect>) -> (w: Wait)
        requires
            reply < old(self).history().len(),
            from <= old(self).calls(reply as int).len(),
            old(self).history().len() == reply + 1 + from,
            forall|t: int| 0 <= t < from ==> (#[trigger] old(self).history()[reply + 1 + t]).role == Role::Tool,
            old(effects)@.len() == 0,
            old(self).saved() == old(self).history().take(reply as int),
        ensures
            final(self).continues_tools(old(self).history(), reply as int, from as int, final(effects)@, w),
            final(self).id() == old(self).id(),
            final(self).saved() == (if saves(final(effects)@) {
                final(self).history()
            } else {
                old(self).saved()
            }),
            final(self).wf(),
    {
        let ghost base = old(self).history();
        let ghost calls = base[reply as int].tool_calls@;
        let n = self.session.history[reply].tool_calls.len();
        let mut j = from;
        loop
            invariant
                from <= j <= n,
                n == calls.len(),
                base == old(self).history(),
                reply < base.len(),
                base.len() == reply + 1 + from,
                calls == base[reply as int].tool_calls@,
                self.id() == old(self).id(),
                self.saved() == old(self).saved(),
                self.saved() == base.take(reply as int),
                self.history().len() == base.len() + (j - from),
                self.history().take(base.len() as int) == base,
                forall|t: int| 0 <= t < j ==> (#[trigger] self.history()[reply + 1 + t]).role == Role::Tool,
                forall|t: int|
                    0 <= t < j - from ==> is_message(#[trigger] self.history()[base.len() + t], Role::Tool, "Unknown tool"@),
                effects@.len() == j - from,
                forall|t: int| 0 <= t < j - from ==> shows_intercept(#[trigger] effects@[t], calls[from + t].name@),
                next_known(calls, from as int) == next_known(calls, j as int),
            decreases n - j,
        {
            assert(self.history()[reply as int] == base[reply as int]) by {
                assert(self.history().take(base.len() as int)[reply as int] == self.history()[reply as int]);
            }
            assert(self.history().take(reply as int) =~= base.take(reply as int)) by {
                assert forall|i: int| 0 <= i < reply implies self.history()[i] == base[i] by {
                    assert(self.history().take(base.len() as int)[i] == self.history()[i]);
                }
            }
            if j == n {
                let ghost before = effects@;
                effects.push(Effect::SaveSession);
                self.phase = Phase::AwaitingModel;
                self.saved = Ghost(self.session.history@);
                proof {
                    assert(next_known(calls, j as int) == n);
                    assert(effects@[j - from] is SaveSession);
                    assert forall|t: int| 0 <= t < j - from implies shows_intercept(#[trigger] effects@[t], calls[from + t].name@) by {
                        assert(effects@[t] == before[t]);
                    }
                    assert(saves(effects@));
                }
                return Wait::CallModel;
            }
            let call = &self.session.history[reply].tool_calls[j];
            let shown = intercept(&call.name);
            let req = tool_request(call);
            proof {
                offered_tools_are_handled(calls[j as int], req);
            }
            let ghost before = effects@;
            effects.push(shown);
            proof {
                assert forall|t: int| 0 <= t < j - from implies shows_intercept(#[trigger] effects@[t], calls[from + t].name@) by {
                    assert(effects@[t] == before[t]);
                }
            }
            if req.is_unknown() {
                let ghost hist = self.history();
                self.session.history.push(Message::new(Role::Tool, String::from_str("Unknown tool")));
                proof {
                    assert(self.history() == hist.push(self.history().last()));
                    assert(self.history().take(base.len() as int) =~= base) by {
                        assert forall|i: int| 0 <= i < base.len() implies self.history()[i] == base[i] by {
                            assert(hist.take(base.len() as int)[i] == hist[i]);
                        }
                    }
                    assert forall|t: int|
                        0 <= t < j + 1 - from implies is_message(#[trigger] self.history()[base.len() + t], Role::Tool, "Unknown tool"@) by {
                        if t < j - from {
                            assert(self.history()[base.len() + t] == hist[base.len() + t]);
                        }
                    }
                    assert forall|t: int| 0 <= t < j + 1 implies (#[trigger] self.history()[reply + 1 + t]).role == Role::Tool by {
                        if t < j {
                            assert(self.history()[reply + 1 + t] == hist[reply + 1 + t]);
                        }
                    }
                    assert(!is_known_tool(calls[j as int].name@));
                    assert(next_known(calls, j as int) == next_known(calls, j + 1));
                    assert(!saves(effects@)) by {
                        assert forall|i: int| 0 <= i < effects@.len() implies !(effects@[i] is SaveSession) by {
                            if i < j - from {
                                assert(shows_intercept(effects@[i], calls[from + i].name@));
                            }
                        }
                    }
                }
                j = j + 1;
            } else {
                self.phase = Phase::RunningTools { reply, next: j };
                proof {
                    assert(is_known_tool(calls[j as int].name@));
                    assert(next_known(calls, j as int) == j);
                    assert(!saves(effects@)) by {
                        assert forall|i: int| 0 <= i < effects@.len() implies !(effects@[i] is SaveSession) by {
                            if i < j - from {
                                assert(shows_intercept(effects@[i], calls[from + i].name@));
                            }
                        }
                    }
                }
                return Wait::RunTool(req);
            }
        }
    }

    /// Takes the event the agent waited for and says what it does next.
    pub fn next(&mut self, ev: AgentEvent) -> (turn: Turn)
        requires
            old(self).wf(),
            event_accepted(old(self).phase(), ev),
        ensures
            final(self).wf(),
            Agent::advances(*old(self), ev, *final(self), turn),
    {
        let mut effects: Vec<Effect> = Vec::new();
        let ghost event = ev;
        match ev {
            AgentEvent::Line(raw) => {
                let input = trim(raw.as_str());
                let ends = match self.phase {
                    Phase::AwaitingObjective => input.as_str().unicode_len() == 0,
                    _ => is_exit_word(input.as_str()),
                };
                proof {
                    if self.phase() is AwaitingObjective {
                        if ends {
                            assert(input@ =~= Seq::<char>::empty());
                        } else if is_trim_of(raw@, seq![]) {
                            lemma_trim_unique(raw@, seq![], input@);
                        }
                    } else {
                        if ends {
                            assert(is_trim_of(raw@, input@) && (eq_ignore_ascii_case(input@, "exit"@) || eq_ignore_ascii_case(input@, "quit"@)));
                        } else {
                            assert forall|t: Seq<char>| is_trim_of(raw@, t) implies !(eq_ignore_ascii_case(t, "exit"@) || eq_ignore_ascii_case(t, "quit"@)) by {
                                lemma_trim_unique(raw@, t, input@);
                            }
                        }
                    }
                }
                if ends {
                    let shown = match self.phase {
                        Phase::AwaitingObjective => plain("Mission aborted."),
                        _ => plain("Session saved. Exiting."),
                    };
                    effects.push(shown);
                    self.phase = Phase::Finished;
                    proof {
                        assert(!(effects@[0] is SaveSession));
                        assert(!saves(effects@));
                        assert(self.history() == old(self).history());
                    }
                    let turn = Turn { effects, wait: Wait::Stop };
                    proof {
                        if old(self).phase() is AwaitingObjective {
                            assert(is_trim_of(raw@, seq![]));
                            assert(Agent::ends(*old(self), *self, turn, "Mission aborted."@));
                        } else {
                            assert(Agent::ends(*old(self), *self, turn, "Session saved. Exiting."@));
                            assert(exists|t: Seq<char>|
                                is_trim_of(raw@, t) && (eq_ignore_ascii_case(t, "exit"@) || eq_ignore_ascii_case(t, "quit"@)));
                        }
                        assert(Agent::advances(*old(self), AgentEvent::Line(raw), *self, turn));
                    }
                    turn
                } else {
                    self.session.history.push(Message::new(Role::User, input));
                    effects.push(Effect::SaveSession);
                    self.phase = Phase::AwaitingModel;
                    self.saved = Ghost(self.session.history@);
                    proof {
                        assert(self.history().drop_last() =~= old(self).history());
                        assert(effects@[0] is SaveSession);
                        assert(saves(effects@));
                    }
                    let turn = Turn { effects, wait: Wait::CallModel };
                    proof {
                        assert(Agent::takes_user_line(*old(self), raw@, *self, turn));
                        if old(self).phase() is AwaitingObjective {
                            assert(!is_trim_of(raw@, seq![]));
                        } else {
                            assert(!exists|t: Seq<char>|
                                is_trim_of(raw@, t) && (eq_ignore_ascii_case(t, "exit"@) || eq_ignore_ascii_case(t, "quit"@)));
                        }
                        assert(Agent::advances(*old(self), AgentEvent::Line(raw), *self, turn));
                    }
                    turn
                }
            },
            AgentEvent::ModelReply(m) => {
                if m.tool_calls.len() > 0 {
                    let reply = self.session.history.len();
                    self.session.history.push(m);
                    assert(self.history().take(reply as int) =~= old(self).history());
                    let wait = self.continue_tools(reply, 0, &mut effects);
                    let turn = Turn { effects, wait };
                    assert(Agent::advances(*old(self), event, *self, turn));
                    turn
                } else {
                    let content = m.content;
                    effects.push(
                        Effect::Show(labelled_line("Citadel:", Color::Green, true, content.clone(), None)),
                    );
                    self.session.history.push(Message::new(Role::Assistant, content));
                    effects.push(Effect::SaveSession);
                    effects.push(input_prompt());
                    self.phase = Phase::AwaitingUser;
                    self.saved = Ghost(self.session.history@);
                    proof {
                        assert(self.history().drop_last() =~= old(self).history());
                        assert(effects@[1] is SaveSession);
                        assert(saves(effects@));
                    }
                    let turn = Turn { effects, wait: Wait::ReadLine };
                    assert(Agent::advances(*old(self), event, *self, turn));
                    turn
                }
            },
            other => {
                let (reply, next) = match self.phase {
                    Phase::RunningTools { reply, next } => (reply, next),
                    _ => (0, 0),
                };
                let ncalls = self.session.history[reply].tool_calls.len();
                assert(next < ncalls);
                assert(other == event);
                let status = status_text(other);
                let ghost hist = self.history();
                self.session.history.push(Message::new(Role::Tool, status));
                proof {
                    assert(self.history() == hist.push(self.history().last()));
                    assert(self.history().take(reply as int) =~= hist.take(reply as int));
                    assert(self.history().take(hist.len() as int) =~= hist);
                    assert forall|t: int| 0 <= t < next + 1 implies (#[trigger] self.history()[reply + 1 + t]).role == Role::Tool by {
                        if t < next {
                            assert(self.history()[reply + 1 + t] == hist[reply + 1 + t]);
                        }
                    }
                    assert(self.history()[reply as int] == hist[reply as int]);
                }
                let ghost base = self.history();
                let wait = self.continue_tools(reply, next + 1, &mut effects);
                let turn = Turn { effects, wait };
                proof {
                    let n = hist.len() as int;
                    lemma_next_known_bounds(base[reply as int].tool_calls@, next + 1);
                    assert(self.history().take(n + 1) == base);
                    assert(self.history()[n] == base[n]);
                    assert(self.history().take(n) =~= hist) by {
                        assert forall|i: int| 0 <= i < n implies self.history()[i] == hist[i] by {
                            assert(self.history().take(n + 1)[i] == self.history()[i]);
                            assert(base[i] == hist[i]);
                        }
                    }
                }
                assert(Agent::advances(*old(self), event, *self, turn));
                turn
            },
        }
    }
}

/// Once every tool call of a reply is answered and the agent goes back to
/// the model, the history holds the reply followed by exactly one tool
/// message per call, in the order of the calls.
pub proof fn each_tool_call_is_answered_once(pre: Agent, ev: AgentEvent, post: Agent, turn: Turn)
    requires
        pre.wf(),
        Agent::advances(pre, ev, post, turn),
        pre.phase() is RunningTools,
        post.phase() is AwaitingModel,
    ensures
        ({
            let reply = pre.phase()->reply as int;
            &&& post.history().len() == reply + 1 + pre.calls(reply).len()
            &&& post.history().take(reply + 1) == pre.history().take(reply + 1)
            &&& forall|t: int|
                0 <= t < pre.calls(reply).len() ==> (#[trigger] post.history()[reply + 1 + t]).role == Role::Tool
        }),
{
    let reply = pre.phase()->reply as int;
    let next = pre.phase()->next as int;
    let n = pre.history().len();
    let base = post.history().take(n as int + 1);
    let calls = base[reply].tool_calls@;
    assert(base[reply] == pre.history()[reply]);
    let stop = next_known(calls, next + 1);
    lemma_next_known_bounds(calls, next + 1);
    assert(stop == calls.len());
    assert forall|t: int| 0 <= t < calls.len() implies (#[trigger] post.history()[reply + 1 + t]).role == Role::Tool by {
        if t < next {
            assert(post.history()[reply + 1 + t] == post.history().take(n as int)[reply + 1 + t]);
        } else if t == next {
        } else {
            assert(is_message(post.history()[base.len() + (t - next - 1)], Role::Tool, "Unknown tool"@));
        }
    }
    assert(post.history().take(reply + 1) =~= pre.history().take(reply + 1)) by {
        assert forall|i: int| 0 <= i < reply + 1 implies post.history()[i] == pre.history()[i] by {
            assert(post.history()[i] == post.history().take(n as int)[i]);
        }
    }
}

/// The agent only adds to the conversation: every step keeps the history
/// it had as a prefix of the new one.
pub proof fn history_only_grows(pre: Agent, ev: AgentEvent, post: Agent, turn: Turn)
    requires
        Agent::advances(pre, ev, post, turn),
    ensures
        pre.history().is_prefix_of(post.history()),
{
    let n = pre.history().len() as int;
    match (pre.phase(), ev) {
        (Phase::AwaitingModel, AgentEvent::ModelReply(m)) => {
            if m.tool_calls@.len() > 0 {
                let base = pre.history().push(m);
                assert(base[n] == m);
                lemma_next_known_bounds(m.tool_calls@, 0);
                assert(post.history().take(base.len() as int) == base);
                assert forall|i: int| 0 <= i < n implies post.history()[i] == pre.history()[i] by {
                    assert(post.history().take(base.len() as int)[i] == post.history()[i]);
                    assert(base[i] == pre.history()[i]);
                }
            } else {
                assert forall|i: int| 0 <= i < n implies post.history()[i] == pre.history()[i] by {
                    assert(post.history().drop_last()[i] == post.history()[i]);
                }
            }
        },
        (Phase::RunningTools { .. }, _) => {
            assert forall|i: int| 0 <= i < n implies post.history()[i] == pre.history()[i] by {
                assert(post.history().take(n)[i] == post.history()[i]);
            }
        },
        _ => {
            if post.history().len() == n + 1 {
                assert forall|i: int| 0 <= i < n implies post.history()[i] == pre.history()[i] by {
                    assert(post.history().drop_last()[i] == post.history()[i]);
                }
            }
        },
    }
    assert(pre.history() =~= post.history().subrange(0, n));
}

/// How `Debug` names each role, spelled out; no two roles share a name.
pub proof fn role_names_are_debug_names()
    ensures
        role_name(Role::User) == seq!['U', 's', 'e', 'r'],
        role_name(Role::Assistant) == seq!['A', 's', 's', 'i', 's', 't', 'a', 'n', 't'],
        role_name(Role::System) == seq!['S', 'y', 's', 't', 'e', 'm'],
        role_name(Role::Tool) == seq!['T', 'o', 'o', 'l'],
        forall|a: Role, b: Role| #[trigger] role_name(a) == #[trigger] role_name(b) ==> a == b,
{
    reveal_strlit("User");
    reveal_strlit("Assistant");
    reveal_strlit("System");
    reveal_strlit("Tool");
    assert(role_name(Role::User) =~= seq!['U', 's', 'e', 'r']);
    assert(role_name(Role::Assistant) =~= seq!['A', 's', 's', 'i', 's', 't', 'a', 'n', 't']);
    assert(role_name(Role::System) =~= seq!['S', 'y', 's', 't', 'e', 'm']);
    assert(role_name(Role::Tool) =~= seq!['T', 'o', 'o', 'l']);
    assert forall|a: Role, b: Role| #[trigger] role_name(a) == #[trigger] role_name(b) implies a == b by {
        if a != b {
            assert(role_name(a)[0] != role_name(b)[0] || role_name(a).len() != role_name(b).len());
        }
    }
}

/// The reported exit code reads back as the code: "Some(" followed by the
/// code's decimal notation and ")", or "None" when there is no code.
pub proof fn exit_code_report_reads_back(v: i32)
    ensures
        ({
            let t = exit_code_debug(Some(v));
            &&& t.len() >= 7
            &&& t.take(5) == seq!['S', 'o', 'm', 'e', '(']
            &&& t.last() == ')'
            &&& signed_value(t.subrange(5, t.len() - 1)) == v
        }),
        exit_code_debug(None) == seq!['N', 'o', 'n', 'e'],
{
    reveal_strlit("Some(");
    reveal_strlit(")");
    reveal_strlit("None");
    let d = signed_decimal(v as int);
    let t = exit_code_debug(Some(v));
    signed_decimal_reads_back(v as int);
    if v < 0 {
        decimal_reads_back((-v) as nat);
    } else {
        decimal_reads_back(v as nat);
    }
    assert(t =~= seq!['S', 'o', 'm', 'e', '('] + d + seq![')']);
    assert(t.subrange(5, t.len() - 1) =~= d);
    assert(t.take(5) =~= seq!['S', 'o', 'm', 'e', '(']);
    assert(exit_code_debug(None) =~= seq!['N', 'o', 'n', 'e']);
}

/// Different exit codes (or a code and none) are reported differently.
pub proof fn exit_code_reports_differ(a: Option<i32>, b: Option<i32>)
    requires
        a != b,
    ensures
        exit_code_debug(a) != exit_code_debug(b),
{
    match (a, b) {
        (Some(x), Some(y)) => {
            exit_code_report_reads_back(x);
            exit_code_report_reads_back(y);
        },
        (Some(x), None) => {
            exit_code_report_reads_back(x);
            assert(exit_code_debug(a)[0] != exit_code_debug(b)[0]) by {
                assert(exit_code_debug(a).take(5)[0] == exit_code_debug(a)[0]);
            }
        },
        (None, Some(y)) => {
            exit_code_report_reads_back(y);
            assert(exit_code_debug(a)[0] != exit_code_debug(b)[0]) by {
                assert(exit_code_debug(b).take(5)[0] == exit_code_debug(b)[0]);
            }
        },
        (None, None) => {},
    }
}

/// Whatever the agent waits for, it takes every event that answers it: any
/// line when it waits for a line, any reply when it waits for the model,
/// any tool result when it waits for a tool; and nothing once it stops.
pub open spec fn waits_are_answered(phase: Phase, wait: Wait) -> bool {
    &&& wait is ReadLine ==> forall|s: String| #[trigger] event_accepted(phase, AgentEvent::Line(s))
    &&& wait is CallModel ==> forall|m: Message| #[trigger] event_accepted(phase, AgentEvent::ModelReply(m))
    &&& wait is RunTool ==> (forall|r: Result<String, String>| #[trigger] event_accepted(phase, AgentEvent::ToolFinished(r)))
        && (forall|r: Result<ExecutionResult, String>| #[trigger] event_accepted(phase, AgentEvent::CommandFinished(r)))
    &&& wait is Stop ==> forall|e: AgentEvent| !#[trigger] event_accepted(phase, e)
}

/// The agent's first turn waits for something it then takes.
pub proof fn first_wait_is_answered(agent: Agent, turn: Turn)
    requires
        agent.begins(turn),
    ensures
        waits_are_answered(agent.phase(), turn.wait),
{
}

/// Every step leaves the agent waiting for something it then takes, so the
/// conversation never stalls on an event the agent asked for.
pub proof fn every_wait_is_answered(pre: Agent, ev: AgentEvent, post: Agent, turn: Turn)
    requires
        Agent::advances(pre, ev, post, turn),
    ensures
        waits_are_answered(post.phase(), turn.wait),
{
    if let (Phase::AwaitingModel, AgentEvent::ModelReply(m)) = (pre.phase(), ev) {
        if m.tool_calls@.len() > 0 {
            let calls = pre.history().push(m)[pre.history().len() as int].tool_calls@;
            lemma_next_known_bounds(calls, 0);
        }
    }
}

proof fn lemma_next_known_bounds(calls: Seq<ToolCall>, from: int)
    requires
        0 <= from,
    ensures
        from <= calls.len() ==> from <= next_known(calls, from) <= calls.len(),
    decreases calls.len() - from,
{
    if from < calls.len() && !is_known_tool(calls[from].name@) {
        lemma_next_known_bounds(calls, from + 1);
    }
}

} // verus!
