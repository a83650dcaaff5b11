use vstd::prelude::*;
use vstd::string::StrSliceExecFns;
use vstd::string::StringExecFns;

verus! {

/// Who a message of the conversation is from.
#[derive(PartialEq, Eq, Structural, Clone, Copy, Debug)]
pub enum Role {
    User,
    Assistant,
    System,
    Tool,
}

/// A value among the arguments of a tool call, as far as the agent reads
/// it: a text, a list whose items may be texts, or anything else.
pub enum ArgValue {
    Text(String),
    List(Vec<Option<String>>),
    Other,
}

/// A call of a tool that the model asks for: the tool's name, the named
/// arguments (empty when the model gave no object of arguments), and the
/// arguments as the model wrote them, in JSON, kept so that the
/// conversation is stored as it was received.
pub struct ToolCall {
    pub name: String,
    pub arguments: Vec<(String, ArgValue)>,
    pub raw_arguments: String,
}

/// A message of the conversation; `images` are base64-encoded images
/// attached to it, and `thinking` is the model's reasoning text, when it
/// gives one.
pub struct Message {
    pub role: Role,
    pub content: String,
    pub tool_calls: Vec<ToolCall>,
    pub images: Option<Vec<String>>,
    pub thinking: Option<String>,
}

/// A conversation kept under an identifier, so that it can be resumed.
pub struct Session {
    pub id: String,
    pub history: Vec<Message>,
}

impl Message {
    /// A message with the given role and text, no tool calls, no images
    /// and no reasoning text.
    pub fn new(role: Role, content: String) -> (m: Message)
        ensures
            m.role == role,
            m.content == content,
            m.tool_calls@.len() == 0,
            m.images is None,
            m.thinking is None,
    {
        Message { role, content, tool_calls: Vec::new(), images: None, thinking: None }
    }
}

impl Session {
    /// A session with the given identifier and no history.
    pub fn new(id: String) -> (s: Session)
        ensures
            s.id == id,
            s.history@.len() == 0,
    {
        Session { id, history: Vec::new() }
    }
}

/// The directory that holds saved sessions.
pub const SESSIONS_DIR: &'static str = "sessions";

/// The file that a session with identifier `id` is saved in.
pub open spec fn session_file(id: Seq<char>) -> Seq<char> {
    SESSIONS_DIR@ + seq!['/'] + id + seq!['.', 'j', 's', 'o', 'n']
}

/// The file that a session with identifier `id` is saved in:
/// "sessions/<id>.json".
pub fn session_file_path(id: &str) -> (p: String)
    ensures
        p@ == session_file(id@),
{
    let mut p = String::from_str(SESSIONS_DIR);
    proof {
        reveal_strlit("/");
        reveal_strlit(".json");
    }
    p.append("/");
    p.append(id);
    p.append(".json");
    assert(p@ =~= session_file(id@));
    p
}

/// The identifier of the session saved in a file of the sessions directory
/// with this name: the name's stem when its extension is "json", as
/// `Path::file_stem` and `Path::extension` split a name at its last '.'
/// (a name whose only '.' comes first has no extension).
pub open spec fn session_id_of(name: Seq<char>) -> Option<Seq<char>> {
    if exists|i: int|
        0 < i < name.len() && name[i] == '.' && name.skip(i + 1) == seq!['j', 's', 'o', 'n'] {
        let i = choose|i: int|
            0 < i < name.len() && name[i] == '.' && name.skip(i + 1) == seq!['j', 's', 'o', 'n'];
        Some(name.take(i))
    } else {
        None
    }
}

/// The identifier of the session saved in a file with this name, if the
/// name is one of a saved session; see `session_id_of`.
pub fn session_id_from_file_name(name: &str) -> (r: Option<String>)
    ensures
        r matches Some(id) ==> session_id_of(name@) == Some(id@),
        r is None ==> session_id_of(name@) is None,
{
    let n = name.unicode_len();
    let ghost json = seq!['j', 's', 'o', 'n'];
    if n < 6 {
        proof {
            assert forall|i: int|
                0 < i < name@.len() && name@[i] == '.' implies name@.skip(i + 1) != json by {
                assert(name@.skip(i + 1).len() < 4);
            }
        }
        return None;
    }
    let i = n - 5;
    if name.get_char(i) == '.' && name.get_char(i + 1) == 'j' && name.get_char(i + 2) == 's'
        && name.get_char(i + 3) == 'o' && name.get_char(i + 4) == 'n' {
        assert(name@.skip(i + 1) =~= json);
        proof {
            let j = choose|j: int|
                0 < j < name@.len() && name@[j] == '.' && name@.skip(j + 1) == json;
            assert(name@.skip(j + 1).len() == 4);
        }
        Some(name.substring_char(0, i).to_owned())
    } else {
        proof {
            assert forall|j: int|
                0 < j < name@.len() && name@[j] == '.' implies name@.skip(j + 1) != json by {
                if name@.skip(j + 1) == json {
                    assert(name@.skip(j + 1).len() == name@.len() - (j + 1));
                    assert(j == i);
                    assert(name@[i + 1] == name@.skip(j + 1)[0]);
                    assert(name@[i + 2] == name@.skip(j + 1)[1]);
                    assert(name@[i + 3] == name@.skip(j + 1)[2]);
                    assert(name@[i + 4] == name@.skip(j + 1)[3]);
                }
            }
        }
        None
    }
}

/// A session saved under a non-empty identifier is found again under that
/// identifier: the name of its file, "<id>.json", gives back the id.
pub proof fn saved_session_is_found_again(id: Seq<char>)
    requires
        id.len() > 0,
    ensures
        session_file(id) == SESSIONS_DIR@ + seq!['/'] + (id + seq!['.', 'j', 's', 'o', 'n']),
        session_id_of(id + seq!['.', 'j', 's', 'o', 'n']) == Some(id),
{
    let name = id + seq!['.', 'j', 's', 'o', 'n'];
    let json = seq!['j', 's', 'o', 'n'];
    let i = id.len() as int;
    assert(name[i] == '.');
    assert(name.skip(i + 1) =~= json);
    let j = choose|j: int| 0 < j < name.len() && name[j] == '.' && name.skip(j + 1) == json;
    assert(name.skip(j + 1).len() == name.len() - (j + 1));
    assert(name.take(i) =~= id);
    assert(session_file(id) =~= SESSIONS_DIR@ + seq!['/'] + name);
}

} // verus!
