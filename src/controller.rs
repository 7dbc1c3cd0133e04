//! The command state machine of the prompt loop. It owns the active
//! session and its context, reads each input line as a command, and hands
//! back the requests to send and the writes to persist; the loop around it
//! performs them.

use vstd::prelude::*;
use vstd::string::*;
use crate::message::{Message, MessageView, Role, log_view, copy_log};
use crate::store::{
    StoreOp, StoreOpView, ops_view, clear_spec, summary_spec, delete_spec, clear_ops, summary_ops,
    delete_ops, history_ops,
};
use crate::text::{trim, has_prefix, to_chars, from_chars, matches_at, trimmed};

verus! {

// ---------------------------------------------------------------- commands

/// What one input line asks for.
#[derive(Debug)]
pub enum Command {
    /// A blank line: nothing happens.
    Empty,
    /// `/exit` or `/quit`.
    Exit,
    /// `/clear`.
    Clear,
    /// `/summarize`.
    Summarize,
    /// `/load <name>`.
    Load(String),
    /// `/delete` alone (the active session) or `/delete <name>`.
    Delete(Option<String>),
    /// `/read <path>`.
    Read(String),
    /// Any other line that starts with `/`.
    Unknown(String),
    /// Text to send as a chat turn.
    Chat(String),
}

pub ghost enum CommandView {
    Empty,
    Exit,
    Clear,
    Summarize,
    Load(Seq<char>),
    Delete(Option<Seq<char>>),
    Read(Seq<char>),
    Unknown(Seq<char>),
    Chat(Seq<char>),
}

impl View for Command {
    type V = CommandView;

    open spec fn view(&self) -> CommandView {
        match self {
            Command::Empty => CommandView::Empty,
            Command::Exit => CommandView::Exit,
            Command::Clear => CommandView::Clear,
            Command::Summarize => CommandView::Summarize,
            Command::Load(n) => CommandView::Load(n@),
            Command::Delete(n) => CommandView::Delete(crate::json::string_opt_view(*n)),
            Command::Read(p) => CommandView::Read(p@),
            Command::Unknown(t) => CommandView::Unknown(t@),
            Command::Chat(t) => CommandView::Chat(t@),
        }
    }
}

/// What follows the command word `p` in `t`, trimmed.
pub open spec fn argument(t: Seq<char>, p: Seq<char>) -> Seq<char> {
    trim(t.subrange(p.len() as int, t.len() as int))
}

/// The command that an input line stands for; the line is trimmed first.
pub open spec fn command_of(line: Seq<char>) -> CommandView {
    let t = trim(line);
    if t.len() == 0 {
        CommandView::Empty
    } else if t == "/exit"@ || t == "/quit"@ {
        CommandView::Exit
    } else if t == "/clear"@ {
        CommandView::Clear
    } else if t == "/summarize"@ {
        CommandView::Summarize
    } else if t == "/delete"@ {
        CommandView::Delete(None)
    } else if has_prefix(t, "/delete "@) {
        CommandView::Delete(Some(argument(t, "/delete "@)))
    } else if has_prefix(t, "/load "@) && argument(t, "/load "@).len() > 0 {
        CommandView::Load(argument(t, "/load "@))
    } else if has_prefix(t, "/read "@) && argument(t, "/read "@).len() > 0 {
        CommandView::Read(argument(t, "/read "@))
    } else if t[0] == '/' {
        CommandView::Unknown(t)
    } else {
        CommandView::Chat(t)
    }
}

fn is_word(t: &Vec<char>, p: &str) -> (r: bool)
    ensures
        r == (t@ == p@),
{
    let r = t.len() == p.unicode_len() && matches_at(t, 0, p);
    assert(t@.subrange(0, t@.len() as int) =~= t@);
    r
}

fn starts_with_word(t: &Vec<char>, p: &str) -> (r: bool)
    ensures
        r == has_prefix(t@, p@),
{
    assert(t@.subrange(0, t@.len() as int) =~= t@);
    matches_at(t, 0, p)
}

fn argument_after(t: &Vec<char>, p: &str) -> (r: String)
    requires
        has_prefix(t@, p@),
    ensures
        r@ == argument(t@, p@),
{
    let rest = from_chars(t, p.unicode_len(), t.len());
    trimmed(rest.as_str())
}

/// Reads an input line as a command.
pub fn parse_command(line: &str) -> (r: Command)
    ensures
        r@ == command_of(line@),
{
    let t = trimmed(line);
    let tv = to_chars(t.as_str());
    if tv.len() == 0 {
        Command::Empty
    } else if is_word(&tv, "/exit") || is_word(&tv, "/quit") {
        Command::Exit
    } else if is_word(&tv, "/clear") {
        Command::Clear
    } else if is_word(&tv, "/summarize") {
        Command::Summarize
    } else if is_word(&tv, "/delete") {
        Command::Delete(None)
    } else if starts_with_word(&tv, "/delete ") {
        Command::Delete(Some(argument_after(&tv, "/delete ")))
    } else {
        if starts_with_word(&tv, "/load ") {
            let name = argument_after(&tv, "/load ");
            if name.unicode_len() > 0 {
                return Command::Load(name);
            }
        }
        if starts_with_word(&tv, "/read ") {
            let path = argument_after(&tv, "/read ");
            if path.unicode_len() > 0 {
                return Command::Read(path);
            }
        }
        if tv[0] == '/' {
            Command::Unknown(t)
        } else {
            Command::Chat(t)
        }
    }
}

// ---------------------------------------------------------------- messages

/// The request appended to the context when it is summarized.
pub open spec fn summary_instruction() -> Seq<char> {
    "Summarize our conversation into 4 bullet points for your memory."@
}

/// The memory block that wraps a summary.
pub open spec fn memory_message(reply: Seq<char>) -> MessageView {
    MessageView { role: Role::Assistant, content: "MEMORY_BLOCK:\n"@ + reply }
}

pub open spec fn user_message(text: Seq<char>) -> MessageView {
    MessageView { role: Role::User, content: text }
}

/// The text of the user message that hands a file to the assistant.
pub open spec fn file_text(path: Seq<char>, content: Seq<char>) -> Seq<char> {
    "Here is the content of the file "@ + path + ":\n\n"@ + content
}

/// The text of the user message that hands a file to the assistant: a
/// preamble that names the file, then its content.
pub fn file_message(path: &str, content: &str) -> (r: String)
    ensures
        r@ == file_text(path@, content@),
{
    let mut r = String::from_str("Here is the content of the file ");
    r.append(path);
    r.append(":\n\n");
    r.append(content);
    assert(r@ =~= file_text(path@, content@));
    r
}

/// The memory block that wraps a summary reply.
pub fn memory_block(reply: &str) -> (r: Message)
    ensures
        r@ == memory_message(reply@),
{
    let mut c = String::from_str("MEMORY_BLOCK:\n");
    c.append(reply);
    Message::new(Role::Assistant, c)
}

// ---------------------------------------------------------------- controller

/// The state of the prompt loop: no session, or one active session with
/// the context that is sent with each turn.
pub struct Controller {
    session: Option<String>,
    context: Vec<Message>,
}

impl Controller {
    pub closed spec fn session_view(&self) -> Option<Seq<char>> {
        crate::json::string_opt_view(self.session)
    }

    pub closed spec fn context_view(&self) -> Seq<MessageView> {
        log_view(self.context@)
    }

    /// No session yet; a name must be given before any turn.
    pub fn new() -> (r: Controller)
        ensures
            r.session_view().is_none(),
            r.context_view() == Seq::<MessageView>::empty(),
    {
        let r = Controller { session: None, context: Vec::new() };
        assert(r.context_view() =~= Seq::<MessageView>::empty());
        r
    }

    /// Makes `name` the active session, with the context loaded for it;
    /// whatever was active before is dropped (it is already persisted).
    pub fn open_session(&mut self, name: String, context: Vec<Message>)
        ensures
            final(self).session_view() == Some(name@),
            final(self).context_view() == log_view(context@),
    {
        self.session = Some(name);
        self.context = context;
    }

    pub fn is_active(&self) -> (r: bool)
        ensures
            r == self.session_view().is_some(),
    {
        self.session.is_some()
    }

    /// The active session's name.
    pub fn session_name(&self) -> (r: Option<String>)
        ensures
            crate::json::string_opt_view(r) == self.session_view(),
    {
        match &self.session {
            Some(n) => Some(n.clone()),
            None => None,
        }
    }

    /// The context as it stands.
    pub fn context(&self) -> (r: &Vec<Message>)
        ensures
            log_view(r@) == self.context_view(),
    {
        &self.context
    }

    /// The messages to send for a chat turn: the context, then `text` as a
    /// user message. The context itself is not changed until a reply
    /// comes.
    pub fn turn_request(&self, text: &str) -> (r: Vec<Message>)
        ensures
            log_view(r@) == self.context_view().push(user_message(text@)),
    {
        let mut r = copy_log(&self.context);
        r.push(Message::new(Role::User, String::from_str(text)));
        assert(log_view(r@) =~= self.context_view().push(user_message(text@)));
        r
    }

    /// A turn got its reply: the user message and the reply join the
    /// context, and the log is persisted.
    pub fn record_turn(&mut self, text: &str, reply: String) -> (r: Vec<StoreOp>)
        requires
            old(self).session_view().is_some(),
        ensures
            final(self).session_view() == old(self).session_view(),
            final(self).context_view() == old(self).context_view().push(user_message(text@)).push(
                MessageView { role: Role::Assistant, content: reply@ },
            ),
            ops_view(r@) == seq![
                StoreOpView::WriteHistory(
                    old(self).session_view().unwrap(),
                    final(self).context_view(),
                ),
            ],
    {
        let ghost before = self.context_view();
        self.context.push(Message::new(Role::User, String::from_str(text)));
        self.context.push(Message::new(Role::Assistant, reply));
        assert(self.context_view() =~= before.push(user_message(text@)).push(
            MessageView { role: Role::Assistant, content: reply@ },
        ));
        match &self.session {
            Some(n) => history_ops(n.as_str(), &self.context),
            None => Vec::new(),
        }
    }

    /// `/clear`: backs up the log, then empties the context and persists an
    /// empty log and an empty memory block.
    pub fn clear(&mut self) -> (r: Vec<StoreOp>)
        requires
            old(self).session_view().is_some(),
        ensures
            final(self).session_view() == old(self).session_view(),
            final(self).context_view() == Seq::<MessageView>::empty(),
            ops_view(r@) == clear_spec(old(self).session_view().unwrap()),
    {
        self.context = Vec::new();
        assert(self.context_view() =~= Seq::<MessageView>::empty());
        match &self.session {
            Some(n) => clear_ops(n.as_str()),
            None => Vec::new(),
        }
    }

    /// `/summarize`, first half: the backup to take now, and the messages
    /// to send: the context, then the request for a summary.
    pub fn summary_request(&self) -> (r: (Vec<StoreOp>, Vec<Message>))
        requires
            self.session_view().is_some(),
        ensures
            ops_view(r.0@) == seq![StoreOpView::Backup(self.session_view().unwrap())],
            log_view(r.1@) == self.context_view().push(user_message(summary_instruction())),
    {
        let mut req = copy_log(&self.context);
        req.push(
            Message::new(
                Role::User,
                String::from_str("Summarize our conversation into 4 bullet points for your memory."),
            ),
        );
        assert(log_view(req@) =~= self.context_view().push(user_message(summary_instruction())));
        let ops = match &self.session {
            Some(n) => vec![StoreOp::Backup(n.clone())],
            None => Vec::new(),
        };
        assert(ops_view(ops@) =~= seq![StoreOpView::Backup(self.session_view().unwrap())]);
        (ops, req)
    }

    /// `/summarize`, second half: the summary came back. It replaces the
    /// whole context as a single memory block, which is persisted, and the
    /// log it supersedes is persisted as empty rather than left dormant.
    pub fn record_summary(&mut self, reply: &str) -> (r: Vec<StoreOp>)
        requires
            old(self).session_view().is_some(),
        ensures
            final(self).session_view() == old(self).session_view(),
            final(self).context_view() == seq![memory_message(reply@)],
            ops_view(r@) == summary_spec(old(self).session_view().unwrap(), memory_message(reply@)),
    {
        let block = memory_block(reply);
        let ops = match &self.session {
            Some(n) => summary_ops(n.as_str(), &block),
            None => Vec::new(),
        };
        let mut ctx: Vec<Message> = Vec::new();
        ctx.push(block);
        self.context = ctx;
        assert(self.context_view() =~= seq![memory_message(reply@)]);
        ops
    }

    /// `/delete`: removes a session's files. Where it is the active one, no
    /// session stays active and a new name is needed before the next turn.
    pub fn delete_session(&mut self, name: &str) -> (r: Vec<StoreOp>)
        ensures
            ops_view(r@) == delete_spec(name@),
            old(self).session_view() == Some(name@) ==> final(self).session_view().is_none()
                && final(self).context_view() == Seq::<MessageView>::empty(),
            old(self).session_view() != Some(name@) ==> final(self).session_view() == old(
                self,
            ).session_view() && final(self).context_view() == old(self).context_view(),
    {
        let active = match &self.session {
            Some(n) => {
                let a = to_chars(n.as_str());
                assert(a@.subrange(0, a@.len() as int) =~= a@);
                a.len() == name.unicode_len() && matches_at(&a, 0, name)
            },
            None => false,
        };
        if active {
            self.session = None;
            self.context = Vec::new();
            assert(self.context_view() =~= Seq::<MessageView>::empty());
        }
        delete_ops(name)
    }
}

} // verus!
