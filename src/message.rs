//! Messages of a conversation.

use vstd::prelude::*;
use vstd::string::*;

verus! {

/// Who wrote a message.
#[derive(Clone, Copy, Debug, PartialEq, Eq, Structural)]
pub enum Role {
    User,
    Assistant,
    System,
}

/// The wire name of a role.
pub open spec fn role_name(r: Role) -> Seq<char> {
    match r {
        Role::User => "user"@,
        Role::Assistant => "assistant"@,
        Role::System => "system"@,
    }
}

impl Role {
    /// The name under which the role travels in requests and files.
    pub fn name(&self) -> (r: &'static str)
        ensures
            r@ == role_name(*self),
    {
        match self {
            Role::User => "user",
            Role::Assistant => "assistant",
            Role::System => "system",
        }
    }

    /// The role with the given wire name, if there is one.
    pub fn from_name(s: &str) -> (r: Option<Role>)
        ensures
            r matches Some(role) ==> role_name(role) == s@,
            r is None ==> s@ != "user"@ && s@ != "assistant"@ && s@ != "system"@,
    {
        let v = crate::text::to_chars(s);
        assert(v@.subrange(0, v@.len() as int) =~= v@);
        if v.len() == "user".unicode_len() && crate::text::matches_at(&v, 0, "user") {
            Some(Role::User)
        } else if v.len() == "assistant".unicode_len() && crate::text::matches_at(&v, 0, "assistant") {
            Some(Role::Assistant)
        } else if v.len() == "system".unicode_len() && crate::text::matches_at(&v, 0, "system") {
            Some(Role::System)
        } else {
            None
        }
    }
}

/// One message of a conversation; it is never changed once made.
#[derive(Clone, Debug)]
pub struct Message {
    pub role: Role,
    pub content: String,
}

/// What a message holds, as mathematical values.
pub ghost struct MessageView {
    pub role: Role,
    pub content: Seq<char>,
}

impl View for Message {
    type V = MessageView;

    open spec fn view(&self) -> MessageView {
        MessageView { role: self.role, content: self.content@ }
    }
}

/// A conversation log as mathematical values.
pub open spec fn log_view(log: Seq<Message>) -> Seq<MessageView> {
    log.map_values(|m: Message| m@)
}

impl Message {
    pub fn new(role: Role, content: String) -> (r: Message)
        ensures
            r@ == (MessageView { role, content: content@ }),
    {
        Message { role, content }
    }

    /// A copy of the message that keeps what it holds.
    pub fn duplicate(&self) -> (r: Message)
        ensures
            r@ == self@,
    {
        Message { role: self.role, content: self.content.clone() }
    }
}

/// A copy of a log, message by message.
pub fn copy_log(log: &Vec<Message>) -> (r: Vec<Message>)
    ensures
        log_view(r@) == log_view(log@),
{
    let mut r: Vec<Message> = Vec::new();
    let mut i: usize = 0;
    while i < log.len()
        invariant
            i <= log@.len(),
            r@.len() == i,
            forall|j: int| 0 <= j < i ==> #[trigger] r@[j]@ == log@[j]@,
        decreases log@.len() - i,
    {
        r.push(log[i].duplicate());
        i = i + 1;
    }
    assert(log_view(r@) =~= log_view(log@));
    r
}

} // verus!
