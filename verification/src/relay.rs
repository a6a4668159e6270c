//! The conversation as the hosted text-generation interface sees it: roles,
//! turns merged from stored messages, and the errors of its event stream.

use vstd::prelude::*;
use vstd::string::StringExecFns;

verus! {

/// Who speaks in a turn of a conversation.
#[derive(Copy, Clone, Debug, PartialEq, Eq, Structural)]
pub enum Role {
    /// The person.
    User,
    /// The model.
    Assistant,
}

/// One line of a conversation's list.
#[derive(Debug, Clone)]
pub struct ConversationList {
    /// The conversation.
    pub id: u32,
    /// Its title.
    pub title: String,
    /// The picture of the model it is held with.
    pub profile: String,
    /// The user that stands for that model.
    pub user_id: u32,
}

/// A message as it is stored: its author and its text.
#[derive(Debug, Clone)]
pub struct StoredMessage {
    /// The author.
    pub user_id: u32,
    /// The text.
    pub content: String,
}

/// A turn of a conversation.
#[derive(Debug, Clone)]
pub struct Message {
    /// Who speaks.
    pub role: Role,
    /// What is said.
    pub content: String,
}

/// The role of the `k`-th turn: the user opens, and the roles alternate.
pub open spec fn role_at(k: nat) -> Role {
    if k % 2 == 0 {
        Role::User
    } else {
        Role::Assistant
    }
}

/// The turns of a sequence of stored messages, each given by author and
/// text: consecutive messages of one author form one turn, their texts joined
/// by line breaks.
pub open spec fn merged_turns(messages: Seq<(u32, Seq<char>)>) -> Seq<(Role, Seq<char>)>
    decreases messages.len(),
{
    if messages.len() == 0 {
        Seq::empty()
    } else {
        let before = merged_turns(messages.drop_last());
        let m = messages.last();
        if messages.len() >= 2 && messages[messages.len() - 2].0 == m.0 && before.len() > 0 {
            before.drop_last().push((before.last().0, before.last().1 + seq!['\n'] + m.1))
        } else {
            before.push((role_at(before.len()), m.1))
        }
    }
}

/// Stored messages by author and text.
pub open spec fn stored_view(messages: Seq<StoredMessage>) -> Seq<(u32, Seq<char>)> {
    messages.map_values(|m: StoredMessage| (m.user_id, m.content@))
}

/// Turns by role and text.
pub open spec fn turns_view(turns: Seq<Message>) -> Seq<(Role, Seq<char>)> {
    turns.map_values(|m: Message| (m.role, m.content@))
}

/// The roles of merged turns alternate, the user first: the `k`-th turn has
/// the role of its place, whoever wrote the messages.
pub proof fn lemma_roles_alternate(messages: Seq<(u32, Seq<char>)>, k: int)
    requires
        0 <= k < merged_turns(messages).len(),
    ensures
        merged_turns(messages)[k].0 == role_at(k as nat),
        merged_turns(messages).len() <= messages.len(),
    decreases messages.len(),
{
    if messages.len() > 0 {
        let before = merged_turns(messages.drop_last());
        lemma_turns_bounded(messages.drop_last());
        if k < before.len() {
            lemma_roles_alternate(messages.drop_last(), k);
        }
    }
}

/// There are at most as many turns as messages, and none only where there
/// is no message.
pub proof fn lemma_turns_bounded(messages: Seq<(u32, Seq<char>)>)
    ensures
        merged_turns(messages).len() <= messages.len(),
        messages.len() > 0 ==> merged_turns(messages).len() > 0,
    decreases messages.len(),
{
    if messages.len() > 0 {
        lemma_turns_bounded(messages.drop_last());
    }
}

impl Role {
    /// The other role.
    pub fn flipped(self) -> (r: Role)
        ensures
            r != self,
    {
        match self {
            Role::User => Role::Assistant,
            Role::Assistant => Role::User,
        }
    }
}

impl Message {
    /// Merges stored messages into the turns of a conversation.
    pub fn from_db(messages: Vec<StoredMessage>) -> (turns: Vec<Message>)
        ensures
            turns_view(turns@) == merged_turns(stored_view(messages@)),
    {
        let mut role = Role::Assistant;
        let mut last_user: Option<u32> = None;
        let mut last_message: Option<Message> = None;
        let mut newmessages: Vec<Message> = Vec::new();
        let mut i: usize = 0;
        let ghost all = stored_view(messages@);
        while i < messages.len()
            invariant
                0 <= i <= messages@.len(),
                all == stored_view(messages@),
                i == 0 ==> last_message is None && last_user is None && newmessages@.len() == 0
                    && role == Role::Assistant,
                i > 0 ==> last_message is Some && last_user == Some(messages@[i - 1].user_id),
                i > 0 ==> turns_view(newmessages@).push(
                    (last_message.unwrap().role, last_message.unwrap().content@),
                ) == merged_turns(all.take(i as int)),
                i > 0 ==> role == last_message.unwrap().role && role == role_at(
                    newmessages@.len() as nat,
                ),
            decreases messages@.len() - i,
        {
            let message = &messages[i];
            let ghost done = merged_turns(all.take(i as int));
            proof {
                assert(all.take(i + 1).drop_last() =~= all.take(i as int));
                assert(all.take(i + 1).last() == (message.user_id, message.content@));
                if i > 0 {
                    assert(all.take(i + 1)[i - 1] == (
                        messages@[i - 1].user_id,
                        messages@[i - 1].content@,
                    ));
                }
            }
            let same = match last_user {
                Some(u) => u == message.user_id,
                None => false,
            };
            if !same {
                let ghost turns_before = turns_view(newmessages@);
                match last_message {
                    Some(m) => {
                        newmessages.push(m);
                        assert(turns_view(newmessages@) =~= done);
                    },
                    None => {
                        assert(turns_view(newmessages@) =~= done);
                    },
                }
                role = role.flipped();
                last_message = Some(Message { role, content: message.content.clone() });
                last_user = Some(message.user_id);
            } else {
                let mut m = last_message.unwrap();
                let ghost text = m.content@;
                m.content.append("\n");
                m.content.append(message.content.as_str());
                proof {
                    reveal_strlit("\n");
                    assert("\n"@ =~= seq!['\n']);
                    assert(m.content@ =~= text + seq!['\n'] + message.content@);
                    assert(done.drop_last() =~= turns_view(newmessages@));
                }
                last_message = Some(m);
            }
            i += 1;
        }
        proof {
            assert(all.take(i as int) =~= all);
        }
        match last_message {
            Some(m) => {
                let ghost before = turns_view(newmessages@);
                newmessages.push(m);
                assert(turns_view(newmessages@) =~= before.push((m.role, m.content@)));
            },
            None => {
                assert(turns_view(newmessages@) =~= Seq::<(Role, Seq<char>)>::empty());
            },
        }
        newmessages
    }
}

/// What the hosted interface says of a failed request.
#[derive(Debug, Clone)]
pub enum InnerError {
    /// The access token was refused.
    InvalidToken,
    /// Anything else, in the interface's words.
    Default(String),
}

/// An error event of the stream.
#[derive(Debug, Clone)]
pub struct SseError {
    error: InnerError,
}

impl InnerError {
    /// The sentence by which the interface refuses an access token.
    pub open spec fn invalid_token_text() -> Seq<char> {
        "Authorization header is correct, but the token seems invalid"@
    }

    /// The words by which the interface writes the error.
    pub open spec fn wire(&self) -> Seq<char> {
        match self {
            InnerError::InvalidToken => InnerError::invalid_token_text(),
            InnerError::Default(text) => text@,
        }
    }

    /// What is shown for the error.
    pub open spec fn message(&self) -> Seq<char> {
        match self {
            InnerError::InvalidToken => "Invalid token"@,
            InnerError::Default(text) => text@,
        }
    }

    /// Reads the interface's words: its sentence for a refused token, or any
    /// other text.
    pub fn from_text(text: String) -> (e: InnerError)
        ensures
            text@ == InnerError::invalid_token_text() ==> e == InnerError::InvalidToken,
            text@ != InnerError::invalid_token_text() ==> e == InnerError::Default(text),
    {
        let refused = "Authorization header is correct, but the token seems invalid".to_string();
        if text == refused {
            InnerError::InvalidToken
        } else {
            InnerError::Default(text)
        }
    }

    /// The words by which the interface writes the error: reading them gives
    /// the error back.
    pub fn wire_text(&self) -> (text: String)
        ensures
            text@ == self.wire(),
    {
        match self {
            InnerError::InvalidToken => {
                "Authorization header is correct, but the token seems invalid".to_string()
            },
            InnerError::Default(text) => text.clone(),
        }
    }

    /// What is shown for the error.
    pub fn describe(&self) -> (text: String)
        ensures
            text@ == self.message(),
    {
        match self {
            InnerError::InvalidToken => "Invalid token".to_string(),
            InnerError::Default(text) => text.clone(),
        }
    }
}

/// What a line of the event stream holds.
#[derive(Clone, Copy, Debug, PartialEq, Eq, Structural)]
pub enum SseLine {
    /// Nothing.
    Empty,
    /// The mark that ends the stream.
    Done,
    /// A piece of the reply, which starts after the line's prefix.
    Data,
    /// Something else: an error event, or a line that cannot be read.
    Other,
}

/// The prefix of a data line: `data: `.
pub open spec fn data_prefix() -> Seq<u8> {
    seq![0x64u8, 0x61, 0x74, 0x61, 0x3a, 0x20]
}

/// The line that ends the stream: `data: [DONE]`.
pub open spec fn done_line() -> Seq<u8> {
    data_prefix() + seq![0x5bu8, 0x44, 0x4f, 0x4e, 0x45, 0x5d]
}

/// What a line of the event stream holds.
pub open spec fn line_kind(line: Seq<u8>) -> SseLine {
    if line.len() == 0 {
        SseLine::Empty
    } else if line == done_line() {
        SseLine::Done
    } else if line.len() >= 6 && line.subrange(0, 6) == data_prefix() {
        SseLine::Data
    } else {
        SseLine::Other
    }
}

/// Whether `line` starts with `prefix`.
fn bytes_start_with(line: &[u8], prefix: &[u8]) -> (r: bool)
    ensures
        r == (prefix@.len() <= line@.len() && line@.subrange(0, prefix@.len() as int) == prefix@),
{
    if prefix.len() > line.len() {
        return false;
    }
    let mut i: usize = 0;
    while i < prefix.len()
        invariant
            0 <= i <= prefix@.len(),
            prefix@.len() <= line@.len(),
            forall|j: int| 0 <= j < i ==> line@[j] == prefix@[j],
        decreases prefix@.len() - i,
    {
        if line[i] != prefix[i] {
            assert(line@.subrange(0, prefix@.len() as int)[i as int] != prefix@[i as int]);
            return false;
        }
        i += 1;
    }
    assert(line@.subrange(0, prefix@.len() as int) =~= prefix@);
    true
}

/// Tells what a line of the event stream holds.
pub fn classify_line(line: &[u8]) -> (kind: SseLine)
    ensures
        kind == line_kind(line@),
{
    let prefix: [u8; 6] = [0x64, 0x61, 0x74, 0x61, 0x3a, 0x20];
    let done: [u8; 12] = [0x64, 0x61, 0x74, 0x61, 0x3a, 0x20, 0x5b, 0x44, 0x4f, 0x4e, 0x45, 0x5d];
    assert(prefix@ =~= data_prefix());
    assert(done@ =~= done_line());
    proof {
        assert(done_line().len() == 12);
        if line@.len() == 12 {
            assert(line@.subrange(0, 12) =~= line@);
        }
    }
    if line.len() == 0 {
        SseLine::Empty
    } else if line.len() == 12 && bytes_start_with(line, done.as_slice()) {
        SseLine::Done
    } else if bytes_start_with(line, prefix.as_slice()) {
        SseLine::Data
    } else {
        SseLine::Other
    }
}

impl SseError {
    /// The error inside the event.
    pub closed spec fn inner(&self) -> InnerError {
        self.error
    }

    /// An error event.
    pub fn new(error: InnerError) -> (e: SseError)
        ensures
            e.inner() == error,
    {
        SseError { error }
    }

    /// The error inside the event.
    pub fn error(&self) -> (e: &InnerError)
        ensures
            *e == self.inner(),
    {
        &self.error
    }

    /// What is shown for the event.
    pub fn describe(&self) -> (text: String)
        ensures
            text@ == self.inner().message(),
    {
        self.error.describe()
    }
}

} // verus!
