//! Messages of the conversation transcript: roles, constructors, the history
//! trimming policy, and classification of the remote collaborator's outcome.

use vstd::prelude::*;

use crate::MAX_HISTORY_MESSAGES;

verus! {

/// Author of a message in the transcript.
#[derive(Clone, Copy, PartialEq, Eq, Structural, Debug)]
pub enum Role {
    System,
    User,
    Assistant,
}

/// One turn of the conversation. Immutable once created.
pub struct Message {
    pub role: Role,
    pub content: String,
}

impl Clone for Message {
    fn clone(&self) -> (r: Self)
        ensures
            r == *self,
    {
        Message { role: self.role, content: self.content.clone() }
    }
}

impl Message {
    /// The persona message that heads every transcript. A custom persona text
    /// overrides the built-in one; the caller resolves where it comes from.
    pub fn ai_character(custom: Option<String>) -> (r: Message)
        ensures
            r.role == Role::System,
            match custom {
                Option::Some(text) => r.content@ == text@,
                Option::None => r.content@ == "Speak clearly and shortly"@,
            },
    {
        let content = match custom {
            Option::Some(text) => text,
            Option::None => String::from_str("Speak clearly and shortly"),
        };
        Message { role: Role::System, content }
    }

    /// A turn submitted by the user.
    pub fn user_input(input: String) -> (r: Message)
        ensures
            r.role == Role::User,
            r.content == input,
    {
        Message { role: Role::User, content: input }
    }

    /// A turn received from the remote collaborator.
    pub fn ai_reply(reply: String) -> (r: Message)
        ensures
            r.role == Role::Assistant,
            r.content == reply,
    {
        Message { role: Role::Assistant, content: reply }
    }
}

/// Failure modes of one remote completion call.
#[derive(Clone, Copy, PartialEq, Eq, Structural, Debug)]
pub enum ChatError {
    /// A required setting (the model identifier) was absent.
    EnvVar,
    /// Reading or writing a collaborator stream failed.
    Io,
    /// The network call failed or the upstream answered with a failure status.
    Network,
    /// The upstream answered successfully but with no usable reply.
    ApiResponse,
}

/// What a message says, abstracted from its representation: its role and
/// the characters of its content.
pub open spec fn msg_model(m: Message) -> (Role, Seq<char>) {
    (m.role, m.content@)
}

/// The whole transcript, message by message, as plain role/content pairs.
pub open spec fn transcript_model(ms: Seq<Message>) -> Seq<(Role, Seq<char>)> {
    ms.map_values(|m: Message| msg_model(m))
}

/// A transcript is well formed when the persona message sits at index 0.
pub open spec fn transcript_wf(ms: Seq<Message>) -> bool {
    &&& ms.len() >= 1
    &&& ms[0].role == Role::System
}

/// The trimming policy on sequences: over the cap, keep the head plus only
/// the most recent `MAX_HISTORY_MESSAGES` elements; otherwise leave the
/// sequence alone.
pub open spec fn trimmed<T>(ms: Seq<T>) -> Seq<T> {
    if ms.len() > MAX_HISTORY_MESSAGES + 1 {
        seq![ms[0]] + ms.skip(ms.len() - MAX_HISTORY_MESSAGES as int)
    } else {
        ms
    }
}

/// Trimming a transcript longer than the cap plus one leaves exactly cap+1
/// messages: element 0 unchanged, and the rest exactly the most recent cap
/// elements from before, in their original order.
pub proof fn lemma_trimmed_long<T>(ms: Seq<T>)
    requires
        ms.len() > MAX_HISTORY_MESSAGES + 1,
    ensures
        trimmed(ms).len() == MAX_HISTORY_MESSAGES + 1,
        trimmed(ms)[0] == ms[0],
        trimmed(ms).skip(1) == ms.skip(ms.len() - MAX_HISTORY_MESSAGES as int),
{
    assert(trimmed(ms).skip(1) =~= ms.skip(ms.len() - MAX_HISTORY_MESSAGES as int));
}

/// If the transcript holds more than the persona plus `MAX_HISTORY_MESSAGES`
/// messages, keep the persona plus only the most recent
/// `MAX_HISTORY_MESSAGES`, in their original order; otherwise leave it alone.
pub fn manage_history(messages: &mut Vec<Message>)
    requires
        old(messages)@.len() >= 1,
    ensures
        final(messages)@ == trimmed(old(messages)@),
{
    if messages.len() > MAX_HISTORY_MESSAGES + 1 {
        let start = messages.len() - MAX_HISTORY_MESSAGES;
        let mut kept: Vec<Message> = Vec::new();
        kept.push(messages[0].clone());
        let mut i: usize = start;
        while i < messages.len()
            invariant
                start <= i <= messages@.len(),
                start == messages@.len() - MAX_HISTORY_MESSAGES,
                messages@.len() > MAX_HISTORY_MESSAGES + 1,
                kept@.len() == 1 + i - start,
                kept@[0] == messages@[0],
                kept@.skip(1) == messages@.subrange(start as int, i as int),
            decreases messages@.len() - i,
        {
            kept.push(messages[i].clone());
            assert(kept@.skip(1) =~= messages@.subrange(start as int, i + 1));
            i += 1;
        }
        assert(kept@ =~= trimmed(messages@));
        *messages = kept;
    }
}

/// The model identifier is a required per-request setting: a request can only
/// be made once it is present.
pub fn resolve_model(model: Option<String>) -> (r: Result<String, ChatError>)
    ensures
        match model {
            Option::Some(m) => r == Result::<String, ChatError>::Ok(m),
            Option::None => r == Result::<String, ChatError>::Err(ChatError::EnvVar),
        },
{
    match model {
        Option::Some(m) => Result::Ok(m),
        Option::None => Result::Err(ChatError::EnvVar),
    }
}

/// What one remote call came back with, already stripped to plain values:
/// whether the status was a success, and the textual choices of the body.
pub fn classify_response(status_success: bool, mut choices: Vec<String>) -> (r: Result<
    String,
    ChatError,
>)
    ensures
        !status_success ==> r == Result::<String, ChatError>::Err(ChatError::Network),
        status_success && choices@.len() == 0 ==> r == Result::<String, ChatError>::Err(
            ChatError::ApiResponse,
        ),
        status_success && choices@.len() > 0 ==> r == Result::<String, ChatError>::Ok(choices@[0]),
{
    if !status_success {
        Result::Err(ChatError::Network)
    } else if choices.len() == 0 {
        Result::Err(ChatError::ApiResponse)
    } else {
        let first = choices.remove(0);
        Result::Ok(first)
    }
}

} // verus!
