//! Session state: the transcript with its persona header, the modal popup
//! state, the input buffer, scroll position and terminal size.

use vstd::prelude::*;

use crate::ai_logic::{Message, Role, transcript_wf};

verus! {

/// The modal overlay currently shown. Exactly one variant is active at a
/// time; `Closed` means the normal chat and input panes are live.
#[derive(PartialEq, Eq, Debug)]
pub enum Popup {
    Closed,
    Welcome,
    Help,
    Status,
    Error(String),
}

/// The whole session: every piece of state the event loop mutates.
pub struct App {
    pub run: bool,
    pub size: (u16, u16),
    pub messages: Vec<Message>,
    pub input: Vec<char>,
    pub popup: Popup,
    pub scroll: u32,
}

/// The cleared form of a transcript: the persona message alone.
pub open spec fn cleared(ms: Seq<Message>) -> Seq<Message> {
    seq![ms[0]]
}

/// Clearing a transcript twice gives what clearing it once gives: the
/// single-persona transcript.
pub proof fn lemma_clear_idempotent(ms: Seq<Message>)
    requires
        transcript_wf(ms),
    ensures
        cleared(cleared(ms)) == cleared(ms),
        transcript_wf(cleared(ms)),
{
    assert(cleared(cleared(ms)) =~= cleared(ms));
}

/// How many messages of `ms` carry `role`.
pub open spec fn count_role(ms: Seq<Message>, role: Role) -> nat
    decreases ms.len(),
{
    if ms.len() == 0 {
        0
    } else {
        count_role(ms.drop_last(), role) + if ms.last().role == role {
            1nat
        } else {
            0nat
        }
    }
}

/// Count the user and assistant turns of a transcript.
pub fn role_counts(messages: &Vec<Message>) -> (r: (usize, usize))
    ensures
        r.0 == count_role(messages@, Role::User),
        r.1 == count_role(messages@, Role::Assistant),
{
    let mut users: usize = 0;
    let mut assistants: usize = 0;
    let mut i: usize = 0;
    while i < messages.len()
        invariant
            i <= messages@.len(),
            users == count_role(messages@.take(i as int), Role::User),
            assistants == count_role(messages@.take(i as int), Role::Assistant),
            users <= i,
            assistants <= i,
        decreases messages@.len() - i,
    {
        assert(messages@.take(i + 1).drop_last() =~= messages@.take(i as int));
        assert(messages@.take(i + 1).last() == messages@[i as int]);
        if matches!(messages[i].role, Role::User) {
            users += 1;
        }
        if matches!(messages[i].role, Role::Assistant) {
            assistants += 1;
        }
        i += 1;
    }
    assert(messages@.take(messages@.len() as int) =~= messages@);
    (users, assistants)
}

impl App {
    /// Invariant of a live session: the persona message heads the transcript.
    pub open spec fn wf(self) -> bool {
        transcript_wf(self.messages@)
    }

    /// Build the session at startup. `stored` is what the persistence
    /// collaborator decoded from storage, if anything: a stored transcript
    /// whose head is the persona is adopted as it stands; a missing, empty or
    /// corrupt one is replaced by a fresh single-persona transcript, and the
    /// second result then asks the caller to persist that fresh transcript at
    /// once. `show_welcome` picks the first frame's popup.
    pub fn init(size: (u16, u16), persona: Message, stored: Option<Vec<Message>>, show_welcome: bool) -> (r: (
        App,
        bool,
    ))
        requires
            persona.role == Role::System,
        ensures
            r.0.wf(),
            r.0.run,
            r.0.size == size,
            r.0.input@.len() == 0,
            r.0.scroll == 0,
            r.0.popup == if show_welcome {
                Popup::Welcome
            } else {
                Popup::Closed
            },
            match stored {
                Option::Some(ms) => {
                    if transcript_wf(ms@) {
                        r.0.messages@ == ms@ && !r.1
                    } else {
                        r.0.messages@ == seq![persona] && r.1
                    }
                },
                Option::None => r.0.messages@ == seq![persona] && r.1,
            },
    {
        let (messages, needs_save): (Vec<Message>, bool) = match stored {
            Option::Some(ms) => {
                if ms.len() >= 1 && matches!(ms[0].role, Role::System) {
                    (ms, false)
                } else {
                    let mut fresh: Vec<Message> = Vec::new();
                    fresh.push(persona);
                    (fresh, true)
                }
            },
            Option::None => {
                let mut fresh: Vec<Message> = Vec::new();
                fresh.push(persona);
                (fresh, true)
            },
        };
        let popup = if show_welcome {
            Popup::Welcome
        } else {
            Popup::Closed
        };
        let app = App { run: true, size, messages, input: Vec::new(), popup, scroll: 0 };
        (app, needs_save)
    }

    /// Append a user turn at the end of the transcript.
    pub fn append_user(&mut self, text: String)
        requires
            old(self).wf(),
        ensures
            final(self).wf(),
            final(self).messages@ == old(self).messages@.push(
                Message { role: Role::User, content: text },
            ),
            final(self).run == old(self).run,
            final(self).size == old(self).size,
            final(self).input == old(self).input,
            final(self).popup == old(self).popup,
            final(self).scroll == old(self).scroll,
    {
        self.messages.push(Message::user_input(text));
    }

    /// Append an assistant turn at the end of the transcript.
    pub fn append_assistant(&mut self, text: String)
        requires
            old(self).wf(),
        ensures
            final(self).wf(),
            final(self).messages@ == old(self).messages@.push(
                Message { role: Role::Assistant, content: text },
            ),
            final(self).run == old(self).run,
            final(self).size == old(self).size,
            final(self).input == old(self).input,
            final(self).popup == old(self).popup,
            final(self).scroll == old(self).scroll,
    {
        self.messages.push(Message::ai_reply(text));
    }

    /// Truncate the transcript to the persona message alone.
    pub fn clear(&mut self)
        requires
            old(self).wf(),
        ensures
            final(self).wf(),
            final(self).messages@ == cleared(old(self).messages@),
            final(self).run == old(self).run,
            final(self).size == old(self).size,
            final(self).input == old(self).input,
            final(self).popup == old(self).popup,
            final(self).scroll == old(self).scroll,
    {
        let head = self.messages[0].clone();
        let mut fresh: Vec<Message> = Vec::new();
        fresh.push(head);
        self.messages = fresh;
        assert(self.messages@ =~= cleared(old(self).messages@));
    }

    /// Derived counts, computed on demand: turns excluding the persona, user
    /// turns, assistant turns.
    pub fn status(&self) -> (r: (usize, usize, usize))
        requires
            self.wf(),
        ensures
            r.0 == self.messages@.len() - 1,
            r.1 == count_role(self.messages@, Role::User),
            r.2 == count_role(self.messages@, Role::Assistant),
    {
        let total = self.messages.len() - 1;
        let (users, assistants) = role_counts(&self.messages);
        (total, users, assistants)
    }
}

} // verus!
