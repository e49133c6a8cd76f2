//! Keystroke handling and the submit pipeline: validate, dispatch reserved
//! commands, append and trim, and fold the remote call's outcome back into
//! the session.

use vstd::prelude::*;

use crate::MAX_INPUT_LENGTH;
use crate::ai_logic::{ChatError, Message, Role, manage_history, trimmed};
use crate::app::{App, Popup, cleared};
use crate::chars::{lower, matches_lower, string_from_chars};

verus! {

/// The keys the session reacts to, already decoded from the terminal event
/// stream into plain values.
#[derive(Clone, Copy, PartialEq, Eq, Structural, Debug)]
pub enum Key {
    Char(char),
    Enter,
    Backspace,
    Left,
    Up,
    Down,
    Esc,
    Other,
}

/// The dismiss key: the only key a showing popup reacts to.
pub open spec fn is_dismiss(key: Key) -> bool {
    key == Key::Char('q')
}

/// A submitted buffer asking the session to stop.
pub open spec fn is_exit_command(input: Seq<char>) -> bool {
    lower(input) == "exit"@ || lower(input) == "quit"@
}

/// A submitted buffer asking for the transcript to be reset.
pub open spec fn is_clear_command(input: Seq<char>) -> bool {
    lower(input) == "clear"@
}

/// A submitted buffer asking for the help popup.
pub open spec fn is_help_command(input: Seq<char>) -> bool {
    lower(input) == "help"@
}

/// A submitted buffer asking for the status popup.
pub open spec fn is_status_command(input: Seq<char>) -> bool {
    lower(input) == "status"@
}

/// All fields equal but the popup.
pub open spec fn only_popup_changed(pre: App, post: App) -> bool {
    &&& post.run == pre.run
    &&& post.size == pre.size
    &&& post.messages == pre.messages
    &&& post.input == pre.input
    &&& post.scroll == pre.scroll
}

/// All fields equal but the input buffer.
pub open spec fn only_input_changed(pre: App, post: App) -> bool {
    &&& post.run == pre.run
    &&& post.size == pre.size
    &&& post.messages == pre.messages
    &&& post.popup == pre.popup
    &&& post.scroll == pre.scroll
}

/// All fields equal but the scroll offset.
pub open spec fn only_scroll_changed(pre: App, post: App) -> bool {
    &&& post.run == pre.run
    &&& post.size == pre.size
    &&& post.messages == pre.messages
    &&& post.input == pre.input
    &&& post.popup == pre.popup
}

/// All fields equal but the running flag.
pub open spec fn only_run_changed(pre: App, post: App) -> bool {
    &&& post.size == pre.size
    &&& post.messages == pre.messages
    &&& post.input == pre.input
    &&& post.popup == pre.popup
    &&& post.scroll == pre.scroll
}

/// The submit pipeline as a relation between the session before and after.
/// `submitted` carries the user message just appended exactly when the remote
/// collaborator must now be called with the (trimmed) transcript.
pub open spec fn submit_transition(pre: App, post: App, submitted: Option<Message>) -> bool {
    let input = pre.input@;
    &&& post.size == pre.size
    &&& post.scroll == pre.scroll
    &&& if input.len() == 0 {
        // nothing to submit
        &&& submitted is None
        &&& post == pre
    } else if input.len() > MAX_INPUT_LENGTH {
        // rejected, not truncated: transcript and buffer stay as they are
        &&& submitted is None
        &&& post.run == pre.run
        &&& post.messages == pre.messages
        &&& post.input == pre.input
        &&& (post.popup matches Popup::Error(m) && m@ == "Input too long (max 1000 characters)"@)
    } else if is_exit_command(input) {
        &&& submitted is None
        &&& !post.run
        &&& post.messages == pre.messages
        &&& post.input@.len() == 0
        &&& post.popup == pre.popup
    } else if is_clear_command(input) {
        &&& submitted is None
        &&& post.run == pre.run
        &&& post.messages@ == cleared(pre.messages@)
        &&& post.input@.len() == 0
        &&& post.popup == pre.popup
    } else if is_help_command(input) {
        &&& submitted is None
        &&& post.run == pre.run
        &&& post.messages == pre.messages
        &&& post.input@.len() == 0
        &&& post.popup == Popup::Help
    } else if is_status_command(input) {
        &&& submitted is None
        &&& post.run == pre.run
        &&& post.messages == pre.messages
        &&& post.input@.len() == 0
        &&& post.popup == Popup::Status
    } else {
        // an ordinary turn: append, clear the buffer, trim, then call out
        &&& (submitted matches Some(m) && m.role == Role::User && m.content@ == input
            && post.messages@ == trimmed(pre.messages@.push(m)))
        &&& post.run == pre.run
        &&& post.input@.len() == 0
        &&& post.popup == pre.popup
    }
}

/// Submit the input buffer: reject an empty or over-long buffer, run a
/// reserved command, or append the buffer as a user turn and trim the
/// transcript. Returns the appended user message exactly when the remote
/// collaborator must now be called.
pub fn process_input(app: &mut App) -> (submitted: Option<Message>)
    requires
        old(app).wf(),
    ensures
        final(app).wf(),
        submit_transition(*old(app), *final(app), submitted),
{
    if app.input.len() == 0 {
        return None;
    }
    if app.input.len() > MAX_INPUT_LENGTH {
        app.popup = Popup::Error(String::from_str("Input too long (max 1000 characters)"));
        return None;
    }
    if matches_lower(&app.input, "exit") || matches_lower(&app.input, "quit") {
        app.run = false;
        app.input = Vec::new();
        return None;
    }
    if matches_lower(&app.input, "clear") {
        app.clear();
        app.input = Vec::new();
        return None;
    }
    if matches_lower(&app.input, "help") {
        app.popup = Popup::Help;
        app.input = Vec::new();
        return None;
    }
    if matches_lower(&app.input, "status") {
        app.popup = Popup::Status;
        app.input = Vec::new();
        return None;
    }
    let text = string_from_chars(&app.input);
    let msg = Message::user_input(text);
    let submitted = msg.clone();
    app.messages.push(msg);
    app.input = Vec::new();
    manage_history(&mut app.messages);
    Some(submitted)
}

/// React to one key. While a popup is showing only the dismiss key acts, and
/// it only closes the popup; otherwise keys edit the buffer, move the scroll
/// offset, stop the session, or submit. Returns the appended user message
/// exactly when the remote collaborator must now be called.
pub fn input_controller(app: &mut App, key: Key) -> (submitted: Option<Message>)
    requires
        old(app).wf(),
    ensures
        final(app).wf(),
        old(app).popup != Popup::Closed ==> {
            &&& submitted is None
            &&& if is_dismiss(key) {
                only_popup_changed(*old(app), *final(app)) && final(app).popup == Popup::Closed
            } else {
                *final(app) == *old(app)
            }
        },
        old(app).popup == Popup::Closed ==> match key {
            Key::Char(c) => submitted is None && only_input_changed(*old(app), *final(app))
                && final(app).input@ == old(app).input@.push(c),
            Key::Enter => submit_transition(*old(app), *final(app), submitted),
            Key::Backspace => submitted is None && only_input_changed(*old(app), *final(app))
                && final(app).input@ == if old(app).input@.len() > 0 {
                old(app).input@.drop_last()
            } else {
                old(app).input@
            },
            Key::Up => submitted is None && only_scroll_changed(*old(app), *final(app))
                && final(app).scroll == if old(app).scroll > 0 {
                (old(app).scroll - 1) as u32
            } else {
                0u32
            },
            Key::Down => submitted is None && only_scroll_changed(*old(app), *final(app))
                && final(app).scroll == if old(app).scroll < u32::MAX {
                (old(app).scroll + 1) as u32
            } else {
                u32::MAX
            },
            Key::Esc => submitted is None && only_run_changed(*old(app), *final(app))
                && !final(app).run,
            Key::Left => submitted is None && *final(app) == *old(app),
            Key::Other => submitted is None && *final(app) == *old(app),
        },
{
    if !matches!(app.popup, Popup::Closed) {
        if matches!(key, Key::Char('q')) {
            app.popup = Popup::Closed;
        }
        None
    } else {
        match key {
            Key::Char(c) => {
                app.input.push(c);
                None
            },
            Key::Enter => process_input(app),
            Key::Backspace => {
                if app.input.len() > 0 {
                    app.input.pop();
                }
                None
            },
            Key::Up => {
                if app.scroll > 0 {
                    app.scroll = app.scroll - 1;
                }
                None
            },
            Key::Down => {
                if app.scroll < u32::MAX {
                    app.scroll = app.scroll + 1;
                }
                None
            },
            Key::Esc => {
                app.run = false;
                None
            },
            Key::Left => None,
            Key::Other => None,
        }
    }
}

/// The message shown for each failure mode of the remote call.
pub open spec fn error_text(e: ChatError) -> Seq<char> {
    match e {
        ChatError::EnvVar => "Please check your AI model"@,
        ChatError::Io => "Unexpected error."@,
        ChatError::Network => "Network error: Please check your internet connection."@,
        ChatError::ApiResponse => "API error: Please check your API key and try again."@,
    }
}

/// Fold the remote call's outcome back into the session: append the reply as
/// an assistant turn (the caller must then persist the transcript, as the
/// result says), or surface the failure as an error popup, leaving the
/// transcript as it was — the user turn already appended stays.
pub fn finish_request(app: &mut App, outcome: Result<String, ChatError>) -> (persist: bool)
    requires
        old(app).wf(),
    ensures
        final(app).wf(),
        final(app).run == old(app).run,
        final(app).size == old(app).size,
        final(app).input == old(app).input,
        final(app).scroll == old(app).scroll,
        match outcome {
            Result::Ok(reply) => {
                &&& persist
                &&& final(app).messages@ == old(app).messages@.push(
                    Message { role: Role::Assistant, content: reply },
                )
                &&& final(app).popup == old(app).popup
            },
            Result::Err(e) => {
                &&& !persist
                &&& final(app).messages == old(app).messages
                &&& (final(app).popup matches Popup::Error(m) && m@ == error_text(e))
            },
        },
{
    match outcome {
        Result::Ok(reply) => {
            app.append_assistant(reply);
            true
        },
        Result::Err(e) => {
            let msg = match e {
                ChatError::EnvVar => String::from_str("Please check your AI model"),
                ChatError::Io => String::from_str("Unexpected error."),
                ChatError::Network => String::from_str(
                    "Network error: Please check your internet connection.",
                ),
                ChatError::ApiResponse => String::from_str(
                    "API error: Please check your API key and try again.",
                ),
            };
            app.popup = Popup::Error(msg);
            false
        },
    }
}

} // verus!
