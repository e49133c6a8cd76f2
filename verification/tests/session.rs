use chat_tui::ai_logic::{classify_response, manage_history, resolve_model, ChatError, Message, Role};
use chat_tui::app::{App, Popup};
use chat_tui::codec::{decode_transcript, encode_transcript};
use chat_tui::input::{finish_request, input_controller, process_input, Key};
use chat_tui::{MAX_HISTORY_MESSAGES, MAX_INPUT_LENGTH};

fn cv(s: &str) -> Vec<char> {
    s.chars().collect()
}

fn persona() -> Message {
    Message {
        role: Role::System,
        content: "Speak clearly and shortly".to_string(),
    }
}

fn fresh_app() -> App {
    App {
        run: true,
        size: (80, 20),
        messages: vec![persona()],
        input: Vec::new(),
        popup: Popup::Closed,
        scroll: 0,
    }
}

fn pairs(ms: &[Message]) -> Vec<(Role, String)> {
    ms.iter().map(|m| (m.role, m.content.clone())).collect()
}

#[test]
fn message_constructors() {
    let u = Message::user_input("hi".to_string());
    assert_eq!(u.role, Role::User);
    assert_eq!(u.content, "hi");
    let a = Message::ai_reply("ok".to_string());
    assert_eq!(a.role, Role::Assistant);
    assert_eq!(a.content, "ok");
    let p = Message::ai_character(None);
    assert_eq!(p.role, Role::System);
    assert_eq!(p.content, "Speak clearly and shortly");
    let p2 = Message::ai_character(Some("Be terse".to_string()));
    assert_eq!(p2.content, "Be terse");
}

#[test]
fn trimming_keeps_persona_and_recent_tail() {
    let mut ms = vec![persona()];
    for i in 0..60 {
        ms.push(Message::user_input(format!("m{}", i)));
    }
    let before = pairs(&ms);
    manage_history(&mut ms);
    assert_eq!(ms.len(), MAX_HISTORY_MESSAGES + 1);
    assert_eq!(ms[0].content, "Speak clearly and shortly");
    let expected_tail = &before[before.len() - MAX_HISTORY_MESSAGES..];
    assert_eq!(&pairs(&ms)[1..], expected_tail);
}

#[test]
fn trimming_leaves_short_transcripts_alone() {
    let mut ms = vec![persona()];
    for i in 0..MAX_HISTORY_MESSAGES {
        ms.push(Message::user_input(format!("m{}", i)));
    }
    let before = pairs(&ms);
    manage_history(&mut ms);
    assert_eq!(pairs(&ms), before);
}

#[test]
fn clear_is_idempotent() {
    let mut app = fresh_app();
    app.messages.push(Message::user_input("a".to_string()));
    app.messages.push(Message::ai_reply("b".to_string()));
    app.clear();
    let once = pairs(&app.messages);
    app.clear();
    let twice = pairs(&app.messages);
    assert_eq!(once, twice);
    assert_eq!(once.len(), 1);
    assert_eq!(once[0].0, Role::System);
}

#[test]
fn status_counts_roles() {
    let mut app = fresh_app();
    app.messages.push(Message::user_input("a".to_string()));
    app.messages.push(Message::ai_reply("b".to_string()));
    app.messages.push(Message::user_input("c".to_string()));
    let (total, users, assistants) = app.status();
    assert_eq!(total, 3);
    assert_eq!(users, 2);
    assert_eq!(assistants, 1);
}

#[test]
fn submit_rejects_over_long_input() {
    let mut app = fresh_app();
    app.input = vec!['x'; MAX_INPUT_LENGTH + 1];
    let before = pairs(&app.messages);
    let r = process_input(&mut app);
    assert!(r.is_none());
    assert_eq!(pairs(&app.messages), before);
    assert_eq!(app.input.len(), MAX_INPUT_LENGTH + 1);
    assert_eq!(
        app.popup,
        Popup::Error("Input too long (max 1000 characters)".to_string())
    );
}

#[test]
fn submit_at_ceiling_is_accepted() {
    let mut app = fresh_app();
    app.input = vec!['x'; MAX_INPUT_LENGTH];
    let r = process_input(&mut app);
    assert!(r.is_some());
    assert_eq!(app.messages.len(), 2);
}

#[test]
fn submit_help_opens_help_popup() {
    let mut app = fresh_app();
    app.input = cv("help");
    let before = pairs(&app.messages);
    let r = process_input(&mut app);
    assert!(r.is_none());
    assert_eq!(app.popup, Popup::Help);
    assert!(app.input.is_empty());
    assert_eq!(pairs(&app.messages), before);
}

#[test]
fn submit_commands_are_case_insensitive() {
    let mut app = fresh_app();
    app.input = cv("EXIT");
    assert!(process_input(&mut app).is_none());
    assert!(!app.run);

    let mut app = fresh_app();
    app.input = cv("Quit");
    assert!(process_input(&mut app).is_none());
    assert!(!app.run);

    let mut app = fresh_app();
    app.input = cv("Status");
    assert!(process_input(&mut app).is_none());
    assert_eq!(app.popup, Popup::Status);
    assert!(app.input.is_empty());
}

#[test]
fn submit_clear_resets_transcript() {
    let mut app = fresh_app();
    app.messages.push(Message::user_input("a".to_string()));
    app.input = cv("clear");
    assert!(process_input(&mut app).is_none());
    assert_eq!(app.messages.len(), 1);
    assert_eq!(app.messages[0].role, Role::System);
    assert!(app.input.is_empty());
}

#[test]
fn submit_empty_is_a_no_op() {
    let mut app = fresh_app();
    let before = pairs(&app.messages);
    assert!(process_input(&mut app).is_none());
    assert_eq!(pairs(&app.messages), before);
    assert_eq!(app.popup, Popup::Closed);
}

#[test]
fn submit_ordinary_text_appends_and_requests_call() {
    let mut app = fresh_app();
    app.input = cv("hello");
    let submitted = process_input(&mut app).expect("a remote call is due");
    assert_eq!(submitted.role, Role::User);
    assert_eq!(submitted.content, "hello");
    assert!(app.input.is_empty());
    assert_eq!(
        pairs(&app.messages),
        vec![
            (Role::System, "Speak clearly and shortly".to_string()),
            (Role::User, "hello".to_string()),
        ]
    );
}

#[test]
fn successful_reply_is_appended_and_persisted() {
    let mut app = fresh_app();
    app.input = cv("hello");
    process_input(&mut app).unwrap();
    let persist = finish_request(&mut app, Ok("hi".to_string()));
    assert!(persist);
    assert_eq!(
        pairs(&app.messages),
        vec![
            (Role::System, "Speak clearly and shortly".to_string()),
            (Role::User, "hello".to_string()),
            (Role::Assistant, "hi".to_string()),
        ]
    );
    // persisted storage matches: the encoded transcript decodes to the same pairs
    let stored = encode_transcript(&app.messages);
    let loaded = decode_transcript(&stored).expect("well-formed storage");
    assert_eq!(pairs(&loaded), pairs(&app.messages));
}

#[test]
fn transport_failure_keeps_user_turn_and_reports() {
    let mut app = fresh_app();
    app.input = cv("hello");
    process_input(&mut app).unwrap();
    let persist = finish_request(&mut app, Err(ChatError::Network));
    assert!(!persist);
    assert_eq!(
        pairs(&app.messages),
        vec![
            (Role::System, "Speak clearly and shortly".to_string()),
            (Role::User, "hello".to_string()),
        ]
    );
    assert_eq!(
        app.popup,
        Popup::Error("Network error: Please check your internet connection.".to_string())
    );
}

#[test]
fn each_failure_mode_has_its_message() {
    for (e, msg) in [
        (ChatError::EnvVar, "Please check your AI model"),
        (ChatError::Io, "Unexpected error."),
        (
            ChatError::Network,
            "Network error: Please check your internet connection.",
        ),
        (
            ChatError::ApiResponse,
            "API error: Please check your API key and try again.",
        ),
    ] {
        let mut app = fresh_app();
        assert!(!finish_request(&mut app, Err(e)));
        assert_eq!(app.popup, Popup::Error(msg.to_string()));
    }
}

#[test]
fn popup_blocks_all_keys_but_dismiss() {
    let mut app = fresh_app();
    app.popup = Popup::Help;
    app.input = cv("abc");
    for key in [
        Key::Char('x'),
        Key::Enter,
        Key::Backspace,
        Key::Up,
        Key::Down,
        Key::Esc,
        Key::Left,
        Key::Other,
    ] {
        assert!(input_controller(&mut app, key).is_none());
        assert_eq!(app.popup, Popup::Help);
        assert_eq!(app.input, cv("abc"));
        assert!(app.run);
    }
    assert!(input_controller(&mut app, Key::Char('q')).is_none());
    assert_eq!(app.popup, Popup::Closed);
    assert_eq!(app.input, cv("abc"));
}

#[test]
fn keys_edit_buffer_scroll_and_run() {
    let mut app = fresh_app();
    input_controller(&mut app, Key::Char('h'));
    input_controller(&mut app, Key::Char('i'));
    assert_eq!(app.input, cv("hi"));
    input_controller(&mut app, Key::Backspace);
    assert_eq!(app.input, cv("h"));
    input_controller(&mut app, Key::Backspace);
    input_controller(&mut app, Key::Backspace);
    assert!(app.input.is_empty());
    input_controller(&mut app, Key::Up);
    assert_eq!(app.scroll, 0);
    input_controller(&mut app, Key::Down);
    input_controller(&mut app, Key::Down);
    assert_eq!(app.scroll, 2);
    input_controller(&mut app, Key::Up);
    assert_eq!(app.scroll, 1);
    input_controller(&mut app, Key::Esc);
    assert!(!app.run);
}

#[test]
fn enter_submits_through_the_controller() {
    let mut app = fresh_app();
    app.input = cv("hello");
    let submitted = input_controller(&mut app, Key::Enter).expect("a remote call is due");
    assert_eq!(submitted.content, "hello");
    assert_eq!(app.messages.len(), 2);
}

#[test]
fn resolve_model_requires_a_model() {
    assert_eq!(resolve_model(Some("m".to_string())), Ok("m".to_string()));
    assert_eq!(resolve_model(None), Err(ChatError::EnvVar));
}

#[test]
fn classify_response_covers_each_outcome() {
    assert_eq!(
        classify_response(true, vec!["ok".to_string(), "alt".to_string()]),
        Ok("ok".to_string())
    );
    assert_eq!(
        classify_response(false, vec!["ok".to_string()]),
        Err(ChatError::Network)
    );
    assert_eq!(classify_response(true, vec![]), Err(ChatError::ApiResponse));
}

#[test]
fn codec_round_trips_awkward_content() {
    let ms = vec![
        persona(),
        Message::user_input("line one\nline two, with 17 digits".to_string()),
        Message::ai_reply("unicode: \u{2500}\u{256d} caf\u{e9}".to_string()),
        Message::user_input(String::new()),
    ];
    let stored = encode_transcript(&ms);
    let loaded = decode_transcript(&stored).expect("round trip");
    assert_eq!(pairs(&loaded), pairs(&ms));
}

#[test]
fn codec_rejects_malformed_storage() {
    assert!(decode_transcript(&cv("not a transcript")).is_none());
    assert!(decode_transcript(&cv("u 0000000000000000000五\nhi\n")).is_none());
    // a record whose claimed length overruns the input
    assert!(decode_transcript(&cv("u 00000000000000000099\nhi\n")).is_none());
    // trailing garbage after a well-formed record
    let mut ok = encode_transcript(&vec![persona()]);
    ok.push('!');
    assert!(decode_transcript(&ok).is_none());
}

#[test]
fn codec_empty_storage_is_an_empty_transcript() {
    let loaded = decode_transcript(&Vec::new()).expect("empty is well-formed");
    assert!(loaded.is_empty());
}

#[test]
fn init_adopts_stored_transcript() {
    let stored = vec![persona(), Message::user_input("a".to_string())];
    let (app, save) = App::init((80, 20), persona(), Some(stored.clone()), false);
    assert!(!save);
    assert_eq!(pairs(&app.messages), pairs(&stored));
    assert!(app.run);
    assert_eq!(app.popup, Popup::Closed);
    assert_eq!(app.scroll, 0);
    assert!(app.input.is_empty());
}

#[test]
fn init_replaces_missing_or_corrupt_storage() {
    let (app, save) = App::init((80, 20), persona(), None, true);
    assert!(save);
    assert_eq!(app.messages.len(), 1);
    assert_eq!(app.messages[0].role, Role::System);
    assert_eq!(app.popup, Popup::Welcome);

    // a transcript that does not start with the persona is treated as corrupt
    let bad = vec![Message::user_input("a".to_string())];
    let (app, save) = App::init((80, 20), persona(), Some(bad), false);
    assert!(save);
    assert_eq!(app.messages.len(), 1);
    assert_eq!(app.messages[0].role, Role::System);

    let (app, save) = App::init((80, 20), persona(), Some(Vec::new()), false);
    assert!(save);
    assert_eq!(app.messages.len(), 1);
}

#[test]
fn error_popup_also_blocks_keys_until_dismissed() {
    let mut app = fresh_app();
    app.popup = Popup::Error("boom".to_string());
    assert!(input_controller(&mut app, Key::Char('a')).is_none());
    assert_eq!(app.popup, Popup::Error("boom".to_string()));
    assert!(input_controller(&mut app, Key::Enter).is_none());
    assert_eq!(app.popup, Popup::Error("boom".to_string()));
    input_controller(&mut app, Key::Char('q'));
    assert_eq!(app.popup, Popup::Closed);
}

#[test]
fn submit_trims_before_the_remote_call() {
    let mut app = fresh_app();
    for i in 0..MAX_HISTORY_MESSAGES + 1 {
        app.messages.push(Message::ai_reply(format!("m{}", i)));
    }
    assert_eq!(app.messages.len(), MAX_HISTORY_MESSAGES + 2);
    app.input = cv("newest");
    let submitted = process_input(&mut app).expect("a remote call is due");
    // the transcript handed to the remote call is already trimmed
    assert_eq!(app.messages.len(), MAX_HISTORY_MESSAGES + 1);
    assert_eq!(app.messages[0].role, Role::System);
    assert_eq!(app.messages.last().unwrap().content, submitted.content);
    assert_eq!(app.messages.last().unwrap().content, "newest");
}
