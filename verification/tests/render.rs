use chat_tui::ai_logic::{Message, Role};
use chat_tui::app::{App, Popup};
use chat_tui::popups::popup_sending_message;
use chat_tui::text_layout::wrap;
use chat_tui::tui::{render, render_frame, screen_size_warning, Surface};

fn cv(s: &str) -> Vec<char> {
    s.chars().collect()
}

fn persona() -> Message {
    Message {
        role: Role::System,
        content: "Speak clearly and shortly".to_string(),
    }
}

fn app_sized(w: u16, h: u16) -> App {
    App {
        run: true,
        size: (w, h),
        messages: vec![persona()],
        input: Vec::new(),
        popup: Popup::Closed,
        scroll: 0,
    }
}

fn rows(s: &Surface) -> Vec<String> {
    (0..s.height).map(|y| s.row_string(y)).collect()
}

fn seg(row: &str, start: usize, len: usize) -> String {
    row.chars().skip(start).take(len).collect()
}

#[test]
fn wrap_respects_width_and_tokens() {
    let text = cv("the quick brown fox jumps over the lazy dog");
    for width in 1..20usize {
        let lines = wrap(&text, width);
        for l in &lines {
            assert!(!l.is_empty());
            assert!(l.len() <= width);
        }
        if width >= 6 {
            // no token is wider than the width: joining with single spaces
            // reconstructs the token sequence
            let joined: String = lines
                .iter()
                .map(|l| l.iter().collect::<String>())
                .collect::<Vec<_>>()
                .join(" ");
            let original: Vec<&str> = "the quick brown fox jumps over the lazy dog"
                .split_whitespace()
                .collect();
            let got: Vec<String> = joined.split_whitespace().map(|t| t.to_string()).collect();
            assert_eq!(got, original);
        }
    }
}

#[test]
fn wrap_layout_is_greedy() {
    let lines = wrap(&cv("ab cd ef"), 5);
    let out: Vec<String> = lines.iter().map(|l| l.iter().collect()).collect();
    assert_eq!(out, vec!["ab cd".to_string(), "ef".to_string()]);
}

#[test]
fn wrap_hard_breaks_over_long_words() {
    let lines = wrap(&cv("abcdefgh"), 3);
    let out: Vec<String> = lines.iter().map(|l| l.iter().collect()).collect();
    assert_eq!(out, vec!["abc".to_string(), "def".to_string(), "gh".to_string()]);
}

#[test]
fn wrap_empty_text_yields_no_lines() {
    assert!(wrap(&cv(""), 10).is_empty());
    assert!(wrap(&cv("   \n  "), 10).is_empty());
}

#[test]
fn surface_boxes_and_text() {
    let mut s = Surface::new(10, 4);
    s.draw_box(10, 4, 0, 0);
    assert_eq!(s.get_cell(0, 0), '\u{256d}');
    assert_eq!(s.get_cell(9, 0), '\u{256e}');
    assert_eq!(s.get_cell(0, 3), '\u{2570}');
    assert_eq!(s.get_cell(9, 3), '\u{256f}');
    assert_eq!(s.get_cell(5, 0), '\u{2500}');
    assert_eq!(s.get_cell(0, 2), '\u{2502}');
    assert_eq!(s.get_cell(5, 2), ' ');
    s.print_at(2, 2, &cv("hi"));
    assert_eq!(s.get_cell(2, 2), 'h');
    assert_eq!(s.get_cell(3, 2), 'i');
}

#[test]
fn small_terminal_shows_size_warning() {
    let mut app = app_sized(60, 15);
    let s = render_frame(&app);
    assert_eq!(s.width, 60);
    assert_eq!(s.height, 15);
    // no chat box is drawn
    assert_eq!(s.get_cell(0, 0), ' ');
    let all = rows(&s).join("\n");
    assert!(all.contains("Terminal size is too low! Width: 60, Height: 15"));
    assert!(all.contains("Set your terminal size to minimum Width: 80, Height: 20"));

    // resized back above the minimum, the chat frame returns
    app.size = (80, 20);
    let s = render_frame(&app);
    assert_eq!(s.get_cell(0, 0), '\u{256d}');
    assert!(rows(&s).join("\n").contains(" Chat "));
}

#[test]
fn warning_view_matches_direct_call() {
    let s = render_frame(&app_sized(40, 10));
    let direct = screen_size_warning((40, 10));
    assert_eq!(rows(&s), rows(&direct));
}

#[test]
fn chat_frame_has_boxes_titles_and_transcript() {
    let mut app = app_sized(80, 20);
    app.messages.push(Message::user_input("hello there".to_string()));
    app.messages.push(Message::ai_reply("hi".to_string()));
    app.input = cv("typing");
    let s = render(&app);
    let r = rows(&s);
    assert!(r[0].contains(" Chat "));
    assert!(r[15].contains(" Message | 6/1000 "));
    assert_eq!(seg(&r[1], 1, 30), "You: Speak clearly and shortly");
    assert_eq!(seg(&r[2], 1, 16), "You: hello there");
    assert_eq!(seg(&r[3], 1, 6), "AI: hi");
    assert_eq!(seg(&r[16], 1, 15), "Message: typing");
}

#[test]
fn scroll_skips_leading_chat_lines() {
    let mut app = app_sized(80, 20);
    app.messages.push(Message::user_input("one".to_string()));
    app.messages.push(Message::user_input("two".to_string()));
    app.scroll = 1;
    let s = render(&app);
    let r = rows(&s);
    // the persona line is scrolled away; the first visible line is "You: one"
    assert_eq!(seg(&r[1], 1, 8), "You: one");
    assert_eq!(seg(&r[2], 1, 8), "You: two");
}

#[test]
fn welcome_popup_overlays_the_frame() {
    let mut app = app_sized(80, 20);
    app.popup = Popup::Welcome;
    let s = render(&app);
    let all = rows(&s).join("\n");
    assert!(all.contains(" Welcome "));
    assert!(all.contains("Welcome to Groq AI Chat!"));
    assert!(all.contains("- Press 'q' to close pop-ups"));
}

#[test]
fn help_popup_lists_the_commands() {
    let mut app = app_sized(80, 20);
    app.popup = Popup::Help;
    let s = render(&app);
    let all = rows(&s).join("\n");
    assert!(all.contains(" Help "));
    assert!(all.contains(" exit | quit   - Quit"));
    assert!(all.contains(" clear         - Clear chat history"));
}

#[test]
fn status_popup_shows_the_counts() {
    let mut app = app_sized(80, 20);
    app.messages.push(Message::user_input("a".to_string()));
    app.messages.push(Message::ai_reply("b".to_string()));
    app.messages.push(Message::user_input("c".to_string()));
    app.popup = Popup::Status;
    let s = render(&app);
    let all = rows(&s).join("\n");
    assert!(all.contains(" Status "));
    assert!(all.contains("- Messages in history: 3"));
    assert!(all.contains("- User messages: 2"));
    assert!(all.contains("- AI responses: 1"));
}

#[test]
fn error_popup_shows_the_message_verbatim() {
    let mut app = app_sized(80, 20);
    app.popup = Popup::Error("Network error: Please check your internet connection.".to_string());
    let s = render(&app);
    let all = rows(&s).join("\n");
    assert!(all.contains(" Error "));
    assert!(all.contains("Network error: Please check your internet connection."));
}

#[test]
fn error_popup_wraps_long_messages_inside_the_terminal() {
    let mut app = app_sized(80, 20);
    let long = "x".repeat(60) + " " + &"y".repeat(60);
    app.popup = Popup::Error(long);
    let s = render(&app);
    let r = rows(&s);
    for row in &r {
        assert!(row.chars().count() == 80);
    }
    let all = r.join("\n");
    assert!(all.contains(&"x".repeat(60)));
    assert!(all.contains(&"y".repeat(60)));
}

#[test]
fn sending_indicator_is_drawn_centered() {
    let mut s = Surface::new(80, 20);
    popup_sending_message(&mut s, &(80, 20));
    let all = rows(&s).join("\n");
    assert!(all.contains(" Info "));
    assert!(all.contains("Sending message"));
}
