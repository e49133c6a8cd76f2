//! The modal overlays: welcome banner, command list, conversation status,
//! the sending indicator, and the error box. Each draws a centered box onto
//! the surface; its whole effect on the grid is stated exactly.

use vstd::prelude::*;

use crate::ai_logic::{Message, Role};
use crate::app::{count_role, role_counts};
use crate::chars::{dec_str, lemma_dec_str_len_usize, push_dec, str_chars, vec_copy};
use crate::text_layout::{words_view, wrap, wrapped};
use crate::tui::{boxed_title, grid_print, grid_print_lines, Surface};
use crate::{MIN_HEIGHT, MIN_WIDTH};

verus! {

/// The welcome banner's effect on a grid.
pub open spec fn welcome_grid(g: Seq<Seq<char>>, size: (u16, u16)) -> Seq<Seq<char>> {
    let x = (size.0 as int - 38) / 2;
    let y = (size.1 as int - 6) / 2;
    grid_print(
        grid_print(
            grid_print(
                grid_print(
                    boxed_title(g, x, y, 38, 6, "Welcome"@),
                    x + 1,
                    y + 1,
                    "      Welcome to Groq AI Chat!"@,
                ),
                x + 1,
                y + 2,
                "------------------------------------"@,
            ),
            x + 1,
            y + 3,
            "- Type 'help' for available commands"@,
        ),
        x + 1,
        y + 4,
        "- Press 'q' to close pop-ups"@,
    )
}

/// Draw the welcome banner, centered.
pub fn popup_welcome(surface: &mut Surface, size: &(u16, u16))
    requires
        old(surface).wf(),
        old(surface).width == size.0,
        old(surface).height == size.1,
        size.0 >= MIN_WIDTH,
        size.1 >= MIN_HEIGHT,
    ensures
        final(surface).wf(),
        final(surface).width == old(surface).width,
        final(surface).height == old(surface).height,
        final(surface).grid() == welcome_grid(old(surface).grid(), *size),
{
    let x_size: u16 = 38;
    let y_size: u16 = 6;
    let x_pos = (size.0 - x_size) / 2;
    let y_pos = (size.1 - y_size) / 2;
    proof {
        reveal_strlit("Welcome");
        reveal_strlit("      Welcome to Groq AI Chat!");
        reveal_strlit("------------------------------------");
        reveal_strlit("- Type 'help' for available commands");
        reveal_strlit("- Press 'q' to close pop-ups");
    }
    let title = str_chars("Welcome");
    surface.draw_box_with_title(x_size, y_size, x_pos, y_pos, &title);
    let l1 = str_chars("      Welcome to Groq AI Chat!");
    surface.print_at(x_pos as usize + 1, y_pos as usize + 1, &l1);
    let l2 = str_chars("------------------------------------");
    surface.print_at(x_pos as usize + 1, y_pos as usize + 2, &l2);
    let l3 = str_chars("- Type 'help' for available commands");
    surface.print_at(x_pos as usize + 1, y_pos as usize + 3, &l3);
    let l4 = str_chars("- Press 'q' to close pop-ups");
    surface.print_at(x_pos as usize + 1, y_pos as usize + 4, &l4);
}

/// The help popup's effect on a grid.
pub open spec fn help_grid(g: Seq<Seq<char>>, size: (u16, u16)) -> Seq<Seq<char>> {
    let x = (size.0 as int - 52) / 2;
    let y = (size.1 as int - 7) / 2;
    grid_print(
        grid_print(
            grid_print(
                grid_print(
                    grid_print(
                        boxed_title(g, x, y, 52, 7, "Help"@),
                        x + 1,
                        y + 1,
                        "Available commands:"@,
                    ),
                    x + 1,
                    y + 2,
                    " exit | quit   - Quit"@,
                ),
                x + 1,
                y + 3,
                " help          - Show this help message"@,
            ),
            x + 1,
            y + 4,
            " status        - Show current conversation status"@,
        ),
        x + 1,
        y + 5,
        " clear         - Clear chat history"@,
    )
}

/// Draw the command list, centered.
pub fn popup_help(surface: &mut Surface, size: &(u16, u16))
    requires
        old(surface).wf(),
        old(surface).width == size.0,
        old(surface).height == size.1,
        size.0 >= MIN_WIDTH,
        size.1 >= MIN_HEIGHT,
    ensures
        final(surface).wf(),
        final(surface).width == old(surface).width,
        final(surface).height == old(surface).height,
        final(surface).grid() == help_grid(old(surface).grid(), *size),
{
    let x_size: u16 = 52;
    let y_size: u16 = 7;
    let x_pos = (size.0 - x_size) / 2;
    let y_pos = (size.1 - y_size) / 2;
    proof {
        reveal_strlit("Help");
        reveal_strlit("Available commands:");
        reveal_strlit(" exit | quit   - Quit");
        reveal_strlit(" help          - Show this help message");
        reveal_strlit(" status        - Show current conversation status");
        reveal_strlit(" clear         - Clear chat history");
    }
    let title = str_chars("Help");
    surface.draw_box_with_title(x_size, y_size, x_pos, y_pos, &title);
    let l1 = str_chars("Available commands:");
    surface.print_at(x_pos as usize + 1, y_pos as usize + 1, &l1);
    let l2 = str_chars(" exit | quit   - Quit");
    surface.print_at(x_pos as usize + 1, y_pos as usize + 2, &l2);
    let l3 = str_chars(" help          - Show this help message");
    surface.print_at(x_pos as usize + 1, y_pos as usize + 3, &l3);
    let l4 = str_chars(" status        - Show current conversation status");
    surface.print_at(x_pos as usize + 1, y_pos as usize + 4, &l4);
    let l5 = str_chars(" clear         - Clear chat history");
    surface.print_at(x_pos as usize + 1, y_pos as usize + 5, &l5);
}

/// The status popup's effect on a grid, given the derived counts.
pub open spec fn status_grid(
    g: Seq<Seq<char>>,
    size: (u16, u16),
    total: nat,
    users: nat,
    assistants: nat,
) -> Seq<Seq<char>> {
    let x = (size.0 as int - 30) / 2;
    let y = (size.1 as int - 6) / 2;
    grid_print(
        grid_print(
            grid_print(
                grid_print(
                    boxed_title(g, x, y, 30, 6, "Status"@),
                    x + 1,
                    y + 1,
                    "Conversation Status:"@,
                ),
                x + 1,
                y + 2,
                "- Messages in history: "@ + dec_str(total),
            ),
            x + 1,
            y + 3,
            "- User messages: "@ + dec_str(users),
        ),
        x + 1,
        y + 4,
        "- AI responses: "@ + dec_str(assistants),
    )
}

/// Draw the conversation status, centered: turns excluding the persona,
/// user turns, assistant turns, counted from the transcript itself.
pub fn popup_status(surface: &mut Surface, size: &(u16, u16), messages: &Vec<Message>)
    requires
        old(surface).wf(),
        old(surface).width == size.0,
        old(surface).height == size.1,
        size.0 >= MIN_WIDTH,
        size.1 >= MIN_HEIGHT,
        messages@.len() >= 1,
    ensures
        final(surface).wf(),
        final(surface).width == old(surface).width,
        final(surface).height == old(surface).height,
        final(surface).grid() == status_grid(
            old(surface).grid(),
            *size,
            (messages@.len() - 1) as nat,
            count_role(messages@, Role::User),
            count_role(messages@, Role::Assistant),
        ),
{
    let x_size: u16 = 30;
    let y_size: u16 = 6;
    let x_pos = (size.0 - x_size) / 2;
    let y_pos = (size.1 - y_size) / 2;
    proof {
        reveal_strlit("Status");
        reveal_strlit("Conversation Status:");
        reveal_strlit("- Messages in history: ");
        reveal_strlit("- User messages: ");
        reveal_strlit("- AI responses: ");
    }
    let total = messages.len() - 1;
    let (users, assistants) = role_counts(messages);
    proof {
        lemma_dec_str_len_usize(total as nat);
        lemma_dec_str_len_usize(users as nat);
        lemma_dec_str_len_usize(assistants as nat);
    }
    let title = str_chars("Status");
    surface.draw_box_with_title(x_size, y_size, x_pos, y_pos, &title);
    let l1 = str_chars("Conversation Status:");
    surface.print_at(x_pos as usize + 1, y_pos as usize + 1, &l1);
    let mut l2 = str_chars("- Messages in history: ");
    push_dec(&mut l2, total);
    surface.print_at(x_pos as usize + 1, y_pos as usize + 2, &l2);
    let mut l3 = str_chars("- User messages: ");
    push_dec(&mut l3, users);
    surface.print_at(x_pos as usize + 1, y_pos as usize + 3, &l3);
    let mut l4 = str_chars("- AI responses: ");
    push_dec(&mut l4, assistants);
    surface.print_at(x_pos as usize + 1, y_pos as usize + 4, &l4);
}

/// The sending indicator's effect on a grid.
pub open spec fn sending_grid(g: Seq<Seq<char>>, size: (u16, u16)) -> Seq<Seq<char>> {
    let x = (size.0 as int - 17) / 2;
    let y = (size.1 as int - 3) / 2;
    grid_print(boxed_title(g, x, y, 17, 3, "Info"@), x + 1, y + 1, "Sending message"@)
}

/// Draw the transient indicator shown once before the blocking remote call.
pub fn popup_sending_message(surface: &mut Surface, size: &(u16, u16))
    requires
        old(surface).wf(),
        old(surface).width == size.0,
        old(surface).height == size.1,
        size.0 >= MIN_WIDTH,
        size.1 >= MIN_HEIGHT,
    ensures
        final(surface).wf(),
        final(surface).width == old(surface).width,
        final(surface).height == old(surface).height,
        final(surface).grid() == sending_grid(old(surface).grid(), *size),
{
    let x_size: u16 = 17;
    let y_size: u16 = 3;
    let x_pos = (size.0 - x_size) / 2;
    let y_pos = (size.1 - y_size) / 2;
    proof {
        reveal_strlit("Info");
        reveal_strlit("Sending message");
    }
    let title = str_chars("Info");
    surface.draw_box_with_title(x_size, y_size, x_pos, y_pos, &title);
    let msg = str_chars("Sending message");
    surface.print_at(x_pos as usize + 1, y_pos as usize + 1, &msg);
}

/// The longest line among `lines`.
pub open spec fn max_len(lines: Seq<Seq<char>>) -> nat
    decreases lines.len(),
{
    if lines.len() == 0 {
        0
    } else if lines.last().len() >= max_len(lines.drop_last()) {
        lines.last().len()
    } else {
        max_len(lines.drop_last())
    }
}

proof fn lemma_max_len_bound(lines: Seq<Seq<char>>)
    ensures
        forall|k: int| 0 <= k < lines.len() ==> (#[trigger] lines[k]).len() <= max_len(lines),
    decreases lines.len(),
{
    if lines.len() > 0 {
        lemma_max_len_bound(lines.drop_last());
        assert forall|k: int| 0 <= k < lines.len() implies (#[trigger] lines[k]).len() <= max_len(
            lines,
        ) by {
            if k < lines.len() - 1 {
                assert(lines.drop_last()[k] == lines[k]);
            }
        }
    }
}

/// The error popup's effect on a grid: the message wrapped to fit, in a box
/// sized to its longest line, centered.
pub open spec fn error_grid(g: Seq<Seq<char>>, size: (u16, u16), msg: Seq<char>) -> Seq<Seq<char>> {
    let w = size.0 as int;
    let h = size.1 as int;
    let lines = wrapped(msg, w - 10);
    let shown = if lines.len() <= h - 4 {
        lines.len() as int
    } else {
        h - 4
    };
    let ml = max_len(lines.take(shown)) as int;
    let bw = if ml + 2 >= 12 {
        ml + 2
    } else {
        12
    };
    let bh = shown + 2;
    let x = (w - bw) / 2;
    let y = (h - bh) / 2;
    grid_print_lines(boxed_title(g, x, y, bw, bh, "Error"@), x + 1, y + 1, lines.take(shown))
}

/// Draw the error popup: the message is wrapped with the same layout
/// component as the chat text, never overflowing the terminal.
pub fn popup_error(surface: &mut Surface, size: &(u16, u16), msg: &Vec<char>)
    requires
        old(surface).wf(),
        old(surface).width == size.0,
        old(surface).height == size.1,
        size.0 >= MIN_WIDTH,
        size.1 >= MIN_HEIGHT,
    ensures
        final(surface).wf(),
        final(surface).width == old(surface).width,
        final(surface).height == old(surface).height,
        final(surface).grid() == error_grid(old(surface).grid(), *size, msg@),
{
    let w = size.0 as usize;
    let h = size.1 as usize;
    let lines = wrap(msg, w - 10);
    let max_shown = h - 4;
    let shown = if lines.len() <= max_shown {
        lines.len()
    } else {
        max_shown
    };
    let mut shown_lines: Vec<Vec<char>> = Vec::new();
    let mut ml: usize = 0;
    let mut i: usize = 0;
    proof {
        assert(words_view(lines@).take(0) =~= Seq::<Seq<char>>::empty());
    }
    while i < shown
        invariant
            i <= shown,
            shown <= lines@.len(),
            w == size.0 as int,
            w >= MIN_WIDTH,
            words_view(shown_lines@) == words_view(lines@).take(i as int),
            ml == max_len(words_view(lines@).take(i as int)),
            ml + 10 <= w,
            forall|k: int|
                0 <= k < lines@.len() ==> 1 <= (#[trigger] lines@[k])@.len() <= w - 10,
        decreases shown - i,
    {
        proof {
            assert(words_view(lines@).take(i + 1).drop_last() =~= words_view(lines@).take(i as int));
            assert(words_view(lines@).take(i + 1).last() == lines@[i as int]@);
        }
        let line = vec_copy(&lines[i]);
        if line.len() > ml {
            ml = line.len();
        }
        proof {
            assert(words_view(shown_lines@.push(line)) =~= words_view(shown_lines@).push(line@));
        }
        shown_lines.push(line);
        i += 1;
    }
    let bw_raw = ml + 2;
    let bw = if bw_raw >= 12 {
        bw_raw
    } else {
        12
    };
    let bh = shown + 2;
    let x_pos = (w - bw) / 2;
    let y_pos = (h - bh) / 2;
    proof {
        reveal_strlit("Error");
        lemma_max_len_bound(words_view(shown_lines@));
        assert forall|k: int| 0 <= k < shown_lines@.len() implies x_pos + 1 + (
        #[trigger] shown_lines@[k])@.len() <= w by {
            assert(words_view(shown_lines@)[k] == shown_lines@[k]@);
        }
    }
    let title = str_chars("Error");
    surface.draw_box_with_title(bw as u16, bh as u16, x_pos as u16, y_pos as u16, &title);
    surface.print_lines(x_pos + 1, y_pos + 1, &shown_lines);
}

} // verus!
