//! The drawing surface: a bounded character grid, bordered boxes with
//! titles, and the full render pass that turns the session state into one
//! frame. Every drawing operation's effect on the grid is specified exactly,
//! so a frame is pinned down cell by cell.

use vstd::prelude::*;

use crate::ai_logic::{Message, Role};
use crate::app::{count_role, App, Popup};
use crate::chars::{dec_str, extend_chars, lemma_dec_str_len_usize, push_dec, str_chars, vec_copy};
use crate::popups::{
    error_grid, help_grid, popup_error, popup_help, popup_status, popup_welcome, status_grid,
    welcome_grid,
};
use crate::text_layout::{words_view, wrap, wrapped};
use crate::{MAX_INPUT_LENGTH, MIN_HEIGHT, MIN_WIDTH};

verus! {

/// A grid of `h` rows of `w` blanks.
pub open spec fn blank_grid(w: int, h: int) -> Seq<Seq<char>> {
    Seq::new(h as nat, |y: int| Seq::new(w as nat, |x: int| ' '))
}

/// `row` with `t` written over it starting at column `x`.
pub open spec fn splice(row: Seq<char>, x: int, t: Seq<char>) -> Seq<char> {
    row.take(x) + t + row.skip(x + t.len())
}

/// The grid with `t` written in row `y` starting at column `x`.
pub open spec fn grid_print(g: Seq<Seq<char>>, x: int, y: int, t: Seq<char>) -> Seq<Seq<char>> {
    g.update(y, splice(g[y], x, t))
}

/// One row of a box border: corners and edge on the top and bottom rows, a
/// blanked interior between side bars elsewhere.
pub open spec fn box_row(w: int, top: bool, bottom: bool) -> Seq<char> {
    if top {
        seq!['\u{256d}'] + Seq::new((w - 2) as nat, |i: int| '\u{2500}') + seq!['\u{256e}']
    } else if bottom {
        seq!['\u{2570}'] + Seq::new((w - 2) as nat, |i: int| '\u{2500}') + seq!['\u{256f}']
    } else {
        seq!['\u{2502}'] + Seq::new((w - 2) as nat, |i: int| ' ') + seq!['\u{2502}']
    }
}

/// The grid with a `w` by `h` box drawn with its top-left corner at
/// `(x0, y0)`.
pub open spec fn grid_box(g: Seq<Seq<char>>, x0: int, y0: int, w: int, h: int) -> Seq<Seq<char>> {
    Seq::new(
        g.len(),
        |y: int|
            if y0 <= y < y0 + h {
                splice(g[y], x0, box_row(w, y == y0, y == y0 + h - 1))
            } else {
                g[y]
            },
    )
}

/// A box with its title overlaid on the top edge, three cells in, padded by
/// one space on each side.
pub open spec fn boxed_title(
    g: Seq<Seq<char>>,
    x: int,
    y: int,
    w: int,
    h: int,
    title: Seq<char>,
) -> Seq<Seq<char>> {
    grid_print(grid_box(g, x, y, w, h), x + 3, y, seq![' '] + title + seq![' '])
}

/// The grid with each of `lines` written under one another, starting at
/// `(x, y)`.
pub open spec fn grid_print_lines(
    g: Seq<Seq<char>>,
    x: int,
    y: int,
    lines: Seq<Seq<char>>,
) -> Seq<Seq<char>>
    decreases lines.len(),
{
    if lines.len() == 0 {
        g
    } else {
        grid_print_lines(grid_print(g, x, y, lines[0]), x, y + 1, lines.drop_first())
    }
}

/// A bounded character grid; what the terminal will show, one cell per
/// character.
pub struct Surface {
    pub width: usize,
    pub height: usize,
    pub cells: Vec<Vec<char>>,
}

impl Surface {
    /// The grid's abstract contents.
    pub open spec fn grid(self) -> Seq<Seq<char>> {
        self.cells@.map_values(|row: Vec<char>| row@)
    }

    /// Every row is exactly as wide as the surface.
    pub open spec fn wf(self) -> bool {
        &&& self.grid().len() == self.height
        &&& forall|y: int| 0 <= y < self.height ==> (#[trigger] self.grid()[y]).len() == self.width
    }

    /// The character at column `x` of row `y`.
    pub open spec fn cell(self, x: int, y: int) -> char {
        self.grid()[y][x]
    }

    /// A blank surface.
    pub fn new(width: usize, height: usize) -> (s: Surface)
        ensures
            s.wf(),
            s.width == width,
            s.height == height,
            s.grid() == blank_grid(width as int, height as int),
    {
        let mut cells: Vec<Vec<char>> = Vec::new();
        let mut y: usize = 0;
        while y < height
            invariant
                y <= height,
                cells@.len() == y,
                forall|r: int|
                    0 <= r < y ==> (#[trigger] cells@[r])@ == Seq::new(
                        width as nat,
                        |x: int| ' ',
                    ),
            decreases height - y,
        {
            let row: Vec<char> = vec![' '; width];
            cells.push(row);
            y += 1;
        }
        let s = Surface { width, height, cells };
        proof {
            assert(s.grid() =~~= blank_grid(width as int, height as int));
        }
        s
    }

    /// Read one cell.
    pub fn get_cell(&self, x: usize, y: usize) -> (c: char)
        requires
            self.wf(),
            x < self.width,
            y < self.height,
        ensures
            c == self.cell(x as int, y as int),
    {
        proof {
            assert(self.cells@.len() == self.grid().len());
            assert(self.cells@[y as int]@ == self.grid()[y as int]);
        }
        self.cells[y][x]
    }

    /// One row of the grid as a string, for the caller that flushes the
    /// frame to the terminal.
    pub fn row_string(&self, y: usize) -> (r: String)
        requires
            self.wf(),
            y < self.height,
        ensures
            r@ == self.grid()[y as int],
    {
        proof {
            assert(self.cells@.len() == self.grid().len());
            assert(self.cells@[y as int]@ == self.grid()[y as int]);
        }
        crate::chars::string_from_chars(&self.cells[y])
    }

    /// Write `text` into row `y` starting at column `x`.
    pub fn print_at(&mut self, x: usize, y: usize, text: &Vec<char>)
        requires
            old(self).wf(),
            y < old(self).height,
            x + text@.len() <= old(self).width,
        ensures
            final(self).wf(),
            final(self).width == old(self).width,
            final(self).height == old(self).height,
            final(self).grid() == grid_print(old(self).grid(), x as int, y as int, text@),
    {
        let ghost g0 = self.grid();
        proof {
            assert(splice(g0[y as int], x as int, text@.take(0)) =~= g0[y as int]);
            assert(grid_print(g0, x as int, y as int, text@.take(0)) =~~= g0);
        }
        let mut i: usize = 0;
        while i < text.len()
            invariant
                i <= text@.len(),
                x + text@.len() <= old(self).width,
                y < old(self).height,
                self.width == old(self).width,
                self.height == old(self).height,
                self.wf(),
                self.grid() == grid_print(g0, x as int, y as int, text@.take(i as int)),
                g0 == old(self).grid(),
                g0.len() == self.height,
                forall|r: int| 0 <= r < self.height ==> (#[trigger] g0[r]).len() == self.width,
            decreases text@.len() - i,
        {
            let ghost gprev = self.grid();
            proof {
                assert(self.cells@.len() == self.grid().len());
                assert(self.cells@[y as int]@ == self.grid()[y as int]);
            }
            let c = text[i];
            let row = &mut self.cells[y];
            row[x + i] = c;
            proof {
                assert(self.grid() =~~= gprev.update(
                    y as int,
                    gprev[y as int].update(x + i, text@[i as int]),
                ));
                assert(self.grid() =~~= grid_print(g0, x as int, y as int, text@.take(i + 1)));
            }
            i += 1;
        }
        proof {
            assert(text@.take(text@.len() as int) =~= text@);
        }
    }

    /// Draw a `width` by `height` box with its top-left corner at
    /// `(x_pos, y_pos)`, blanking its interior.
    pub fn draw_box(&mut self, width: u16, height: u16, x_pos: u16, y_pos: u16)
        requires
            old(self).wf(),
            width >= 2,
            height >= 2,
            x_pos + width <= old(self).width,
            y_pos + height <= old(self).height,
        ensures
            final(self).wf(),
            final(self).width == old(self).width,
            final(self).height == old(self).height,
            final(self).grid() == grid_box(
                old(self).grid(),
                x_pos as int,
                y_pos as int,
                width as int,
                height as int,
            ),
    {
        let ghost g0 = self.grid();
        let w = width as usize;
        let h = height as usize;
        let x0 = x_pos as usize;
        let y0 = y_pos as usize;
        let mut dy: usize = 0;
        while dy < h
            invariant
                dy <= h,
                2 <= w,
                2 <= h,
                x0 + w <= old(self).width,
                y0 + h <= old(self).height,
                self.width == old(self).width,
                self.height == old(self).height,
                self.wf(),
                g0 == old(self).grid(),
                self.grid().len() == g0.len(),
                forall|y: int|
                    0 <= y < self.height && !(y0 <= y < y0 + dy) ==> #[trigger] self.grid()[y]
                        == g0[y],
                forall|y: int|
                    y0 <= y < y0 + dy ==> #[trigger] self.grid()[y] == splice(
                        g0[y],
                        x0 as int,
                        box_row(w as int, y == y0, y == y0 + h - 1),
                    ),
            decreases h - dy,
        {
            let y = y0 + dy;
            let top = dy == 0;
            let bottom = dy == h - 1;
            let mut row: Vec<char> = Vec::new();
            row.push(if top { '\u{256d}' } else if bottom { '\u{2570}' } else { '\u{2502}' });
            let mut k: usize = 0;
            while k < w - 2
                invariant
                    k <= w - 2,
                    2 <= w,
                    row@.len() == 1 + k,
                    row@[0] == (if top { '\u{256d}' } else if bottom { '\u{2570}' } else { '\u{2502}' }),
                    forall|i: int|
                        1 <= i < 1 + k ==> #[trigger] row@[i] == (if top || bottom { '\u{2500}' } else { ' ' }),
                decreases w - 2 - k,
            {
                row.push(if top || bottom { '\u{2500}' } else { ' ' });
                k += 1;
            }
            row.push(if top { '\u{256e}' } else if bottom { '\u{256f}' } else { '\u{2502}' });
            proof {
                assert(row@ =~= box_row(w as int, top, bottom));
            }
            let ghost gprev = self.grid();
            self.print_at(x0, y, &row);
            proof {
                assert(self.grid() =~~= gprev.update(
                    y as int,
                    splice(gprev[y as int], x0 as int, box_row(w as int, top, bottom)),
                ));
            }
            dy += 1;
        }
        proof {
            assert(self.grid() =~~= grid_box(g0, x0 as int, y0 as int, w as int, h as int));
        }
    }

    /// Draw a box and overlay its title, padded by one space each side, on
    /// the top edge three cells in.
    pub fn draw_box_with_title(
        &mut self,
        width: u16,
        height: u16,
        x_pos: u16,
        y_pos: u16,
        title: &Vec<char>,
    )
        requires
            old(self).wf(),
            width >= 2,
            height >= 2,
            x_pos + width <= old(self).width,
            y_pos + height <= old(self).height,
            5 + title@.len() <= width,
        ensures
            final(self).wf(),
            final(self).width == old(self).width,
            final(self).height == old(self).height,
            final(self).grid() == boxed_title(
                old(self).grid(),
                x_pos as int,
                y_pos as int,
                width as int,
                height as int,
                title@,
            ),
    {
        self.draw_box(width, height, x_pos, y_pos);
        let mut padded: Vec<char> = Vec::new();
        padded.push(' ');
        crate::chars::extend_chars(&mut padded, title);
        padded.push(' ');
        proof {
            assert(padded@ =~= seq![' '] + title@ + seq![' ']);
        }
        self.print_at(x_pos as usize + 3, y_pos as usize, &padded);
    }

    /// Write each of `lines` under one another starting at `(x, y)`.
    pub fn print_lines(&mut self, x: usize, y: usize, lines: &Vec<Vec<char>>)
        requires
            old(self).wf(),
            y + lines@.len() <= old(self).height,
            forall|i: int|
                0 <= i < lines@.len() ==> x + (#[trigger] lines@[i])@.len() <= old(self).width,
        ensures
            final(self).wf(),
            final(self).width == old(self).width,
            final(self).height == old(self).height,
            final(self).grid() == grid_print_lines(
                old(self).grid(),
                x as int,
                y as int,
                crate::text_layout::words_view(lines@),
            ),
    {
        let ghost target = grid_print_lines(
            old(self).grid(),
            x as int,
            y as int,
            crate::text_layout::words_view(lines@),
        );
        proof {
            assert(crate::text_layout::words_view(lines@).skip(0) =~= crate::text_layout::words_view(
                lines@,
            ));
        }
        let mut i: usize = 0;
        while i < lines.len()
            invariant
                i <= lines@.len(),
                y + lines@.len() <= old(self).height,
                forall|k: int|
                    0 <= k < lines@.len() ==> x + (#[trigger] lines@[k])@.len() <= old(self).width,
                self.width == old(self).width,
                self.height == old(self).height,
                self.wf(),
                target == grid_print_lines(
                    self.grid(),
                    x as int,
                    y + i,
                    crate::text_layout::words_view(lines@).skip(i as int),
                ),
                target == grid_print_lines(
                    old(self).grid(),
                    x as int,
                    y as int,
                    crate::text_layout::words_view(lines@),
                ),
            decreases lines@.len() - i,
        {
            let ghost ws = crate::text_layout::words_view(lines@);
            proof {
                assert(ws.skip(i as int)[0] == lines@[i as int]@);
                assert(ws.skip(i as int).drop_first() =~= ws.skip(i + 1));
            }
            self.print_at(x, y + i, &lines[i]);
            i += 1;
        }
        proof {
            assert(crate::text_layout::words_view(lines@).skip(lines@.len() as int)
                =~= Seq::<Seq<char>>::empty());
        }
    }
}


/// The prefix shown before each transcript message in the chat pane.
pub open spec fn role_prefix(r: Role) -> Seq<char> {
    if r == Role::Assistant {
        "AI: "@
    } else {
        "You: "@
    }
}

/// The chat pane's lines: every message prefixed by its author and wrapped
/// to the pane's width, message after message.
pub open spec fn chat_lines(ms: Seq<Message>, width: int) -> Seq<Seq<char>>
    decreases ms.len(),
{
    if ms.len() == 0 {
        Seq::empty()
    } else {
        chat_lines(ms.drop_last(), width) + wrapped(
            role_prefix(ms.last().role) + ms.last().content@,
            width,
        )
    }
}

/// Build the chat pane's wrapped lines.
fn build_chat_lines(ms: &Vec<Message>, width: usize) -> (r: Vec<Vec<char>>)
    requires
        width >= 1,
    ensures
        words_view(r@) == chat_lines(ms@, width as int),
        forall|i: int| 0 <= i < r@.len() ==> 1 <= (#[trigger] r@[i])@.len() <= width,
{
    let mut out: Vec<Vec<char>> = Vec::new();
    let mut j: usize = 0;
    proof {
        assert(ms@.take(0) =~= Seq::<Message>::empty());
        assert(words_view(out@) =~= Seq::<Seq<char>>::empty());
    }
    while j < ms.len()
        invariant
            j <= ms@.len(),
            width >= 1,
            words_view(out@) == chat_lines(ms@.take(j as int), width as int),
            forall|i: int| 0 <= i < out@.len() ==> 1 <= (#[trigger] out@[i])@.len() <= width,
        decreases ms@.len() - j,
    {
        proof {
            assert(ms@.take(j + 1).drop_last() =~= ms@.take(j as int));
            assert(ms@.take(j + 1).last() == ms@[j as int]);
        }
        let m = &ms[j];
        let mut text = if matches!(m.role, Role::Assistant) {
            str_chars("AI: ")
        } else {
            str_chars("You: ")
        };
        let content = str_chars(m.content.as_str());
        extend_chars(&mut text, &content);
        proof {
            assert(text@ =~= role_prefix(ms@[j as int].role) + ms@[j as int].content@);
        }
        let mut lines = wrap(&text, width);
        let ghost out_before = out@;
        let ghost lines_view = words_view(lines@);
        out.append(&mut lines);
        proof {
            assert(words_view(out@) =~= words_view(out_before) + lines_view);
        }
        j += 1;
    }
    proof {
        assert(ms@.take(ms@.len() as int) =~= ms@);
    }
    out
}

/// The input area's effect on a grid: the prompt, then the composed text
/// wrapped beside it, at most three rows.
pub open spec fn input_grid(g: Seq<Seq<char>>, app: App) -> Seq<Seq<char>> {
    let w = app.size.0 as int;
    let h = app.size.1 as int;
    let ilines = wrapped(app.input@, w - 11);
    let ishown = if ilines.len() <= 3 {
        ilines.len() as int
    } else {
        3
    };
    grid_print_lines(grid_print(g, 1, h - 4, "Message: "@), 10, h - 4, ilines.take(ishown))
}

/// One whole chat frame: the chat box with the wrapped transcript (the
/// scroll offset skips leading lines, rows past the pane are discarded), the
/// message box naming the input length against its ceiling, and on top the
/// active popup, or the input area when none is showing.
pub open spec fn frame_grid(app: App) -> Seq<Seq<char>> {
    let w = app.size.0 as int;
    let h = app.size.1 as int;
    let g1 = boxed_title(blank_grid(w, h), 0, 0, w, h - 5, "Chat"@);
    let g2 = boxed_title(
        g1,
        0,
        h - 5,
        w,
        5,
        "Message | "@ + dec_str(app.input@.len()) + seq!['/'] + dec_str(MAX_INPUT_LENGTH as nat),
    );
    let lines = chat_lines(app.messages@, w - 7);
    let start = if app.scroll as int <= lines.len() {
        app.scroll as int
    } else {
        lines.len() as int
    };
    let visible = lines.skip(start);
    let shown = if visible.len() <= h - 7 {
        visible.len() as int
    } else {
        h - 7
    };
    let g3 = grid_print_lines(g2, 1, 1, visible.take(shown));
    match app.popup {
        Popup::Closed => input_grid(g3, app),
        Popup::Welcome => welcome_grid(g3, app.size),
        Popup::Help => help_grid(g3, app.size),
        Popup::Status => status_grid(
            g3,
            app.size,
            (app.messages@.len() - 1) as nat,
            count_role(app.messages@, Role::User),
            count_role(app.messages@, Role::Assistant),
        ),
        Popup::Error(m) => error_grid(g3, app.size, m@),
    }
}

/// Render one frame of the chat view from the session state.
pub fn render(app: &App) -> (s: Surface)
    requires
        app.wf(),
        app.size.0 >= MIN_WIDTH,
        app.size.1 >= MIN_HEIGHT,
    ensures
        s.wf(),
        s.width == app.size.0,
        s.height == app.size.1,
        s.grid() == frame_grid(*app),
{
    let w = app.size.0 as usize;
    let h = app.size.1 as usize;
    let mut s = Surface::new(w, h);
    let ilen = app.input.len();
    proof {
        reveal_strlit("Chat");
        reveal_strlit("Message | ");
        reveal_strlit("Message: ");
        lemma_dec_str_len_usize(ilen as nat);
        lemma_dec_str_len_usize(MAX_INPUT_LENGTH as nat);
    }
    let chat_title = str_chars("Chat");
    s.draw_box_with_title(app.size.0, app.size.1 - 5, 0, 0, &chat_title);
    let mut mtitle = str_chars("Message | ");
    push_dec(&mut mtitle, ilen);
    mtitle.push('/');
    push_dec(&mut mtitle, MAX_INPUT_LENGTH);
    proof {
        assert(mtitle@ =~= "Message | "@ + dec_str(app.input@.len()) + seq!['/'] + dec_str(
            MAX_INPUT_LENGTH as nat,
        ));
    }
    s.draw_box_with_title(app.size.0, 5, 0, app.size.1 - 5, &mtitle);
    let lines = build_chat_lines(&app.messages, w - 7);
    let scroll32 = app.scroll;
    let start: usize = if scroll32 as usize <= lines.len() {
        scroll32 as usize
    } else {
        lines.len()
    };
    let rest = lines.len() - start;
    let shown: usize = if rest <= h - 7 {
        rest
    } else {
        h - 7
    };
    let mut visible: Vec<Vec<char>> = Vec::new();
    let mut i: usize = 0;
    proof {
        assert(words_view(lines@).skip(start as int).take(0) =~= Seq::<Seq<char>>::empty());
    }
    while i < shown
        invariant
            i <= shown,
            start + shown <= lines@.len(),
            lines@.len() <= usize::MAX,
            words_view(visible@) == words_view(lines@).skip(start as int).take(i as int),
            forall|k: int| 0 <= k < visible@.len() ==> (#[trigger] visible@[k])@.len()
                == lines@[start + k]@.len(),
        decreases shown - i,
    {
        proof {
            assert(words_view(lines@).skip(start as int).take(i + 1).drop_last()
                =~= words_view(lines@).skip(start as int).take(i as int));
            assert(words_view(lines@).skip(start as int).take(i + 1).last()
                == lines@[start + i]@);
        }
        let line = vec_copy(&lines[start + i]);
        proof {
            assert(words_view(visible@.push(line)) =~= words_view(visible@).push(line@));
        }
        visible.push(line);
        i += 1;
    }
    s.print_lines(1, 1, &visible);
    match &app.popup {
        Popup::Closed => {
            let prompt = str_chars("Message: ");
            s.print_at(1, h - 4, &prompt);
            let ilines = wrap(&app.input, w - 11);
            let ishown: usize = if ilines.len() <= 3 {
                ilines.len()
            } else {
                3
            };
            let mut ivis: Vec<Vec<char>> = Vec::new();
            let mut k: usize = 0;
            proof {
                assert(words_view(ilines@).take(0) =~= Seq::<Seq<char>>::empty());
            }
            while k < ishown
                invariant
                    k <= ishown,
                    ishown <= ilines@.len(),
                    words_view(ivis@) == words_view(ilines@).take(k as int),
                    forall|t: int| 0 <= t < ivis@.len() ==> (#[trigger] ivis@[t])@.len()
                        == ilines@[t]@.len(),
                decreases ishown - k,
            {
                proof {
                    assert(words_view(ilines@).take(k + 1).drop_last() =~= words_view(
                        ilines@,
                    ).take(k as int));
                    assert(words_view(ilines@).take(k + 1).last() == ilines@[k as int]@);
                }
                let line = vec_copy(&ilines[k]);
                proof {
                    assert(words_view(ivis@.push(line)) =~= words_view(ivis@).push(line@));
                }
                ivis.push(line);
                k += 1;
            }
            s.print_lines(10, h - 4, &ivis);
        },
        Popup::Welcome => {
            popup_welcome(&mut s, &app.size);
        },
        Popup::Help => {
            popup_help(&mut s, &app.size);
        },
        Popup::Status => {
            popup_status(&mut s, &app.size, &app.messages);
        },
        Popup::Error(m) => {
            let mv = str_chars(m.as_str());
            popup_error(&mut s, &app.size, &mv);
        },
    }
    s
}

/// The warning view's first sentence, naming the sizes seen.
pub open spec fn warning_head(size: (u16, u16)) -> Seq<char> {
    "Terminal size is too low! Width: "@ + dec_str(size.0 as nat) + ", Height: "@ + dec_str(
        size.1 as nat,
    )
}

/// The warning view's lines: both sentences wrapped to the width.
pub open spec fn warning_lines(size: (u16, u16)) -> Seq<Seq<char>> {
    wrapped(warning_head(size), size.0 as int) + wrapped(
        "Set your terminal size to minimum Width: 80, Height: 20"@,
        size.0 as int,
    )
}

/// The grid with each of `lines` written under one another, each centered.
pub open spec fn grid_center_lines(
    g: Seq<Seq<char>>,
    w: int,
    y: int,
    lines: Seq<Seq<char>>,
) -> Seq<Seq<char>>
    decreases lines.len(),
{
    if lines.len() == 0 {
        g
    } else {
        grid_center_lines(
            grid_print(g, (w - lines[0].len()) / 2, y, lines[0]),
            w,
            y + 1,
            lines.drop_first(),
        )
    }
}

/// The warning view: the warning text wrapped to the width and centered,
/// starting halfway down, on an otherwise blank screen.
pub open spec fn warning_grid(size: (u16, u16)) -> Seq<Seq<char>> {
    let w = size.0 as int;
    let h = size.1 as int;
    let lines = warning_lines(size);
    let start = h / 2;
    let shown = if lines.len() <= h - start {
        lines.len() as int
    } else {
        h - start
    };
    grid_center_lines(blank_grid(w, h), w, start, lines.take(shown))
}

/// Render the view shown while the terminal is too small for the chat.
pub fn screen_size_warning(size: (u16, u16)) -> (s: Surface)
    requires
        size.0 >= 1,
        size.1 >= 1,
    ensures
        s.wf(),
        s.width == size.0,
        s.height == size.1,
        s.grid() == warning_grid(size),
{
    let w = size.0 as usize;
    let h = size.1 as usize;
    let mut s = Surface::new(w, h);
    proof {
        reveal_strlit("Terminal size is too low! Width: ");
        reveal_strlit(", Height: ");
        reveal_strlit("Set your terminal size to minimum Width: 80, Height: 20");
    }
    let mut head = str_chars("Terminal size is too low! Width: ");
    push_dec(&mut head, size.0 as usize);
    let sep = str_chars(", Height: ");
    extend_chars(&mut head, &sep);
    push_dec(&mut head, size.1 as usize);
    proof {
        assert(head@ =~= warning_head(size));
    }
    let tail = str_chars("Set your terminal size to minimum Width: 80, Height: 20");
    let mut lines = wrap(&head, w);
    let mut tail_lines = wrap(&tail, w);
    let ghost head_view = words_view(lines@);
    let ghost tail_view = words_view(tail_lines@);
    lines.append(&mut tail_lines);
    proof {
        assert(words_view(lines@) =~= head_view + tail_view);
        assert(words_view(lines@) == warning_lines(size));
    }
    let start = h / 2;
    let shown: usize = if lines.len() <= h - start {
        lines.len()
    } else {
        h - start
    };
    let ghost target = grid_center_lines(
        s.grid(),
        w as int,
        start as int,
        words_view(lines@).take(shown as int),
    );
    let ghost g_init = s.grid();
    let mut i: usize = 0;
    proof {
        assert(words_view(lines@).take(shown as int).skip(0) =~= words_view(lines@).take(
            shown as int,
        ));
    }
    while i < shown
        invariant
            i <= shown,
            shown <= lines@.len(),
            start + shown <= h,
            w == size.0,
            h == size.1,
            s.wf(),
            s.width == w,
            s.height == h,
            forall|k: int| 0 <= k < lines@.len() ==> 1 <= (#[trigger] lines@[k])@.len() <= w,
            target == grid_center_lines(
                s.grid(),
                w as int,
                start + i,
                words_view(lines@).take(shown as int).skip(i as int),
            ),
            target == grid_center_lines(
                g_init,
                w as int,
                start as int,
                words_view(lines@).take(shown as int),
            ),
            g_init == blank_grid(w as int, h as int),
        decreases shown - i,
    {
        let ghost ws = words_view(lines@).take(shown as int);
        proof {
            assert(ws.skip(i as int)[0] == lines@[i as int]@);
            assert(ws.skip(i as int).drop_first() =~= ws.skip(i + 1));
        }
        let line = &lines[i];
        let x = (w - line.len()) / 2;
        s.print_at(x, start + i, line);
        i += 1;
    }
    proof {
        assert(words_view(lines@).take(shown as int).skip(shown as int)
            =~= Seq::<Seq<char>>::empty());
    }
    s
}

/// Render whatever the screen must now show: the chat frame, or the size
/// warning whenever the terminal is below the minimum.
pub fn render_frame(app: &App) -> (s: Surface)
    requires
        app.wf(),
        app.size.0 >= 1,
        app.size.1 >= 1,
    ensures
        s.wf(),
        s.width == app.size.0,
        s.height == app.size.1,
        (app.size.0 < MIN_WIDTH || app.size.1 < MIN_HEIGHT) ==> s.grid() == warning_grid(app.size),
        (app.size.0 >= MIN_WIDTH && app.size.1 >= MIN_HEIGHT) ==> s.grid() == frame_grid(*app),
{
    if app.size.0 < MIN_WIDTH || app.size.1 < MIN_HEIGHT {
        screen_size_warning(app.size)
    } else {
        render(app)
    }
}

} // verus!
