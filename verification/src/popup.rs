//! The compile-error popup: a bordered overlay sized to fit the error
//! message and the offending code line, drawn at a fixed offset.
//!
//! The popup shows the message lines, a blank separator, and the offending
//! code prefixed with a `line:column` marker.  It is drawn over a red
//! background; message lines are bold.  The popup is anchored at the fixed
//! offset `(2, 2)` — not centered — and sized to fit the longer of the
//! message and the marked code line.

use vstd::prelude::*;

use crate::buffer::FrameBuffer;
use crate::canvas::clamp_dim;
use crate::effects::ErrorPopup;
use crate::gruvbox::Gruvbox;
use crate::style::Cell;
use crate::style::CellColor;
use crate::style::MOD_BOLD;

verus! {

/// The lines of `s` from position `i` on, with `done` the finished lines
/// and `cur` the line being gathered.  The line in progress is always
/// emitted, so a trailing line feed here would open an empty final line —
/// `split_lines_spec` strips that terminator first.
pub open spec fn split_acc(s: Seq<char>, i: int, done: Seq<Seq<char>>, cur: Seq<char>) -> Seq<
    Seq<char>,
>
    decreases s.len() - i,
{
    if i < 0 || i >= s.len() {
        done.push(cur)
    } else if s[i] == '\n' {
        split_acc(s, i + 1, done.push(cur), Seq::empty())
    } else {
        split_acc(s, i + 1, done, cur.push(s[i]))
    }
}

/// The lines of `s`, split on line feeds with terminator semantics: a
/// final line feed ends the last line rather than opening an empty one;
/// empty text is a single empty line.  Always at least one line.
pub open spec fn split_lines_spec(s: Seq<char>) -> Seq<Seq<char>> {
    let t = if s.len() > 0 && s.last() == '\n' {
        s.drop_last()
    } else {
        s
    };
    split_acc(t, 0, Seq::empty(), Seq::empty())
}

/// Line `n` (one-based) of the text, or nothing when the text has no such
/// line.
pub open spec fn line_text_spec(s: Seq<char>, n: int) -> Seq<char> {
    let ls = split_lines_spec(s);
    if 1 <= n <= ls.len() {
        ls[n - 1]
    } else {
        Seq::empty()
    }
}

/// The view of a vector of character lines.
pub open spec fn lines_view(v: Seq<Vec<char>>) -> Seq<Seq<char>> {
    v.map_values(|l: Vec<char>| l@)
}

/// Splits a string into its lines, on line feeds with terminator
/// semantics.
pub fn split_lines(s: &str) -> (r: Vec<Vec<char>>)
    ensures
        lines_view(r@) == split_lines_spec(s@),
        r@.len() >= 1,
{
    let n = s.unicode_len();
    let m: usize = if n > 0 && s.get_char(n - 1) == '\n' {
        n - 1
    } else {
        n
    };
    let ghost t = if s@.len() > 0 && s@.last() == '\n' {
        s@.drop_last()
    } else {
        s@
    };
    proof {
        assert(t =~= s@.take(m as int));
    }
    let mut done: Vec<Vec<char>> = Vec::new();
    let mut cur: Vec<char> = Vec::new();
    let mut i: usize = 0;
    proof {
        assert(lines_view(done@) =~= Seq::<Seq<char>>::empty());
    }
    while i < m
        invariant
            n == s@.len(),
            m <= n,
            t == s@.take(m as int),
            i <= m,
            split_lines_spec(s@) == split_acc(t, i as int, lines_view(done@), cur@),
        decreases m - i,
    {
        let c = s.get_char(i);
        proof {
            assert(t[i as int] == s@[i as int]);
        }
        if c == '\n' {
            let ghost prev_done = done@;
            let ghost prev_cur = cur@;
            done.push(cur);
            cur = Vec::new();
            proof {
                assert(lines_view(done@) =~= lines_view(prev_done).push(prev_cur));
            }
        } else {
            cur.push(c);
        }
        i = i + 1;
    }
    let ghost prev_done = done@;
    let ghost prev_cur = cur@;
    done.push(cur);
    proof {
        assert(lines_view(done@) =~= lines_view(prev_done).push(prev_cur));
    }
    done
}

/// Builds the string spelling the given characters.
pub fn string_of_chars(cs: &Vec<char>) -> (r: String)
    ensures
        r@ == cs@,
{
    let mut out = String::new();
    let mut i: usize = 0;
    while i < cs.len()
        invariant
            i <= cs@.len(),
            out@ == cs@.take(i as int),
        decreases cs@.len() - i,
    {
        crate::host::push_char(&mut out, cs[i]);
        proof {
            assert(out@ =~= cs@.take(i as int + 1));
        }
        i = i + 1;
    }
    proof {
        assert(cs@.take(cs@.len() as int) =~= cs@);
    }
    out
}

/// Cuts line `n` (one-based) out of the text.
pub fn line_at(s: &str, n: u32) -> (r: String)
    ensures
        r@ == line_text_spec(s@, n as int),
{
    let ls = split_lines(s);
    if n >= 1 && (n as usize) <= ls.len() {
        proof {
            assert(lines_view(ls@)[n as int - 1] == ls@[n as int - 1]@);
        }
        string_of_chars(&ls[n as usize - 1])
    } else {
        String::new()
    }
}

/// The decimal digit character for `d` in `0 .. 10`.
pub open spec fn digit_char(d: int) -> char {
    if d == 0 {
        '0'
    } else if d == 1 {
        '1'
    } else if d == 2 {
        '2'
    } else if d == 3 {
        '3'
    } else if d == 4 {
        '4'
    } else if d == 5 {
        '5'
    } else if d == 6 {
        '6'
    } else if d == 7 {
        '7'
    } else if d == 8 {
        '8'
    } else {
        '9'
    }
}

/// The decimal rendering of `n >= 0`, most significant digit first.
pub open spec fn dec_spec(n: int) -> Seq<char>
    decreases n,
{
    if n < 10 {
        seq![digit_char(n)]
    } else {
        dec_spec(n / 10).push(digit_char(n % 10))
    }
}

/// The decimal digit character of `d`.
pub(crate) fn digit_char_of(d: u32) -> (c: char)
    requires
        d < 10,
    ensures
        c == digit_char(d as int),
{
    if d == 0 {
        '0'
    } else if d == 1 {
        '1'
    } else if d == 2 {
        '2'
    } else if d == 3 {
        '3'
    } else if d == 4 {
        '4'
    } else if d == 5 {
        '5'
    } else if d == 6 {
        '6'
    } else if d == 7 {
        '7'
    } else if d == 8 {
        '8'
    } else {
        '9'
    }
}

/// Appends the decimal rendering of `n` to `out`.
pub fn push_dec(n: u32, out: &mut Vec<char>)
    ensures
        final(out)@ == old(out)@ + dec_spec(n as int),
    decreases n,
{
    if n >= 10 {
        push_dec(n / 10, out);
    }
    out.push(digit_char_of(n % 10));
    proof {
        if n >= 10 {
            assert((old(out)@ + dec_spec(n as int / 10)).push(digit_char(n as int % 10)) =~= old(
                out,
            )@ + dec_spec(n as int / 10).push(digit_char(n as int % 10)));
        } else {
            assert(old(out)@.push(digit_char(n as int)) =~= old(out)@ + seq![
                digit_char(n as int),
            ]);
        }
    }
}

/// The longest line's length.
pub open spec fn max_line_len(ls: Seq<Seq<char>>) -> int
    decreases ls.len(),
{
    if ls.len() == 0 {
        0
    } else {
        let rest = max_line_len(ls.drop_last());
        if ls.last().len() > rest {
            ls.last().len() as int
        } else {
            rest
        }
    }
}

/// The `line:column ` marker drawn before the offending code.
pub open spec fn marker_spec(p: ErrorPopup) -> Seq<char> {
    dec_spec(p.line as int) + seq![':'] + dec_spec(p.column as int) + seq![' ']
}

/// The message's lines.
pub open spec fn message_lines(p: ErrorPopup) -> Seq<Seq<char>> {
    split_lines_spec(p.message@)
}

/// The offending code's lines, the first prefixed with the position marker.
pub open spec fn code_lines(p: ErrorPopup) -> Seq<Seq<char>> {
    let raw = split_lines_spec(p.code@);
    raw.update(0, marker_spec(p) + raw[0])
}

/// Everything the popup shows, line by line: the message, a blank
/// separator, then the marked code.
pub open spec fn popup_content(p: ErrorPopup) -> Seq<Seq<char>> {
    message_lines(p) + seq![Seq::<char>::empty()] + code_lines(p)
}

/// The popup's width: the longest content line plus one padding column on
/// each side.
pub open spec fn popup_width(p: ErrorPopup) -> int {
    clamp_dim(max_line_len(popup_content(p)) + 2)
}

/// The popup's height: the content lines plus one padding row above and
/// below.
pub open spec fn popup_height(p: ErrorPopup) -> int {
    clamp_dim(popup_content(p).len() as int + 2)
}

/// The popup's padding cell: a blank over the red backdrop.
pub open spec fn popup_base_cell() -> Cell {
    Cell {
        ch: ' ',
        fg: CellColor::Rgb(0xeb, 0xdb, 0xb2),
        bg: CellColor::Rgb(0xfb, 0x49, 0x34),
        modifiers: 0,
    }
}

/// The cell at `(x, y)` of a popup showing `content`, of which the first
/// `nmsg` lines are the message: content characters keep the red backdrop,
/// message characters are bold and bright, code characters are softer, and
/// everything else is the padding cell.
pub open spec fn popup_cell_in(content: Seq<Seq<char>>, nmsg: int, y: int, x: int) -> Cell {
    if 1 <= y && y - 1 < content.len() && 1 <= x && x - 1 < content[y - 1].len() {
        let ch = content[y - 1][x - 1];
        if y - 1 < nmsg {
            Cell {
                ch,
                fg: CellColor::Rgb(0xfb, 0xf1, 0xc7),
                bg: CellColor::Rgb(0xfb, 0x49, 0x34),
                modifiers: MOD_BOLD,
            }
        } else {
            Cell {
                ch,
                fg: CellColor::Rgb(0xf2, 0xe5, 0xbc),
                bg: CellColor::Rgb(0xfb, 0x49, 0x34),
                modifiers: 0,
            }
        }
    } else {
        popup_base_cell()
    }
}

/// The cell at `(x, y)` of the popup for `p`, in popup-local coordinates.
pub open spec fn popup_cell_at(p: ErrorPopup, y: int, x: int) -> Cell {
    popup_cell_in(popup_content(p), message_lines(p).len() as int, y, x)
}

/// The grid after the popup for `p` is drawn over it at the fixed offset
/// `(2, 2)`, clipped to the grid's bounds: popup cells replace what was
/// underneath, every other cell keeps its content.
pub open spec fn popup_applied(p: ErrorPopup, g: Seq<Seq<Cell>>) -> Seq<Seq<Cell>> {
    Seq::new(
        g.len(),
        |y: int|
            Seq::new(
                g[y].len(),
                |x: int|
                    if 2 <= y < 2 + popup_height(p) && 2 <= x < 2 + popup_width(p) {
                        popup_cell_at(p, y - 2, x - 2)
                    } else {
                        g[y][x]
                    },
            ),
    )
}

/// Returns the popup's padding cell.
fn base_cell() -> (c: Cell)
    ensures
        c == popup_base_cell(),
{
    Cell { ch: ' ', fg: Gruvbox::light1(), bg: Gruvbox::red_bright(), modifiers: 0 }
}

/// Computes one popup cell from the built content lines.
fn cell_for(content: &Vec<Vec<char>>, nmsg: usize, y: u16, x: u16) -> (c: Cell)
    ensures
        c == popup_cell_in(lines_view(content@), nmsg as int, y as int, x as int),
{
    if y >= 1 && (y as usize) - 1 < content.len() && x >= 1 {
        let row = &content[y as usize - 1];
        proof {
            assert(lines_view(content@)[y as int - 1] == content@[y as int - 1]@);
        }
        if (x as usize) - 1 < row.len() {
            let ch = row[x as usize - 1];
            if (y as usize) - 1 < nmsg {
                Cell { ch, fg: Gruvbox::light0(), bg: Gruvbox::red_bright(), modifiers: MOD_BOLD }
            } else {
                Cell {
                    ch,
                    fg: Gruvbox::light0_soft(),
                    bg: Gruvbox::red_bright(),
                    modifiers: 0,
                }
            }
        } else {
            base_cell()
        }
    } else {
        base_cell()
    }
}

impl ErrorPopup {
    /// Builds the popup's content lines, and says how many of them belong
    /// to the message.
    fn build_content(&self) -> (r: (Vec<Vec<char>>, usize))
        ensures
            lines_view(r.0@) == popup_content(*self),
            r.1 == message_lines(*self).len(),
            r.0@.len() == popup_content(*self).len(),
    {
        let ghost p = *self;
        let mut content = split_lines(&self.message);
        let nmsg = content.len();
        let ghost msg_part = lines_view(content@);
        content.push(Vec::new());
        proof {
            assert(lines_view(content@) =~= msg_part.push(Seq::<char>::empty()));
            assert(msg_part.push(Seq::<char>::empty()) =~= msg_part + seq![Seq::<char>::empty()]);
        }

        let mut marker: Vec<char> = Vec::new();
        push_dec(self.line, &mut marker);
        marker.push(':');
        push_dec(self.column, &mut marker);
        marker.push(' ');
        proof {
            assert(marker@ =~= marker_spec(p));
        }

        let mut code = split_lines(&self.code);
        let ghost raw = lines_view(code@);
        let ghost marker_seq = marker@;
        let first_len = code[0].len();
        let mut j: usize = 0;
        while j < first_len
            invariant
                code@.len() >= 1,
                first_len == code@[0]@.len(),
                j <= first_len,
                marker@ == marker_seq + code@[0]@.take(j as int),
                lines_view(code@) == raw,
            decreases first_len - j,
        {
            let c = code[0][j];
            marker.push(c);
            j = j + 1;
            proof {
                assert(marker_seq + code@[0]@.take(j as int) =~= (marker_seq + code@[0]@.take(
                    j as int - 1,
                )).push(code@[0]@[j as int - 1]));
            }
        }
        proof {
            assert(code@[0]@.take(first_len as int) =~= code@[0]@);
            assert(raw[0] == code@[0]@);
        }
        code.set(0, marker);
        proof {
            assert(lines_view(code@) =~= raw.update(0, marker_seq + raw[0]));
            assert(lines_view(code@) =~= code_lines(p));
        }

        let ghost cl = lines_view(code@);
        let ghost before_code = lines_view(content@);
        while code.len() > 0
            invariant
                lines_view(content@) + lines_view(code@) =~= before_code + cl,
            decreases code@.len(),
        {
            let ghost content_pre = lines_view(content@);
            let ghost code_pre = lines_view(code@);
            let line = code.remove(0);
            content.push(line);
            proof {
                assert(lines_view(content@) =~= content_pre.push(code_pre[0]));
                assert(lines_view(code@) =~= code_pre.skip(1));
                assert(content_pre.push(code_pre[0]) + code_pre.skip(1) =~= content_pre
                    + code_pre);
            }
        }
        proof {
            assert(lines_view(code@) =~= Seq::<Seq<char>>::empty());
            assert(lines_view(content@) =~= before_code + cl);
            assert(lines_view(content@) =~= popup_content(p));
        }
        (content, nmsg)
    }

    /// Draws the popup over `buf` at the fixed offset `(2, 2)`, clipped to
    /// the buffer's bounds; every cell outside the popup keeps its content.
    pub fn render_into(&self, buf: &mut FrameBuffer)
        requires
            old(buf).wf(),
        ensures
            final(buf).wf(),
            final(buf).spec_width() == old(buf).spec_width(),
            final(buf).spec_height() == old(buf).spec_height(),
            forall|y: int, x: int|
                0 <= y < old(buf).spec_height() as int && 0 <= x < old(buf).spec_width() as int
                    ==> #[trigger] final(buf).grid()[y][x] == (if 2 <= y < 2 + popup_height(*self)
                    && 2 <= x < 2 + popup_width(*self) {
                    popup_cell_at(*self, y - 2, x - 2)
                } else {
                    old(buf).grid()[y][x]
                }),
            final(buf).grid() == popup_applied(*self, old(buf).grid()),
    {
        let ghost p = *self;
        let (content, nmsg) = self.build_content();
        let ghost cv = lines_view(content@);

        let mut inner: usize = 0;
        let mut i: usize = 0;
        while i < content.len()
            invariant
                cv == lines_view(content@),
                i <= content@.len(),
                inner == max_line_len(cv.take(i as int)),
            decreases content@.len() - i,
        {
            let lw = content[i].len();
            proof {
                assert(cv.take(i as int + 1).drop_last() =~= cv.take(i as int));
                assert(cv.take(i as int + 1).last() == cv[i as int]);
                assert(cv[i as int] == content@[i as int]@);
            }
            if lw > inner {
                inner = lw;
            }
            i = i + 1;
        }
        proof {
            assert(cv.take(content@.len() as int) =~= cv);
        }

        let pw: u16 = if inner > 0xfffd {
            0xffff
        } else {
            (inner + 2) as u16
        };
        let ph: u16 = if content.len() > 0xfffd {
            0xffff
        } else {
            (content.len() + 2) as u16
        };
        proof {
            assert(pw as int == popup_width(p));
            assert(ph as int == popup_height(p));
        }

        let bw = buf.width();
        let bh = buf.height();
        let mut y: u16 = 0;
        while y < ph
            invariant
                buf.wf(),
                buf.spec_width() == bw,
                buf.spec_height() == bh,
                bw == old(buf).spec_width(),
                bh == old(buf).spec_height(),
                y <= ph,
                cv == lines_view(content@),
                nmsg as int == message_lines(p).len(),
                cv == popup_content(p),
                pw as int == popup_width(p),
                ph as int == popup_height(p),
                forall|by: int, bx: int|
                    0 <= by < bh as int && 0 <= bx < bw as int ==> #[trigger] buf.grid()[by][bx]
                        == (if 2 <= by < 2 + y as int && 2 <= bx < 2 + pw as int {
                        popup_cell_in(cv, nmsg as int, by - 2, bx - 2)
                    } else {
                        old(buf).grid()[by][bx]
                    }),
            decreases ph - y,
        {
            if y as u32 + 2 < bh as u32 {
                let ty = (y as u32 + 2) as u16;
                let mut x: u16 = 0;
                while x < pw
                    invariant
                        buf.wf(),
                        buf.spec_width() == bw,
                        buf.spec_height() == bh,
                        bw == old(buf).spec_width(),
                        bh == old(buf).spec_height(),
                        y < ph,
                        ty == y + 2,
                        ty < bh,
                        x <= pw,
                        cv == lines_view(content@),
                        forall|by: int, bx: int|
                            0 <= by < bh as int && 0 <= bx < bw as int ==> #[trigger] buf.grid()[by][bx]
                                == (if (2 <= by < 2 + y as int && 2 <= bx < 2 + pw as int) || (by
                                == ty as int && 2 <= bx < 2 + x as int) {
                                popup_cell_in(cv, nmsg as int, by - 2, bx - 2)
                            } else {
                                old(buf).grid()[by][bx]
                            }),
                    decreases pw - x,
                {
                    if x as u32 + 2 < bw as u32 {
                        let tx = (x as u32 + 2) as u16;
                        let c = cell_for(&content, nmsg, y, x);
                        buf.set(tx, ty, c);
                    }
                    x = x + 1;
                }
            }
            y = y + 1;
        }
        proof {
            assert(buf.grid() =~~= popup_applied(p, old(buf).grid()));
        }
    }
}

} // verus!
