//! The ruler widget: draws digit rulers along the edges of a measured
//! region, for reading off cell coordinates.
//!
//! The ruler frames a measured region with two rows of digits above and
//! below it and two columns of digits to its left and right.  The band
//! nearest the region counts single cells (`0123456789012…`); the outer
//! band marks every tenth cell with its tens digit.

use vstd::prelude::*;

use crate::buffer::FrameBuffer;
use crate::popup::digit_char;
use crate::popup::digit_char_of;
use crate::style::Cell;
use crate::style::Style;

verus! {

/// A rectangular region of cells, addressed from the top-left corner.
#[derive(Clone, Copy, PartialEq, Eq, Structural, Debug)]
pub struct Area {
    /// Left column.
    pub x: u16,
    /// Top row.
    pub y: u16,
    /// Width in cells.
    pub width: u16,
    /// Height in cells.
    pub height: u16,
}

/// A dimension grown by the two-cell ruler frame on each side, sticking at
/// the largest representable value.
pub open spec fn grown_dim(n: int) -> int {
    if n + 4 > 0xffff {
        0xffff
    } else {
        n + 4
    }
}

/// The tens marker over position `i` of a ruler band: every tenth position
/// after the first shows its tens digit, the rest stay untouched.
pub open spec fn ten_glyph(i: int) -> Option<char> {
    if i > 0 && i % 10 == 0 {
        Some(digit_char((i / 10) % 10))
    } else {
        None
    }
}

/// The digit the ruler draws at local position `(cx, cy)` of a `w` by `h`
/// ruler area, or `None` where it leaves the buffer untouched: the outer
/// rows and columns carry tens markers, the inner ones count single cells,
/// and the framed interior is not drawn on.
pub open spec fn ruler_glyph(w: int, h: int, cx: int, cy: int) -> Option<char> {
    if 2 <= cx < w - 2 && (cy == 0 || cy == h - 1) {
        ten_glyph(cx - 2)
    } else if 2 <= cx < w - 2 && (cy == 1 || cy == h - 2) {
        Some(digit_char((cx - 2) % 10))
    } else if 2 <= cy < h - 2 && (cx == 0 || cx == w - 1) {
        ten_glyph(cy - 2)
    } else if 2 <= cy < h - 2 && (cx == 1 || cx == w - 2) {
        Some(digit_char((cy - 2) % 10))
    } else {
        None
    }
}

/// Computes the glyph at local position `(cx, cy)`.
fn ruler_glyph_at(w: u16, h: u16, cx: u16, cy: u16) -> (g: Option<char>)
    requires
        w >= 4,
        h >= 4,
        cx < w,
        cy < h,
    ensures
        g == ruler_glyph(w as int, h as int, cx as int, cy as int),
{
    if 2 <= cx && cx < w - 2 && (cy == 0 || cy == h - 1) {
        let i = cx - 2;
        if i > 0 && i % 10 == 0 {
            Some(digit_char_of(((i / 10) % 10) as u32))
        } else {
            None
        }
    } else if 2 <= cx && cx < w - 2 && (cy == 1 || cy == h - 2) {
        Some(digit_char_of(((cx - 2) % 10) as u32))
    } else if 2 <= cy && cy < h - 2 && (cx == 0 || cx == w - 1) {
        let i = cy - 2;
        if i > 0 && i % 10 == 0 {
            Some(digit_char_of(((i / 10) % 10) as u32))
        } else {
            None
        }
    } else if 2 <= cy && cy < h - 2 && (cx == 1 || cx == w - 2) {
        Some(digit_char_of(((cy - 2) % 10) as u32))
    } else {
        None
    }
}

/// Measures a region and draws coordinate rulers around it.
pub struct Ruler {
    measured: (u16, u16),
    style: Style,
}

impl Ruler {
    /// The measured region's width and height.
    pub closed spec fn spec_measured(self) -> (u16, u16) {
        self.measured
    }

    /// The style patch applied to every drawn digit.
    pub closed spec fn spec_style(self) -> Style {
        self.style
    }

    /// The ruler's own area at the origin: the measured region grown by the
    /// two-cell frame on each side.
    pub open spec fn spec_area(self) -> Area {
        Area {
            x: 0,
            y: 0,
            width: grown_dim(self.spec_measured().0 as int) as u16,
            height: grown_dim(self.spec_measured().1 as int) as u16,
        }
    }

    /// Creates a ruler around a measured region, with no styling.
    pub fn new(measured: (u16, u16)) -> (r: Ruler)
        ensures
            r.spec_measured() == measured,
            r.spec_style() == (Style {
                fg: None::<crate::style::CellColor>,
                bg: None::<crate::style::CellColor>,
                add_modifiers: 0u16,
            }),
    {
        Ruler { measured, style: Style::default() }
    }

    /// Re-measures the region.
    pub fn measure(&mut self, size: (u16, u16))
        ensures
            final(self).spec_measured() == size,
            final(self).spec_style() == old(self).spec_style(),
    {
        self.measured = size;
    }

    /// Returns the ruler restyled.
    pub fn style(self, style: Style) -> (r: Ruler)
        ensures
            r.spec_measured() == self.spec_measured(),
            r.spec_style() == style,
    {
        Ruler { measured: self.measured, style }
    }

    /// The ruler's own area at the origin.
    pub fn ruler_area(&self) -> (a: Area)
        ensures
            a == self.spec_area(),
    {
        let w: u16 = if self.measured.0 > 0xffff - 4 {
            0xffff
        } else {
            self.measured.0 + 4
        };
        let h: u16 = if self.measured.1 > 0xffff - 4 {
            0xffff
        } else {
            self.measured.1 + 4
        };
        Area { x: 0, y: 0, width: w, height: h }
    }

    /// Where the ruler lands when drawn at offset `(x, y)` into a buffer of
    /// the given dimensions: its area shifted there, then moved and shrunk
    /// to fit the buffer.
    pub open spec fn placed(self, x: int, y: int, bw: int, bh: int) -> Area {
        let w = if grown_dim(self.spec_measured().0 as int) > bw {
            bw
        } else {
            grown_dim(self.spec_measured().0 as int)
        };
        let h = if grown_dim(self.spec_measured().1 as int) > bh {
            bh
        } else {
            grown_dim(self.spec_measured().1 as int)
        };
        let px = if x + w > bw {
            bw - w
        } else {
            x
        };
        let py = if y + h > bh {
            bh - h
        } else {
            y
        };
        Area { x: px as u16, y: py as u16, width: w as u16, height: h as u16 }
    }

    /// Draws the ruler into `buf` at offset `(x, y)`, moved and shrunk to
    /// fit the buffer: digit cells take the ruler's style patch over their
    /// previous content, every other cell keeps its content.
    pub fn render(self, x: u16, y: u16, buf: &mut FrameBuffer)
        requires
            old(buf).wf(),
            old(buf).spec_width() >= 4,
            old(buf).spec_height() >= 4,
        ensures
            final(buf).wf(),
            final(buf).spec_width() == old(buf).spec_width(),
            final(buf).spec_height() == old(buf).spec_height(),
            ({
                let r = self.placed(
                    x as int,
                    y as int,
                    old(buf).spec_width() as int,
                    old(buf).spec_height() as int,
                );
                forall|by: int, bx: int|
                    0 <= by < old(buf).spec_height() as int && 0 <= bx < old(
                        buf,
                    ).spec_width() as int ==> #[trigger] final(buf).grid()[by][bx] == (if r.x <= bx
                        < r.x + r.width && r.y <= by < r.y + r.height {
                        match ruler_glyph(
                            r.width as int,
                            r.height as int,
                            bx - r.x,
                            by - r.y,
                        ) {
                            Some(d) => (Cell {
                                ch: d,
                                ..self.spec_style().apply_spec(old(buf).grid()[by][bx])
                            }),
                            None => old(buf).grid()[by][bx],
                        }
                    } else {
                        old(buf).grid()[by][bx]
                    })
            }),
    {
        let bw = buf.width();
        let bh = buf.height();
        let area = self.ruler_area();
        let rw: u16 = if area.width > bw {
            bw
        } else {
            area.width
        };
        let rh: u16 = if area.height > bh {
            bh
        } else {
            area.height
        };
        let rx: u16 = if x > bw - rw {
            bw - rw
        } else {
            x
        };
        let ry: u16 = if y > bh - rh {
            bh - rh
        } else {
            y
        };
        let ghost r = self.placed(x as int, y as int, bw as int, bh as int);
        proof {
            assert(r == (Area { x: rx, y: ry, width: rw, height: rh }));
        }

        let mut cy: u16 = 0;
        while cy < rh
            invariant
                buf.wf(),
                buf.spec_width() == bw,
                buf.spec_height() == bh,
                bw == old(buf).spec_width(),
                bh == old(buf).spec_height(),
                cy <= rh,
                rw >= 4,
                rh >= 4,
                rx == r.x && ry == r.y && rw == r.width && rh == r.height,
                rx + rw <= bw,
                ry + rh <= bh,
                forall|by: int, bx: int|
                    0 <= by < bh as int && 0 <= bx < bw as int ==> #[trigger] buf.grid()[by][bx]
                        == (if rx <= bx < rx + rw && ry <= by < ry + cy as int {
                        match ruler_glyph(rw as int, rh as int, bx - rx, by - ry) {
                            Some(d) => (Cell {
                                ch: d,
                                ..self.spec_style().apply_spec(old(buf).grid()[by][bx])
                            }),
                            None => old(buf).grid()[by][bx],
                        }
                    } else {
                        old(buf).grid()[by][bx]
                    }),
            decreases rh - cy,
        {
            let ty = ry + cy;
            let mut cx: u16 = 0;
            while cx < rw
                invariant
                    buf.wf(),
                    buf.spec_width() == bw,
                    buf.spec_height() == bh,
                    bw == old(buf).spec_width(),
                    bh == old(buf).spec_height(),
                    cy < rh,
                    cx <= rw,
                    ty == ry + cy,
                    rw >= 4,
                    rh >= 4,
                    rx == r.x && ry == r.y && rw == r.width && rh == r.height,
                    rx + rw <= bw,
                    ry + rh <= bh,
                    forall|by: int, bx: int|
                        0 <= by < bh as int && 0 <= bx < bw as int ==> #[trigger] buf.grid()[by][bx]
                            == (if (rx <= bx < rx + rw && ry <= by < ry + cy as int) || (by
                            == ty as int && rx <= bx < rx + cx as int) {
                            match ruler_glyph(rw as int, rh as int, bx - rx, by - ry) {
                                Some(d) => (Cell {
                                    ch: d,
                                    ..self.spec_style().apply_spec(old(buf).grid()[by][bx])
                                }),
                                None => old(buf).grid()[by][bx],
                            }
                        } else {
                            old(buf).grid()[by][bx]
                        }),
                decreases rw - cx,
            {
                let tx = rx + cx;
                match ruler_glyph_at(rw, rh, cx, cy) {
                    Some(d) => {
                        let cur = buf.get(tx, ty);
                        let mut styled = self.style.apply(cur);
                        styled.ch = d;
                        buf.set(tx, ty, styled);
                    },
                    None => {},
                }
                cx = cx + 1;
            }
            cy = cy + 1;
        }
    }
}

} // verus!
