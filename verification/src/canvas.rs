//! The canvas store: the immutable base buffer and the per-frame work buffer.

use vstd::prelude::*;

use crate::buffer::empty_grid;
use crate::buffer::FrameBuffer;
use crate::host;
use crate::style::Cell;

verus! {

/// A fatal canvas-load error: the source text could not be rasterized.
#[derive(Debug)]
pub struct CanvasError {
    /// What the rasterizer reported.
    pub message: String,
}

/// The bounding width of a rasterized grid: the widest row's cell count.
pub open spec fn raster_width(g: Seq<Seq<Cell>>) -> int
    decreases g.len(),
{
    if g.len() == 0 {
        0
    } else {
        let rest = raster_width(g.drop_last());
        let last = g.last().len() as int;
        if last > rest {
            last
        } else {
            rest
        }
    }
}

/// Clamps a dimension to what a cell coordinate can address.
pub open spec fn clamp_dim(n: int) -> int {
    if n > 0xffff {
        0xffff
    } else {
        n
    }
}

/// The `w` by `h` grid holding `g`'s cells at the top-left corner and blank
/// cells everywhere a row of `g` does not reach.
pub open spec fn padded_grid(g: Seq<Seq<Cell>>, w: int, h: int) -> Seq<Seq<Cell>> {
    Seq::new(
        h as nat,
        |y: int|
            Seq::new(
                w as nat,
                |x: int|
                    if y < g.len() && x < g[y].len() {
                        g[y][x]
                    } else {
                        Cell::empty_spec()
                    },
            ),
    )
}

/// Whether a store has the dimensions and blank work buffer of a load of
/// the rasterized grid `g`: both buffers measure `g`'s bounding width and
/// height, clamped to what a cell coordinate can address, and the work
/// buffer is blank.
pub open spec fn loaded_dims(post: CanvasStore, g: Seq<Seq<Cell>>) -> bool {
    let w = clamp_dim(raster_width(g));
    let h = clamp_dim(g.len() as int);
    &&& post.spec_width() == w
    &&& post.spec_height() == h
    &&& post.work_grid() == empty_grid(w, h)
}

/// Whether a store holds exactly the rasterized grid `g`: the dimensions
/// and blank work buffer of `loaded_dims`, and a base buffer carrying
/// `g`'s cells at the top-left corner padded with blank cells.
pub open spec fn loaded_from(post: CanvasStore, g: Seq<Seq<Cell>>) -> bool {
    &&& loaded_dims(post, g)
    &&& post.base_grid() == padded_grid(g, clamp_dim(raster_width(g)), clamp_dim(g.len() as int))
}

/// Every row is at most as wide as the grid's bounding width.
pub proof fn lemma_raster_width_ge(g: Seq<Seq<Cell>>)
    ensures
        forall|i: int| 0 <= i < g.len() ==> (#[trigger] g[i]).len() <= raster_width(g),
    decreases g.len(),
{
    if g.len() > 0 {
        lemma_raster_width_ge(g.drop_last());
        assert forall|i: int| 0 <= i < g.len() implies (#[trigger] g[i]).len() <= raster_width(
            g,
        ) by {
            if i < g.len() - 1 {
                assert(g.drop_last()[i] == g[i]);
            } else {
                assert(g.last() == g[i]);
            }
        }
    }
}

/// Holds the base buffer — fixed content, replaced wholesale when new source
/// text arrives — and the work buffer, which is reset from the base buffer at
/// the start of every frame and then mutated in place by effects.  The two
/// buffers always have the same dimensions.
pub struct CanvasStore {
    base: FrameBuffer,
    work: FrameBuffer,
}

impl CanvasStore {
    /// The base buffer.
    pub closed spec fn spec_base(self) -> FrameBuffer {
        self.base
    }

    /// The work buffer.
    pub closed spec fn spec_work(self) -> FrameBuffer {
        self.work
    }

    /// The base buffer's grid of cells.
    pub open spec fn base_grid(self) -> Seq<Seq<Cell>> {
        self.spec_base().grid()
    }

    /// The work buffer's grid of cells.
    pub open spec fn work_grid(self) -> Seq<Seq<Cell>> {
        self.spec_work().grid()
    }

    /// The buffers' common width.
    pub open spec fn spec_width(self) -> u16 {
        self.spec_base().spec_width()
    }

    /// The buffers' common height.
    pub open spec fn spec_height(self) -> u16 {
        self.spec_base().spec_height()
    }

    /// Well-formedness: both buffers are well-formed and share dimensions.
    pub open spec fn wf(self) -> bool {
        &&& self.spec_base().wf()
        &&& self.spec_work().wf()
        &&& self.spec_work().spec_width() == self.spec_base().spec_width()
        &&& self.spec_work().spec_height() == self.spec_base().spec_height()
    }

    /// Creates a store whose base and work buffers are blank grids of the
    /// given dimensions.
    pub fn new(w: u16, h: u16) -> (store: CanvasStore)
        ensures
            store.wf(),
            store.spec_width() == w,
            store.spec_height() == h,
            store.base_grid() =~~= empty_grid(w as int, h as int),
            store.work_grid() =~~= empty_grid(w as int, h as int),
    {
        CanvasStore { base: FrameBuffer::new(w, h), work: FrameBuffer::new(w, h) }
    }

    /// Executable width accessor.
    pub fn width(&self) -> (w: u16)
        ensures
            w == self.spec_width(),
    {
        self.base.width()
    }

    /// Executable height accessor.
    pub fn height(&self) -> (h: u16)
        ensures
            h == self.spec_height(),
    {
        self.base.height()
    }

    /// Read-only view of the base buffer.
    pub fn base(&self) -> (b: &FrameBuffer)
        ensures
            *b == self.spec_base(),
    {
        &self.base
    }

    /// Read-only view of the work buffer, as handed to the host renderer.
    pub fn work(&self) -> (b: &FrameBuffer)
        ensures
            *b == self.spec_work(),
    {
        &self.work
    }

    /// Mutable access to the work buffer, for the effect pass; the base
    /// buffer is untouched.
    pub fn work_mut(&mut self) -> (b: &mut FrameBuffer)
        ensures
            *b == old(self).spec_work(),
            final(self).spec_base() == old(self).spec_base(),
            final(self).spec_work() == *final(b),
    {
        &mut self.work
    }

    /// Reallocates both buffers — never one without the other — as blank
    /// grids of the given dimensions.
    pub fn resize(&mut self, w: u16, h: u16)
        ensures
            final(self).wf(),
            final(self).spec_width() == w,
            final(self).spec_height() == h,
            final(self).base_grid() =~~= empty_grid(w as int, h as int),
            final(self).work_grid() =~~= empty_grid(w as int, h as int),
    {
        self.base = FrameBuffer::new(w, h);
        self.work = FrameBuffer::new(w, h);
    }

    /// Copies the base buffer's content into the work buffer, fully
    /// overwriting any effect residue of the previous frame.  This runs
    /// before any effect is applied each frame, so effects never accumulate
    /// across frames.
    pub fn reset_work_from_base(&mut self)
        requires
            old(self).wf(),
        ensures
            final(self).wf(),
            final(self).spec_base() == old(self).spec_base(),
            final(self).spec_width() == old(self).spec_width(),
            final(self).spec_height() == old(self).spec_height(),
            final(self).work_grid() =~~= final(self).base_grid(),
    {
        self.work.copy_from(&self.base);
    }

    /// Parses `source` through the outside rasterizer and, on success,
    /// replaces both buffers wholesale: the base buffer holds the parsed
    /// grid at the top-left corner, padded with blank cells to the bounding
    /// width and height, and the work buffer is blank at the same
    /// dimensions.  Fails only if the rasterizer rejects the text, leaving
    /// the store unchanged.  Dimensions clamp at what a cell coordinate can
    /// address; a text wider than that is clipped, and only its dimensions
    /// and blank work buffer are claimed.
    pub fn load(&mut self, source: &str) -> (r: Result<(), CanvasError>)
        requires
            old(self).wf(),
        ensures
            final(self).wf(),
            r is Ok <==> host::raster_of(source@) is Some,
            r is Ok ==> loaded_dims(*final(self), host::raster_of(source@)->Some_0),
            r is Ok && raster_width(host::raster_of(source@)->Some_0) <= 0xffff ==> loaded_from(
                *final(self),
                host::raster_of(source@)->Some_0,
            ),
            r is Err ==> *final(self) == *old(self),
    {
        let text = match host::parse_ansi(source) {
            Ok(t) => t,
            Err(e) => {
                return Err(e);
            },
        };
        let ghost g = host::raster_of(source@)->Some_0;

        let rows = host::text_height(&text);
        let mut max_w: usize = 0;
        let mut i: usize = 0;
        while i < rows
            invariant
                host::text_cells(text) == g,
                rows == g.len(),
                i <= rows,
                max_w == raster_width(g.take(i as int)),
            decreases rows - i,
        {
            let lw = host::text_line_width(&text, i);
            proof {
                assert(g.take(i as int + 1).drop_last() =~= g.take(i as int));
                assert(g.take(i as int + 1).last() == g[i as int]);
            }
            if lw > max_w {
                max_w = lw;
            }
            i = i + 1;
        }
        proof {
            assert(g.take(rows as int) =~= g);
        }

        let w: u16 = if max_w > 0xffff {
            0xffff
        } else {
            max_w as u16
        };
        let h: u16 = if rows > 0xffff {
            0xffff
        } else {
            rows as u16
        };

        let mut hostbuf = host::rt_empty(w, h);
        host::rt_render_text(&text, &mut hostbuf, w, h);

        let mut base = FrameBuffer::new(w, h);
        let mut y: u16 = 0;
        while y < h
            invariant
                host::text_cells(text) == g,
                base.wf(),
                base.spec_width() == w,
                base.spec_height() == h,
                y <= h,
                host::rt_origin_zero(hostbuf),
                host::rt_cells(hostbuf).len() == h as int,
                forall|yy: int|
                    0 <= yy < h as int ==> (#[trigger] host::rt_cells(hostbuf)[yy]).len()
                        == w as int,
                forall|yy: int, xx: int|
                    0 <= yy < y as int && 0 <= xx < w as int ==> #[trigger] base.grid()[yy][xx]
                        == host::rt_cells(hostbuf)[yy][xx],
            decreases h - y,
        {
            let mut x: u16 = 0;
            while x < w
                invariant
                    host::text_cells(text) == g,
                    base.wf(),
                    base.spec_width() == w,
                    base.spec_height() == h,
                    y < h,
                    x <= w,
                    host::rt_origin_zero(hostbuf),
                    host::rt_cells(hostbuf).len() == h as int,
                    forall|yy: int|
                        0 <= yy < h as int ==> (#[trigger] host::rt_cells(hostbuf)[yy]).len()
                            == w as int,
                    forall|yy: int, xx: int|
                        0 <= yy < y as int && 0 <= xx < w as int ==> #[trigger] base.grid()[yy][xx]
                            == host::rt_cells(hostbuf)[yy][xx],
                    forall|xx: int|
                        0 <= xx < x as int ==> #[trigger] base.grid()[y as int][xx]
                            == host::rt_cells(hostbuf)[y as int][xx],
                decreases w - x,
            {
                let c = host::rt_get_cell(&hostbuf, x, y);
                base.set(x, y, c);
                x = x + 1;
            }
            y = y + 1;
        }

        self.base = base;
        self.work = FrameBuffer::new(w, h);
        proof {
            if raster_width(g) <= 0xffff {
                lemma_raster_width_ge(g);
                assert(w as int == raster_width(g));
                assert forall|yy: int, xx: int|
                    0 <= yy < h as int && 0 <= xx < w as int implies #[trigger] self.base_grid()[yy][xx]
                    == padded_grid(g, w as int, h as int)[yy][xx] by {
                    if yy < g.len() && xx < g[yy].len() {
                        assert(g[yy].len() <= w as int);
                    }
                }
                assert(self.base_grid() =~~= padded_grid(g, w as int, h as int));
            }
        }
        Ok(())
    }
}

} // verus!
