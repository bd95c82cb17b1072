//! Trusted boundary to the outside crates: the ANSI text rasterizer, the
//! effect-script compiler, and the host cell-buffer type that compiled
//! effects mutate.
//!
//! Everything verified speaks about these values through the uninterpreted
//! names below; the wrappers are the only places where the outside calls are
//! made.

use vstd::prelude::*;

use ratatui::style::Color as HostColor;
use ratatui::widgets::Widget;

verus! {

use crate::canvas::CanvasError;
use crate::style::Cell;
use crate::style::CellColor;

/// The compiled-effect type of the effect library, carried opaquely.
#[verifier::external_type_specification]
#[verifier::external_body]
pub struct ExEffect(tachyonfx::Effect);

/// The rasterizer's output type: styled text, carried opaquely.
#[verifier::external_type_specification]
#[verifier::external_body]
pub struct ExText<'a>(ratatui::text::Text<'a>);

/// The host cell-buffer type that text is rendered into and that compiled
/// effects mutate, carried opaquely.
#[verifier::external_type_specification]
#[verifier::external_body]
pub struct ExBuffer(ratatui::buffer::Buffer);

/// The host color type, carried opaquely inside wrapper bodies.
#[verifier::external_type_specification]
#[verifier::external_body]
pub struct ExHostColor(ratatui::style::Color);

/// What rasterizing a source text yields: `None` when the rasterizer rejects
/// the text, otherwise the grid of styled cells, one row per source line.
pub uninterp spec fn raster_of(s: Seq<char>) -> Option<Seq<Seq<Cell>>>;

/// The grid of cells a rasterized text stands for, one row per line.
pub uninterp spec fn text_cells(t: ratatui::text::Text<'static>) -> Seq<Seq<Cell>>;

/// Whether a text carries no alignment and no style of its own, so that
/// rendering it writes exactly its cells and touches nothing else.
pub uninterp spec fn text_plain(t: ratatui::text::Text<'static>) -> bool;

/// The grid of cells a host buffer holds, row by row over its whole area.
pub uninterp spec fn rt_cells(b: ratatui::buffer::Buffer) -> Seq<Seq<Cell>>;

/// Whether a host buffer's area sits at the origin.  The wrappers below
/// index and render with absolute coordinates counted from `(0, 0)`, so
/// they require it; every buffer the library builds comes from `rt_empty`,
/// which establishes it.
pub uninterp spec fn rt_origin_zero(b: ratatui::buffer::Buffer) -> bool;

/// What compiling an effect script yields when the compiler rejects it —
/// the message and the error's one-based line and column — and `None` when
/// the compiler accepts it.  Acceptance and the error are functions of the
/// script text alone.
pub uninterp spec fn dsl_error_of(s: Seq<char>) -> Option<(Seq<char>, u32, u32)>;

/// Whether the effect compiler accepts a script.
pub open spec fn dsl_accepts(s: Seq<char>) -> bool {
    dsl_error_of(s) is None
}

/// Relies on `ansi_to_tui::IntoText::into_text`: parses ANSI-styled source
/// text into styled lines.  Acceptance and output are functions of the text
/// alone, and the parser emits plain (unaligned, unstyled at the root) text.
#[verifier::external_body]
pub(crate) fn parse_ansi(s: &str) -> (r: Result<ratatui::text::Text<'static>, CanvasError>)
    ensures
        r is Ok <==> raster_of(s@) is Some,
        r matches Ok(t) ==> text_cells(t) == raster_of(s@)->Some_0 && text_plain(t),
{
    match ansi_to_tui::IntoText::into_text(&s) {
        Ok(t) => Ok(t),
        Err(e) => Err(CanvasError { message: e.to_string() }),
    }
}

/// Relies on `ratatui::text::Text::height`: the number of lines.
#[verifier::external_body]
pub(crate) fn text_height(t: &ratatui::text::Text<'static>) -> (h: usize)
    ensures
        h == text_cells(*t).len(),
{
    t.height()
}

/// Relies on `ratatui::text::Line::width`: the number of cells line `i`
/// occupies when rendered.
#[verifier::external_body]
pub(crate) fn text_line_width(t: &ratatui::text::Text<'static>, i: usize) -> (w: usize)
    requires
        i < text_cells(*t).len(),
    ensures
        w == text_cells(*t)[i as int].len(),
{
    t.lines[i].width()
}

/// Relies on `ratatui::buffer::Buffer::empty`: a fresh buffer of the given
/// area holds only blank cells.
#[verifier::external_body]
pub(crate) fn rt_empty(w: u16, h: u16) -> (b: ratatui::buffer::Buffer)
    ensures
        rt_cells(b) == crate::buffer::empty_grid(w as int, h as int),
        rt_origin_zero(b),
{
    ratatui::buffer::Buffer::empty(ratatui::layout::Rect::new(0, 0, w, h))
}

/// Relies on `ratatui::text::Text`'s widget rendering onto a blank buffer
/// of the area it was created with, handed in here as `w` by `h`: every
/// line that fits the width is written into its row exactly, and cells no
/// line reaches stay blank.  Span rendering patches the cells underneath —
/// hence the blank target — and a line wider than the buffer is clipped,
/// possibly dropping a wide glyph whole at the clip edge, so nothing is
/// claimed of a clipped row's cells.
#[verifier::external_body]
pub(crate) fn rt_render_text(t: &ratatui::text::Text<'static>, b: &mut ratatui::buffer::Buffer, w: u16, h: u16)
    requires
        text_plain(*t),
        rt_origin_zero(*old(b)),
        rt_cells(*old(b)) == crate::buffer::empty_grid(w as int, h as int),
    ensures
        rt_origin_zero(*final(b)),
        rt_cells(*final(b)).len() == h as int,
        forall|y: int| 0 <= y < h as int ==> (#[trigger] rt_cells(*final(b))[y]).len() == w as int,
        forall|y: int, x: int|
            0 <= y < h as int && 0 <= x < w as int && y < text_cells(*t).len() && text_cells(
                *t,
            )[y].len() <= w as int && x < text_cells(*t)[y].len() ==> #[trigger] rt_cells(
                *final(b),
            )[y][x] == text_cells(*t)[y][x],
        forall|y: int, x: int|
            0 <= y < h as int && 0 <= x < w as int && (y >= text_cells(*t).len() || x
                >= text_cells(*t)[y].len()) ==> #[trigger] rt_cells(*final(b))[y][x]
                == Cell::empty_spec(),
{
    t.render(ratatui::layout::Rect::new(0, 0, w, h), b);
}

/// Relies on `ratatui::buffer::Buffer`'s indexing: reads one cell of the
/// buffer's area and converts it to the cell model.
#[verifier::external_body]
pub(crate) fn rt_get_cell(b: &ratatui::buffer::Buffer, x: u16, y: u16) -> (c: Cell)
    requires
        rt_origin_zero(*b),
        y < rt_cells(*b).len(),
        x < rt_cells(*b)[y as int].len(),
    ensures
        c == rt_cells(*b)[y as int][x as int],
{
    let cell = &b[(x, y)];
    Cell {
        ch: cell.symbol().chars().next().unwrap_or(' '),
        fg: color_from_host(cell.fg),
        bg: color_from_host(cell.bg),
        modifiers: cell.modifier.bits(),
    }
}

/// Relies on `ratatui::buffer::Buffer`'s indexing: writes one cell of the
/// buffer's area from the cell model.
#[verifier::external_body]
pub(crate) fn rt_set_cell(b: &mut ratatui::buffer::Buffer, x: u16, y: u16, c: Cell)
    requires
        rt_origin_zero(*old(b)),
        y < rt_cells(*old(b)).len(),
        x < rt_cells(*old(b))[y as int].len(),
    ensures
        rt_origin_zero(*final(b)),
        rt_cells(*final(b)) == rt_cells(*old(b)).update(
            y as int,
            rt_cells(*old(b))[y as int].update(x as int, c),
        ),
{
    let cell = &mut b[(x, y)];
    cell.set_char(c.ch);
    cell.set_fg(color_to_host(c.fg));
    cell.set_bg(color_to_host(c.bg));
    cell.modifier = ratatui::style::Modifier::from_bits_retain(c.modifiers);
}

/// Converts the host color into the cell model's palette; the two mirror
/// each other variant for variant.
#[verifier::external_body]
fn color_from_host(c: ratatui::style::Color) -> CellColor {
    match c {
        HostColor::Reset => CellColor::Reset, HostColor::Black => CellColor::Black,
        HostColor::Red => CellColor::Red, HostColor::Green => CellColor::Green,
        HostColor::Yellow => CellColor::Yellow, HostColor::Blue => CellColor::Blue,
        HostColor::Magenta => CellColor::Magenta, HostColor::Cyan => CellColor::Cyan,
        HostColor::Gray => CellColor::Gray, HostColor::DarkGray => CellColor::DarkGray,
        HostColor::LightRed => CellColor::LightRed, HostColor::LightGreen => CellColor::LightGreen,
        HostColor::LightYellow => CellColor::LightYellow, HostColor::LightBlue => CellColor::LightBlue,
        HostColor::LightMagenta => CellColor::LightMagenta, HostColor::LightCyan => CellColor::LightCyan,
        HostColor::White => CellColor::White, HostColor::Rgb(r, g, b) => CellColor::Rgb(r, g, b),
        HostColor::Indexed(i) => CellColor::Indexed(i),
    }
}

/// Converts a model color into the host color; the inverse of
/// `color_from_host`.
#[verifier::external_body]
fn color_to_host(c: CellColor) -> ratatui::style::Color {
    match c {
        CellColor::Reset => HostColor::Reset, CellColor::Black => HostColor::Black,
        CellColor::Red => HostColor::Red, CellColor::Green => HostColor::Green,
        CellColor::Yellow => HostColor::Yellow, CellColor::Blue => HostColor::Blue,
        CellColor::Magenta => HostColor::Magenta, CellColor::Cyan => HostColor::Cyan,
        CellColor::Gray => HostColor::Gray, CellColor::DarkGray => HostColor::DarkGray,
        CellColor::LightRed => HostColor::LightRed, CellColor::LightGreen => HostColor::LightGreen,
        CellColor::LightYellow => HostColor::LightYellow, CellColor::LightBlue => HostColor::LightBlue,
        CellColor::LightMagenta => HostColor::LightMagenta, CellColor::LightCyan => HostColor::LightCyan,
        CellColor::White => HostColor::White, CellColor::Rgb(r, g, b) => HostColor::Rgb(r, g, b),
        CellColor::Indexed(i) => HostColor::Indexed(i),
    }
}

/// Relies on `tachyonfx`'s effect-script compiler
/// (`EffectDsl::new().compiler().compile`): acceptance of a script, and on
/// rejection the message and the one-based line and column, are functions
/// of the script text alone.  The compiler converts integer and
/// hexadecimal literals with unchecked 32-bit conversions that abort on
/// oversized or malformed ones, so such scripts are left out by the
/// `requires` and screened off by the verified literal scanner before any
/// call.
#[verifier::external_body]
pub(crate) fn dsl_compile(s: &str) -> (r: Result<tachyonfx::Effect, (String, u32, u32)>)
    requires
        crate::script::dsl_literals_bounded(s@),
    ensures
        r is Ok <==> dsl_error_of(s@) is None,
        r matches Err(e) ==> dsl_error_of(s@) matches Some(t) && e.0@ == t.0 && e.1 == t.1
            && e.2 == t.2,
{
    match tachyonfx::dsl::EffectDsl::new().compiler().compile(s) {
        Ok(e) => Ok(e),
        Err(e) => Err((e.source.to_string(), e.start_line() as u32, e.start_column() as u32)),
    }
}

/// Relies on `String::push`: appends one character to the string.
#[verifier::external_body]
pub(crate) fn push_char(s: &mut String, c: char)
    ensures
        final(s)@ == old(s)@.push(c),
{
    s.push(c);
}

/// Relies on `tachyonfx::Effect::process`: advances the effect by the given
/// number of milliseconds and lets it mutate the buffer's cells.  The
/// buffer's area — handed in as `w` by `h` — is never resized.
#[verifier::external_body]
pub(crate) fn fx_process(e: &mut tachyonfx::Effect, millis: u32, b: &mut ratatui::buffer::Buffer, w: u16, h: u16)
    requires
        rt_origin_zero(*old(b)),
        rt_cells(*old(b)).len() == h as int,
        forall|y: int| 0 <= y < h as int ==> (#[trigger] rt_cells(*old(b))[y]).len() == w as int,
    ensures
        rt_origin_zero(*final(b)),
        rt_cells(*final(b)).len() == h as int,
        forall|y: int| 0 <= y < h as int ==> (#[trigger] rt_cells(*final(b))[y]).len() == w as int,
{
    e.process(
        tachyonfx::Duration::from_millis(millis),
        b,
        ratatui::layout::Rect::new(0, 0, w, h),
    );
}

/// Relies on `tachyonfx::Effect::done`: whether the effect has finished and
/// should be removed from the registry.
#[verifier::external_body]
pub(crate) fn fx_done(e: &tachyonfx::Effect) -> bool {
    e.done()
}

} // verus!
