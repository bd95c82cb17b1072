//! The ruler widget: digit bands, tens markers, styling and clamping.

use tfxed_core::{CellColor, FrameBuffer, Ruler, Style};

#[test]
fn ruler_draws_digit_bands_around_the_region() {
    let ruler = Ruler::new((10, 5));
    let mut buf = FrameBuffer::new(20, 12);
    ruler.render(0, 0, &mut buf);
    // the inner top band counts single cells left to right
    let digits = ['0', '1', '2', '3', '4', '5', '6', '7', '8', '9'];
    for (i, d) in digits.iter().enumerate() {
        assert_eq!(buf.get(2 + i as u16, 1).ch, *d);
    }
    // the inner left band counts rows downwards
    assert_eq!(buf.get(1, 2).ch, '0');
    assert_eq!(buf.get(1, 3).ch, '1');
    assert_eq!(buf.get(1, 6).ch, '4');
    // the inner bottom band sits on row height - 2
    assert_eq!(buf.get(2, 7).ch, '0');
    assert_eq!(buf.get(3, 7).ch, '1');
    // the inner right band sits on column width - 2
    assert_eq!(buf.get(12, 2).ch, '0');
    // the framed interior is untouched
    assert_eq!(buf.get(5, 4).ch, ' ');
    // cells beyond the ruler area are untouched
    assert_eq!(buf.get(15, 1).ch, ' ');
}

#[test]
fn ruler_marks_every_tenth_cell_in_the_outer_band() {
    let ruler = Ruler::new((20, 5));
    let mut buf = FrameBuffer::new(30, 12);
    ruler.render(0, 0, &mut buf);
    // position ten of the measured region carries its tens digit
    assert_eq!(buf.get(12, 0).ch, '1');
    // other outer-band cells stay untouched
    assert_eq!(buf.get(11, 0).ch, ' ');
    assert_eq!(buf.get(2, 0).ch, ' ');
    // the inner band wraps past nine
    assert_eq!(buf.get(12, 1).ch, '0');
    assert_eq!(buf.get(13, 1).ch, '1');
}

#[test]
fn ruler_applies_its_style_to_digit_cells_only() {
    let ruler = Ruler::new((10, 5)).style(Style {
        fg: Some(CellColor::Red),
        bg: None,
        add_modifiers: 0,
    });
    let mut buf = FrameBuffer::new(20, 12);
    ruler.render(0, 0, &mut buf);
    assert_eq!(buf.get(2, 1).fg, CellColor::Red);
    // an untouched cell keeps its reset colors
    assert_eq!(buf.get(5, 4).fg, CellColor::Reset);
}

#[test]
fn ruler_area_grows_the_measured_region_by_the_frame() {
    let ruler = Ruler::new((10, 5));
    let a = ruler.ruler_area();
    assert_eq!(a.x, 0);
    assert_eq!(a.y, 0);
    assert_eq!(a.width, 14);
    assert_eq!(a.height, 9);
}

#[test]
fn ruler_is_moved_back_to_fit_the_buffer() {
    // a ruler rendered past the right edge is clamped fully inside
    let ruler = Ruler::new((4, 2));
    let mut buf = FrameBuffer::new(10, 8);
    ruler.render(9, 9, &mut buf);
    // area is 8 by 6, so it lands at (2, 2): inner band row is y = 3
    assert_eq!(buf.get(4, 3).ch, '0');
    assert_eq!(buf.get(5, 3).ch, '1');
}
