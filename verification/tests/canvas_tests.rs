//! Canvas store behavior: loading source text and per-frame resets.

use tfxed_core::{App, AppEvent, CellColor};

fn base_char(app: &App, x: u16, y: u16) -> char {
    app.canvas.base().get(x, y).ch
}

fn work_char(app: &App, x: u16, y: u16) -> char {
    app.canvas.work().get(x, y).ch
}

#[test]
fn load_two_by_two_grid() {
    let mut app = App::new();
    let r = app.apply_event(AppEvent::UpdateCanvas("AB\nCD".to_string()));
    assert!(r.is_ok());
    assert_eq!(app.canvas.width(), 2);
    assert_eq!(app.canvas.height(), 2);
    assert_eq!(base_char(&app, 0, 0), 'A');
    assert_eq!(base_char(&app, 1, 0), 'B');
    assert_eq!(base_char(&app, 0, 1), 'C');
    assert_eq!(base_char(&app, 1, 1), 'D');
}

#[test]
fn frame_with_no_effects_equals_base() {
    let mut app = App::new();
    app.apply_event(AppEvent::UpdateCanvas("AB\nCD".to_string())).unwrap();
    app.set_frame_duration(16);
    app.compose_frame();
    for y in 0..2 {
        for x in 0..2 {
            assert_eq!(work_char(&app, x, y), base_char(&app, x, y));
        }
    }
    assert_eq!(work_char(&app, 0, 0), 'A');
    assert_eq!(work_char(&app, 1, 1), 'D');
}

#[test]
fn load_ragged_text_pads_with_blanks() {
    let mut app = App::new();
    app.apply_event(AppEvent::UpdateCanvas("WXYZ\nQ".to_string())).unwrap();
    assert_eq!(app.canvas.width(), 4);
    assert_eq!(app.canvas.height(), 2);
    assert_eq!(base_char(&app, 3, 0), 'Z');
    assert_eq!(base_char(&app, 0, 1), 'Q');
    // beyond the short line the base holds blank cells
    assert_eq!(base_char(&app, 1, 1), ' ');
    assert_eq!(base_char(&app, 3, 1), ' ');
}

#[test]
fn reload_replaces_both_buffers_wholesale() {
    let mut app = App::new();
    app.apply_event(AppEvent::UpdateCanvas("AAAA\nAAAA\nAAAA".to_string())).unwrap();
    assert_eq!(app.canvas.width(), 4);
    assert_eq!(app.canvas.height(), 3);
    app.apply_event(AppEvent::UpdateCanvas("Z".to_string())).unwrap();
    assert_eq!(app.canvas.width(), 1);
    assert_eq!(app.canvas.height(), 1);
    assert_eq!(base_char(&app, 0, 0), 'Z');
    // the work buffer was reallocated at the same dimensions, blank
    assert_eq!(app.canvas.work().width(), 1);
    assert_eq!(app.canvas.work().height(), 1);
    assert_eq!(work_char(&app, 0, 0), ' ');
}

#[test]
fn ansi_styling_reaches_the_base_buffer() {
    let mut app = App::new();
    app.apply_event(AppEvent::UpdateCanvas("\u{1b}[31mR\u{1b}[0m".to_string())).unwrap();
    assert_eq!(app.canvas.width(), 1);
    assert_eq!(app.canvas.height(), 1);
    let cell = app.canvas.base().get(0, 0);
    assert_eq!(cell.ch, 'R');
    assert_eq!(cell.fg, CellColor::Red);
}

#[test]
fn work_buffer_reset_overwrites_effect_residue() {
    let mut app = App::new();
    app.apply_event(AppEvent::UpdateCanvas("AB\nCD".to_string())).unwrap();
    // first frame draws a popup over the work buffer
    app.apply_event(AppEvent::CompileDsl("not a script".to_string())).unwrap();
    app.set_frame_duration(16);
    app.compose_frame();
    // dropping the popup and composing again leaves no residue
    app.effects = tfxed_core::EffectManager::new();
    app.compose_frame();
    assert_eq!(work_char(&app, 0, 0), 'A');
    assert_eq!(work_char(&app, 1, 0), 'B');
    assert_eq!(work_char(&app, 0, 1), 'C');
    assert_eq!(work_char(&app, 1, 1), 'D');
}
