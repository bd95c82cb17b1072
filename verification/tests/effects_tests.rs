//! The effect registry: replacement under a key, expiry, the error popup,
//! and compiled effects.

use tfxed_core::effects::{CompileError, EffectBehavior, ErrorPopup, TimedEffect};
use tfxed_core::{App, AppEvent, CellColor, EffectKind, EffectManager, FrameBuffer, Gruvbox};

fn sample_popup(tag: u32) -> TimedEffect {
    TimedEffect::popup(
        ErrorPopup {
            message: format!("error {tag}"),
            code: "x".to_string(),
            line: tag,
            column: 1,
        },
        15000,
    )
}

#[test]
fn upsert_replaces_under_one_key() {
    let mut m = EffectManager::new();
    m.upsert(EffectKind::Editor, sample_popup(1));
    m.upsert(EffectKind::Editor, sample_popup(2));
    assert_eq!(m.len(), 1);
    let e = m.get(EffectKind::Editor).unwrap();
    match &e.behavior {
        EffectBehavior::Popup(p) => assert_eq!(p.message, "error 2"),
        _ => panic!("expected the second popup under the key"),
    }
}

#[test]
fn upsert_keeps_other_keys() {
    let mut m = EffectManager::new();
    m.upsert(EffectKind::Editor, sample_popup(1));
    m.upsert(EffectKind::DslErrorPopup, sample_popup(2));
    m.upsert(EffectKind::Editor, sample_popup(3));
    assert_eq!(m.len(), 2);
    let e = m.get(EffectKind::DslErrorPopup).unwrap();
    match &e.behavior {
        EffectBehavior::Popup(p) => assert_eq!(p.message, "error 2"),
        _ => panic!("expected the popup to survive"),
    }
}

#[test]
fn effect_expires_once_duration_is_spent() {
    let mut m = EffectManager::new();
    let mut work = FrameBuffer::new(30, 12);
    m.upsert(EffectKind::DslErrorPopup, sample_popup(1));
    // 10 advances of 1000 ms leave it short of 15000 ms
    for _ in 0..10 {
        m.advance(1000, &mut work);
    }
    assert!(m.get(EffectKind::DslErrorPopup).is_some());
    assert_eq!(m.get(EffectKind::DslErrorPopup).unwrap().elapsed_ms, 10000);
    // 5 more reach the total duration: the effect is removed
    for _ in 0..5 {
        m.advance(1000, &mut work);
    }
    assert!(m.get(EffectKind::DslErrorPopup).is_none());
    assert_eq!(m.len(), 0);
}

#[test]
fn compile_error_raises_popup_then_expires() {
    let mut app = App::new();
    app.apply_compile_outcome(Err(CompileError {
        message: "unexpected token".to_string(),
        offending_line: "bad syntax".to_string(),
        line: 1,
        column: 5,
    }));
    let e = app.effects.get(EffectKind::DslErrorPopup).unwrap();
    assert_eq!(e.total_ms, Some(15000));
    match &e.behavior {
        EffectBehavior::Popup(p) => {
            assert_eq!(p.message, "unexpected token");
            assert_eq!(p.code, "bad syntax");
            assert_eq!(p.line, 1);
            assert_eq!(p.column, 5);
        }
        _ => panic!("expected the error popup"),
    }
    // still present after one second of advanced frames
    app.set_frame_duration(1000);
    app.compose_frame();
    assert!(app.effects.get(EffectKind::DslErrorPopup).is_some());
    // absent after sixteen seconds of advanced frames
    for _ in 0..15 {
        app.compose_frame();
    }
    assert!(app.effects.get(EffectKind::DslErrorPopup).is_none());
}

#[test]
fn successful_compile_clears_error_popup() {
    let mut app = App::new();
    app.apply_event(AppEvent::CompileDsl("definitely not a script".to_string())).unwrap();
    match &app.effects.get(EffectKind::DslErrorPopup).unwrap().behavior {
        EffectBehavior::Popup(_) => {}
        _ => panic!("expected a popup after the failed compile"),
    }
    app.apply_event(AppEvent::CompileDsl("fx::dissolve(500)".to_string())).unwrap();
    // the main key holds the compiled effect
    match &app.effects.get(EffectKind::Editor).unwrap().behavior {
        EffectBehavior::Compiled(_) => {}
        _ => panic!("expected the compiled effect under the main key"),
    }
    // the popup key was cleared in the same frame: only an inert effect sits there
    match &app.effects.get(EffectKind::DslErrorPopup).unwrap().behavior {
        EffectBehavior::ClearTick => {}
        _ => panic!("expected the popup to be cleared"),
    }
    // the inert clear effect vanishes on the next frame
    app.set_frame_duration(16);
    app.compose_frame();
    assert!(app.effects.get(EffectKind::DslErrorPopup).is_none());
}

#[test]
fn compiled_effect_runs_and_completes() {
    let mut app = App::new();
    app.apply_event(AppEvent::UpdateCanvas("AB\nCD".to_string())).unwrap();
    app.apply_event(AppEvent::CompileDsl("fx::sleep(500)".to_string())).unwrap();
    // a sleeping effect mutates nothing: the composited frame equals the base
    app.set_frame_duration(100);
    app.compose_frame();
    assert!(app.effects.get(EffectKind::Editor).is_some());
    for y in 0..2 {
        for x in 0..2 {
            assert_eq!(
                app.canvas.work().get(x, y).ch,
                app.canvas.base().get(x, y).ch
            );
        }
    }
    // once its duration has run out the effect reports done and is removed
    app.set_frame_duration(600);
    app.compose_frame();
    assert!(app.effects.get(EffectKind::Editor).is_none());
}

#[test]
fn identical_frames_compose_identically() {
    let make = || {
        let mut a = App::new();
        a.apply_event(AppEvent::UpdateCanvas("AB\nCD".to_string())).unwrap();
        a.apply_compile_outcome(Err(CompileError {
            message: "unexpected token".to_string(),
            offending_line: "bad".to_string(),
            line: 2,
            column: 3,
        }));
        a.set_frame_duration(100);
        a
    };
    let mut one = make();
    let mut two = make();
    one.compose_frame();
    two.compose_frame();
    for y in 0..one.canvas.height() {
        for x in 0..one.canvas.width() {
            assert_eq!(one.canvas.work().get(x, y), two.canvas.work().get(x, y));
        }
    }
}

#[test]
fn compile_error_with_multibyte_text_is_survivable() {
    let mut app = App::new();
    // a rejected script holding a multi-byte character must not panic
    app.apply_event(AppEvent::CompileDsl("fx::dissolve(€)".to_string())).unwrap();
    let e = app.effects.get(EffectKind::DslErrorPopup).unwrap();
    match &e.behavior {
        EffectBehavior::Popup(p) => {
            assert!(p.line >= 1);
            assert!(!p.message.is_empty());
            // the offending line is cut whole from the script
            assert_eq!(p.code, "fx::dissolve(€)");
        }
        _ => panic!("expected the error popup"),
    }
}

#[test]
fn oversized_integer_literal_is_recovered_not_fatal() {
    let mut app = App::new();
    // one digit above what the compiler's 32-bit conversion can take
    app.apply_event(AppEvent::CompileDsl("fx::dissolve(4294967296)".to_string())).unwrap();
    assert!(app.is_running());
    let e = app.effects.get(EffectKind::DslErrorPopup).unwrap();
    assert_eq!(e.total_ms, Some(15000));
    match &e.behavior {
        EffectBehavior::Popup(p) => {
            assert_eq!(p.message, "invalid numeric literal");
            assert_eq!(p.code, "fx::dissolve(4294967296)");
            assert_eq!(p.line, 1);
            assert_eq!(p.column, 14);
        }
        _ => panic!("expected the error popup"),
    }
}

#[test]
fn malformed_hex_literal_is_recovered_not_fatal() {
    let mut app = App::new();
    for script in ["fx::sleep(0x)", "fx::sleep(0x100000000)", "fx::sleep(-2147483649)"] {
        app.apply_event(AppEvent::CompileDsl(script.to_string())).unwrap();
        assert!(app.is_running());
        match &app.effects.get(EffectKind::DslErrorPopup).unwrap().behavior {
            EffectBehavior::Popup(p) => assert_eq!(p.message, "invalid numeric literal"),
            _ => panic!("expected the error popup"),
        }
    }
    // a literal at the 32-bit limit still reaches the compiler
    app.apply_event(AppEvent::CompileDsl("fx::sleep(4294967295)".to_string())).unwrap();
    match &app.effects.get(EffectKind::Editor).unwrap().behavior {
        EffectBehavior::Compiled(_) => {}
        _ => panic!("expected the compiled effect"),
    }
}

#[test]
fn trailing_line_feed_adds_no_popup_row() {
    let mut app = App::new();
    app.apply_compile_outcome(Err(CompileError {
        message: "hi\n".to_string(),
        offending_line: "code".to_string(),
        line: 1,
        column: 5,
    }));
    app.set_frame_duration(0);
    app.compose_frame();
    let work = app.canvas.work();
    // same geometry as a message without the trailing line feed:
    // message row, blank separator, then the marked code row
    assert_eq!(work.get(3, 3).ch, 'h');
    assert_eq!(work.get(3, 4).ch, ' ');
    assert_eq!(work.get(3, 5).ch, '1');
    assert_eq!(work.get(7, 5).ch, 'c');
    // the popup is five rows tall: row 7 is below it
    assert_eq!(work.get(2, 7).bg, CellColor::Reset);
}

#[test]
fn gruvbox_palette_entries() {
    assert_eq!(Gruvbox::red_bright(), CellColor::Rgb(0xfb, 0x49, 0x34));
    assert_eq!(Gruvbox::dark0_hard(), CellColor::Rgb(0x1d, 0x20, 0x21));
    assert_eq!(Gruvbox::light0_soft(), CellColor::Rgb(0xf2, 0xe5, 0xbc));
    assert_eq!(Gruvbox::aqua_dim(), CellColor::Rgb(0x42, 0x7b, 0x58));
}

#[test]
fn popup_renders_message_marker_and_code() {
    let mut app = App::new();
    app.apply_compile_outcome(Err(CompileError {
        message: "hi".to_string(),
        offending_line: "code".to_string(),
        line: 1,
        column: 5,
    }));
    app.set_frame_duration(0);
    app.compose_frame();
    let work = app.canvas.work();
    let red = CellColor::Rgb(0xfb, 0x49, 0x34);
    // padding corner of the popup frame
    let corner = work.get(2, 2);
    assert_eq!(corner.ch, ' ');
    assert_eq!(corner.bg, red);
    assert_eq!(corner.fg, CellColor::Rgb(0xeb, 0xdb, 0xb2));
    // message row: bold, bright
    let m = work.get(3, 3);
    assert_eq!(m.ch, 'h');
    assert_eq!(m.bg, red);
    assert_eq!(m.fg, CellColor::Rgb(0xfb, 0xf1, 0xc7));
    assert_eq!(m.modifiers, 0x0001);
    assert_eq!(work.get(4, 3).ch, 'i');
    // blank separator row
    assert_eq!(work.get(3, 4).ch, ' ');
    // code row: the line:column marker precedes the offending code
    let expected = ['1', ':', '5', ' ', 'c', 'o', 'd', 'e'];
    for (i, ch) in expected.iter().enumerate() {
        let c = work.get(3 + i as u16, 5);
        assert_eq!(c.ch, *ch);
        assert_eq!(c.fg, CellColor::Rgb(0xf2, 0xe5, 0xbc));
        assert_eq!(c.modifiers, 0);
    }
    // the popup is eight content columns wide plus padding: it ends at x = 11
    assert_eq!(work.get(11, 2).bg, red);
    assert_eq!(work.get(12, 2).bg, CellColor::Reset);
    // below the popup the work buffer still shows the blank base
    assert_eq!(work.get(2, 7).bg, CellColor::Reset);
}
