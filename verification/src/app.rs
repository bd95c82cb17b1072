//! The application state and the frame controller's state machine.

use vstd::prelude::*;

use crate::canvas;
use crate::canvas::CanvasError;
use crate::canvas::CanvasStore;
use crate::dispatcher::EventQueue;
use crate::effects;
use crate::effects::CompileError;
use crate::effects::EffectBehavior;
use crate::effects::EffectKind;
use crate::effects::EffectManager;
use crate::effects::ErrorPopup;
use crate::effects::TimedEffect;
use crate::event::AppEvent;
use crate::event::KeyCode;
use crate::host;

verus! {

/// How long the error popup stays up, in milliseconds.
pub const ERROR_POPUP_MS: u32 = 15000;

/// A counter bump that sticks at the largest representable value.
pub open spec fn bump(c: usize) -> usize {
    if c < usize::MAX {
        (c + 1) as usize
    } else {
        c
    }
}

/// The application state: the canvas store, the effect registry, the last
/// frame's duration, the demo counter, and the is-running flag.  Created
/// once at startup and mutated only by applying one event at a time.
pub struct App {
    /// The canvas store: base and work buffers.
    pub canvas: CanvasStore,
    /// The registry of active timed effects.
    pub effects: EffectManager,
    /// Milliseconds between the two most recent frames.
    pub last_tick_duration: u32,
    /// The demo counter, bumped by every key press that does not stop the
    /// session.
    pub counter: usize,
    /// Whether the session is running; once false, no further event is
    /// processed.
    pub is_running: bool,
}

/// Whether an event's whole meaning lies in the state machine, with no
/// outside call: everything but canvas loads and script compiles.
pub open spec fn is_control(ev: AppEvent) -> bool {
    match ev {
        AppEvent::Tick => true,
        AppEvent::KeyPress(_) => true,
        AppEvent::Resize(_, _) => true,
        AppEvent::Quit => true,
        AppEvent::CompileDsl(_) => false,
        AppEvent::UpdateCanvas(_) => false,
    }
}

/// The state after applying one control event: a stopped machine ignores
/// everything; an escape key press or an explicit quit stops it; any other
/// key press bumps the demo counter; ticks and resizes change nothing.
pub open spec fn step_control(pre: App, ev: AppEvent) -> App {
    if !pre.is_running {
        pre
    } else {
        match ev {
            AppEvent::KeyPress(ke) => if ke.key_code == KeyCode::Esc {
                App { is_running: false, ..pre }
            } else {
                App { counter: bump(pre.counter), ..pre }
            },
            AppEvent::Quit => App { is_running: false, ..pre },
            _ => pre,
        }
    }
}

/// The state after applying a sequence of control events in order.
pub open spec fn run_controls(pre: App, evs: Seq<AppEvent>) -> App
    decreases evs.len(),
{
    if evs.len() == 0 {
        pre
    } else {
        run_controls(step_control(pre, evs[0]), evs.skip(1))
    }
}

/// Law: a stopped machine is terminal — no sequence of control events
/// changes it.
pub proof fn lemma_stopped_terminal(pre: App, evs: Seq<AppEvent>)
    requires
        !pre.is_running,
    ensures
        run_controls(pre, evs) == pre,
    decreases evs.len(),
{
    if evs.len() > 0 {
        assert(step_control(pre, evs[0]) == pre);
        lemma_stopped_terminal(pre, evs.skip(1));
    }
}

/// Law: an escape key press stops the machine, and every event after it is
/// never applied — the run over the whole sequence equals the run up to and
/// including the stopping press.
pub proof fn lemma_escape_stops(pre: App, evs: Seq<AppEvent>, i: int)
    requires
        0 <= i < evs.len(),
        evs[i] matches AppEvent::KeyPress(ke) && ke.key_code == KeyCode::Esc,
    ensures
        !run_controls(pre, evs).is_running,
        run_controls(pre, evs) == run_controls(pre, evs.take(i + 1)),
    decreases i,
{
    let s1 = step_control(pre, evs[0]);
    if i == 0 {
        assert(!s1.is_running);
        lemma_stopped_terminal(s1, evs.skip(1));
        assert(evs.take(1)[0] == evs[0]);
        assert(evs.take(1).skip(1) =~= Seq::<AppEvent>::empty());
        assert(run_controls(s1, Seq::<AppEvent>::empty()) == s1);
        assert(run_controls(pre, evs.take(1)) == s1);
    } else {
        assert(evs.skip(1)[i - 1] == evs[i]);
        lemma_escape_stops(s1, evs.skip(1), i - 1);
        assert(evs.take(i + 1)[0] == evs[0]);
        assert(evs.take(i + 1).skip(1) =~= evs.skip(1).take(i));
        assert(run_controls(pre, evs.take(i + 1)) == run_controls(s1, evs.skip(1).take(i)));
    }
}

/// Whether an event stops a running session.
pub open spec fn stops(ev: AppEvent) -> bool {
    match ev {
        AppEvent::KeyPress(ke) => ke.key_code == KeyCode::Esc,
        AppEvent::Quit => true,
        _ => false,
    }
}

/// Whether the session, having started the drain with `r0`, is still
/// running when event `i` of the queue is reached: only a stopping event
/// ends it, so this is simply "running at the start and no stop so far".
pub open spec fn alive(r0: bool, evs: Seq<AppEvent>, i: int) -> bool {
    r0 && forall|j: int| 0 <= j < i ==> !stops(#[trigger] evs[j])
}

/// The message of the popup raised for a numeric literal the effect
/// compiler cannot process.
pub open spec fn invalid_literal_message() -> Seq<char> {
    "invalid numeric literal"@
}

/// What a compile request for script `s` does while the session runs: the
/// rest of the state is untouched; a script holding a numeric literal the
/// compiler cannot process never reaches it — the library raises its own
/// popup at the first such literal; an accepted script registers the
/// compiled effect under the main key and clears the popup key with an
/// inert effect; a rejected one raises the popup carrying the compiler's
/// message and position and the script's line at that position.
pub open spec fn compile_step(pre: App, s: Seq<char>, post: App) -> bool {
    &&& post.canvas == pre.canvas
    &&& post.counter == pre.counter
    &&& post.is_running == pre.is_running
    &&& post.last_tick_duration == pre.last_tick_duration
    &&& if !crate::script::dsl_literals_bounded(s) {
        &&& (exists|i: int|
            {
                &&& 0 <= i < s.len()
                &&& #[trigger] crate::script::bad_start(s, i)
                &&& (forall|j: int| 0 <= j < i ==> !crate::script::bad_start(s, j))
                &&& post.effects.lookup(EffectKind::DslErrorPopup) matches Some(e)
                    && e.behavior matches EffectBehavior::Popup(p) && p.message@
                    == invalid_literal_message() && p.line == crate::script::sat_u32(
                    crate::script::line_col_of(s, i).0,
                ) && p.column == crate::script::sat_u32(crate::script::line_col_of(s, i).1)
                    && p.code@ == crate::popup::line_text_spec(s, p.line as int) && e.total_ms
                    == Some(ERROR_POPUP_MS) && e.elapsed_ms == 0
            })
        &&& post.effects.lookup(EffectKind::Editor) == pre.effects.lookup(EffectKind::Editor)
    } else if host::dsl_accepts(s) {
        &&& (post.effects.lookup(EffectKind::Editor) matches Some(e) && e.behavior is Compiled
            && e.elapsed_ms == 0 && e.total_ms is None)
        &&& post.effects.lookup(EffectKind::DslErrorPopup) == Some(
            TimedEffect {
                behavior: EffectBehavior::ClearTick,
                total_ms: Some(0u32),
                elapsed_ms: 0u32,
            },
        )
    } else {
        &&& (host::dsl_error_of(s) matches Some(t) && post.effects.lookup(
            EffectKind::DslErrorPopup,
        ) matches Some(e) && e.behavior matches EffectBehavior::Popup(p) && p.message@ == t.0
            && p.line == t.1 && p.column == t.2 && p.code@ == crate::popup::line_text_spec(
            s,
            t.1 as int,
        ) && e.total_ms == Some(ERROR_POPUP_MS) && e.elapsed_ms == 0)
        &&& post.effects.lookup(EffectKind::Editor) == pre.effects.lookup(EffectKind::Editor)
    }
}

/// What applying one event does, exactly as `apply_event` specifies it — a
/// relation, because a compiled effect's value is opaque: a stopped session
/// changes nothing; control events follow `step_control`; a canvas update
/// loads the rasterized text; a compile request follows `compile_step`.
pub open spec fn event_steps_to(pre: App, ev: AppEvent, post: App) -> bool {
    if !pre.is_running {
        post == pre
    } else {
        match ev {
            AppEvent::UpdateCanvas(s) => {
                &&& host::raster_of(s@) is Some
                &&& canvas::loaded_dims(post.canvas, host::raster_of(s@)->Some_0)
                &&& canvas::raster_width(host::raster_of(s@)->Some_0) <= 0xffff
                    ==> canvas::loaded_from(post.canvas, host::raster_of(s@)->Some_0)
                &&& post.effects == pre.effects
                &&& post.counter == pre.counter
                &&& post.is_running
                &&& post.last_tick_duration == pre.last_tick_duration
            },
            AppEvent::CompileDsl(s) => compile_step(pre, s@, post),
            _ => post == step_control(pre, ev),
        }
    }
}

/// Whether a sequence of events, applied in order, can take `pre` to
/// `post`.
pub open spec fn runs_to(pre: App, evs: Seq<AppEvent>, post: App) -> bool
    decreases evs.len(),
{
    if evs.len() == 0 {
        post == pre
    } else {
        exists|mid: App|
            #[trigger] event_steps_to(pre, evs[0], mid) && runs_to(mid, evs.skip(1), post)
    }
}

/// Whether a drain of the whole queue succeeds: every canvas update that
/// is reached while the session still runs must carry rasterizable text —
/// the one fatal failure.
pub open spec fn drain_ok(pre: App, evs: Seq<AppEvent>) -> bool {
    forall|i: int|
        0 <= i < evs.len() && alive(pre.is_running, evs, i) ==> match #[trigger] evs[i] {
            AppEvent::UpdateCanvas(s) => host::raster_of(s@) is Some,
            _ => true,
        }
}

/// Applying one more event extends a run by one step.
proof fn lemma_runs_to_snoc(pre: App, evs: Seq<AppEvent>, ev: AppEvent, mid: App, post: App)
    requires
        runs_to(pre, evs, mid),
        event_steps_to(mid, ev, post),
    ensures
        runs_to(pre, evs.push(ev), post),
    decreases evs.len(),
{
    if evs.len() == 0 {
        assert(mid == pre);
        assert(evs.push(ev)[0] == ev);
        assert(evs.push(ev).skip(1) =~= Seq::<AppEvent>::empty());
        assert(runs_to(post, Seq::<AppEvent>::empty(), post));
        assert(event_steps_to(pre, evs.push(ev)[0], post) && runs_to(
            post,
            evs.push(ev).skip(1),
            post,
        ));
    } else {
        let m1 = choose|m1: App|
            #[trigger] event_steps_to(pre, evs[0], m1) && runs_to(m1, evs.skip(1), mid);
        lemma_runs_to_snoc(m1, evs.skip(1), ev, mid, post);
        assert(evs.push(ev)[0] == evs[0]);
        assert(evs.push(ev).skip(1) =~= evs.skip(1).push(ev));
        assert(event_steps_to(pre, evs.push(ev)[0], m1) && runs_to(
            m1,
            evs.push(ev).skip(1),
            post,
        ));
    }
}

impl App {
    /// Well-formedness: the canvas store and the effect registry are
    /// well-formed.
    pub open spec fn wf(self) -> bool {
        &&& self.canvas.wf()
        &&& self.effects.wf()
    }

    /// Creates the startup state: a blank twenty-by-ten canvas, no effects,
    /// a zero counter, and a running session.
    pub fn new() -> (app: App)
        ensures
            app.wf(),
            app.is_running,
            app.counter == 0,
            app.last_tick_duration == 0,
            app.effects.entries() == Seq::<(EffectKind, TimedEffect)>::empty(),
            app.canvas.spec_width() == 20,
            app.canvas.spec_height() == 10,
            app.canvas.base_grid() == crate::buffer::empty_grid(20, 10),
            app.canvas.work_grid() == crate::buffer::empty_grid(20, 10),
    {
        App {
            canvas: CanvasStore::new(20, 10),
            effects: EffectManager::new(),
            last_tick_duration: 0,
            counter: 0,
            is_running: true,
        }
    }

    /// Whether the session is still running.
    pub fn is_running(&self) -> (r: bool)
        ensures
            r == self.is_running,
    {
        self.is_running
    }

    /// The demo counter.
    pub fn counter(&self) -> (c: usize)
        ensures
            c == self.counter,
    {
        self.counter
    }

    /// Reallocates both canvas buffers as blank grids of the given
    /// dimensions; nothing else changes.
    pub fn resize_canvas(&mut self, width: u16, height: u16)
        requires
            old(self).wf(),
        ensures
            final(self).wf(),
            final(self).canvas.spec_width() == width,
            final(self).canvas.spec_height() == height,
            final(self).canvas.base_grid() == crate::buffer::empty_grid(
                width as int,
                height as int,
            ),
            final(self).canvas.work_grid() == crate::buffer::empty_grid(
                width as int,
                height as int,
            ),
            final(self).effects == old(self).effects,
            final(self).counter == old(self).counter,
            final(self).is_running == old(self).is_running,
            final(self).last_tick_duration == old(self).last_tick_duration,
    {
        self.canvas.resize(width, height);
    }

    /// Records the measured duration of the last frame; the host reads its
    /// monotonic clock and hands the milliseconds in.
    pub fn set_frame_duration(&mut self, ms: u32)
        ensures
            *final(self) == (App { last_tick_duration: ms, ..*old(self) }),
    {
        self.last_tick_duration = ms;
    }

    /// Registers the error popup for a failed compile, replacing whatever
    /// sat under the reserved popup key.
    fn display_error_popup(&mut self, message: String, code: String, position: (u32, u32))
        requires
            old(self).wf(),
        ensures
            final(self).wf(),
            final(self).canvas == old(self).canvas,
            final(self).counter == old(self).counter,
            final(self).is_running == old(self).is_running,
            final(self).last_tick_duration == old(self).last_tick_duration,
            final(self).effects.lookup(EffectKind::DslErrorPopup) == Some(
                TimedEffect {
                    behavior: EffectBehavior::Popup(
                        ErrorPopup { message, code, line: position.0, column: position.1 },
                    ),
                    total_ms: Some(ERROR_POPUP_MS),
                    elapsed_ms: 0u32,
                },
            ),
            final(self).effects.lookup(EffectKind::Editor) == old(self).effects.lookup(
                EffectKind::Editor,
            ),
    {
        let popup = ErrorPopup { message, code, line: position.0, column: position.1 };
        self.effects.upsert(EffectKind::DslErrorPopup, TimedEffect::popup(popup, ERROR_POPUP_MS));
    }

    /// Applies the outcome of compiling an effect script: a compiled effect
    /// is registered under the main key and the error popup is cleared by an
    /// inert effect in the same frame; a compile error leaves the main key
    /// untouched and raises the error popup.
    pub fn apply_compile_outcome(&mut self, outcome: Result<tachyonfx::Effect, CompileError>)
        requires
            old(self).wf(),
        ensures
            final(self).wf(),
            final(self).canvas == old(self).canvas,
            final(self).counter == old(self).counter,
            final(self).is_running == old(self).is_running,
            final(self).last_tick_duration == old(self).last_tick_duration,
            match outcome {
                Ok(fx) => {
                    &&& final(self).effects.lookup(EffectKind::Editor) == Some(
                        TimedEffect {
                            behavior: EffectBehavior::Compiled(fx),
                            total_ms: None::<u32>,
                            elapsed_ms: 0u32,
                        },
                    )
                    &&& final(self).effects.lookup(EffectKind::DslErrorPopup) == Some(
                        TimedEffect {
                            behavior: EffectBehavior::ClearTick,
                            total_ms: Some(0u32),
                            elapsed_ms: 0u32,
                        },
                    )
                },
                Err(e) => {
                    &&& final(self).effects.lookup(EffectKind::DslErrorPopup) == Some(
                        TimedEffect {
                            behavior: EffectBehavior::Popup(
                                ErrorPopup {
                                    message: e.message,
                                    code: e.offending_line,
                                    line: e.line,
                                    column: e.column,
                                },
                            ),
                            total_ms: Some(ERROR_POPUP_MS),
                            elapsed_ms: 0u32,
                        },
                    )
                    &&& final(self).effects.lookup(EffectKind::Editor) == old(
                        self,
                    ).effects.lookup(EffectKind::Editor)
                },
            },
    {
        match outcome {
            Ok(fx) => {
                self.effects.upsert(EffectKind::Editor, TimedEffect::compiled(fx));
                self.effects.upsert(EffectKind::DslErrorPopup, TimedEffect::clear_tick());
            },
            Err(e) => {
                self.display_error_popup(e.message, e.offending_line, (e.line, e.column));
            },
        }
    }

    /// Applies one event to the state.  A stopped session processes
    /// nothing.  Control events follow `step_control` exactly; a canvas
    /// update replaces both buffers or fails fatally; a compile request
    /// registers the compiled effect or the error popup.
    pub fn apply_event(&mut self, event: AppEvent) -> (r: Result<(), CanvasError>)
        requires
            old(self).wf(),
        ensures
            final(self).wf(),
            r is Ok ==> event_steps_to(*old(self), event, *final(self)),
            !old(self).is_running ==> r is Ok && *final(self) == *old(self),
            is_control(event) ==> r is Ok && *final(self) == step_control(*old(self), event),
            old(self).is_running ==> match event {
                AppEvent::UpdateCanvas(s) => {
                    &&& (r is Ok <==> host::raster_of(s@) is Some)
                    &&& r is Ok ==> canvas::loaded_dims(final(self).canvas, host::raster_of(s@)->Some_0)
                        && final(self).effects == old(self).effects
                        && final(self).counter == old(self).counter
                        && final(self).is_running
                        && final(self).last_tick_duration == old(self).last_tick_duration
                    &&& r is Ok && canvas::raster_width(host::raster_of(s@)->Some_0) <= 0xffff
                        ==> canvas::loaded_from(final(self).canvas, host::raster_of(s@)->Some_0)
                    &&& r is Err ==> *final(self) == *old(self)
                },
                AppEvent::CompileDsl(s) => r is Ok && compile_step(*old(self), s@, *final(self)),
                _ => true,
            },
    {
        if !self.is_running {
            return Ok(());
        }
        match event {
            AppEvent::Tick => Ok(()),
            AppEvent::Resize(_, _) => Ok(()),
            AppEvent::KeyPress(ke) => {
                if matches!(ke.key_code, KeyCode::Esc) {
                    self.is_running = false;
                } else {
                    if self.counter < usize::MAX {
                        self.counter = self.counter + 1;
                    }
                }
                Ok(())
            },
            AppEvent::Quit => {
                self.is_running = false;
                Ok(())
            },
            AppEvent::UpdateCanvas(s) => {
                match self.canvas.load(s.as_str()) {
                    Ok(()) => Ok(()),
                    Err(e) => Err(e),
                }
            },
            AppEvent::CompileDsl(s) => {
                let cs = crate::script::chars_of(s.as_str());
                match crate::script::scan_literals(&cs) {
                    Some(idx) => {
                        // the compiler cannot process this literal: recover
                        // locally with the library's own popup
                        let (line, col) = crate::script::line_col_at(&cs, idx);
                        let code = crate::popup::line_at(s.as_str(), line);
                        self.display_error_popup(
                            "invalid numeric literal".to_owned(),
                            code,
                            (line, col),
                        );
                    },
                    None => {
                        match host::dsl_compile(s.as_str()) {
                            Ok(fx) => {
                                self.apply_compile_outcome(Ok(fx));
                            },
                            Err((message, line, col)) => {
                                let code = crate::popup::line_at(s.as_str(), line);
                                self.apply_compile_outcome(
                                    Err(
                                        CompileError {
                                            message,
                                            offending_line: code,
                                            line,
                                            column: col,
                                        },
                                    ),
                                );
                            },
                        }
                    },
                }
                Ok(())
            },
        }
    }

    /// Drains the queue fully, applying every event in arrival order; every
    /// step is exactly `apply_event`'s.  The drain succeeds — emptying the
    /// queue — exactly when every canvas update reached while the session
    /// still runs carries rasterizable text; a failing update is fatal: the
    /// drain stops there with the state of the events before it, the failing
    /// update applied to nothing, and the events after it still queued.
    /// Over control events the result is exactly `run_controls`.
    #[verifier::loop_isolation(false)]
    pub fn apply_events(&mut self, q: &mut EventQueue) -> (r: Result<(), CanvasError>)
        requires
            old(self).wf(),
        ensures
            final(self).wf(),
            r is Ok <==> drain_ok(*old(self), old(q)@),
            r is Ok ==> final(q)@ == Seq::<AppEvent>::empty() && runs_to(
                *old(self),
                old(q)@,
                *final(self),
            ),
            r is Err ==> exists|i: int|
                0 <= i < old(q)@.len() && #[trigger] alive(old(self).is_running, old(q)@, i) && (
                match old(q)@[i] {
                    AppEvent::UpdateCanvas(s) => host::raster_of(s@) is None,
                    _ => false,
                }) && runs_to(*old(self), old(q)@.take(i), *final(self)) && final(q)@ == old(
                q,
            )@.skip(i + 1),
            (forall|j: int| 0 <= j < old(q)@.len() ==> is_control(#[trigger] old(q)@[j])) ==> r
                is Ok && *final(self) == run_controls(*old(self), old(q)@),
    {
        let ghost evs = old(q)@;
        let ghost pre = *old(self);
        proof {
            assert(evs.take(0) =~= Seq::<AppEvent>::empty());
            assert(run_controls(pre, Seq::<AppEvent>::empty()) == pre);
            assert(runs_to(pre, Seq::<AppEvent>::empty(), pre));
            assert(evs.skip(0) =~= evs);
        }
        loop
            invariant
                self.wf(),
                evs == old(q)@,
                q@ == evs.skip(evs.len() - q@.len()),
                q@.len() <= evs.len(),
                self.is_running == alive(pre.is_running, evs, evs.len() - q@.len()),
                runs_to(pre, evs.take(evs.len() - q@.len()), *self),
                forall|i: int|
                    0 <= i < evs.len() - q@.len() && alive(pre.is_running, evs, i) ==> match #[trigger] evs[i] {
                        AppEvent::UpdateCanvas(s) => host::raster_of(s@) is Some,
                        _ => true,
                    },
                (forall|j: int| 0 <= j < evs.len() ==> is_control(#[trigger] evs[j])) ==> *self
                    == run_controls(pre, evs.take(evs.len() - q@.len())),
            decreases q@.len(),
        {
            let ghost p = evs.len() - q@.len();
            proof {
                if q@.len() > 0 {
                    assert(q@[0] == evs.skip(p)[0]);
                    assert(evs.skip(p)[0] == evs[p]);
                }
            }
            match q.try_next() {
                None => {
                    proof {
                        assert(q@ =~= Seq::<AppEvent>::empty());
                        assert(evs.take(evs.len() as int) =~= evs);
                        if forall|j: int| 0 <= j < old(q)@.len() ==> is_control(
                            #[trigger] old(q)@[j],
                        ) {
                            assert forall|j: int| 0 <= j < evs.len() implies is_control(
                                #[trigger] evs[j],
                            ) by {
                                assert(is_control(old(q)@[j]));
                            }
                            assert(*self == run_controls(pre, evs.take(evs.len() - q@.len())));
                            assert(*self == run_controls(pre, evs));
                            assert(*self == run_controls(*old(self), old(q)@));
                        }
                    }
                    return Ok(());
                },
                Some(ev) => {
                    proof {
                        assert(q@ =~= evs.skip(p + 1));
                        assert(evs.take(p + 1) =~= evs.take(p).push(evs[p]));
                        assert(!stops(evs[p]) ==> alive(pre.is_running, evs, p + 1) == alive(
                            pre.is_running,
                            evs,
                            p,
                        )) by {
                            if !stops(evs[p]) && alive(pre.is_running, evs, p) {
                                assert forall|j: int| 0 <= j < p + 1 implies !stops(
                                    #[trigger] evs[j],
                                ) by {}
                            }
                        }
                        assert(stops(evs[p]) ==> !alive(pre.is_running, evs, p + 1));
                    }
                    let ghost self_pre = *self;
                    match self.apply_event(ev) {
                        Ok(()) => {
                            proof {
                                assert(event_steps_to(self_pre, evs[p], *self));
                                lemma_runs_to_snoc(pre, evs.take(p), evs[p], self_pre, *self);
                                if forall|j: int|
                                    0 <= j < evs.len() ==> is_control(#[trigger] evs[j]) {
                                    assert(is_control(evs[p]));
                                    assert(*self == step_control(self_pre, evs[p]));
                                    lemma_run_controls_snoc(pre, evs.take(p), evs[p]);
                                }
                            }
                        },
                        Err(e) => {
                            proof {
                                assert(self_pre.is_running);
                                assert(alive(pre.is_running, evs, p));
                                assert(evs[p] matches AppEvent::UpdateCanvas(s)
                                    && host::raster_of(s@) is None);
                                assert(*self == self_pre);
                                assert(runs_to(pre, evs.take(p), *self));
                                assert(!drain_ok(pre, evs));
                            }
                            return Err(e);
                        },
                    }
                },
            }
        }
    }

    /// Composes one frame: the work buffer is reset from the base buffer,
    /// then every registered effect is advanced by the last frame's
    /// duration and applied in registry order, and completed effects are
    /// removed.  With nothing visible registered the work buffer ends the
    /// frame identical to the base buffer, whatever the base holds; with no
    /// compiled effect registered it ends as the registry's own drawings
    /// folded, in registry order, over the freshly reset base — the same
    /// state and durations always compose the same frame.
    pub fn compose_frame(&mut self)
        requires
            old(self).wf(),
        ensures
            final(self).wf(),
            final(self).canvas.spec_base() == old(self).canvas.spec_base(),
            final(self).canvas.spec_width() == old(self).canvas.spec_width(),
            final(self).canvas.spec_height() == old(self).canvas.spec_height(),
            final(self).counter == old(self).counter,
            final(self).is_running == old(self).is_running,
            final(self).last_tick_duration == old(self).last_tick_duration,
            forall|k: EffectKind|
                #[trigger] effects::advanced_lookup(
                    old(self).effects.lookup(k),
                    final(self).effects.lookup(k),
                    old(self).last_tick_duration,
                ),
            !effects::has_visible(old(self).effects.entries()) ==> final(self).canvas.work_grid()
                == final(self).canvas.base_grid(),
            !effects::has_compiled(old(self).effects.entries()) ==> final(self).canvas.work_grid()
                == effects::drawn_grid(
                old(self).effects.entries(),
                old(self).canvas.base_grid(),
            ),
    {
        self.canvas.reset_work_from_base();
        let d = self.last_tick_duration;
        let w = self.canvas.work_mut();
        self.effects.advance(d, w);
    }
}

/// Folding one more control event onto a run steps the run's result once.
proof fn lemma_run_controls_snoc(pre: App, evs: Seq<AppEvent>, ev: AppEvent)
    ensures
        run_controls(pre, evs.push(ev)) == step_control(run_controls(pre, evs), ev),
    decreases evs.len(),
{
    if evs.len() == 0 {
        assert(evs.push(ev)[0] == ev);
        assert(evs.push(ev).skip(1) =~= Seq::<AppEvent>::empty());
        assert(run_controls(step_control(pre, ev), Seq::<AppEvent>::empty()) == step_control(
            pre,
            ev,
        ));
        assert(run_controls(pre, evs) == pre);
    } else {
        assert(evs.push(ev)[0] == evs[0]);
        assert(evs.push(ev).skip(1) =~= evs.skip(1).push(ev));
        lemma_run_controls_snoc(step_control(pre, evs[0]), evs.skip(1), ev);
    }
}

} // verus!
