//! Verified core of a terminal-style effects canvas.
//!
//! The library keeps a static base image and composites timed visual effects
//! onto a per-frame working copy, driven by a single ordered stream of
//! application events.  Parsing of styled source text and compilation of
//! effect scripts are delegated to outside crates behind a small set of
//! trusted wrappers; everything else — the double-buffered canvas store, the
//! keyed effect registry, and the frame-loop state machine — is verified.

pub mod app;
pub mod buffer;
pub mod canvas;
pub mod dispatcher;
pub mod effects;
pub mod event;
pub mod gruvbox;
pub mod host;
pub mod popup;
pub mod query;
pub mod script;
pub mod style;
pub mod widgets;

pub use app::App;
pub use buffer::FrameBuffer;
pub use canvas::CanvasStore;
pub use dispatcher::Dispatcher;
pub use dispatcher::EventQueue;
pub use effects::EffectKind;
pub use effects::EffectManager;
pub use event::AppEvent;
pub use event::KeyCode;
pub use event::KeyEvent;
pub use event::ModifierKeys;
pub use gruvbox::Gruvbox;
pub use style::Cell;
pub use style::CellColor;
pub use style::Style;
pub use widgets::Ruler;
