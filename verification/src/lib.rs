//! Verified core of a terminal user interface test library: terminal screen
//! emulation over a VT parser, key and mouse event encoding, graphics region
//! tracking, navigation-mode detection, golden files, IPC message framing and
//! test bookkeeping.

pub mod text;
pub mod error;
pub mod events;
pub mod scan;
pub mod dims;
pub mod vt;
pub mod screen;
pub mod graphics;
pub mod navigation;
pub mod ipc;
pub mod parallel;
pub mod golden;
pub mod harness;
pub mod pty;

pub use error::{Result, TermTestError};
pub use events::{KeyCode, KeyEvent, Modifiers, MouseButton, MouseEvent, ScrollDirection};
pub use golden::{GoldenFile, GoldenMetadata};
pub use graphics::{GraphicsCapture, GraphicsProtocol, GraphicsRegion};
pub use harness::{Axis, MemoryResults, RecordedEvent, TuiTestHarnessBuilder};
pub use navigation::{
    FocusInfo, HintElementType, HintLabel, NavMode, NavigationTestExt, PromptMarker, PromptMarkerType,
};
pub use parallel::{IsolatedTerminal, PoolConfig, PoolStats, TerminalId, TestContext};
pub use screen::{Cell, GridSnapshot, ITerm2Region, KittyRegion, Rect, ScreenState, SixelRegion};

use vstd::prelude::*;

verus! {

/// The screen parser under its older name.
pub type Parser = crate::screen::ScreenState;

} // verus!
