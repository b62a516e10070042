//! Client display settings, modeled over plain values: the switches the
//! game reads (vertical sync, fullscreen, ambient occlusion) and the
//! window modes they select. Reading and writing the settings file, and
//! the fractional mouse sensitivity, stay outside the library.

use vstd::prelude::*;

verus! {

/// How frames are presented: in step with the display, or at once.
#[derive(Copy, Clone, PartialEq, Eq, Structural, Debug)]
pub enum PresentModeChoice {
    Fifo,
    Immediate,
}

/// How the window is shown.
#[derive(Copy, Clone, PartialEq, Eq, Structural, Debug)]
pub enum WindowModeChoice {
    BorderlessFullscreen,
    Windowed,
}

/// Whether frames wait for the display.
#[derive(Copy, Clone, PartialEq, Eq, Structural, Debug)]
pub struct VSync(pub bool);

/// Whether the game fills the screen.
#[derive(Copy, Clone, PartialEq, Eq, Structural, Debug)]
pub struct FullScreen(pub bool);

/// Whether block corners are darkened by their neighbours.
#[derive(Copy, Clone, PartialEq, Eq, Structural, Debug)]
pub struct AmbientOcclusion(pub bool);

impl VSync {
    /// The presentation mode the switch selects: in step with the
    /// display when on, immediate when off.
    pub fn as_present_mode(&self) -> (r: PresentModeChoice)
        ensures
            r == (if self.0 {
                PresentModeChoice::Fifo
            } else {
                PresentModeChoice::Immediate
            }),
    {
        match self.0 {
            true => PresentModeChoice::Fifo,
            false => PresentModeChoice::Immediate,
        }
    }
}

impl FullScreen {
    /// The window mode the switch selects: borderless fullscreen when
    /// on, windowed when off.
    pub fn as_mode(&self) -> (r: WindowModeChoice)
        ensures
            r == (if self.0 {
                WindowModeChoice::BorderlessFullscreen
            } else {
                WindowModeChoice::Windowed
            }),
    {
        match self.0 {
            true => WindowModeChoice::BorderlessFullscreen,
            false => WindowModeChoice::Windowed,
        }
    }
}

/// The settings the game model reads: the window extent in pixels and
/// the three switches. The settings file also stores a fractional mouse
/// sensitivity, which only the input layer reads.
#[derive(Copy, Clone, PartialEq, Eq, Structural, Debug)]
pub struct Settings {
    pub width: u32,
    pub height: u32,
    pub vsync: bool,
    pub fullscreen: bool,
    pub ambient_occlusion: bool,
}

impl Default for Settings {
    /// The settings of a fresh install: a 2560 x 1440 window in step
    /// with the display, not fullscreen, corners darkened.
    fn default() -> (r: Self)
        ensures
            r == (Settings {
                width: 2560u32,
                height: 1440u32,
                vsync: true,
                fullscreen: false,
                ambient_occlusion: true,
            }),
    {
        Settings { width: 2560, height: 1440, vsync: true, fullscreen: false, ambient_occlusion: true }
    }
}

} // verus!
