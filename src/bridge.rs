//! Plain values exchanged with the rendering backend.

use vstd::prelude::*;

verus! {

/// A width value, in pixels.
#[derive(Debug, Clone, Copy, PartialEq, Eq, Structural)]
pub struct Width(pub u32);

/// A height value, in pixels.
#[derive(Debug, Clone, Copy, PartialEq, Eq, Structural)]
pub struct Height(pub u32);

/// A size in pixels.
#[derive(Debug, Clone, Copy, PartialEq, Eq, Structural)]
pub struct Size {
    width: u32,
    height: u32,
}

impl Size {
    /// A size of `width` x `height`.
    pub fn new(width: Width, height: Height) -> (r: Size)
        ensures
            r.spec_width() == width.0,
            r.spec_height() == height.0,
    {
        Size { width: width.0, height: height.0 }
    }

    /// The width.
    pub closed spec fn spec_width(&self) -> u32 {
        self.width
    }

    /// The height.
    pub closed spec fn spec_height(&self) -> u32 {
        self.height
    }

    /// The width.
    pub fn width(&self) -> (r: u32)
        ensures
            r == self.spec_width(),
    {
        self.width
    }

    /// The height.
    pub fn height(&self) -> (r: u32)
        ensures
            r == self.spec_height(),
    {
        self.height
    }
}

/// Severity of an event that the backend reports.
#[derive(Debug, Clone, Copy, PartialEq, Eq, Structural, Hash)]
pub enum EventSeverity {
    Debug,
    Info,
    Warning,
    Error,
}

impl EventSeverity {
    /// The severity that the backend reports as `code`, if it is one.
    pub fn from_code(code: u8) -> (r: Option<EventSeverity>)
        ensures
            r is Some <==> code < 4,
            r matches Some(s) ==> s.spec_code() == code,
    {
        match code {
            0 => Some(EventSeverity::Debug),
            1 => Some(EventSeverity::Info),
            2 => Some(EventSeverity::Warning),
            3 => Some(EventSeverity::Error),
            _ => None,
        }
    }

    /// The backend's code for this severity.
    pub open spec fn spec_code(&self) -> u8 {
        match self {
            EventSeverity::Debug => 0,
            EventSeverity::Info => 1,
            EventSeverity::Warning => 2,
            EventSeverity::Error => 3,
        }
    }
}

/// Kind of an event that the backend reports.
#[derive(Debug, Clone, Copy, PartialEq, Eq, Structural, Hash)]
pub enum Event {
    General,
    Setup,
    Shader,
    ParseStyle,
    ParseTile,
    Render,
    Style,
    Database,
    HttpRequest,
    Sprite,
    Image,
    OpenGL,
    JNI,
    Android,
    Crash,
    Glyph,
    Timing,
}

/// How the backend renders.
#[derive(Debug, Clone, Copy, PartialEq, Eq, Structural)]
pub enum MapMode {
    /// Continually updating map.
    Continuous,
    /// Once-off still image of an arbitrary viewport.
    Static,
    /// Once-off still image of a single tile.
    Tile,
}

/// Marker of a renderer of still images of arbitrary viewports.
#[derive(Debug)]
pub struct Static;

/// Marker of a renderer of single tiles.
#[derive(Debug)]
pub struct Tile;

/// Marker of a continuously updating renderer.
#[derive(Debug)]
pub struct Continuous;

} // verus!
