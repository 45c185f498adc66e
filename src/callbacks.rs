//! Observer callbacks that the backend invokes: each holds the user's closure
//! and calls it with the arguments that the backend reports.

use vstd::prelude::*;

verus! {

/// Why the backend failed to load a map.
#[derive(Debug, Clone, Copy, PartialEq, Eq, Structural)]
pub enum MapLoadError {
    StyleParseError,
    StyleLoadError,
    NotFoundError,
    UnknownError,
}

/// How the camera moved.
#[derive(Debug, Clone, Copy, PartialEq, Eq, Structural)]
pub enum MapObserverCameraChangeMode {
    Immediate,
    Animated,
}

/// A callback without arguments.
pub struct VoidCallback<F: Fn()>(pub F);

impl<F: Fn()> VoidCallback<F> {
    /// Wraps `callback`.
    pub fn new(callback: F) -> (r: VoidCallback<F>)
        ensures
            r.0 == callback,
    {
        VoidCallback(callback)
    }
}

/// Invokes the closure held by `callback`.
pub fn void_callback<F: Fn()>(callback: &VoidCallback<F>)
    requires
        call_requires(callback.0, ()),
    ensures
        call_ensures(callback.0, (), ()),
{
    (callback.0)();
}

/// A callback told, after each frame, whether a repaint is needed and whether
/// symbol placement changed.
pub struct FinishRenderingFrameCallback<F: Fn(bool, bool)>(pub F);

impl<F: Fn(bool, bool)> FinishRenderingFrameCallback<F> {
    /// Wraps `callback`.
    pub fn new(callback: F) -> (r: FinishRenderingFrameCallback<F>)
        ensures
            r.0 == callback,
    {
        FinishRenderingFrameCallback(callback)
    }
}

/// Invokes the closure held by `callback` with the frame's flags.
pub fn finish_rendering_frame_callback<F: Fn(bool, bool)>(
    callback: &FinishRenderingFrameCallback<F>,
    needs_repaint: bool,
    placement_changed: bool,
)
    requires
        call_requires(callback.0, (needs_repaint, placement_changed)),
    ensures
        call_ensures(callback.0, (needs_repaint, placement_changed), ()),
{
    (callback.0)(needs_repaint, placement_changed);
}

/// A callback told why loading the map failed, with the backend's text.
pub struct FailingLoadingMapCallback<F: Fn(MapLoadError, &str)>(pub F);

impl<F: Fn(MapLoadError, &str)> FailingLoadingMapCallback<F> {
    /// Wraps `callback`.
    pub fn new(callback: F) -> (r: FailingLoadingMapCallback<F>)
        ensures
            r.0 == callback,
    {
        FailingLoadingMapCallback(callback)
    }
}

/// Invokes the closure held by `callback` with the error and its text.
pub fn failing_loading_map_callback<F: Fn(MapLoadError, &str)>(
    callback: &FailingLoadingMapCallback<F>,
    error: MapLoadError,
    what: &str,
)
    requires
        call_requires(callback.0, (error, what)),
    ensures
        call_ensures(callback.0, (error, what), ()),
{
    (callback.0)(error, what);
}

/// A callback told how the camera changed.
pub struct CameraDidChangeCallback<F: Fn(MapObserverCameraChangeMode)>(pub F);

impl<F: Fn(MapObserverCameraChangeMode)> CameraDidChangeCallback<F> {
    /// Wraps `callback`.
    pub fn new(callback: F) -> (r: CameraDidChangeCallback<F>)
        ensures
            r.0 == callback,
    {
        CameraDidChangeCallback(callback)
    }
}

/// Invokes the closure held by `callback` with the change's mode.
pub fn camera_did_change_callback<F: Fn(MapObserverCameraChangeMode)>(
    callback: &CameraDidChangeCallback<F>,
    mode: MapObserverCameraChangeMode,
)
    requires
        call_requires(callback.0, (mode,)),
    ensures
        call_ensures(callback.0, (mode,), ()),
{
    (callback.0)(mode);
}

} // verus!
