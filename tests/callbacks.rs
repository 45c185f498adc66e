use maplibre_native::{
    camera_did_change_callback, failing_loading_map_callback, finish_rendering_frame_callback,
    void_callback, CameraDidChangeCallback, FailingLoadingMapCallback,
    FinishRenderingFrameCallback, MapLoadError, MapObserverCameraChangeMode, VoidCallback,
};
use std::cell::{Cell, RefCell};

#[test]
fn callbacks_receive_their_arguments() {
    let calls = Cell::new(0);
    let cb = VoidCallback::new(|| calls.set(calls.get() + 1));
    void_callback(&cb);
    void_callback(&cb);
    assert_eq!(calls.get(), 2);

    let flags = Cell::new((false, false));
    let cb = FinishRenderingFrameCallback::new(|a, b| flags.set((a, b)));
    finish_rendering_frame_callback(&cb, true, false);
    assert_eq!(flags.get(), (true, false));

    let seen = RefCell::new(None);
    let cb = FailingLoadingMapCallback::new(|e: MapLoadError, what: &str| {
        *seen.borrow_mut() = Some((e, what.to_string()));
    });
    failing_loading_map_callback(&cb, MapLoadError::NotFoundError, "style.json");
    assert_eq!(*seen.borrow(), Some((MapLoadError::NotFoundError, "style.json".to_string())));

    let mode = Cell::new(None);
    let cb = CameraDidChangeCallback::new(|m| mode.set(Some(m)));
    camera_did_change_callback(&cb, MapObserverCameraChangeMode::Animated);
    assert_eq!(mode.get(), Some(MapObserverCameraChangeMode::Animated));
}
