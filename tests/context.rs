use maplibre_native::{
    failure_text, pool_result, worker_response, BackendCall, Image, PoolError, RenderContext,
    RenderFailure, RenderingError, Step, WorkerFailure,
};

/// A stand-in backend that counts its calls and renders 2x2 tiles.
struct CountingBackend {
    loads: usize,
    renders: usize,
    failing_style: Option<String>,
    failing_render: bool,
}

impl CountingBackend {
    fn new() -> Self {
        CountingBackend { loads: 0, renders: 0, failing_style: None, failing_render: false }
    }

    fn serve(&mut self, ctx: &mut RenderContext, path: &str, exists: bool) -> Result<Image, RenderFailure> {
        let mut step = ctx.begin(path.to_string(), 1, 0, 0, exists);
        loop {
            match step {
                Step::Done(outcome) => return outcome,
                Step::Call(BackendCall::LoadStyle(p)) => {
                    self.loads += 1;
                    let outcome = if self.failing_style.as_deref() == Some(p.as_str()) {
                        Err(format!("cannot parse {p}"))
                    } else {
                        Ok(())
                    };
                    step = ctx.style_loaded(outcome);
                }
                Step::Call(BackendCall::RenderTile { .. }) => {
                    self.renders += 1;
                    let outcome = if self.failing_render {
                        Err(RenderingError::InvalidImageData)
                    } else {
                        Ok(Image::new(2, 2, vec![7u8; 16]).unwrap())
                    };
                    return ctx.rendered(outcome);
                }
            }
        }
    }
}

#[test]
fn missing_style_touches_no_backend() {
    let mut ctx = RenderContext::new();
    let mut backend = CountingBackend::new();
    let r = backend.serve(&mut ctx, "missing.json", false);
    assert_eq!(r.err(), Some(RenderFailure::NotFound("missing.json".to_string())));
    assert_eq!((backend.loads, backend.renders), (0, 0));
    assert!(ctx.is_idle());
}

#[test]
fn same_path_loads_once() {
    let mut ctx = RenderContext::new();
    let mut backend = CountingBackend::new();
    for _ in 0..10 {
        assert!(backend.serve(&mut ctx, "valid.json", true).is_ok());
    }
    assert_eq!(backend.loads, 1);
    assert_eq!(backend.renders, 10);
}

#[test]
fn alternating_paths_load_every_time() {
    let mut ctx = RenderContext::new();
    let mut backend = CountingBackend::new();
    for i in 0..7 {
        let path = if i % 2 == 0 { "a.json" } else { "b.json" };
        assert!(backend.serve(&mut ctx, path, true).is_ok());
    }
    assert_eq!(backend.loads, 7);
}

#[test]
fn failed_load_is_not_cached() {
    let mut ctx = RenderContext::new();
    let mut backend = CountingBackend::new();
    backend.failing_style = Some("broken.json".to_string());
    for _ in 0..3 {
        let r = backend.serve(&mut ctx, "broken.json", true);
        assert_eq!(r.err(), Some(RenderFailure::LoadFailed("cannot parse broken.json".to_string())));
    }
    assert_eq!(backend.loads, 3);
    assert_eq!(backend.renders, 0);
}

#[test]
fn context_usable_after_not_found() {
    let mut ctx = RenderContext::new();
    let mut backend = CountingBackend::new();
    assert!(backend.serve(&mut ctx, "missing.json", false).is_err());
    let img = backend.serve(&mut ctx, "valid.json", true).unwrap();
    assert_eq!(img.as_raw().len(), 16);
}

#[test]
fn render_failure_is_reported() {
    let mut ctx = RenderContext::new();
    let mut backend = CountingBackend::new();
    backend.failing_render = true;
    let r = backend.serve(&mut ctx, "valid.json", true);
    assert_eq!(r.err(), Some(RenderFailure::RenderFailed(RenderingError::InvalidImageData)));
    backend.failing_render = false;
    assert!(backend.serve(&mut ctx, "valid.json", true).is_ok());
    assert_eq!(backend.loads, 1);
}

#[test]
fn pool_errors_by_failure() {
    assert_eq!(
        pool_result(Err(RenderFailure::NotFound("missing.json".to_string()))).err(),
        Some(PoolError::NotFound("missing.json".to_string()))
    );
    assert_eq!(
        pool_result(Err(RenderFailure::LoadFailed("bad".to_string()))).err(),
        Some(PoolError::BackendError("bad".to_string()))
    );
    assert_eq!(
        pool_result(Err(RenderFailure::RenderFailed(RenderingError::StyleNotSpecified))).err(),
        Some(PoolError::RenderingError(RenderingError::StyleNotSpecified))
    );
}

#[test]
fn failure_texts() {
    assert_eq!(
        failure_text(&RenderFailure::NotFound("x.json".to_string())),
        "Failed to load style: Path x.json is not a file"
    );
    assert_eq!(failure_text(&RenderFailure::LoadFailed("oops".to_string())), "Failed to load style: oops");
    assert_eq!(
        failure_text(&RenderFailure::RenderFailed(RenderingError::InvalidImageData)),
        "Rendering error: Invalid image data received from renderer"
    );
    let resp = worker_response(5, Err(RenderFailure::LoadFailed("oops".to_string())));
    assert_eq!(resp.id, 5);
    assert_eq!(resp.result.err(), Some(WorkerFailure::Failed("Failed to load style: oops".to_string())));
    let resp = worker_response(6, Err(RenderFailure::NotFound("missing.json".to_string())));
    assert_eq!(resp.result.err(), Some(WorkerFailure::NotFound("missing.json".to_string())));
}
