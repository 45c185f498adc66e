//! Safe, serialised and multi-process access to a non-reentrant map rendering
//! backend: the decisions, bookkeeping and wire format of the render pools,
//! and the helpers of the native library's build.
//!
//! - [`RenderContext`] drives one backend instance: it loads a style only when
//!   it differs from the cached one and keeps at most one backend call
//!   outstanding.
//! - [`encode_request`], [`decode_request`], [`encode_response`] and
//!   [`decode_response`] implement the length-prefixed wire protocol between
//!   a process pool and its workers.
//! - [`RoundRobin`], [`RequestIds`], [`PendingTable`] and [`accept_response`]
//!   are the process pool's dispatch and correlation of responses.

mod bridge;
mod bytes;
mod callbacks;
mod context;
mod deps;
mod dispatch;
mod errors;
mod mode;
mod outcome;
mod pending;
mod picture;
mod release;
mod text;
mod wire;

pub use crate::bridge::{
    Continuous, Event, EventSeverity, Height, MapMode, Size, Static, Tile, Width,
};
pub use crate::bytes::{le32, le64};
pub use crate::callbacks::{
    camera_did_change_callback, failing_loading_map_callback, finish_rendering_frame_callback,
    void_callback, CameraDidChangeCallback, FailingLoadingMapCallback,
    FinishRenderingFrameCallback, MapLoadError, MapObserverCameraChangeMode, VoidCallback,
};
pub use crate::context::{
    after_load, alternating, lemma_alternating_paths_load_each_time,
    lemma_alternating_paths_served, lemma_same_path_loads_once, lemma_same_path_served,
    lemma_served_sequence, needs_load, repeated, served, style_loads, BackendCall, PhaseView, RenderContext, RenderFailure, Step,
    StyleCache,
};
pub use crate::deps::{
    deps_instructions, extension_of, frameworks_named, is_static_lib, parent_of, parse_deps,
    path_joined, search_dir, static_lib_name, stem_of, texts, try_parse_deps, words_of,
};
pub use crate::dispatch::{RequestIds, RoundRobin};
pub use crate::errors::{MultiThreadedRenderPoolError, PoolError, RenderingError};
pub use crate::mode::{process_mode, ProcessMode, WORKER_FLAG};
pub use crate::outcome::{failure_text, failure_text_of, pool_result, worker_response};
pub use crate::pending::{accept_response, Delivery, PendingTable};
pub use crate::picture::{rgba_len, Image, ImageView};
pub use crate::release::{
    checksum_matches, checksum_of, checksum_outcome, last_named, sha256_hex_of, AssetError,
    AssetPath, GithubRelease, ReleaseAsset,
};
pub use crate::text::starts_with;
pub use crate::wire::{
    decode_request, decode_response, encode_request, encode_response, frame, frame_len,
    lemma_request_round_trip, lemma_response_round_trip, response_body, response_tag, text_field, text_fits, RequestView, ResponseView,
    FailureView, WireError, WorkerFailure, WorkerRequest, WorkerResponse, MAX_FRAME_LEN,
};
