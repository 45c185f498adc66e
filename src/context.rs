//! One rendering context: a backend instance with its style cache, driven as a
//! state machine. The owner of the backend asks the context what to do next,
//! performs the backend call, and hands the outcome back.

use crate::errors::RenderingError;
use crate::picture::Image;
use vstd::prelude::*;

verus! {

/// Whether a context whose cache holds `cached` must load `path`.
pub open spec fn needs_load(cached: Option<Seq<char>>, path: Seq<char>) -> bool {
    cached != Some(path)
}

/// The cache after a load of `path` that `succeeded` or not: only a successful
/// load replaces it.
pub open spec fn after_load(cached: Option<Seq<char>>, path: Seq<char>, succeeded: bool) -> Option<
    Seq<char>,
> {
    if succeeded {
        Some(path)
    } else {
        cached
    }
}

/// Style loads issued for `paths` in turn, from a cache holding `cached`, when
/// every path exists and every load succeeds.
pub open spec fn style_loads(cached: Option<Seq<char>>, paths: Seq<Seq<char>>) -> nat
    decreases paths.len(),
{
    if paths.len() == 0 {
        0
    } else {
        (if needs_load(cached, paths[0]) {
            1nat
        } else {
            0nat
        }) + style_loads(Some(paths[0]), paths.drop_first())
    }
}

/// The most recently loaded style path of one context.
pub struct StyleCache {
    current: Option<String>,
}

impl View for StyleCache {
    type V = Option<Seq<char>>;

    closed spec fn view(&self) -> Option<Seq<char>> {
        match self.current {
            Some(p) => Some(p@),
            None => None,
        }
    }
}

impl StyleCache {
    /// An empty cache: the first request loads its style.
    pub fn new() -> (r: StyleCache)
        ensures
            r@ is None,
    {
        StyleCache { current: None }
    }

    /// Whether `path` differs from the cached path, and so must be loaded.
    pub fn needs_load(&self, path: &String) -> (r: bool)
        ensures
            r == needs_load(self@, path@),
    {
        match &self.current {
            Some(p) => !p.eq(path),
            None => true,
        }
    }

    /// Records the outcome of a load of `path`.
    pub fn record(&mut self, path: String, succeeded: bool)
        ensures
            final(self)@ == after_load(old(self)@, path@, succeeded),
    {
        if succeeded {
            self.current = Some(path);
        }
    }
}

/// Why a request produced no image.
#[derive(Debug, Clone, PartialEq, Eq)]
pub enum RenderFailure {
    /// The style path is not an existing regular file.
    NotFound(String),
    /// The backend could not load the style; its diagnostic text.
    LoadFailed(String),
    /// The backend could not render the tile.
    RenderFailed(RenderingError),
}

/// A call that the owner of the backend must perform.
#[derive(Debug, Clone, PartialEq, Eq)]
pub enum BackendCall {
    /// Load the style at this path.
    LoadStyle(String),
    /// Render this tile with the loaded style.
    RenderTile { z: u8, x: u32, y: u32 },
}

/// What a context asks for next.
#[derive(Debug)]
pub enum Step {
    /// Perform this backend call and report its outcome.
    Call(BackendCall),
    /// The request is finished with this outcome.
    Done(Result<Image, RenderFailure>),
}

/// Where a context stands in the processing of one request.
pub enum PhaseView {
    /// No request in hand; no backend call outstanding.
    Idle,
    /// A style load is outstanding for a request on this tile.
    Loading { path: Seq<char>, z: u8, x: u32, y: u32 },
    /// A tile render is outstanding.
    Rendering,
}

enum Phase {
    Idle,
    Loading { path: String, z: u8, x: u32, y: u32 },
    Rendering,
}

/// A backend's companion state: its style cache and the request in progress.
/// At most one backend call is outstanding at any time.
pub struct RenderContext {
    cache: StyleCache,
    phase: Phase,
    /// Style loads issued so far.
    loads: Ghost<nat>,
    /// Tile renders issued so far.
    renders: Ghost<nat>,
}

impl RenderContext {
    /// The number of style loads this context has asked for.
    pub closed spec fn load_count(&self) -> nat {
        self.loads@
    }

    /// The number of tile renders this context has asked for.
    pub closed spec fn render_count(&self) -> nat {
        self.renders@
    }

    /// The path of the most recently loaded style.
    pub closed spec fn cached(&self) -> Option<Seq<char>> {
        self.cache@
    }

    /// The request in progress.
    pub closed spec fn phase(&self) -> PhaseView {
        match self.phase {
            Phase::Idle => PhaseView::Idle,
            Phase::Loading { path, z, x, y } => PhaseView::Loading { path: path@, z, x, y },
            Phase::Rendering => PhaseView::Rendering,
        }
    }

    /// A fresh context: idle, nothing loaded.
    pub fn new() -> (r: RenderContext)
        ensures
            r.cached() is None,
            r.phase() is Idle,
            r.load_count() == 0,
            r.render_count() == 0,
    {
        RenderContext {
            cache: StyleCache::new(),
            phase: Phase::Idle,
            loads: Ghost(0),
            renders: Ghost(0),
        }
    }

    /// Whether a request can be started.
    pub fn is_idle(&self) -> (r: bool)
        ensures
            r == self.phase() is Idle,
    {
        match self.phase {
            Phase::Idle => true,
            _ => false,
        }
    }

    /// Starts a request for tile `(z, x, y)` with the style at `style_path`;
    /// `style_is_file` tells whether that path is an existing regular file.
    /// A missing style finishes the request at once with `NotFound`, without a
    /// backend call and without changing the context. Otherwise the style is
    /// loaded first where it differs from the cached one.
    pub fn begin(&mut self, style_path: String, z: u8, x: u32, y: u32, style_is_file: bool) -> (r:
        Step)
        requires
            old(self).phase() is Idle,
        ensures
            final(self).cached() == old(self).cached(),
            !style_is_file ==> {
                &&& r matches Step::Done(Err(RenderFailure::NotFound(p))) && p@ == style_path@
                &&& final(self).phase() is Idle
                &&& final(self).load_count() == old(self).load_count()
                &&& final(self).render_count() == old(self).render_count()
            },
            style_is_file && needs_load(old(self).cached(), style_path@) ==> {
                &&& r matches Step::Call(BackendCall::LoadStyle(p)) && p@ == style_path@
                &&& final(self).phase() == (PhaseView::Loading { path: style_path@, z, x, y })
                &&& final(self).load_count() == old(self).load_count() + 1
                &&& final(self).render_count() == old(self).render_count()
            },
            style_is_file && !needs_load(old(self).cached(), style_path@) ==> {
                &&& r matches Step::Call(BackendCall::RenderTile { z: rz, x: rx, y: ry }) && rz == z
                    && rx == x && ry == y
                &&& final(self).phase() is Rendering
                &&& final(self).load_count() == old(self).load_count()
                &&& final(self).render_count() == old(self).render_count() + 1
            },
    {
        if !style_is_file {
            return Step::Done(Err(RenderFailure::NotFound(style_path)));
        }
        if self.cache.needs_load(&style_path) {
            let call = BackendCall::LoadStyle(style_path.clone());
            self.phase = Phase::Loading { path: style_path, z, x, y };
            self.loads = Ghost(self.loads@ + 1);
            Step::Call(call)
        } else {
            self.phase = Phase::Rendering;
            self.renders = Ghost(self.renders@ + 1);
            Step::Call(BackendCall::RenderTile { z, x, y })
        }
    }

    /// Takes the outcome of the outstanding style load. On success the cache
    /// holds the path and the tile is rendered next; on failure the request
    /// finishes with the backend's text and the cache is left as it was.
    pub fn style_loaded(&mut self, outcome: Result<(), String>) -> (r: Step)
        requires
            old(self).phase() is Loading,
        ensures
            ({
                let path = old(self).phase()->Loading_path;
                let z = old(self).phase()->Loading_z;
                let x = old(self).phase()->Loading_x;
                let y = old(self).phase()->Loading_y;
                &&& final(self).cached() == after_load(old(self).cached(), path, outcome is Ok)
                &&& outcome is Ok ==> {
                    &&& r matches Step::Call(BackendCall::RenderTile { z: rz, x: rx, y: ry })
                        && rz == z && rx == x && ry == y
                    &&& final(self).phase() is Rendering
                    &&& final(self).render_count() == old(self).render_count() + 1
                }
                &&& final(self).load_count() == old(self).load_count()
                &&& outcome is Err ==> final(self).render_count() == old(self).render_count()
                &&& outcome matches Err(m) ==> {
                    &&& r matches Step::Done(Err(RenderFailure::LoadFailed(t))) && t@ == m@
                    &&& final(self).phase() is Idle
                }
            }),
    {
        let (path, z, x, y) = match &self.phase {
            Phase::Loading { path, z, x, y } => (path.clone(), *z, *x, *y),
            _ => {
                assert(false);
                (String::new(), 0u8, 0u32, 0u32)
            },
        };
        match outcome {
            Ok(()) => {
                self.cache.record(path, true);
                self.phase = Phase::Rendering;
                self.renders = Ghost(self.renders@ + 1);
                Step::Call(BackendCall::RenderTile { z, x, y })
            },
            Err(m) => {
                self.phase = Phase::Idle;
                Step::Done(Err(RenderFailure::LoadFailed(m)))
            },
        }
    }

    /// Takes the outcome of the outstanding render, which finishes the request.
    pub fn rendered(&mut self, outcome: Result<Image, RenderingError>) -> (r: Result<
        Image,
        RenderFailure,
    >)
        requires
            old(self).phase() is Rendering,
        ensures
            final(self).cached() == old(self).cached(),
            final(self).phase() is Idle,
            final(self).load_count() == old(self).load_count(),
            final(self).render_count() == old(self).render_count(),
            outcome matches Ok(img) ==> r matches Ok(i) && i@ == img@,
            outcome matches Err(e) ==> r matches Err(RenderFailure::RenderFailed(f)) && f == e,
    {
        self.phase = Phase::Idle;
        match outcome {
            Ok(img) => Ok(img),
            Err(e) => Err(RenderFailure::RenderFailed(e)),
        }
    }
}

/// `n` copies of `path`.
pub open spec fn repeated(path: Seq<char>, n: nat) -> Seq<Seq<char>> {
    Seq::new(n, |i: int| path)
}

/// `m` paths alternating between `a` and `b`, starting with `a`.
pub open spec fn alternating(a: Seq<char>, b: Seq<char>, m: nat) -> Seq<Seq<char>> {
    Seq::new(m, |i: int| if i % 2 == 0 { a } else { b })
}

/// Issuing the same path `n >= 1` times in a row to a context whose cache does
/// not hold it triggers exactly one style load; where the cache holds it
/// already, none.
pub proof fn lemma_same_path_loads_once(cached: Option<Seq<char>>, path: Seq<char>, n: nat)
    requires
        n >= 1,
    ensures
        style_loads(cached, repeated(path, n)) == (if needs_load(cached, path) {
            1nat
        } else {
            0nat
        }),
    decreases n,
{
    let s = repeated(path, n);
    assert(s[0] == path);
    assert(s.drop_first() == repeated(path, (n - 1) as nat));
    if n > 1 {
        lemma_same_path_loads_once(Some(path), path, (n - 1) as nat);
    } else {
        assert(style_loads(Some(path), s.drop_first()) == 0);
    }
}

/// Alternating between two different paths `m` times, starting from a cache
/// that does not hold the first one, triggers `m` style loads: the cache holds
/// only the last path.
pub proof fn lemma_alternating_paths_load_each_time(
    cached: Option<Seq<char>>,
    a: Seq<char>,
    b: Seq<char>,
    m: nat,
)
    requires
        a != b,
        needs_load(cached, a),
    ensures
        style_loads(cached, alternating(a, b, m)) == m,
    decreases m,
{
    let s = alternating(a, b, m);
    if m > 0 {
        assert(s.drop_first() == alternating(b, a, (m - 1) as nat)) by {
            assert forall|i: int| 0 <= i < m - 1 implies s.drop_first()[i] == alternating(
                b,
                a,
                (m - 1) as nat,
            )[i] by {
                assert((i + 1) % 2 == 0 <==> i % 2 != 0);
            }
        }
        lemma_alternating_paths_load_each_time(Some(a), b, a, (m - 1) as nat);
    }
}

/// Context `b` is context `a` after one request for the existing style
/// `path` that succeeded: a style load was issued exactly where the cache of
/// `a` did not hold `path`, one tile render was issued, and the cache now holds
/// `path`. The contracts of [`RenderContext::begin`],
/// [`RenderContext::style_loaded`] and [`RenderContext::rendered`] give this
/// relation for every request whose load (if any) and render succeed.
pub open spec fn served(a: RenderContext, b: RenderContext, path: Seq<char>) -> bool {
    &&& a.phase() is Idle
    &&& b.phase() is Idle
    &&& b.cached() == Some(path)
    &&& b.load_count() == a.load_count() + (if needs_load(a.cached(), path) {
        1nat
    } else {
        0nat
    })
    &&& b.render_count() == a.render_count() + 1
}

/// Over requests served one after another, `ctxs[i + 1]` being `ctxs[i]` after
/// a successful request for `paths[i]`, the context issues exactly
/// `style_loads` style loads and one render per request, and its cache holds
/// the last path.
pub proof fn lemma_served_sequence(ctxs: Seq<RenderContext>, paths: Seq<Seq<char>>)
    requires
        ctxs.len() == paths.len() + 1,
        forall|i: int| 0 <= i < paths.len() ==> served(#[trigger] ctxs[i], ctxs[i + 1], paths[i]),
    ensures
        ctxs.last().load_count() == ctxs[0].load_count() + style_loads(ctxs[0].cached(), paths),
        ctxs.last().render_count() == ctxs[0].render_count() + paths.len(),
        paths.len() > 0 ==> ctxs.last().cached() == Some(paths.last()),
    decreases paths.len(),
{
    if paths.len() > 0 {
        let rest = ctxs.drop_first();
        let rest_paths = paths.drop_first();
        assert(served(ctxs[0], ctxs[1], paths[0]));
        assert forall|i: int| 0 <= i < rest_paths.len() implies served(
            #[trigger] rest[i],
            rest[i + 1],
            rest_paths[i],
        ) by {
            assert(served(ctxs[i + 1], ctxs[i + 2], paths[i + 1]));
        }
        lemma_served_sequence(rest, rest_paths);
        assert(rest[0] == ctxs[1]);
        assert(rest.last() == ctxs.last());
        if rest_paths.len() > 0 {
            assert(rest_paths.last() == paths.last());
        }
    }
}

/// The same existing path served `n >= 1` times in a row by one context
/// triggers exactly one style load where the cache did not hold it, none
/// where it did, and `n` renders.
pub proof fn lemma_same_path_served(ctxs: Seq<RenderContext>, path: Seq<char>, n: nat)
    requires
        n >= 1,
        ctxs.len() == n + 1,
        forall|i: int| 0 <= i < n ==> served(#[trigger] ctxs[i], ctxs[i + 1], path),
    ensures
        ctxs.last().load_count() == ctxs[0].load_count() + (if needs_load(ctxs[0].cached(), path) {
            1nat
        } else {
            0nat
        }),
        ctxs.last().render_count() == ctxs[0].render_count() + n,
        ctxs.last().cached() == Some(path),
{
    let paths = repeated(path, n);
    assert forall|i: int| 0 <= i < paths.len() implies served(
        #[trigger] ctxs[i],
        ctxs[i + 1],
        paths[i],
    ) by {
        assert(served(ctxs[i], ctxs[i + 1], path));
    }
    lemma_served_sequence(ctxs, paths);
    lemma_same_path_loads_once(ctxs[0].cached(), path, n);
}

/// Two different existing paths served alternately `m` times by one context,
/// starting where the cache does not hold the first, trigger `m` style loads:
/// the cache holds only the last path.
pub proof fn lemma_alternating_paths_served(
    ctxs: Seq<RenderContext>,
    a: Seq<char>,
    b: Seq<char>,
    m: nat,
)
    requires
        a != b,
        needs_load(ctxs[0].cached(), a),
        ctxs.len() == m + 1,
        forall|i: int|
            0 <= i < m ==> served(
                #[trigger] ctxs[i],
                ctxs[i + 1],
                if i % 2 == 0 {
                    a
                } else {
                    b
                },
            ),
    ensures
        ctxs.last().load_count() == ctxs[0].load_count() + m,
        ctxs.last().render_count() == ctxs[0].render_count() + m,
        m > 0 ==> ctxs.last().cached() == Some(
            if (m - 1) % 2 == 0 {
                a
            } else {
                b
            },
        ),
{
    let paths = alternating(a, b, m);
    assert forall|i: int| 0 <= i < paths.len() implies served(
        #[trigger] ctxs[i],
        ctxs[i + 1],
        paths[i],
    ) by {
        assert(served(ctxs[i], ctxs[i + 1], if i % 2 == 0 { a } else { b }));
    }
    lemma_served_sequence(ctxs, paths);
    lemma_alternating_paths_load_each_time(ctxs[0].cached(), a, b, m);
}

} // verus!
