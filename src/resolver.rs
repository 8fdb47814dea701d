use vstd::prelude::*;

use crate::identity::{
    owner_spec, resolve_owner, shared_marker, Capability, Identity, OwnerResolution,
    ResolveError,
};
use crate::segments::{has_parent_ref, segments_of, PathSegments};

verus! {

/// The legacy trailing segment that addresses an overlay root's top-level resource.
pub open spec fn map_marker() -> Seq<char> {
    "map"@
}

/// What the file system holds at a physical location.
#[derive(Clone, Copy, Debug, PartialEq, Eq, Structural)]
pub enum PhysicalKind {
    Missing,
    File,
    Directory,
}

/// A physical location: a path inside the storage tree of account `owner`.
#[derive(Debug)]
pub struct Location {
    pub owner: i64,
    pub path: PathSegments,
}

impl View for Location {
    type V = (i64, Seq<Seq<char>>);

    open spec fn view(&self) -> (i64, Seq<Seq<char>>) {
        (self.owner, self.path@)
    }
}

/// What a resolved path is, with the physical locations needed to serve it.
#[derive(Debug)]
pub enum ResolvedTarget {
    RegularFile { location: Location },
    RegularDirectory { location: Location },
    /// The path is itself an overlay root: its index resource is served.
    OverlayRoot { root: Location },
    /// The path lies strictly inside an overlay root.
    OverlayResource { root: Location, relative: PathSegments },
    /// The caller's own `Shared` listing, made from grant tables rather than from disk.
    SharedRoot,
}

/// The mathematical value of a `ResolvedTarget`.
pub enum TargetView {
    RegularFile((i64, Seq<Seq<char>>)),
    RegularDirectory((i64, Seq<Seq<char>>)),
    OverlayRoot((i64, Seq<Seq<char>>)),
    OverlayResource((i64, Seq<Seq<char>>), Seq<Seq<char>>),
    SharedRoot,
}

impl View for ResolvedTarget {
    type V = TargetView;

    open spec fn view(&self) -> TargetView {
        match self {
            ResolvedTarget::RegularFile { location } => TargetView::RegularFile(location@),
            ResolvedTarget::RegularDirectory { location } => TargetView::RegularDirectory(
                location@,
            ),
            ResolvedTarget::OverlayRoot { root } => TargetView::OverlayRoot(root@),
            ResolvedTarget::OverlayResource { root, relative } => TargetView::OverlayResource(
                root@,
                relative@,
            ),
            ResolvedTarget::SharedRoot => TargetView::SharedRoot,
        }
    }
}

pub open spec fn target_result_view(r: Result<ResolvedTarget, ResolveError>) -> Result<
    TargetView,
    ResolveError,
> {
    match r {
        Ok(t) => Ok(t@),
        Err(e) => Err(e),
    }
}

/// Whether the probe of the ancestor with `k` segments reported an overlay root. A probe that was
/// not made counts as no overlay.
pub open spec fn probe(overlay: Seq<bool>, k: int) -> bool {
    0 <= k < overlay.len() && overlay[k]
}

/// The length of the longest ancestor shorter than `n` segments whose probe reported an overlay
/// root: the nearest enclosing one.
pub open spec fn nearest_overlay_below(overlay: Seq<bool>, n: int) -> Option<int>
    decreases n,
{
    if n <= 0 {
        None
    } else if probe(overlay, n - 1) {
        Some(n - 1)
    } else {
        nearest_overlay_below(overlay, n - 1)
    }
}

/// Classifies the path `rem` inside the tree of `owner`. `overlay[k]` is the overlay probe of the
/// ancestor with `k` segments; `kind` is what the file system holds at `rem` itself.
pub open spec fn classify_spec(
    owner: i64,
    rem: Seq<Seq<char>>,
    delegated: bool,
    overlay: Seq<bool>,
    kind: PhysicalKind,
    map_alias: bool,
) -> Result<TargetView, ResolveError> {
    let n = rem.len() as int;
    if probe(overlay, n) {
        Ok(TargetView::OverlayRoot((owner, rem)))
    } else if map_alias && n >= 1 && rem[n - 1] == map_marker() && probe(overlay, n - 1) {
        Ok(TargetView::OverlayRoot((owner, rem.take(n - 1))))
    } else {
        match nearest_overlay_below(overlay, n) {
            Some(k) => Ok(TargetView::OverlayResource((owner, rem.take(k)), rem.skip(k))),
            None => {
                if !delegated && rem == seq![shared_marker()] {
                    Ok(TargetView::SharedRoot)
                } else {
                    match kind {
                        PhysicalKind::Missing => Err(ResolveError::NotFound),
                        PhysicalKind::File => Ok(TargetView::RegularFile((owner, rem))),
                        PhysicalKind::Directory => Ok(TargetView::RegularDirectory((owner, rem))),
                    }
                }
            },
        }
    }
}

/// The whole resolution of the raw path `raw` for `caller`.
pub open spec fn resolve_spec(
    caller: Identity,
    raw: Seq<char>,
    found: Option<Identity>,
    cap: Capability,
    overlay: Seq<bool>,
    kind: PhysicalKind,
    map_alias: bool,
) -> Result<TargetView, ResolveError> {
    if has_parent_ref(raw) {
        Err(ResolveError::TraversalRejected)
    } else {
        match owner_spec(caller, segments_of(raw), found, cap) {
            Err(e) => Err(e),
            Ok((owner, rem, delegated)) => classify_spec(
                owner,
                rem,
                delegated,
                overlay,
                kind,
                map_alias,
            ),
        }
    }
}

fn probe_at(overlay: &Vec<bool>, k: usize) -> (r: bool)
    ensures
        r == probe(overlay@, k as int),
{
    k < overlay.len() && overlay[k]
}

/// The nearest enclosing overlay root strictly above a path of `n` segments.
pub fn nearest_overlay(overlay: &Vec<bool>, n: usize) -> (r: Option<usize>)
    ensures
        match r {
            Some(k) => k < n && nearest_overlay_below(overlay@, n as int) == Some(k as int),
            None => nearest_overlay_below(overlay@, n as int) is None,
        },
{
    let mut k: usize = n;
    while k > 0
        invariant
            k <= n,
            nearest_overlay_below(overlay@, n as int) == nearest_overlay_below(overlay@, k as int),
        decreases k,
    {
        if probe_at(overlay, k - 1) {
            return Some(k - 1);
        }
        k = k - 1;
    }
    None
}

/// The physical locations to probe for an overlay root, in the order `classify` reads the probes:
/// entry `k` is the ancestor of the resolved path with `k` segments, the tree root first and the
/// path itself last.
pub fn probe_locations(res: &OwnerResolution) -> (r: Vec<Location>)
    requires
        res.remaining.wf(),
    ensures
        r@.len() == res.remaining@.len() + 1,
        forall|k: int|
            0 <= k < r@.len() ==> (#[trigger] r@[k])@ == (res.owner, res.remaining@.take(k)),
{
    let n = res.remaining.len();
    let mut out: Vec<Location> = Vec::new();
    out.push(Location { owner: res.owner, path: res.remaining.prefix(0) });
    let mut k: usize = 0;
    while k < n
        invariant
            k <= n == res.remaining@.len(),
            res.remaining.wf(),
            out@.len() == k + 1,
            forall|j: int|
                0 <= j <= k ==> (#[trigger] out@[j])@ == (res.owner, res.remaining@.take(j)),
        decreases n - k,
    {
        k = k + 1;
        out.push(Location { owner: res.owner, path: res.remaining.prefix(k) });
    }
    out
}

/// Classifies a resolved path from the overlay probes of its ancestors (`overlay[k]` for the
/// ancestor with `k` segments, as `probe_locations` lists them) and from what the file system holds
/// at the path itself. With `map_alias`, a trailing `map` segment directly below an overlay root
/// addresses that root.
pub fn classify(
    res: &OwnerResolution,
    overlay: &Vec<bool>,
    kind: PhysicalKind,
    map_alias: bool,
) -> (r: Result<ResolvedTarget, ResolveError>)
    requires
        res.remaining.wf(),
    ensures
        target_result_view(r) == classify_spec(
            res.owner,
            res.remaining@,
            res.delegated,
            overlay@,
            kind,
            map_alias,
        ),
{
    let rem = &res.remaining;
    let n = rem.len();
    assert(rem@.take(n as int) =~= rem@);
    if probe_at(overlay, n) {
        return Ok(ResolvedTarget::OverlayRoot { root: Location { owner: res.owner, path: rem.prefix(n) } });
    }
    if map_alias && n >= 1 && rem.segment_is(n - 1, "map") && probe_at(overlay, n - 1) {
        return Ok(ResolvedTarget::OverlayRoot { root: Location { owner: res.owner, path: rem.prefix(n - 1) } });
    }
    match nearest_overlay(overlay, n) {
        Some(k) => Ok(
            ResolvedTarget::OverlayResource {
                root: Location { owner: res.owner, path: rem.prefix(k) },
                relative: rem.strip_prefix(k),
            },
        ),
        None => {
            if !res.delegated && n == 1 && rem.segment_is(0, "Shared") {
                assert(rem@ =~= seq![shared_marker()]);
                return Ok(ResolvedTarget::SharedRoot);
            }
            match kind {
                PhysicalKind::Missing => Err(ResolveError::NotFound),
                PhysicalKind::File => Ok(
                    ResolvedTarget::RegularFile { location: Location { owner: res.owner, path: rem.prefix(n) } },
                ),
                PhysicalKind::Directory => Ok(
                    ResolvedTarget::RegularDirectory {
                        location: Location { owner: res.owner, path: rem.prefix(n) },
                    },
                ),
            }
        },
    }
}

/// Resolves the raw path `raw` for `caller` in one call. `found` is the account store's answer for
/// the username that `owner_lookup` names (ignored when it names none), `overlay` the probes of
/// `probe_locations`, and `kind` what the file system holds at the resolved path.
pub fn resolve(
    caller: &Identity,
    raw: &str,
    found: &Option<Identity>,
    cap: Capability,
    overlay: &Vec<bool>,
    kind: PhysicalKind,
    map_alias: bool,
) -> (r: Result<ResolvedTarget, ResolveError>)
    ensures
        target_result_view(r) == resolve_spec(
            *caller,
            raw@,
            *found,
            cap,
            overlay@,
            kind,
            map_alias,
        ),
{
    let path = match PathSegments::normalize(raw) {
        Ok(p) => p,
        Err(_) => {
            return Err(ResolveError::TraversalRejected);
        },
    };
    match resolve_owner(caller, &path, found, cap) {
        Err(e) => Err(e),
        Ok(res) => classify(&res, overlay, kind, map_alias),
    }
}

} // verus!
