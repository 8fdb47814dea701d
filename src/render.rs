use vstd::prelude::*;

use crate::identity::{
    file_capability, grants, shared_marker, system_marker, Identity, ResolveError,
};
use crate::segments::{has_parent_ref, segments_of, str_is, PathSegments};

verus! {

/// Whether two characters are equal up to ASCII case.
pub open spec fn chars_eq_ascii_case(x: char, y: char) -> bool {
    x == y || ('A' <= x <= 'Z' && x as u32 + 32 == y as u32) || ('A' <= y <= 'Z' && y as u32 + 32
        == x as u32)
}

/// Equality of two strings up to ASCII case.
pub open spec fn eq_ascii_case_insensitive(a: Seq<char>, b: Seq<char>) -> bool {
    a.len() == b.len() && forall|i: int| 0 <= i < a.len() ==> chars_eq_ascii_case(#[trigger] a[i], b[i])
}

fn char_eq_ascii_case(x: char, y: char) -> (r: bool)
    ensures
        r == chars_eq_ascii_case(x, y),
{
    let xu = x as u32;
    let yu = y as u32;
    x == y || ('A' <= x && x <= 'Z' && xu + 32 == yu) || ('A' <= y && y <= 'Z' && yu + 32 == xu)
}

/// Whether `a` and `b` are equal up to ASCII case.
pub fn eq_ignore_ascii_case(a: &str, b: &str) -> (r: bool)
    ensures
        r == eq_ascii_case_insensitive(a@, b@),
{
    let n = a.unicode_len();
    if n != b.unicode_len() {
        return false;
    }
    let mut i: usize = 0;
    while i < n
        invariant
            n == a@.len() == b@.len(),
            i <= n,
            forall|j: int| 0 <= j < i ==> chars_eq_ascii_case(#[trigger] a@[j], b@[j]),
        decreases n - i,
    {
        if !char_eq_ascii_case(a.get_char(i), b.get_char(i)) {
            return false;
        }
        i = i + 1;
    }
    true
}

/// A render job that passed validation: render `from` (inside the storage of `owner`, its first
/// segment naming the service tree) into `to` (inside the owner's map tree) with `preset`.
#[derive(Debug)]
pub struct RenderJob {
    pub owner: i64,
    pub from: PathSegments,
    pub to: PathSegments,
    pub preset: PathSegments,
}

/// A render target inside the owner's map tree: a leading `Shared/<user>` must name the owner (up to
/// ASCII case) and is removed.
pub open spec fn target_spec(t: Seq<Seq<char>>, owner_name: Seq<char>) -> Result<
    Seq<Seq<char>>,
    ResolveError,
> {
    if t.len() >= 2 && t[0] == shared_marker() {
        if eq_ascii_case_insensitive(t[1], owner_name) {
            Ok(t.skip(2))
        } else {
            Err(ResolveError::Forbidden)
        }
    } else {
        Ok(t)
    }
}

pub open spec fn render_delegated(from: Seq<Seq<char>>) -> bool {
    from.len() >= 3 && from[1] == shared_marker()
}

/// The validated job for a render request, as (owner, from, to, preset). `from` is
/// `<service>/<path>` or `<service>/Shared/<user>/<path>`; `to` is a path in the map tree, which
/// may name the owner again as `Shared/<user>/<path>` (the user compared up to ASCII case).
pub open spec fn render_spec(
    caller: Identity,
    from: Seq<char>,
    to: Seq<char>,
    preset: Seq<char>,
    found: Option<Identity>,
) -> Result<(i64, Seq<Seq<char>>, Seq<Seq<char>>, Seq<Seq<char>>), ResolveError> {
    if has_parent_ref(from) || has_parent_ref(to) || has_parent_ref(preset) {
        Err(ResolveError::TraversalRejected)
    } else {
        let f = segments_of(from);
        let t = segments_of(to);
        let owner: Result<(Identity, Seq<Seq<char>>), ResolveError> = if render_delegated(f) {
            match found {
                None => Err(ResolveError::NotFound),
                Some(o) => {
                    if o.username@ != f[2] {
                        Err(ResolveError::NotFound)
                    } else if !o.verified {
                        Err(ResolveError::Forbidden)
                    } else if o.id != caller.id && !grants(o, file_capability(), caller.id) {
                        Err(ResolveError::Forbidden)
                    } else if f.len() > 3 && f[3] == shared_marker() {
                        Err(ResolveError::Forbidden)
                    } else {
                        Ok((o, seq![f[0]] + f.skip(3)))
                    }
                },
            }
        } else {
            Ok((caller, f))
        };
        match owner {
            Err(e) => Err(e),
            Ok((o, f2)) => match target_spec(t, o.username@) {
                Err(e) => Err(e),
                Ok(t2) => {
                    if (f2.len() >= 2 && f2[1] == system_marker()) || (t2.len() >= 1 && t2[0]
                        == system_marker()) {
                        Err(ResolveError::PermissionDeniedSystemPath)
                    } else {
                        Ok((o.id, f2, t2, segments_of(preset)))
                    }
                },
            },
        }
    }
}

pub open spec fn render_result_view(r: Result<RenderJob, ResolveError>) -> Result<
    (i64, Seq<Seq<char>>, Seq<Seq<char>>, Seq<Seq<char>>),
    ResolveError,
> {
    match r {
        Ok(j) => Ok((j.owner, j.from@, j.to@, j.preset@)),
        Err(e) => Err(e),
    }
}

/// The render target inside the owner's map tree, as `target_spec` states it.
pub fn owner_target(t: &PathSegments, owner_name: &String) -> (r: Result<PathSegments, ResolveError>)
    requires
        t.wf(),
    ensures
        match r {
            Ok(p) => target_spec(t@, owner_name@) == Ok::<Seq<Seq<char>>, ResolveError>(p@) && p.wf(),
            Err(e) => target_spec(t@, owner_name@) == Err::<Seq<Seq<char>>, ResolveError>(e),
        },
{
    if t.len() >= 2 && t.segment_is(0, "Shared") {
        if eq_ignore_ascii_case(t.get(1).as_str(), owner_name.as_str()) {
            Ok(t.strip_prefix(2))
        } else {
            Err(ResolveError::Forbidden)
        }
    } else {
        let c = t.strip_prefix(0);
        assert(c@ =~= t@);
        Ok(c)
    }
}

/// The paths the render page works on: the owner whose tree the source lies in, the source inside
/// the owner's storage (service tree first) and the target inside the owner's map tree.
#[derive(Debug)]
pub struct RenderPagePlan {
    pub owner: i64,
    pub source: PathSegments,
    pub target: PathSegments,
}

/// The render page's paths for `source` and `target`, as (owner, source, target). A source in
/// another account's tree (`<service>/Shared/<user>/...`) switches to that account, which must exist
/// and be verified; a second `Shared` there is refused.
pub open spec fn render_page_spec(
    caller: Identity,
    source: Seq<char>,
    target: Seq<char>,
    found: Option<Identity>,
) -> Result<(i64, Seq<Seq<char>>, Seq<Seq<char>>), ResolveError> {
    if has_parent_ref(source) || has_parent_ref(target) {
        Err(ResolveError::TraversalRejected)
    } else {
        let s = segments_of(source);
        let t = segments_of(target);
        let owner: Result<(Identity, Seq<Seq<char>>), ResolveError> = if render_delegated(s) {
            match found {
                None => Err(ResolveError::NotFound),
                Some(o) => {
                    if o.username@ != s[2] {
                        Err(ResolveError::NotFound)
                    } else if !o.verified {
                        Err(ResolveError::Forbidden)
                    } else if s.len() > 3 && s[3] == shared_marker() {
                        Err(ResolveError::Forbidden)
                    } else {
                        Ok((o, seq![s[0]] + s.skip(3)))
                    }
                },
            }
        } else {
            Ok((caller, s))
        };
        match owner {
            Err(e) => Err(e),
            Ok((o, s2)) => match target_spec(t, o.username@) {
                Err(e) => Err(e),
                Ok(t2) => Ok((o.id, s2, t2)),
            },
        }
    }
}

pub open spec fn page_result_view(r: Result<RenderPagePlan, ResolveError>) -> Result<
    (i64, Seq<Seq<char>>, Seq<Seq<char>>),
    ResolveError,
> {
    match r {
        Ok(p) => Ok((p.owner, p.source@, p.target@)),
        Err(e) => Err(e),
    }
}

/// Works out the render page's paths. `found` is the account store's answer for the username that
/// `render_owner_lookup(source)` named; it is not read otherwise.
pub fn plan_render_page(
    caller: &Identity,
    source: &str,
    target: &str,
    found: &Option<Identity>,
) -> (r: Result<RenderPagePlan, ResolveError>)
    ensures
        page_result_view(r) == render_page_spec(*caller, source@, target@, *found),
{
    let s = match PathSegments::normalize(source) {
        Ok(p) => p,
        Err(_) => {
            return Err(ResolveError::TraversalRejected);
        },
    };
    let t = match PathSegments::normalize(target) {
        Ok(p) => p,
        Err(_) => {
            return Err(ResolveError::TraversalRejected);
        },
    };
    let owner: &Identity;
    let s2: PathSegments;
    if s.len() >= 3 && s.segment_is(1, "Shared") {
        match found {
            None => {
                return Err(ResolveError::NotFound);
            },
            Some(o) => {
                if !str_is(o.username.as_str(), s.get(2).as_str()) {
                    return Err(ResolveError::NotFound);
                }
                if !o.verified {
                    return Err(ResolveError::Forbidden);
                }
                if s.segment_is(3, "Shared") {
                    return Err(ResolveError::Forbidden);
                }
                owner = o;
                s2 = s.strip_prefix(3).prepend(s.get(0));
            },
        }
    } else {
        owner = caller;
        s2 = s.strip_prefix(0);
        assert(s2@ =~= s@);
    }
    match owner_target(&t, &owner.username) {
        Ok(t2) => Ok(RenderPagePlan { owner: owner.id, source: s2, target: t2 }),
        Err(e) => Err(e),
    }
}

/// What the render page shows once its paths are known.
#[derive(Clone, Copy, Debug, PartialEq, Eq, Structural)]
pub enum RenderPage {
    /// The target is already an overlay root: show it instead.
    ShowTarget,
    /// Offer to render the source into the target.
    Form,
}

/// Decides the render page from whether the target is an overlay root, whether the source exists
/// and whether the target exists.
pub fn render_page_outcome(target_is_overlay: bool, source_exists: bool, target_exists: bool) -> (r:
    Result<RenderPage, ResolveError>)
    ensures
        r == (if target_is_overlay {
            Ok::<RenderPage, ResolveError>(RenderPage::ShowTarget)
        } else if !source_exists {
            Err(ResolveError::NotFound)
        } else if target_exists {
            Err(ResolveError::PathOccupied)
        } else {
            Ok(RenderPage::Form)
        }),
{
    if target_is_overlay {
        Ok(RenderPage::ShowTarget)
    } else if !source_exists {
        Err(ResolveError::NotFound)
    } else if target_exists {
        Err(ResolveError::PathOccupied)
    } else {
        Ok(RenderPage::Form)
    }
}

/// The username to look up in the account store before validating a render from `from`: present
/// exactly when `from` reads `<service>/Shared/<user>/...` and holds no `..`.
pub fn render_owner_lookup(from: &str) -> (r: Option<String>)
    ensures
        r is Some <==> !has_parent_ref(from@) && render_delegated(segments_of(from@)),
        r is Some ==> r->0@ == segments_of(from@)[2],
{
    match PathSegments::normalize(from) {
        Err(_) => None,
        Ok(f) => {
            if f.len() >= 3 && f.segment_is(1, "Shared") {
                Some(f.get(2).clone())
            } else {
                None
            }
        },
    }
}

/// Validates a render request before it goes to the job runner. `found` is the account store's
/// answer for the username that `render_owner_lookup` named; it is not read otherwise.
pub fn validate_render(
    caller: &Identity,
    from: &str,
    to: &str,
    preset: &str,
    found: &Option<Identity>,
) -> (r: Result<RenderJob, ResolveError>)
    ensures
        render_result_view(r) == render_spec(*caller, from@, to@, preset@, *found),
{
    let f = match PathSegments::normalize(from) {
        Ok(p) => p,
        Err(_) => {
            return Err(ResolveError::TraversalRejected);
        },
    };
    let t = match PathSegments::normalize(to) {
        Ok(p) => p,
        Err(_) => {
            return Err(ResolveError::TraversalRejected);
        },
    };
    let p = match PathSegments::normalize(preset) {
        Ok(p) => p,
        Err(_) => {
            return Err(ResolveError::TraversalRejected);
        },
    };
    let owner: &Identity;
    let f2: PathSegments;
    if f.len() >= 3 && f.segment_is(1, "Shared") {
        match found {
            None => {
                return Err(ResolveError::NotFound);
            },
            Some(o) => {
                if !str_is(o.username.as_str(), f.get(2).as_str()) {
                    return Err(ResolveError::NotFound);
                }
                if !o.verified {
                    return Err(ResolveError::Forbidden);
                }
                if o.id != caller.id && !o.grants_file_access(caller.id) {
                    return Err(ResolveError::Forbidden);
                }
                if f.segment_is(3, "Shared") {
                    return Err(ResolveError::Forbidden);
                }
                owner = o;
                f2 = f.strip_prefix(3).prepend(f.get(0));
                assert(f@.len() > 3 ==> f@.skip(3)[0] == f@[3]);
            },
        }
    } else {
        owner = caller;
        f2 = f.strip_prefix(0);
        assert(f2@ =~= f@);
    }
    let t2 = match owner_target(&t, &owner.username) {
        Ok(p) => p,
        Err(e) => {
            return Err(e);
        },
    };
    if (f2.len() >= 2 && f2.segment_is(1, ".system")) || t2.segment_is(0, ".system") {
        return Err(ResolveError::PermissionDeniedSystemPath);
    }
    Ok(RenderJob { owner: owner.id, from: f2, to: t2, preset: p })
}

} // verus!
