use vstd::prelude::*;

use crate::segments::{str_is, PathSegments};

verus! {

/// The first segment that addresses another account's tree: `Shared/<username>/...`.
pub open spec fn shared_marker() -> Seq<char> {
    "Shared"@
}

/// The first segment of a tree's reserved system-metadata subtree.
pub open spec fn system_marker() -> Seq<char> {
    ".system"@
}

/// The capability that lets another account into a tree.
pub open spec fn file_capability() -> Seq<char> {
    "file"@
}

/// What an operation needs from the tree it touches.
#[derive(Clone, Copy, Debug, PartialEq, Eq, Structural)]
pub enum Capability {
    Read,
    Write,
}

/// Why a path cannot be served.
#[derive(Clone, Copy, Debug, PartialEq, Eq, Structural)]
pub enum ResolveError {
    /// The raw path holds a `..` component.
    TraversalRejected,
    /// No such account, or no such file.
    NotFound,
    /// The account may not reach the path.
    Forbidden,
    /// The path lies in a tree's reserved system subtree.
    PermissionDeniedSystemPath,
    /// A write target already exists.
    PathOccupied,
    /// The account store, the overlay store or the job runner failed.
    ExternalFailure,
}

/// One entry of an account's grant table: `account` holds `capability` on the tree.
#[derive(Debug)]
pub struct Grant {
    pub capability: String,
    pub account: i64,
}

/// An account as the account store hands it out for one request.
#[derive(Debug)]
pub struct Identity {
    pub id: i64,
    pub username: String,
    pub verified: bool,
    pub services: Vec<String>,
    pub access: Vec<Grant>,
}

/// Whether `owner`'s grant table gives `who` the capability `cap`.
pub open spec fn grants(owner: Identity, cap: Seq<char>, who: i64) -> bool {
    exists|i: int|
        0 <= i < owner.access@.len() && (#[trigger] owner.access@[i]).capability@ == cap
            && owner.access@[i].account == who
}

/// Whether `account` has `service` among its enabled services.
pub open spec fn has_service(account: Identity, service: Seq<char>) -> bool {
    exists|i: int| 0 <= i < account.services@.len() && (#[trigger] account.services@[i])@ == service
}

/// Whether a normalized path addresses another account's tree through `Shared/<username>`.
pub open spec fn is_delegated(path: Seq<Seq<char>>) -> bool {
    path.len() >= 2 && path[0] == shared_marker()
}

/// The tree a path resolves into: the owner's id, the path inside that tree, and whether a
/// `Shared/<username>` prefix was consumed. An owner reached through `Shared/<username>` must be
/// verified; whether a caller may use its own tree is settled before resolution.
pub open spec fn owner_spec(
    caller: Identity,
    path: Seq<Seq<char>>,
    found: Option<Identity>,
    cap: Capability,
) -> Result<(i64, Seq<Seq<char>>, bool), ResolveError> {
    if is_delegated(path) {
        match found {
            None => Err(ResolveError::NotFound),
            Some(o) => {
                let rem = path.skip(2);
                if o.username@ != path[1] {
                    Err(ResolveError::NotFound)
                } else if !o.verified {
                    Err(ResolveError::Forbidden)
                } else if rem.len() > 0 && rem[0] == shared_marker() {
                    Err(ResolveError::Forbidden)
                } else if rem.len() > 0 && rem[0] == system_marker() {
                    Err(ResolveError::PermissionDeniedSystemPath)
                } else if cap == Capability::Write && o.id != caller.id && !grants(
                    o,
                    file_capability(),
                    caller.id,
                ) {
                    Err(ResolveError::Forbidden)
                } else {
                    Ok((o.id, rem, true))
                }
            },
        }
    } else if path.len() > 0 && path[0] == system_marker() {
        Err(ResolveError::PermissionDeniedSystemPath)
    } else {
        Ok((caller.id, path, false))
    }
}

/// The tree that a path resolves into.
#[derive(Debug)]
pub struct OwnerResolution {
    pub owner: i64,
    pub remaining: PathSegments,
    pub delegated: bool,
}

pub open spec fn owner_result_view(r: Result<OwnerResolution, ResolveError>) -> Result<
    (i64, Seq<Seq<char>>, bool),
    ResolveError,
> {
    match r {
        Ok(o) => Ok((o.owner, o.remaining@, o.delegated)),
        Err(e) => Err(e),
    }
}

impl Identity {
    /// Whether this account's grant table gives `who` file access.
    pub fn grants_file_access(&self, who: i64) -> (r: bool)
        ensures
            r == grants(*self, file_capability(), who),
    {
        let mut i: usize = 0;
        while i < self.access.len()
            invariant
                i <= self.access@.len(),
                forall|j: int|
                    0 <= j < i ==> !((#[trigger] self.access@[j]).capability@ == file_capability()
                        && self.access@[j].account == who),
            decreases self.access@.len() - i,
        {
            let g = &self.access[i];
            if g.account == who && str_is(g.capability.as_str(), "file") {
                return true;
            }
            i = i + 1;
        }
        false
    }

    /// Whether `service` is among this account's enabled services.
    pub fn has_service(&self, service: &str) -> (r: bool)
        ensures
            r == has_service(*self, service@),
    {
        let mut i: usize = 0;
        while i < self.services.len()
            invariant
                i <= self.services@.len(),
                forall|j: int| 0 <= j < i ==> (#[trigger] self.services@[j])@ != service@,
            decreases self.services@.len() - i,
        {
            if str_is(self.services[i].as_str(), service) {
                return true;
            }
            i = i + 1;
        }
        false
    }

    /// Records `service` as enabled, once.
    pub fn record_service(&mut self, service: &str)
        ensures
            final(self).id == old(self).id,
            final(self).username == old(self).username,
            final(self).verified == old(self).verified,
            final(self).access == old(self).access,
            has_service(*old(self), service@) ==> final(self).services@.map_values(|s: String| s@)
                == old(self).services@.map_values(|s: String| s@),
            !has_service(*old(self), service@) ==> final(self).services@.map_values(|s: String| s@)
                == old(self).services@.map_values(|s: String| s@).push(service@),
    {
        if !self.has_service(service) {
            let ghost before = self.services@;
            self.services.push(service.to_owned());
            assert(self.services@.map_values(|s: String| s@) =~= before.map_values(
                |s: String| s@,
            ).push(service@));
        }
    }
}

/// The username to look up in the account store before resolving `path`: present exactly when
/// the path addresses another tree through `Shared/<username>`.
pub fn owner_lookup(path: &PathSegments) -> (r: Option<String>)
    ensures
        r is Some <==> is_delegated(path@),
        r is Some ==> r->0@ == path@[1],
{
    if path.len() >= 2 && path.segment_is(0, "Shared") {
        Some(path.get(1).clone())
    } else {
        None
    }
}

/// Decides whose tree `path` reaches and what remains of it there. `found` is what the account
/// store returned for the username that `owner_lookup` named; it is not read otherwise.
pub fn resolve_owner(
    caller: &Identity,
    path: &PathSegments,
    found: &Option<Identity>,
    cap: Capability,
) -> (r: Result<OwnerResolution, ResolveError>)
    requires
        path.wf(),
    ensures
        owner_result_view(r) == owner_spec(*caller, path@, *found, cap),
        r is Ok ==> r->Ok_0.remaining.wf(),
{
    if path.len() >= 2 && path.segment_is(0, "Shared") {
        match found {
            None => Err(ResolveError::NotFound),
            Some(o) => {
                if !str_is(o.username.as_str(), path.get(1).as_str()) {
                    return Err(ResolveError::NotFound);
                }
                if !o.verified {
                    return Err(ResolveError::Forbidden);
                }
                let rem = path.strip_prefix(2);
                if rem.segment_is(0, "Shared") {
                    return Err(ResolveError::Forbidden);
                }
                if rem.segment_is(0, ".system") {
                    return Err(ResolveError::PermissionDeniedSystemPath);
                }
                let write = match cap {
                    Capability::Write => true,
                    Capability::Read => false,
                };
                if write && o.id != caller.id && !o.grants_file_access(caller.id) {
                    return Err(ResolveError::Forbidden);
                }
                Ok(OwnerResolution { owner: o.id, remaining: rem, delegated: true })
            },
        }
    } else if path.segment_is(0, ".system") {
        Err(ResolveError::PermissionDeniedSystemPath)
    } else {
        let rem = path.strip_prefix(0);
        assert(rem@ =~= path@);
        Ok(OwnerResolution { owner: caller.id, remaining: rem, delegated: false })
    }
}

/// Whether the caller's own tree must be provisioned for `service` before it is served: the
/// path resolved into the caller's tree and the service was never enabled there.
pub fn needs_provisioning(caller: &Identity, res: &OwnerResolution, service: &str) -> (r: bool)
    ensures
        r == (res.owner == caller.id && !has_service(*caller, service@)),
{
    res.owner == caller.id && !caller.has_service(service)
}

} // verus!
