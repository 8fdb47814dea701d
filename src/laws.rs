use vstd::prelude::*;
use vstd::relations::sorted_by;

use crate::identity::{
    file_capability, grants, is_delegated, owner_spec, shared_marker, system_marker, Capability,
    Identity, ResolveError,
};
use crate::listing::{
    entries_view, granting_id_among, merge_spec, shared_listing_spec, DirEntry,
};
use crate::render::{render_delegated, render_spec};
use crate::order::{entry_order, lemma_entry_order_total};
use crate::resolver::{
    map_marker, classify_spec, nearest_overlay_below, probe, resolve_spec, PhysicalKind, TargetView,
};
use crate::segments::{has_parent_ref, segments_of};

verus! {

/// The overlay root that a classification serves from, if any.
pub open spec fn overlay_root_of(t: Result<TargetView, ResolveError>) -> Option<
    (i64, Seq<Seq<char>>),
> {
    match t {
        Ok(TargetView::OverlayRoot(root)) => Some(root),
        Ok(TargetView::OverlayResource(root, _)) => Some(root),
        _ => None,
    }
}

pub open spec fn is_regular(t: Result<TargetView, ResolveError>) -> bool {
    match t {
        Ok(TargetView::RegularFile(_)) => true,
        Ok(TargetView::RegularDirectory(_)) => true,
        _ => false,
    }
}

proof fn lemma_nearest_overlay(overlay: Seq<bool>, n: int, a: int)
    requires
        0 <= a < n,
        probe(overlay, a),
    ensures
        nearest_overlay_below(overlay, n) is Some,
        a <= nearest_overlay_below(overlay, n)->0 < n,
        probe(overlay, nearest_overlay_below(overlay, n)->0),
        (forall|k: int| a < k < n ==> !probe(overlay, k)) ==> nearest_overlay_below(overlay, n)
            == Some(a),
    decreases n,
{
    if n - 1 != a && !probe(overlay, n - 1) {
        lemma_nearest_overlay(overlay, n - 1, a);
    }
}

/// Every raw path with a `..` component resolves to `TraversalRejected`, whatever the caller, the
/// account store, the overlay store and the file system hold.
pub proof fn lemma_traversal_always_rejected(
    caller: Identity,
    raw: Seq<char>,
    found: Option<Identity>,
    cap: Capability,
    overlay: Seq<bool>,
    kind: PhysicalKind,
    map_alias: bool,
)
    requires
        has_parent_ref(raw),
    ensures
        resolve_spec(caller, raw, found, cap, overlay, kind, map_alias) == Err::<
            TargetView,
            ResolveError,
        >(ResolveError::TraversalRejected),
{
}

/// An overlay root occludes its subtree: when the ancestor of `rem` with `a` segments is an overlay
/// root, `rem` never resolves as a regular file or directory, and it is served from that root
/// whenever no deeper location on the way to `rem` is an overlay root. Without the `map` alias
/// applying, it is a sub-resource of that root, at the rest of the path.
pub proof fn lemma_overlay_occludes_subtree(
    owner: i64,
    rem: Seq<Seq<char>>,
    delegated: bool,
    overlay: Seq<bool>,
    kind: PhysicalKind,
    map_alias: bool,
    a: int,
)
    requires
        0 <= a < rem.len(),
        probe(overlay, a),
    ensures
        !is_regular(classify_spec(owner, rem, delegated, overlay, kind, map_alias)),
        overlay_root_of(classify_spec(owner, rem, delegated, overlay, kind, map_alias)) is Some,
        (forall|k: int| a < k <= rem.len() ==> !probe(overlay, k)) ==> overlay_root_of(
            classify_spec(owner, rem, delegated, overlay, kind, map_alias),
        ) == Some((owner, rem.take(a))),
        (forall|k: int| a < k <= rem.len() ==> !probe(overlay, k)) && !(map_alias && a
            == rem.len() - 1 && rem[a] == crate::resolver::map_marker()) ==> classify_spec(
            owner,
            rem,
            delegated,
            overlay,
            kind,
            map_alias,
        ) == Ok::<TargetView, ResolveError>(TargetView::OverlayResource((owner, rem.take(a)), rem.skip(a))),
{
    lemma_nearest_overlay(overlay, rem.len() as int, a);
}

/// Nested overlay roots: when the ancestors of `rem` with `a` and `a + 1` segments are both
/// overlay roots and `rem` lies strictly below the inner one, with no deeper overlay root on the
/// way, `rem` is served from the inner root and not from the outer one.
pub proof fn lemma_nearest_enclosing_root(
    owner: i64,
    rem: Seq<Seq<char>>,
    delegated: bool,
    overlay: Seq<bool>,
    kind: PhysicalKind,
    map_alias: bool,
    a: int,
)
    requires
        0 <= a,
        a + 2 <= rem.len(),
        probe(overlay, a),
        probe(overlay, a + 1),
        forall|k: int| a + 1 < k <= rem.len() ==> !probe(overlay, k),
    ensures
        overlay_root_of(classify_spec(owner, rem, delegated, overlay, kind, map_alias)) == Some(
            (owner, rem.take(a + 1)),
        ),
        overlay_root_of(classify_spec(owner, rem, delegated, overlay, kind, map_alias)) != Some(
            (owner, rem.take(a)),
        ),
{
    lemma_overlay_occludes_subtree(owner, rem, delegated, overlay, kind, map_alias, a + 1);
    assert(rem.take(a).len() != rem.take(a + 1).len());
}

/// `Shared/<user>/Shared/...` is always refused with `Forbidden` once `<user>` names an account,
/// whatever any grant table holds.
pub proof fn lemma_chained_shared_forbidden(
    caller: Identity,
    raw: Seq<char>,
    owner: Identity,
    cap: Capability,
    overlay: Seq<bool>,
    kind: PhysicalKind,
    map_alias: bool,
)
    requires
        !has_parent_ref(raw),
        segments_of(raw).len() >= 3,
        segments_of(raw)[0] == shared_marker(),
        segments_of(raw)[2] == shared_marker(),
        owner.username@ == segments_of(raw)[1],
    ensures
        resolve_spec(caller, raw, Some(owner), cap, overlay, kind, map_alias) == Err::<
            TargetView,
            ResolveError,
        >(ResolveError::Forbidden),
{
    assert(segments_of(raw).skip(2)[0] == segments_of(raw)[2]);
}

/// A write into another account's tree is allowed exactly when that account grants the caller
/// file access, on a path that no other rule refuses.
pub proof fn lemma_write_requires_grant(
    caller: Identity,
    path: Seq<Seq<char>>,
    owner: Identity,
)
    requires
        is_delegated(path),
        owner.username@ == path[1],
        owner.verified,
        owner.id != caller.id,
        path.len() > 2 ==> path[2] != shared_marker() && path[2] != system_marker(),
    ensures
        owner_spec(caller, path, Some(owner), Capability::Write) is Ok <==> grants(
            owner,
            file_capability(),
            caller.id,
        ),
{
    if path.len() > 2 {
        assert(path.skip(2)[0] == path[2]);
    }
}

/// Two owners that differ in whether they grant the caller file access give opposite outcomes to
/// the same write resolution.
pub proof fn lemma_write_grant_flip(
    caller: Identity,
    path: Seq<Seq<char>>,
    with_grant: Identity,
    without_grant: Identity,
)
    requires
        is_delegated(path),
        with_grant.username@ == path[1],
        without_grant.username@ == path[1],
        with_grant.verified,
        without_grant.verified,
        with_grant.id != caller.id,
        without_grant.id != caller.id,
        path.len() > 2 ==> path[2] != shared_marker() && path[2] != system_marker(),
        grants(with_grant, file_capability(), caller.id),
        !grants(without_grant, file_capability(), caller.id),
    ensures
        owner_spec(caller, path, Some(with_grant), Capability::Write) is Ok,
        owner_spec(caller, path, Some(without_grant), Capability::Write) == Err::<
            (i64, Seq<Seq<char>>, bool),
            ResolveError,
        >(ResolveError::Forbidden),
{
    lemma_write_requires_grant(caller, path, with_grant);
    lemma_write_requires_grant(caller, path, without_grant);
}

/// Merging is a function of the raw listing and the overlay probes: two merges of the same listing
/// against the same probes agree, order included, and that order is the total listing order.
pub proof fn lemma_merge_idempotent(
    entries: Seq<DirEntry>,
    overlay: Seq<bool>,
    first: Seq<DirEntry>,
    second: Seq<DirEntry>,
)
    requires
        entries_view(first) == merge_spec(entries_view(entries), overlay).sort_by(entry_order()),
        entries_view(second) == merge_spec(entries_view(entries), overlay).sort_by(entry_order()),
    ensures
        entries_view(first) == entries_view(second),
        sorted_by(entries_view(first), entry_order()),
        entries_view(first).to_multiset() == merge_spec(entries_view(entries), overlay).to_multiset(),
{
    lemma_entry_order_total();
    merge_spec(entries_view(entries), overlay).lemma_sort_by_ensures(entry_order());
}


/// Resolution of a raw path: when the path lands in the tree of `owner` at `rem`, an overlay root
/// at the ancestor with `a` segments hides `rem` from regular classification, and with no deeper
/// overlay root on the way (and the `map` alias not applying) `rem` is a sub-resource of that root.
pub proof fn lemma_resolution_overlay_occludes(
    caller: Identity,
    raw: Seq<char>,
    found: Option<Identity>,
    cap: Capability,
    overlay: Seq<bool>,
    kind: PhysicalKind,
    map_alias: bool,
    owner: i64,
    rem: Seq<Seq<char>>,
    delegated: bool,
    a: int,
)
    requires
        !has_parent_ref(raw),
        owner_spec(caller, segments_of(raw), found, cap) == Ok::<
            (i64, Seq<Seq<char>>, bool),
            ResolveError,
        >((owner, rem, delegated)),
        0 <= a < rem.len(),
        probe(overlay, a),
    ensures
        !is_regular(resolve_spec(caller, raw, found, cap, overlay, kind, map_alias)),
        (forall|k: int| a < k <= rem.len() ==> !probe(overlay, k)) && !(map_alias && a
            == rem.len() - 1 && rem[a] == map_marker()) ==> resolve_spec(
            caller,
            raw,
            found,
            cap,
            overlay,
            kind,
            map_alias,
        ) == Ok::<TargetView, ResolveError>(TargetView::OverlayResource((owner, rem.take(a)), rem.skip(a))),
{
    lemma_overlay_occludes_subtree(owner, rem, delegated, overlay, kind, map_alias, a);
}

/// Resolution of a raw path under nested overlay roots `A` (the ancestor with `a` segments) and
/// `A/x` (with `a + 1`): a path strictly below `A/x`, with no deeper overlay root on the way, is
/// served from `A/x`, never from `A`; without the `map` alias applying it is the sub-resource of
/// `A/x` at the rest of the path.
pub proof fn lemma_resolution_nearest_root(
    caller: Identity,
    raw: Seq<char>,
    found: Option<Identity>,
    cap: Capability,
    overlay: Seq<bool>,
    kind: PhysicalKind,
    map_alias: bool,
    owner: i64,
    rem: Seq<Seq<char>>,
    delegated: bool,
    a: int,
)
    requires
        !has_parent_ref(raw),
        owner_spec(caller, segments_of(raw), found, cap) == Ok::<
            (i64, Seq<Seq<char>>, bool),
            ResolveError,
        >((owner, rem, delegated)),
        0 <= a,
        a + 2 <= rem.len(),
        probe(overlay, a),
        probe(overlay, a + 1),
        forall|k: int| a + 1 < k <= rem.len() ==> !probe(overlay, k),
    ensures
        overlay_root_of(resolve_spec(caller, raw, found, cap, overlay, kind, map_alias)) == Some(
            (owner, rem.take(a + 1)),
        ),
        overlay_root_of(resolve_spec(caller, raw, found, cap, overlay, kind, map_alias)) != Some(
            (owner, rem.take(a)),
        ),
        !(map_alias && a + 2 == rem.len() && rem[a + 1] == map_marker()) ==> resolve_spec(
            caller,
            raw,
            found,
            cap,
            overlay,
            kind,
            map_alias,
        ) == Ok::<TargetView, ResolveError>(
            TargetView::OverlayResource((owner, rem.take(a + 1)), rem.skip(a + 1)),
        ),
{
    lemma_nearest_enclosing_root(owner, rem, delegated, overlay, kind, map_alias, a);
    lemma_overlay_occludes_subtree(owner, rem, delegated, overlay, kind, map_alias, a + 1);
}

/// Whether `accounts[j]` grants `caller` file access and no earlier account with its id does.
pub open spec fn first_granting(caller: i64, accounts: Seq<Identity>, j: int) -> bool {
    0 <= j < accounts.len() && grants(accounts[j], file_capability(), caller)
        && !granting_id_among(caller, accounts.take(j), accounts[j].id)
}

proof fn lemma_shared_listing_members_in_order(caller: i64, accounts: Seq<Identity>)
    ensures
        forall|e: (Seq<char>, bool)|
            shared_listing_spec(caller, accounts).contains(e) <==> exists|j: int|
                first_granting(caller, accounts, j) && e == (accounts[j].username@, false),
    decreases accounts.len(),
{
    if accounts.len() > 0 {
        let n = accounts.len() - 1;
        let pre = accounts.drop_last();
        lemma_shared_listing_members_in_order(caller, pre);
        assert(accounts.take(n) =~= pre);
        assert(accounts.last() == accounts[n]);
        assert forall|j: int| 0 <= j < n implies first_granting(caller, accounts, j)
            == first_granting(caller, pre, j) by {
            assert(accounts.take(j) =~= pre.take(j));
            assert(accounts[j] == pre[j]);
        }
        let l = shared_listing_spec(caller, accounts);
        let p = shared_listing_spec(caller, pre);
        let x = (accounts[n].username@, false);
        assert forall|e: (Seq<char>, bool)|
            l.contains(e) <==> exists|j: int|
                first_granting(caller, accounts, j) && e == (accounts[j].username@, false) by {
            if first_granting(caller, accounts, n) {
                assert(l == p.push(x));
                if l.contains(e) {
                    let i = choose|i: int| 0 <= i < l.len() && l[i] == e;
                    if i < p.len() {
                        assert(p.contains(e)) by {
                            assert(p[i] == e);
                        }
                        let j = choose|j: int|
                            first_granting(caller, pre, j) && e == (pre[j].username@, false);
                        assert(first_granting(caller, accounts, j));
                    } else {
                        assert(e == x);
                    }
                }
                if exists|j: int|
                    first_granting(caller, accounts, j) && e == (accounts[j].username@, false) {
                    let j = choose|j: int|
                        first_granting(caller, accounts, j) && e == (accounts[j].username@, false);
                    if j < n {
                        assert(first_granting(caller, pre, j));
                        assert(p.contains(e));
                        let i = choose|i: int| 0 <= i < p.len() && p[i] == e;
                        assert(l[i] == e);
                    } else {
                        assert(l[p.len() as int] == e);
                    }
                }
            } else {
                assert(l == p);
                if l.contains(e) {
                    let j = choose|j: int|
                        first_granting(caller, pre, j) && e == (pre[j].username@, false);
                    assert(first_granting(caller, accounts, j));
                }
                if exists|j: int|
                    first_granting(caller, accounts, j) && e == (accounts[j].username@, false) {
                    let j = choose|j: int|
                        first_granting(caller, accounts, j) && e == (accounts[j].username@, false);
                    assert(j != n);
                    assert(first_granting(caller, pre, j));
                }
            }
        }
    }
}

/// The caller's `Shared` listing holds exactly one directory for each distinct account that grants
/// the caller file access, named by that account's username (the first account listed with that
/// id), and nothing else.
pub proof fn lemma_shared_root_listing_members(caller: i64, accounts: Seq<Identity>)
    ensures
        forall|e: (Seq<char>, bool)|
            shared_listing_spec(caller, accounts).sort_by(entry_order()).contains(e) <==> exists|
                j: int,
            | first_granting(caller, accounts, j) && e == (accounts[j].username@, false),
        forall|i: int|
            0 <= i < shared_listing_spec(caller, accounts).sort_by(entry_order()).len() ==> !(
            #[trigger] shared_listing_spec(caller, accounts).sort_by(entry_order())[i]).1,
        forall|j1: int, j2: int|
            first_granting(caller, accounts, j1) && first_granting(caller, accounts, j2)
                && accounts[j1].id == accounts[j2].id ==> j1 == j2,
{
    let l = shared_listing_spec(caller, accounts);
    let s = l.sort_by(entry_order());
    lemma_entry_order_total();
    l.lemma_sort_by_ensures(entry_order());
    lemma_shared_listing_members_in_order(caller, accounts);
    assert forall|e: (Seq<char>, bool)| s.contains(e) <==> l.contains(e) by {
        broadcast use vstd::seq_lib::group_to_multiset_ensures;

        assert(s.to_multiset().count(e) == l.to_multiset().count(e));
    }
    assert forall|i: int| 0 <= i < s.len() implies !(#[trigger] s[i]).1 by {
        assert(s.contains(s[i]));
    }
    assert forall|j1: int, j2: int|
        first_granting(caller, accounts, j1) && first_granting(caller, accounts, j2)
            && accounts[j1].id == accounts[j2].id implies j1 == j2 by {
        if j1 < j2 {
            assert(accounts.take(j2)[j1] == accounts[j1]);
            assert(granting_id_among(caller, accounts.take(j2), accounts[j2].id));
        } else if j2 < j1 {
            assert(accounts.take(j1)[j2] == accounts[j2]);
            assert(granting_id_among(caller, accounts.take(j1), accounts[j1].id));
        }
    }
}

/// A render from another account's tree (`<service>/Shared/<user>/...`) needs that account's file
/// grant: without it the request is `Forbidden`, and with it, the same request (a plain target, no
/// system path, no second `Shared`) becomes the job that renders from the owner's tree.
pub proof fn lemma_render_requires_grant(
    caller: Identity,
    from: Seq<char>,
    to: Seq<char>,
    preset: Seq<char>,
    with_grant: Identity,
    without_grant: Identity,
)
    requires
        !has_parent_ref(from),
        !has_parent_ref(to),
        !has_parent_ref(preset),
        render_delegated(segments_of(from)),
        with_grant.username@ == segments_of(from)[2],
        without_grant.username@ == segments_of(from)[2],
        with_grant.verified,
        without_grant.verified,
        without_grant.id != caller.id,
        grants(with_grant, file_capability(), caller.id),
        !grants(without_grant, file_capability(), caller.id),
    ensures
        render_spec(caller, from, to, preset, Some(without_grant)) == Err::<
            (i64, Seq<Seq<char>>, Seq<Seq<char>>, Seq<Seq<char>>),
            ResolveError,
        >(ResolveError::Forbidden),
        ({
            let f = segments_of(from);
            let t = segments_of(to);
            (f.len() > 3 ==> f[3] != shared_marker() && f[3] != system_marker()) && !(t.len() >= 1
                && (t[0] == shared_marker() || t[0] == system_marker())) ==> render_spec(
                caller,
                from,
                to,
                preset,
                Some(with_grant),
            ) == Ok::<(i64, Seq<Seq<char>>, Seq<Seq<char>>, Seq<Seq<char>>), ResolveError>(
                (with_grant.id, seq![f[0]] + f.skip(3), t, segments_of(preset)),
            )
        }),
{
    let f = segments_of(from);
    if f.len() > 3 {
        assert((seq![f[0]] + f.skip(3))[1] == f[3]);
    }
}

} // verus!
