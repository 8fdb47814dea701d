use gm_blue::identity::{
    needs_provisioning, owner_lookup, resolve_owner, Capability, Grant, Identity, ResolveError,
};
use gm_blue::listing::shared_root_listing;
use gm_blue::resolver::{classify, probe_locations, resolve, PhysicalKind, ResolvedTarget};
use gm_blue::segments::PathSegments;

fn account(id: i64, name: &str, verified: bool, file_grants: &[i64]) -> Identity {
    Identity {
        id,
        username: name.to_string(),
        verified,
        services: vec!["blue".to_string()],
        access: file_grants
            .iter()
            .map(|g| Grant { capability: "file".to_string(), account: *g })
            .collect(),
    }
}

fn strings(p: &PathSegments) -> Vec<String> {
    p.to_strings()
}

fn segs(v: &[&str]) -> Vec<String> {
    v.iter().map(|s| s.to_string()).collect()
}

fn no_overlay(n: usize) -> Vec<bool> {
    vec![false; n]
}

#[test]
fn own_regular_file() {
    let caller = account(42, "me", true, &[]);
    let r = resolve(&caller, "notes/todo.txt", &None, Capability::Read, &no_overlay(3), PhysicalKind::File, true);
    match r {
        Ok(ResolvedTarget::RegularFile { location }) => {
            assert_eq!(location.owner, 42);
            assert_eq!(strings(&location.path), segs(&["notes", "todo.txt"]));
        }
        other => panic!("unexpected {:?}", other),
    }
}

#[test]
fn shared_overlay_root() {
    let caller = account(42, "me", true, &[]);
    let alice = account(7, "alice", true, &[]);
    let path = PathSegments::normalize("Shared/alice/world").unwrap();
    assert_eq!(owner_lookup(&path), Some("alice".to_string()));
    let found = Some(alice);
    let res = resolve_owner(&caller, &path, &found, Capability::Read).unwrap();
    assert_eq!(res.owner, 7);
    assert!(res.delegated);
    let probes = probe_locations(&res);
    assert_eq!(probes.len(), 2);
    assert_eq!(probes[0].owner, 7);
    assert!(strings(&probes[0].path).is_empty());
    assert_eq!(strings(&probes[1].path), segs(&["world"]));
    let overlay = vec![false, true];
    match classify(&res, &overlay, PhysicalKind::Directory, true) {
        Ok(ResolvedTarget::OverlayRoot { root }) => {
            assert_eq!(root.owner, 7);
            assert_eq!(strings(&root.path), segs(&["world"]));
        }
        other => panic!("unexpected {:?}", other),
    }
    let whole = resolve(&caller, "Shared/alice/world", &found, Capability::Read, &overlay, PhysicalKind::Directory, true);
    assert!(matches!(whole, Ok(ResolvedTarget::OverlayRoot { .. })));
}

#[test]
fn shared_traversal_rejected_before_lookup() {
    assert!(PathSegments::normalize("Shared/bob/../etc").is_err());
    let caller = account(42, "me", true, &[]);
    let bob = Some(account(9, "bob", true, &[42]));
    let r = resolve(&caller, "Shared/bob/../etc", &bob, Capability::Read, &no_overlay(4), PhysicalKind::Directory, true);
    assert_eq!(r.unwrap_err(), ResolveError::TraversalRejected);
}

#[test]
fn shared_root_is_synthesized() {
    let caller = account(42, "me", true, &[]);
    for raw in ["Shared", "Shared/", "/Shared/"] {
        let r = resolve(&caller, raw, &None, Capability::Read, &no_overlay(2), PhysicalKind::Missing, true);
        assert!(matches!(r, Ok(ResolvedTarget::SharedRoot)), "{raw}");
    }
    let granting = vec![account(7, "alice", true, &[42]), account(8, "bob", true, &[41])];
    let listing = shared_root_listing(42, &granting);
    assert_eq!(listing.len(), 1);
    assert_eq!(listing[0].name, "alice");
    assert!(!listing[0].is_file);
}

#[test]
fn every_parent_reference_is_rejected() {
    let caller = account(42, "me", true, &[]);
    for raw in ["..", "../x", "a/..", "a/../b", "/a/b/../../c", "Shared/..", "./.."] {
        let r = resolve(&caller, raw, &None, Capability::Read, &no_overlay(5), PhysicalKind::File, true);
        assert_eq!(r.unwrap_err(), ResolveError::TraversalRejected, "{raw}");
    }
    let ok = PathSegments::normalize("a..b/...").unwrap();
    assert_eq!(strings(&ok), segs(&["a..b", "..."]));
}

#[test]
fn normalization_drops_empty_and_dot() {
    let p = PathSegments::normalize("//a/./b//c/").unwrap();
    assert_eq!(strings(&p), segs(&["a", "b", "c"]));
    assert!(strings(&PathSegments::normalize("").unwrap()).is_empty());
    assert!(strings(&PathSegments::normalize("/./").unwrap()).is_empty());
}

#[test]
fn ancestors_and_strip_prefix() {
    let p = PathSegments::normalize("a/b/c").unwrap();
    let anc = p.ancestors();
    assert_eq!(anc.len(), 4);
    assert!(strings(&anc[0]).is_empty());
    assert_eq!(strings(&anc[2]), segs(&["a", "b"]));
    assert_eq!(strings(&anc[3]), segs(&["a", "b", "c"]));
    assert_eq!(strings(&p.strip_prefix(2)), segs(&["c"]));
    assert!(strings(&p.strip_prefix(5)).is_empty());
}

#[test]
fn descendant_of_overlay_is_a_sub_resource() {
    let caller = account(42, "me", true, &[]);
    let overlay = vec![false, true, false, false];
    let r = resolve(&caller, "maps/w/x", &None, Capability::Read, &overlay, PhysicalKind::File, false);
    match r {
        Ok(ResolvedTarget::OverlayResource { root, relative }) => {
            assert_eq!(root.owner, 42);
            assert_eq!(strings(&root.path), segs(&["maps"]));
            assert_eq!(strings(&relative), segs(&["w", "x"]));
        }
        other => panic!("unexpected {:?}", other),
    }
}

#[test]
fn nested_overlays_take_the_nearest_root() {
    let caller = account(42, "me", true, &[]);
    let overlay = vec![false, true, true, false];
    let r = resolve(&caller, "a/x/y", &None, Capability::Read, &overlay, PhysicalKind::Directory, true);
    match r {
        Ok(ResolvedTarget::OverlayResource { root, relative }) => {
            assert_eq!(strings(&root.path), segs(&["a", "x"]));
            assert_eq!(strings(&relative), segs(&["y"]));
        }
        other => panic!("unexpected {:?}", other),
    }
}

#[test]
fn map_alias_addresses_the_root() {
    let caller = account(42, "me", true, &[]);
    let overlay = vec![false, true, false];
    let aliased = resolve(&caller, "world/map", &None, Capability::Read, &overlay, PhysicalKind::Missing, true);
    match aliased {
        Ok(ResolvedTarget::OverlayRoot { root }) => assert_eq!(strings(&root.path), segs(&["world"])),
        other => panic!("unexpected {:?}", other),
    }
    let plain = resolve(&caller, "world/map", &None, Capability::Read, &overlay, PhysicalKind::Missing, false);
    match plain {
        Ok(ResolvedTarget::OverlayResource { root, relative }) => {
            assert_eq!(strings(&root.path), segs(&["world"]));
            assert_eq!(strings(&relative), segs(&["map"]));
        }
        other => panic!("unexpected {:?}", other),
    }
}

#[test]
fn chained_shared_is_forbidden() {
    let caller = account(42, "me", true, &[]);
    let alice = Some(account(7, "alice", true, &[42, 3]));
    for cap in [Capability::Read, Capability::Write] {
        let r = resolve(&caller, "Shared/alice/Shared/carol/x", &alice, cap, &no_overlay(6), PhysicalKind::Directory, true);
        assert_eq!(r.unwrap_err(), ResolveError::Forbidden);
    }
    let no_grants = Some(account(7, "alice", true, &[]));
    let r = resolve(&caller, "Shared/alice/Shared", &no_grants, Capability::Read, &no_overlay(4), PhysicalKind::Directory, true);
    assert_eq!(r.unwrap_err(), ResolveError::Forbidden);
}

#[test]
fn write_needs_an_explicit_grant() {
    let caller = account(42, "me", true, &[]);
    let path = PathSegments::normalize("Shared/alice/docs/a.txt").unwrap();
    let granted = Some(account(7, "alice", true, &[42]));
    let not_granted = Some(account(7, "alice", true, &[43]));
    assert!(resolve_owner(&caller, &path, &granted, Capability::Write).is_ok());
    assert_eq!(
        resolve_owner(&caller, &path, &not_granted, Capability::Write).unwrap_err(),
        ResolveError::Forbidden
    );
    assert!(resolve_owner(&caller, &path, &not_granted, Capability::Read).is_ok());
    let other_capability = Some(Identity {
        access: vec![Grant { capability: "blue".to_string(), account: 42 }],
        ..account(7, "alice", true, &[])
    });
    assert_eq!(
        resolve_owner(&caller, &path, &other_capability, Capability::Write).unwrap_err(),
        ResolveError::Forbidden
    );
}

#[test]
fn write_to_own_tree_needs_no_grant() {
    let caller = account(42, "me", true, &[]);
    let path = PathSegments::normalize("docs/new.txt").unwrap();
    let res = resolve_owner(&caller, &path, &None, Capability::Write).unwrap();
    assert_eq!(res.owner, 42);
    assert!(!res.delegated);
    let own_shared = PathSegments::normalize("Shared/me/docs").unwrap();
    let me = Some(account(42, "me", true, &[]));
    assert!(resolve_owner(&caller, &own_shared, &me, Capability::Write).is_ok());
}

#[test]
fn unknown_owner_is_not_found() {
    let caller = account(42, "me", true, &[]);
    let r = resolve(&caller, "Shared/ghost/x", &None, Capability::Read, &no_overlay(2), PhysicalKind::File, true);
    assert_eq!(r.unwrap_err(), ResolveError::NotFound);
    let wrong = Some(account(8, "someone", true, &[]));
    let r = resolve(&caller, "Shared/ghost/x", &wrong, Capability::Read, &no_overlay(2), PhysicalKind::File, true);
    assert_eq!(r.unwrap_err(), ResolveError::NotFound);
}

#[test]
fn unverified_owner_is_forbidden() {
    let caller = account(42, "me", true, &[]);
    let bob = Some(account(9, "bob", false, &[42]));
    let r = resolve(&caller, "Shared/bob/x", &bob, Capability::Read, &no_overlay(2), PhysicalKind::File, true);
    assert_eq!(r.unwrap_err(), ResolveError::Forbidden);
    let unverified_caller = account(42, "me", false, &[]);
    let me = Some(account(42, "me", false, &[]));
    let r = resolve(&unverified_caller, "Shared/me/x", &me, Capability::Read, &no_overlay(2), PhysicalKind::File, true);
    assert_eq!(r.unwrap_err(), ResolveError::Forbidden);
    let r = resolve(&unverified_caller, "x", &None, Capability::Read, &no_overlay(2), PhysicalKind::File, true);
    assert!(matches!(r, Ok(ResolvedTarget::RegularFile { .. })));
}

#[test]
fn system_subtree_is_never_resolvable() {
    let caller = account(42, "me", true, &[]);
    let r = resolve(&caller, ".system/x", &None, Capability::Read, &no_overlay(3), PhysicalKind::File, true);
    assert_eq!(r.unwrap_err(), ResolveError::PermissionDeniedSystemPath);
    let alice = Some(account(7, "alice", true, &[42]));
    let r = resolve(&caller, "Shared/alice/.system", &alice, Capability::Read, &no_overlay(2), PhysicalKind::Directory, true);
    assert_eq!(r.unwrap_err(), ResolveError::PermissionDeniedSystemPath);
    let r = resolve(&caller, "a/.system", &None, Capability::Read, &no_overlay(3), PhysicalKind::Directory, true);
    assert!(matches!(r, Ok(ResolvedTarget::RegularDirectory { .. })));
}

#[test]
fn missing_path_is_not_found_and_directory_is_classified() {
    let caller = account(42, "me", true, &[]);
    let r = resolve(&caller, "nothing/here", &None, Capability::Read, &no_overlay(3), PhysicalKind::Missing, true);
    assert_eq!(r.unwrap_err(), ResolveError::NotFound);
    let r = resolve(&caller, "", &None, Capability::Read, &no_overlay(1), PhysicalKind::Directory, true);
    match r {
        Ok(ResolvedTarget::RegularDirectory { location }) => {
            assert_eq!(location.owner, 42);
            assert!(strings(&location.path).is_empty());
        }
        other => panic!("unexpected {:?}", other),
    }
}

#[test]
fn delegated_shared_segment_alone_is_not_the_shared_root() {
    let caller = account(42, "me", true, &[]);
    let alice = Some(account(7, "alice", true, &[]));
    let r = resolve(&caller, "Shared/alice", &alice, Capability::Read, &no_overlay(1), PhysicalKind::Directory, true);
    match r {
        Ok(ResolvedTarget::RegularDirectory { location }) => {
            assert_eq!(location.owner, 7);
            assert!(strings(&location.path).is_empty());
        }
        other => panic!("unexpected {:?}", other),
    }
}

#[test]
fn provisioning_only_for_own_unprovisioned_tree() {
    let mut caller = account(42, "me", true, &[]);
    caller.services.clear();
    let path = PathSegments::normalize("x").unwrap();
    let res = resolve_owner(&caller, &path, &None, Capability::Read).unwrap();
    assert!(needs_provisioning(&caller, &res, "blue"));
    caller.record_service("blue");
    caller.record_service("blue");
    assert_eq!(caller.services, vec!["blue".to_string()]);
    assert!(!needs_provisioning(&caller, &res, "blue"));
    let shared = PathSegments::normalize("Shared/alice/x").unwrap();
    let mut alice = account(7, "alice", true, &[]);
    alice.services.clear();
    let res = resolve_owner(&caller, &shared, &Some(alice), Capability::Read).unwrap();
    assert!(!needs_provisioning(&caller, &res, "blue"));
}
