use gm_blue::config::{
    allow_create_default, default_preset_default, http_port_default, pfp_default_default,
    log_default, preset_names, render_timeout_default, LogLevel, static_path_default, topbar_urls_default, BlueConfig,
};
use gm_blue::landing::{landing, Landing};
use gm_blue::identity::{Grant, Identity, ResolveError};
use gm_blue::render::{
    eq_ignore_ascii_case, plan_render_page, render_owner_lookup, render_page_outcome,
    validate_render, RenderPage,
};

fn account(id: i64, name: &str, verified: bool, file_grants: &[i64]) -> Identity {
    Identity {
        id,
        username: name.to_string(),
        verified,
        services: vec!["blue".to_string()],
        access: file_grants
            .iter()
            .map(|g| Grant { capability: "file".to_string(), account: *g })
            .collect(),
    }
}

fn segs(v: &[&str]) -> Vec<String> {
    v.iter().map(|s| s.to_string()).collect()
}

#[test]
fn own_render_job() {
    let caller = account(42, "me", true, &[]);
    let job = validate_render(&caller, "/blue/worlds/w1", "/maps/w1", "/overworld.conf", &None).unwrap();
    assert_eq!(job.owner, 42);
    assert_eq!(job.from.to_strings(), segs(&["blue", "worlds", "w1"]));
    assert_eq!(job.to.to_strings(), segs(&["maps", "w1"]));
    assert_eq!(job.preset.to_strings(), segs(&["overworld.conf"]));
}

#[test]
fn shared_render_job_needs_grant() {
    let caller = account(42, "me", true, &[]);
    assert_eq!(render_owner_lookup("blue/Shared/alice/w"), Some("alice".to_string()));
    assert_eq!(render_owner_lookup("blue/w"), None);
    assert_eq!(render_owner_lookup("blue/Shared/../w"), None);
    let granted = Some(account(7, "alice", true, &[42]));
    let job = validate_render(&caller, "blue/Shared/alice/w", "Shared/ALICE/out", "p.conf", &granted).unwrap();
    assert_eq!(job.owner, 7);
    assert_eq!(job.from.to_strings(), segs(&["blue", "w"]));
    assert_eq!(job.to.to_strings(), segs(&["out"]));
    let not_granted = Some(account(7, "alice", true, &[]));
    let r = validate_render(&caller, "blue/Shared/alice/w", "out", "p.conf", &not_granted);
    assert_eq!(r.unwrap_err(), ResolveError::Forbidden);
    let r = validate_render(&caller, "blue/Shared/alice/w", "out", "p.conf", &None);
    assert_eq!(r.unwrap_err(), ResolveError::NotFound);
}

#[test]
fn render_target_must_name_the_owner() {
    let caller = account(42, "me", true, &[]);
    let r = validate_render(&caller, "blue/w", "Shared/bob/out", "p.conf", &None);
    assert_eq!(r.unwrap_err(), ResolveError::Forbidden);
    let job = validate_render(&caller, "blue/w", "Shared/Me/out", "p.conf", &None).unwrap();
    assert_eq!(job.to.to_strings(), segs(&["out"]));
}

#[test]
fn render_refuses_traversal_and_system_paths() {
    let caller = account(42, "me", true, &[]);
    for (from, to, preset) in [("blue/../x", "o", "p"), ("blue/x", "../o", "p"), ("blue/x", "o", "../p")] {
        let r = validate_render(&caller, from, to, preset, &None);
        assert_eq!(r.unwrap_err(), ResolveError::TraversalRejected);
    }
    let r = validate_render(&caller, "blue/.system/x", "o", "p", &None);
    assert_eq!(r.unwrap_err(), ResolveError::PermissionDeniedSystemPath);
    let r = validate_render(&caller, "blue/x", ".system/o", "p", &None);
    assert_eq!(r.unwrap_err(), ResolveError::PermissionDeniedSystemPath);
    let alice = Some(account(7, "alice", true, &[42]));
    let r = validate_render(&caller, "blue/Shared/alice/Shared/carol/x", "o", "p", &alice);
    assert_eq!(r.unwrap_err(), ResolveError::Forbidden);
}

#[test]
fn case_insensitive_comparison() {
    assert!(eq_ignore_ascii_case("Alice", "aLICE"));
    assert!(eq_ignore_ascii_case("", ""));
    assert!(!eq_ignore_ascii_case("alice", "alicia"));
    assert!(!eq_ignore_ascii_case("a", "ab"));
    assert!(!eq_ignore_ascii_case("[", "{"));
}

#[test]
fn config_defaults() {
    assert!(allow_create_default());
    assert_eq!(http_port_default(), 8080);
    assert_eq!(static_path_default(), "static");
    assert_eq!(pfp_default_default(), "assets/pfp-default.svg");
    assert_eq!(default_preset_default(), "overworld.conf");
    assert_eq!(render_timeout_default(), 900);
    let urls = topbar_urls_default();
    assert_eq!(urls.len(), 2);
    assert_eq!(urls[0].label, "API");
    assert_eq!(urls[1].url, "https://github.com/gmornin/gmt-server");
    let c = BlueConfig::default();
    assert_eq!(c.port, 8080);
    assert_eq!(c.static_path, "static");
    assert!(c.alternate_pfp.is_none());
    assert!(c.map_alias);
    assert_eq!(c.topbar_urls.len(), 2);
    assert_eq!(c.topbar_urls[0].label, "API");
    assert_eq!(c.topbar_urls[0].url, "https://siriusmart.github.io/gm-services");
    assert_eq!(c.topbar_urls[1].label, "Source code");
    assert_eq!(c.topbar_urls[1].url, "https://github.com/gmornin/gmt-server");
    assert_eq!(c.log.loglabel, "gmblue");
    assert!(c.log.termlogging && c.log.writelogging);
    assert_eq!(c.log.term_log_level, LogLevel::Error);
    assert_eq!(c.log.write_log_level, LogLevel::Debug);
    assert_eq!(log_default().loglabel, "gmblue");
}

#[test]
fn presets_are_conf_files_in_name_order() {
    let files: Vec<String> = ["nether.conf", "README.md", ".conf", "end.conf", "overworld.conf", "conf", "x.conf.bak"]
        .iter()
        .map(|s| s.to_string())
        .collect();
    assert_eq!(
        preset_names(&files),
        vec!["end.conf".to_string(), "nether.conf".to_string(), "overworld.conf".to_string()]
    );
    assert!(preset_names(&vec![]).is_empty());
}

#[test]
fn landing_page_choice() {
    let with_blue = Some(account(42, "me", true, &[]));
    let mut without = account(42, "me", true, &[]);
    without.services.clear();
    assert_eq!(landing(false, &with_blue, "blue"), Landing::Login);
    assert_eq!(landing(true, &None, "blue"), Landing::LoggedOut);
    assert_eq!(landing(true, &Some(without), "blue"), Landing::FinishSetup);
    assert_eq!(landing(true, &with_blue, "blue"), Landing::Browse);
}

#[test]
fn render_grant_flip_changes_only_the_gate() {
    let caller = account(42, "me", true, &[]);
    let with = Some(account(7, "alice", true, &[42]));
    let without = Some(account(7, "alice", true, &[41]));
    let ok = validate_render(&caller, "blue/Shared/alice/w", "out", "p.conf", &with).unwrap();
    assert_eq!(ok.owner, 7);
    assert_eq!(ok.from.to_strings(), segs(&["blue", "w"]));
    let err = validate_render(&caller, "blue/Shared/alice/w", "out", "p.conf", &without);
    assert_eq!(err.unwrap_err(), ResolveError::Forbidden);
}

#[test]
fn render_page_paths() {
    let caller = account(42, "me", true, &[]);
    let plan = plan_render_page(&caller, "/blue/worlds/w1/", "/maps/w1", &None).unwrap();
    assert_eq!(plan.owner, 42);
    assert_eq!(plan.source.to_strings(), segs(&["blue", "worlds", "w1"]));
    assert_eq!(plan.target.to_strings(), segs(&["maps", "w1"]));
    let alice = Some(account(7, "alice", true, &[]));
    let plan = plan_render_page(&caller, "blue/Shared/alice/w", "Shared/alice/m", &alice).unwrap();
    assert_eq!(plan.owner, 7);
    assert_eq!(plan.source.to_strings(), segs(&["blue", "w"]));
    assert_eq!(plan.target.to_strings(), segs(&["m"]));
    let r = plan_render_page(&caller, "blue/Shared/alice/w", "Shared/bob/m", &alice);
    assert_eq!(r.unwrap_err(), ResolveError::Forbidden);
    let r = plan_render_page(&caller, "blue/Shared/ghost/w", "m", &None);
    assert_eq!(r.unwrap_err(), ResolveError::NotFound);
    let r = plan_render_page(&caller, "blue/../w", "m", &None);
    assert_eq!(r.unwrap_err(), ResolveError::TraversalRejected);
    let unverified = Some(account(7, "alice", false, &[]));
    let r = plan_render_page(&caller, "blue/Shared/alice/w", "m", &unverified);
    assert_eq!(r.unwrap_err(), ResolveError::Forbidden);
}

#[test]
fn render_page_outcomes() {
    assert_eq!(render_page_outcome(true, false, true), Ok(RenderPage::ShowTarget));
    assert_eq!(render_page_outcome(false, false, false), Err(ResolveError::NotFound));
    assert_eq!(render_page_outcome(false, true, true), Err(ResolveError::PathOccupied));
    assert_eq!(render_page_outcome(false, true, false), Ok(RenderPage::Form));
}
