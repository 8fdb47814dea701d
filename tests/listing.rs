use gm_blue::identity::{Grant, Identity};
use gm_blue::listing::{merge_listing, shared_root_listing, DirEntry};

fn entry(name: &str, is_file: bool) -> DirEntry {
    DirEntry { name: name.to_string(), is_file }
}

fn pairs(v: &[DirEntry]) -> Vec<(String, bool)> {
    v.iter().map(|e| (e.name.clone(), e.is_file)).collect()
}

fn granting(id: i64, name: &str, grants: &[(&str, i64)]) -> Identity {
    Identity {
        id,
        username: name.to_string(),
        verified: true,
        services: vec![],
        access: grants
            .iter()
            .map(|(c, a)| Grant { capability: c.to_string(), account: *a })
            .collect(),
    }
}

#[test]
fn overlay_children_show_as_files() {
    let raw = vec![entry("world", false), entry("notes.txt", true), entry("docs", false)];
    let merged = merge_listing(&raw, &vec![true, false, false]);
    assert_eq!(
        pairs(&merged),
        vec![
            ("docs".to_string(), false),
            ("notes.txt".to_string(), true),
            ("world".to_string(), true)
        ]
    );
}

#[test]
fn merge_twice_is_identical() {
    let raw = vec![entry("b", false), entry("a", false), entry("c.txt", true)];
    let overlay = vec![false, true, false];
    let first = merge_listing(&raw, &overlay);
    let second = merge_listing(&raw, &overlay);
    assert_eq!(pairs(&first), pairs(&second));
    assert_eq!(
        pairs(&first),
        vec![("a".to_string(), true), ("b".to_string(), false), ("c.txt".to_string(), true)]
    );
}

#[test]
fn merge_order_does_not_depend_on_the_lister() {
    let one = vec![entry("zeta", false), entry("Alpha", true), entry("beta", false), entry("beta", true)];
    let other = vec![entry("beta", true), entry("zeta", false), entry("beta", false), entry("Alpha", true)];
    let a = merge_listing(&one, &vec![false; 4]);
    let b = merge_listing(&other, &vec![false; 4]);
    assert_eq!(pairs(&a), pairs(&b));
    assert_eq!(
        pairs(&a),
        vec![
            ("Alpha".to_string(), true),
            ("beta".to_string(), false),
            ("beta".to_string(), true),
            ("zeta".to_string(), false)
        ]
    );
}

#[test]
fn merge_of_empty_listing_is_empty() {
    assert!(merge_listing(&vec![], &vec![]).is_empty());
    let raw = vec![entry("d", false)];
    assert_eq!(pairs(&merge_listing(&raw, &vec![])), vec![("d".to_string(), false)]);
}

#[test]
fn shared_listing_names_granting_accounts() {
    let accounts = vec![
        granting(10, "dave", &[("file", 1), ("file", 42)]),
        granting(7, "alice", &[("file", 42)]),
        granting(8, "bob", &[("file", 43)]),
        granting(9, "carol", &[("blue", 42)]),
        granting(7, "alice", &[("file", 42)]),
        granting(10, "dave", &[("file", 42)]),
    ];
    let listing = shared_root_listing(42, &accounts);
    assert_eq!(
        pairs(&listing),
        vec![("alice".to_string(), false), ("dave".to_string(), false)]
    );
    assert!(shared_root_listing(42, &vec![]).is_empty());
}
