use uuid::Uuid;
use zellij_relay::registry::{Registry, RoGroup, TunnelEntry};

fn make_entry(slug: &str) -> TunnelEntry {
    TunnelEntry::new(
        Uuid::new_v4().as_u128(),
        slug.to_string(),
        format!("http://localhost/r/{}", slug),
        "test-session".to_string(),
        "0.45.0".to_string(),
    )
}

#[test]
fn insert_lookup_remove() {
    let mut registry = Registry::new();
    let entry = make_entry("abc");
    let tunnel_id = entry.tunnel_id;
    registry.insert(entry);
    let fetched = registry.get("abc").expect("entry present");
    assert_eq!(fetched.tunnel_id, tunnel_id);
    assert_eq!(fetched.slug, "abc");
    registry.remove("abc");
    assert!(registry.get("abc").is_none());
    assert_eq!(registry.len(), 0);
}

#[test]
fn duplicate_slug_insert_overwrites() {
    let mut registry = Registry::new();
    let first = make_entry("dup");
    let first_id = first.tunnel_id;
    registry.insert(first);

    let second = make_entry("dup");
    let second_id = second.tunnel_id;
    assert_ne!(first_id, second_id);
    registry.insert(second);

    let fetched = registry.get("dup").expect("entry present");
    assert_eq!(fetched.tunnel_id, second_id);
    assert_eq!(registry.len(), 1);
}

#[test]
fn viewers_for_client_id_rw_and_ro() {
    let mut entry = make_entry("lookup");
    let ro_viewer_a = Uuid::new_v4().as_u128();
    let ro_viewer_b = Uuid::new_v4().as_u128();
    let rw_viewer = Uuid::new_v4().as_u128();
    let ro_group_client_id = 7u32;
    let rw_client_id = 9u32;
    let token_hash = "deadbeef".to_string();

    entry
        .client_id_to_token_hash
        .insert(ro_group_client_id, token_hash.clone());
    entry.ro_groups.insert(
        token_hash.clone(),
        RoGroup {
            validated: true,
            active_client_id: Some(ro_group_client_id),
            e2e_encrypted: true,
            viewer_ids: vec![ro_viewer_a, ro_viewer_b],
            session_size: None,
        },
    );
    entry.client_id_to_viewer.insert(rw_client_id, rw_viewer);

    let rw = entry.viewers_for_client_id(rw_client_id);
    assert_eq!(rw, vec![rw_viewer]);

    let mut ro = entry.viewers_for_client_id(ro_group_client_id);
    ro.sort();
    let mut expected = vec![ro_viewer_a, ro_viewer_b];
    expected.sort();
    assert_eq!(ro, expected);

    assert_eq!(entry.viewers_for_client_id(999).len(), 0);
}

#[test]
fn tunnels_do_not_disturb_each_other() {
    let mut registry = Registry::new();
    registry.insert(make_entry("one"));
    let two = make_entry("two");
    let two_id = two.tunnel_id;
    registry.insert(two);
    assert_eq!(registry.len(), 2);
    let removed = registry.remove("one").expect("entry present");
    assert_eq!(removed.slug, "one");
    assert!(registry.remove("one").is_none());
    assert_eq!(registry.get("two").map(|e| e.tunnel_id), Some(two_id));
}

#[test]
fn new_tunnel_is_empty() {
    let entry = make_entry("new");
    assert!(!entry.terminal_linked_flag);
    assert_eq!(entry.terminal_tx, None);
    assert_eq!(entry.pending_auths.len(), 0);
    assert_eq!(entry.viewers.len(), 0);
    assert_eq!(entry.sessions.len(), 0);
    assert_eq!(entry.client_id_to_viewer.len(), 0);
    assert_eq!(entry.ro_groups.len(), 0);
    assert_eq!(entry.client_id_to_token_hash.len(), 0);
}

#[test]
fn a_viewer_is_in_a_group_once() {
    let mut group = RoGroup::opened(7, true, 1);
    assert!(group.validated);
    assert_eq!(group.active_client_id, Some(7));
    group.add_viewer(2);
    group.add_viewer(1);
    assert_eq!(group.viewer_ids, vec![1, 2]);
    group.remove_viewer(1);
    group.remove_viewer(5);
    assert_eq!(group.viewer_ids, vec![2]);
}

#[test]
fn the_registry_counts_its_tunnels() {
    let mut registry = Registry::new();
    assert_eq!(registry.len(), 0);
    registry.insert(make_entry("one"));
    registry.insert(make_entry("two"));
    assert_eq!(registry.len(), 2);
    registry.insert(make_entry("one"));
    assert_eq!(registry.len(), 2);
    assert!(registry.remove("three").is_none());
    assert_eq!(registry.len(), 2);
    assert!(registry.remove("one").is_some());
    assert_eq!(registry.len(), 1);
}
