use badger_backend::model::{Claim, NewBadge, NewUser, Organisation, Role, StableData};
use badger_backend::principal::{Caller, PrincipalId};
use badger_backend::store::Store;
use badger_backend::table::{List, Record, Table};
use badger_backend::util::{generate_organisations, generate_roles};

fn principal(n: u8) -> PrincipalId {
    PrincipalId::from_slice(&[n, 7]).unwrap()
}

fn caller(n: u8) -> Caller {
    Caller::new(principal(n))
}

fn anonymous() -> Caller {
    Caller::new(PrincipalId::anonymous())
}

fn new_user(name: &str, organisation_id: u128, roles: &[u128]) -> NewUser {
    NewUser {
        name: String::from(name),
        email: format!("{}@example.org", name),
        organisation_id,
        roles: roles.to_vec(),
    }
}

fn new_badge(title: &str, issuer_id: u128, owner: &Caller) -> NewBadge {
    NewBadge {
        title: String::from(title),
        description: Some(String::from("d")),
        badge_type: 1,
        issuer_id,
        owner_id: owner.text.clone(),
        claims: vec![Claim { key: String::from("k"), value: String::from("v") }],
    }
}

fn seeded_organisations(created_at: u64) -> Vec<Organisation> {
    [
        "Zurich University of Applied Sciences",
        "ETH Zurich",
        "University of Zurich",
        "University of Bern",
        "FHNW",
        "EPFL",
    ]
    .iter()
    .enumerate()
    .map(|(i, name)| Organisation { id: i as u128 + 1, name: String::from(*name), created_at })
    .collect()
}

/// A store with users, badges, a pending request and an approval.
fn populated() -> Store {
    let mut store = Store::new();
    store.init(5);
    store.users_create_one(&caller(1), new_user("admin", 1, &[3]), 0).unwrap();
    store.users_create_one(&caller(2), new_user("owner", 2, &[1]), 0).unwrap();
    store.users_create_one(&caller(3), new_user("c", 2, &[4, 3]), 0).unwrap();
    store.users_create_one(&caller(4), new_user("d", 2, &[4, 3]), 0).unwrap();
    store.badges_create_one(&caller(1), new_badge("one", 2, &caller(2)), 1).unwrap();
    store.badges_create_one(&caller(1), new_badge("two", 3, &caller(2)), 2).unwrap();
    store.badges_revoke_one(&caller(1), 2).unwrap();
    store.requests_create_one(&caller(3), 1, 3).unwrap();
    store.requests_create_one(&caller(4), 1, 4).unwrap();
    store.requests_approve_one(&caller(2), 1).unwrap();
    store
}

#[test]
fn init_seeds_organisations_and_roles() {
    let mut store = Store::new();
    store.init(77);
    assert_eq!(store.organisations_get_all(&caller(1)), Ok(seeded_organisations(77)));
    assert_eq!(
        store.roles_get_all(),
        Ok(vec![
            Role { id: 1, name: String::from("Student") },
            Role { id: 2, name: String::from("Lecturer") },
            Role { id: 3, name: String::from("Administrator") },
            Role { id: 4, name: String::from("Company") },
        ])
    );
    assert_eq!(store.principals.len(), 0);
    assert_eq!(store.badges.len(), 0);
    assert_eq!(store.access_requests.len(), 0);
    assert_eq!(store.badge_access_approvals.len(), 0);
}

#[test]
fn seeding_replaces_what_has_the_same_id() {
    let mut store = Store::new();
    store.organisations_create_one(&caller(1), String::from("Acme"), 1).unwrap();
    store.organisations.put(9, Organisation { id: 9, name: String::from("Far"), created_at: 2 });
    generate_organisations(&mut store, 3);
    let mut expected = seeded_organisations(3);
    // Acme had the id 1 and the first place: the place stays, the record is
    // the seeded one. The organisation 9 keeps its place as the second.
    expected.insert(1, Organisation { id: 9, name: String::from("Far"), created_at: 2 });
    assert_eq!(store.organisations_get_all(&caller(1)), Ok(expected));

    store.roles.put(3, Role { id: 3, name: String::from("Root") });
    generate_roles(&mut store);
    let names: Vec<String> = store.roles_get_all().unwrap().into_iter().map(|r| r.name).collect();
    assert_eq!(names, vec!["Administrator", "Student", "Lecturer", "Company"]);
    // Seeding twice changes nothing more.
    let before = store.roles_get_all();
    generate_roles(&mut store);
    assert_eq!(store.roles_get_all(), before);
}

#[test]
fn snapshot_holds_the_four_tables() {
    let store = populated();
    let data = store.pre_upgrade();
    assert_eq!(data.principals, store.principals);
    assert_eq!(data.badges, store.badges);
    assert_eq!(data.access_requests, store.access_requests);
    assert_eq!(data.badge_access_approvals, store.badge_access_approvals);
    assert_eq!(data.principals.len(), 4);
    assert_eq!(data.badges.len(), 2);
    assert_eq!(data.access_requests.len(), 1);
    assert_eq!(data.badge_access_approvals.len(), 1);
    assert_eq!(data.duplicate(), data);
}

#[test]
fn snapshot_round_trip() {
    let store = populated();
    let data = store.pre_upgrade();

    let mut restored = Store::new();
    restored.post_upgrade(&data, 9);
    assert_eq!(restored.principals, store.principals);
    assert_eq!(restored.badges, store.badges);
    assert_eq!(restored.access_requests, store.access_requests);
    assert_eq!(restored.badge_access_approvals, store.badge_access_approvals);
    // The organisations and roles come from the seeds, not from the
    // snapshot.
    assert_eq!(restored.organisations_get_all(&caller(1)), Ok(seeded_organisations(9)));
    assert_eq!(restored.roles_get_all(), store.roles_get_all());

    // What the calls show is the same as before.
    assert_eq!(
        restored.badges_get_all(&caller(1), None, None),
        store.badges_get_all(&caller(1), None, None)
    );
    assert_eq!(restored.users_get_all(&caller(1), None, None), store.users_get_all(&caller(1), None, None));
    assert_eq!(restored.requests_get_all(&caller(2)), store.requests_get_all(&caller(2)));
    assert!(restored.badges_get_one(&caller(1), 2).unwrap().is_revoked);
    assert_eq!(restored.badges_get_one(&caller(3), 1).unwrap().claims.len(), 1);
    assert_eq!(restored.badges_get_one(&caller(4), 1).unwrap().claims.len(), 0);
}

#[test]
fn snapshot_round_trip_of_an_empty_store() {
    let store = Store::new();
    let data = store.pre_upgrade();
    let mut restored = Store::new();
    restored.post_upgrade(&data, 0);
    assert_eq!(restored.principals.len(), 0);
    assert_eq!(restored.badges.len(), 0);
    assert_eq!(restored.organisations.len(), 6);
    assert_eq!(restored.roles.len(), 4);
}

#[test]
fn restore_overwrites_by_key_and_keeps_the_rest() {
    let old = populated();
    let data = old.pre_upgrade();

    // A store that went on after the snapshot was taken.
    let mut store = populated();
    store.badges_revoke_one(&caller(1), 1).unwrap();
    store.badges_create_one(&caller(1), new_badge("three", 1, &caller(2)), 7).unwrap();
    store.users_create_one(&caller(8), new_user("late", 1, &[1]), 7).unwrap();

    store.post_upgrade(&data, 11);
    // Badge 1 is as in the snapshot again; badge 3 and the late user stay.
    assert!(!store.badges_get_one(&caller(1), 1).unwrap().is_revoked);
    let titles: Vec<String> = store
        .badges_get_all(&caller(1), None, None)
        .unwrap()
        .into_iter()
        .map(|b| b.title)
        .collect();
    assert_eq!(titles, vec!["one", "two", "three"]);
    assert_eq!(store.users_whoami(&caller(8)).unwrap().name, "late");
    assert_eq!(store.principals.len(), 5);
}

#[test]
fn stable_data_can_be_built_by_hand() {
    let mut principals = Table::new();
    let user = populated().users_whoami(&caller(2)).unwrap();
    principals.put(principal(2), user.clone());
    let data = StableData {
        principals,
        badges: Table::new(),
        access_requests: Table::new(),
        badge_access_approvals: {
            let mut t = Table::new();
            t.put(4, List { items: vec![principal(2)] });
            t
        },
    };
    let mut store = Store::new();
    store.post_upgrade(&data, 0);
    assert_eq!(store.users_whoami(&caller(2)), Ok(user));
    assert_eq!(store.badge_access_approvals.get(&4), Some(&List { items: vec![principal(2)] }));
}
