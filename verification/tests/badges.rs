use badger_backend::error::{Denied, Error, Missing};
use badger_backend::model::{Badge, Claim, NewBadge, NewUser, Organisation};
use badger_backend::principal::{Caller, PrincipalId};
use badger_backend::store::{badge_filter, Store};
use badger_backend::util::{clear_claims, generate_roles, is_approved};

fn principal(n: u8) -> PrincipalId {
    PrincipalId::from_slice(&[n, 7]).unwrap()
}

fn caller(n: u8) -> Caller {
    Caller::new(principal(n))
}

fn anonymous() -> Caller {
    Caller::new(PrincipalId::anonymous())
}

fn new_user(name: &str, organisation_id: u128, roles: &[u128]) -> NewUser {
    NewUser {
        name: String::from(name),
        email: format!("{}@example.org", name),
        organisation_id,
        roles: roles.to_vec(),
    }
}

fn claims() -> Vec<Claim> {
    vec![
        Claim { key: String::from("grade"), value: String::from("A") },
        Claim { key: String::from("year"), value: String::from("2024") },
    ]
}

fn new_badge(title: &str, issuer_id: u128, owner: &Caller) -> NewBadge {
    NewBadge {
        title: String::from(title),
        description: Some(String::from("about")),
        badge_type: 3,
        issuer_id,
        owner_id: owner.text.clone(),
        claims: claims(),
    }
}

const ADMIN: u8 = 1;
const LECTURER: u8 = 2;
const OTHER_LECTURER: u8 = 3;
const STUDENT: u8 = 4;
const OTHER_STUDENT: u8 = 5;
const COMPANY: u8 = 6;

/// Roles, the organisations Acme (1) and Beta (2), and one user of each
/// kind.
fn world() -> Store {
    let mut store = Store::new();
    generate_roles(&mut store);
    let founder = caller(0);
    store.organisations_create_one(&founder, String::from("Acme"), 10).unwrap();
    store.organisations_create_one(&founder, String::from("Beta"), 11).unwrap();
    store.users_create_one(&caller(ADMIN), new_user("admin", 2, &[3]), 0).unwrap();
    store.users_create_one(&caller(LECTURER), new_user("lecturer1", 1, &[2]), 0).unwrap();
    store.users_create_one(&caller(OTHER_LECTURER), new_user("lecturer2", 2, &[2]), 0).unwrap();
    store.users_create_one(&caller(STUDENT), new_user("student1", 1, &[1]), 0).unwrap();
    store.users_create_one(&caller(OTHER_STUDENT), new_user("student2", 2, &[1]), 0).unwrap();
    store.users_create_one(&caller(COMPANY), new_user("company", 1, &[4]), 0).unwrap();
    store
}

#[test]
fn end_to_end_scenario() {
    let mut store = Store::new();
    generate_roles(&mut store);
    let admin = caller(ADMIN);
    let lecturer = caller(LECTURER);
    let student = caller(STUDENT);

    let acme = store.organisations_create_one(&admin, String::from("Acme"), 1).unwrap();
    assert_eq!(acme, Organisation { id: 1, name: String::from("Acme"), created_at: 1 });

    let l = store.users_create_one(&lecturer, new_user("lecturer1", 1, &[2]), 2).unwrap();
    assert!(l.is_lecturer());
    assert_eq!(l.organisation.id, 1);
    let s = store.users_create_one(&student, new_user("student1", 1, &[1]), 3).unwrap();

    let badge = store.badges_create_one(&lecturer, new_badge("Intro", 1, &student), 4).unwrap();
    assert_eq!(
        badge,
        Badge {
            id: 1,
            title: String::from("Intro"),
            description: Some(String::from("about")),
            badge_type: 3,
            issuer: acme,
            owner: s,
            is_revoked: false,
            claims: claims(),
            signed_by: vec![lecturer.text.clone()],
            created_at: 4,
        }
    );
    assert_eq!(store.badges_get_one(&lecturer, 1), Ok(badge.clone()));

    assert_eq!(store.badges_revoke_one(&lecturer, 1), Ok(true));
    let revoked = store.badges_get_one(&lecturer, 1).unwrap();
    assert!(revoked.is_revoked);
    assert_eq!(revoked, Badge { is_revoked: true, ..badge });

    assert_eq!(
        store.badges_revoke_one(&student, 1),
        Err(Error::Forbidden(student.text.clone(), Denied::Revoke(1)))
    );
    assert!(store.badges_get_one(&student, 1).unwrap().is_revoked);
}

#[test]
fn badge_ids_count_up_from_one() {
    let mut store = world();
    let admin = caller(ADMIN);
    let student = caller(STUDENT);
    for expected in 1..=4u128 {
        let b = store.badges_create_one(&admin, new_badge("b", 1, &student), 0).unwrap();
        assert_eq!(b.id, expected);
    }
    let ids: Vec<u128> =
        store.badges_get_all(&admin, None, None).unwrap().iter().map(|b| b.id).collect();
    assert_eq!(ids, vec![1, 2, 3, 4]);
}

#[test]
fn create_badge_refusals_in_order() {
    let mut store = world();
    let admin = caller(ADMIN);
    let lecturer = caller(LECTURER);
    let student = caller(STUDENT);
    let before = store.pre_upgrade();

    assert_eq!(
        store.badges_create_one(&anonymous(), new_badge("b", 1, &student), 0),
        Err(Error::Unauthenticated)
    );
    assert_eq!(
        store.badges_create_one(&caller(99), new_badge("b", 1, &student), 0),
        Err(Error::NotFound(Missing::User(caller(99).text.clone())))
    );
    // A student and a company may never issue.
    assert_eq!(
        store.badges_create_one(&student, new_badge("b", 1, &student), 0),
        Err(Error::Forbidden(student.text.clone(), Denied::Issue(1)))
    );
    assert_eq!(
        store.badges_create_one(&caller(COMPANY), new_badge("b", 1, &student), 0),
        Err(Error::Forbidden(caller(COMPANY).text.clone(), Denied::Issue(1)))
    );
    // A lecturer only for the own organisation; the refusal comes before
    // the look for the organisation.
    assert_eq!(
        store.badges_create_one(&lecturer, new_badge("b", 2, &student), 0),
        Err(Error::Forbidden(lecturer.text.clone(), Denied::Issue(2)))
    );
    assert_eq!(
        store.badges_create_one(&lecturer, new_badge("b", 42, &student), 0),
        Err(Error::Forbidden(lecturer.text.clone(), Denied::Issue(42)))
    );
    assert_eq!(
        store.badges_create_one(&admin, new_badge("b", 42, &student), 0),
        Err(Error::NotFound(Missing::Organisation(42)))
    );
    let mut malformed = new_badge("b", 1, &student);
    malformed.owner_id = String::from("nobody");
    assert_eq!(
        store.badges_create_one(&admin, malformed, 0),
        Err(Error::InvalidInput(String::from("nobody")))
    );
    assert_eq!(
        store.badges_create_one(&admin, new_badge("b", 1, &caller(99)), 0),
        Err(Error::NotFound(Missing::User(caller(99).text.clone())))
    );
    assert_eq!(store.pre_upgrade(), before);
    assert_eq!(store.badges_get_all(&admin, None, None), Ok(Vec::new()));
}

#[test]
fn revoke_twice_succeeds_and_stays_revoked() {
    let mut store = world();
    let admin = caller(ADMIN);
    let student = caller(STUDENT);
    store.badges_create_one(&admin, new_badge("b", 1, &student), 0).unwrap();
    assert_eq!(store.badges_revoke_one(&admin, 1), Ok(true));
    let after_first = store.pre_upgrade();
    assert_eq!(store.badges_revoke_one(&admin, 1), Ok(true));
    assert_eq!(store.pre_upgrade(), after_first);
    assert!(store.badges_get_one(&admin, 1).unwrap().is_revoked);
    // Other calls leave the flag alone.
    store.badges_create_one(&admin, new_badge("c", 1, &student), 0).unwrap();
    store.users_create_one(&caller(50), new_user("late", 1, &[1]), 0).unwrap();
    assert!(store.badges_get_one(&admin, 1).unwrap().is_revoked);
    assert!(!store.badges_get_one(&admin, 2).unwrap().is_revoked);
}

#[test]
fn revoke_rules() {
    let mut store = world();
    let admin = caller(ADMIN);
    let lecturer = caller(LECTURER);
    let other_lecturer = caller(OTHER_LECTURER);
    let student = caller(STUDENT);
    let other_student = caller(OTHER_STUDENT);
    store.badges_create_one(&lecturer, new_badge("b", 1, &student), 0).unwrap();

    assert_eq!(store.badges_revoke_one(&anonymous(), 1), Err(Error::Unauthenticated));
    assert_eq!(
        store.badges_revoke_one(&caller(99), 1),
        Err(Error::NotFound(Missing::User(caller(99).text.clone())))
    );
    assert_eq!(store.badges_revoke_one(&admin, 7), Err(Error::NotFound(Missing::Badge(7))));
    // The owner sees the badge and still may not revoke it.
    assert_eq!(
        store.badges_revoke_one(&student, 1),
        Err(Error::Forbidden(student.text.clone(), Denied::Revoke(1)))
    );
    // Who cannot see the badge is told so.
    assert_eq!(
        store.badges_revoke_one(&other_student, 1),
        Err(Error::Forbidden(other_student.text.clone(), Denied::BadgeAccess(1)))
    );
    assert_eq!(
        store.badges_revoke_one(&other_lecturer, 1),
        Err(Error::Forbidden(other_lecturer.text.clone(), Denied::BadgeAccess(1)))
    );
    assert_eq!(
        store.badges_revoke_one(&caller(COMPANY), 1),
        Err(Error::Forbidden(caller(COMPANY).text.clone(), Denied::BadgeAccess(1)))
    );
    assert!(!store.badges_get_one(&admin, 1).unwrap().is_revoked);
    // An administrator of another organisation may.
    assert_eq!(store.badges_revoke_one(&admin, 1), Ok(true));
    assert!(store.badges_get_one(&admin, 1).unwrap().is_revoked);
}

#[test]
fn student_with_a_second_role_follows_that_role() {
    let mut store = world();
    let both = caller(20);
    store.users_create_one(&both, new_user("both", 1, &[1, 2]), 0).unwrap();
    store.badges_create_one(&both, new_badge("own", 1, &both), 0).unwrap();
    assert_eq!(store.badges_revoke_one(&both, 1), Ok(true));
}

#[test]
fn get_one_badge() {
    let mut store = world();
    let lecturer = caller(LECTURER);
    let student = caller(STUDENT);
    let b = store.badges_create_one(&lecturer, new_badge("b", 1, &student), 0).unwrap();
    assert_eq!(store.badges_get_one(&student, 1), Ok(b.clone()));
    assert_eq!(store.badges_get_one(&caller(ADMIN), 1), Ok(b));
    assert_eq!(
        store.badges_get_one(&caller(OTHER_STUDENT), 1),
        Err(Error::Forbidden(caller(OTHER_STUDENT).text.clone(), Denied::BadgeAccess(1)))
    );
    assert_eq!(
        store.badges_get_one(&caller(COMPANY), 1),
        Err(Error::Forbidden(caller(COMPANY).text.clone(), Denied::BadgeAccess(1)))
    );
    assert_eq!(store.badges_get_one(&student, 2), Err(Error::NotFound(Missing::Badge(2))));
    assert_eq!(
        store.badges_get_one(&caller(99), 1),
        Err(Error::NotFound(Missing::User(caller(99).text.clone())))
    );
    assert_eq!(store.badges_get_one(&anonymous(), 1), Err(Error::Unauthenticated));
}

#[test]
fn list_badges_by_access_and_filters() {
    let mut store = world();
    let admin = caller(ADMIN);
    let lecturer = caller(LECTURER);
    let student = caller(STUDENT);
    let other_student = caller(OTHER_STUDENT);
    store.badges_create_one(&admin, new_badge("one", 1, &student), 0).unwrap();
    store.badges_create_one(&admin, new_badge("two", 2, &student), 0).unwrap();
    store.badges_create_one(&admin, new_badge("three", 1, &other_student), 0).unwrap();
    store.badges_create_one(&admin, new_badge("four", 2, &other_student), 0).unwrap();

    let titles = |r: Result<Vec<Badge>, Error>| -> Vec<String> {
        r.unwrap().into_iter().map(|b| b.title).collect()
    };
    assert_eq!(
        titles(store.badges_get_all(&admin, None, None)),
        vec!["one", "two", "three", "four"]
    );
    assert_eq!(titles(store.badges_get_all(&admin, None, Some(2))), vec!["two", "four"]);
    assert_eq!(
        titles(store.badges_get_all(&admin, Some(student.text.clone()), None)),
        vec!["one", "two"]
    );
    assert_eq!(
        titles(store.badges_get_all(&admin, Some(other_student.text.clone()), Some(1))),
        vec!["three"]
    );
    assert_eq!(
        titles(store.badges_get_all(&admin, Some(String::from("nobody")), None)),
        Vec::<String>::new()
    );
    assert_eq!(titles(store.badges_get_all(&lecturer, None, None)), vec!["one", "three"]);
    assert_eq!(titles(store.badges_get_all(&lecturer, None, Some(2))), Vec::<String>::new());
    assert_eq!(titles(store.badges_get_all(&student, None, None)), vec!["one", "two"]);
    assert_eq!(
        titles(store.badges_get_all(&caller(COMPANY), None, None)),
        Vec::<String>::new()
    );
    assert_eq!(
        store.badges_get_all(&caller(99), None, None),
        Err(Error::NotFound(Missing::User(caller(99).text.clone())))
    );
    assert_eq!(
        store.badges_get_all(&anonymous(), None, None),
        Err(Error::Unauthenticated)
    );
}

#[test]
fn badge_filter_combines_access_and_filters() {
    let mut store = world();
    let admin = caller(ADMIN);
    let student = caller(STUDENT);
    let b = store.badges_create_one(&admin, new_badge("one", 1, &student), 0).unwrap();
    let a = store.users_whoami(&admin).unwrap();
    let other = store.users_whoami(&caller(OTHER_STUDENT)).unwrap();
    assert!(badge_filter(&a, &b, &None, None));
    assert!(badge_filter(&a, &b, &Some(student.text.clone()), Some(1)));
    assert!(!badge_filter(&a, &b, &Some(admin.text.clone()), None));
    assert!(!badge_filter(&a, &b, &None, Some(2)));
    assert!(!badge_filter(&other, &b, &None, None));
}

#[test]
fn clear_claims_only_for_an_unapproved_company() {
    let mut store = world();
    let admin = caller(ADMIN);
    let student = caller(STUDENT);
    let b = store.badges_create_one(&admin, new_badge("one", 1, &student), 0).unwrap();
    let company = store.users_whoami(&caller(COMPANY)).unwrap();
    let s = store.users_whoami(&student).unwrap();

    assert_eq!(clear_claims(&store, &s, &b), b);
    let cleared = clear_claims(&store, &company, &b);
    assert_eq!(cleared, Badge { claims: Vec::new(), ..b.clone() });
    assert!(!is_approved(&store, 1, &company.principal_id));
    assert!(!is_approved(&store, 1, "nobody"));
}
