//! What the calls share: who the caller is, what a company may see of a
//! badge, and the records that every store starts with.

use crate::error::Error;
use crate::model::{Badge, Organisation, Role, User};
use crate::principal::{principal_text, Caller, CallerView, PrincipalId};
use crate::rules;
use crate::rules::{option_view, outcome_view};
use crate::store::Store;
use crate::table::{merge_upto, Record};
use vstd::prelude::*;
use vstd::string::StringExecFns;

verus! {

/// The caller with the principal `caller`, under the text form of that
/// principal, unless it is the anonymous one.
pub fn authenticated_caller(caller: PrincipalId) -> (r: Result<Caller, Error>)
    ensures
        outcome_view(r) == match rules::caller_identity(caller@) {
            Ok(p) => Ok(CallerView { principal: p, text: principal_text(p) }),
            Err(e) => Err(e),
        },
{
    if caller.is_anonymous() {
        Err(Error::Unauthenticated)
    } else {
        Ok(Caller::new(caller))
    }
}

/// The user registered under the principal `p`.
pub fn authenticated_user(store: &Store, p: &PrincipalId) -> (r: Option<User>)
    ensures
        option_view(r) == crate::table::get(store@.principals, p@),
{
    match store.principals.get(p) {
        Some(user) => Some(user.duplicate()),
        None => None,
    }
}

/// Whether the principal `principal` was given the claims of the badge
/// `badge_id`. Where there is no principal, nothing was given.
pub fn is_approved_with(store: &Store, badge_id: u128, principal: &Option<PrincipalId>) -> (r: bool)
    ensures
        r == rules::approved_with(store@.badge_access_approvals, badge_id, option_view(*principal)),
{
    match store.badge_access_approvals.get(&badge_id) {
        None => false,
        Some(granted) => match principal {
            None => false,
            Some(p) => granted.contains(p),
        },
    }
}

/// Whether the principal written as `text` was given the claims of the badge
/// `badge_id`.
pub fn is_approved(store: &Store, badge_id: u128, text: &str) -> (r: bool)
    ensures
        r == rules::approved(store@.badge_access_approvals, badge_id, text@),
{
    let principal = PrincipalId::from_text(text);
    is_approved_with(store, badge_id, &principal)
}

/// A copy of the badge as the user may see it, where the user's own text
/// denotes the principal `reader` or none: without its claims where the user
/// has the company role and was not given them.
pub fn clear_claims_with(
    store: &Store,
    user: &User,
    badge: &Badge,
    reader: &Option<PrincipalId>,
) -> (r: Badge)
    ensures
        r@ == rules::clear_claims_with(store@, user@, badge@, option_view(*reader)),
{
    let mut result = badge.duplicate();
    if !user.is_company() {
        return result;
    }
    if !is_approved_with(store, badge.id, reader) {
        result.claims = Vec::new();
        assert(result@.claims =~= Seq::empty());
    }
    result
}

/// A copy of the badge as the user may see it: without its claims where the
/// user has the company role and was not given them.
pub fn clear_claims(store: &Store, user: &User, badge: &Badge) -> (r: Badge)
    ensures
        r@ == rules::clear_claims(store@, user@, badge@),
{
    let reader = PrincipalId::from_text(user.principal_id.as_str());
    clear_claims_with(store, user, badge, &reader)
}

fn organisation_name(i: usize) -> (r: &'static str)
    requires
        i < 6,
    ensures
        r@ == rules::organisation_name(i as int),
{
    if i == 0 {
        "Zurich University of Applied Sciences"
    } else if i == 1 {
        "ETH Zurich"
    } else if i == 2 {
        "University of Zurich"
    } else if i == 3 {
        "University of Bern"
    } else if i == 4 {
        "FHNW"
    } else {
        "EPFL"
    }
}

fn role_name(i: usize) -> (r: &'static str)
    requires
        i < 4,
    ensures
        r@ == rules::role_name(i as int),
{
    if i == 0 {
        "Student"
    } else if i == 1 {
        "Lecturer"
    } else if i == 2 {
        "Administrator"
    } else {
        "Company"
    }
}

/// Puts the seeded organisations into the registry, each with the time
/// `created_at`: one that is there under the same id is replaced.
pub fn generate_organisations(store: &mut Store, created_at: u64)
    ensures
        final(store)@ == rules::with_organisations(old(store)@, created_at),
{
    let mut i: usize = 0;
    while i < 6
        invariant
            i <= 6,
            store@ == (rules::StoreView {
                organisations: merge_upto(
                    old(store)@.organisations,
                    rules::seed_organisations(created_at),
                    i as nat,
                ),
                ..old(store)@
            }),
        decreases 6 - i,
    {
        let id: u128 = (i + 1) as u128;
        let name = String::from_str(organisation_name(i));
        store.organisations.put(id, Organisation { id, name, created_at });
        i += 1;
    }
}

/// Puts the fixed roles into the catalog: one that is there under the same
/// id is replaced.
pub fn generate_roles(store: &mut Store)
    ensures
        final(store)@ == rules::with_roles(old(store)@),
{
    let mut i: usize = 0;
    while i < 4
        invariant
            i <= 4,
            store@ == (rules::StoreView {
                roles: merge_upto(old(store)@.roles, rules::seed_roles(), i as nat),
                ..old(store)@
            }),
        decreases 4 - i,
    {
        let id: u128 = (i + 1) as u128;
        let name = String::from_str(role_name(i));
        store.roles.put(id, Role { id, name });
        i += 1;
    }
}

} // verus!
