//! The store: the tables of the system and the calls that read and change
//! them.

use crate::error::{Clash, Denied, Error, Missing};
use crate::model::{
    AccessRequest, Badge, NewBadge, NewUser, Organisation, Role, StableData, StoredAccessRequest,
    User,
};
use crate::principal::{Caller, PrincipalId};
use crate::rules;
use crate::rules::{listing_view, option_view, outcome_view, StoreView};
use crate::table::{values, views, List, Record, Table};
use crate::util::{clear_claims_with, generate_organisations, generate_roles, is_approved_with};
use vstd::prelude::*;

verus! {

/// Whether a user belongs in a listing that `auth_user` asked for.
pub fn user_filter(
    auth_user: &User,
    other_user: &User,
    org_id: Option<u128>,
    role_id: Option<u128>,
) -> (r: bool)
    ensures
        r == rules::user_filter(auth_user@, other_user@, org_id, role_id),
{
    if !auth_user.has_user_access(other_user) {
        return false;
    }
    let org_passes = match org_id {
        Some(id) => other_user.organisation.id == id,
        None => true,
    };
    let role_passes = match role_id {
        Some(id) => other_user.has_role(id),
        None => true,
    };
    org_passes && role_passes
}

/// Whether a badge belongs in a listing that `user` asked for.
pub fn badge_filter(
    user: &User,
    badge: &Badge,
    principal_id: &Option<String>,
    organisation_id: Option<u128>,
) -> (r: bool)
    ensures
        r == rules::badge_filter(
            user@,
            badge@,
            crate::model::text_view(*principal_id),
            organisation_id,
        ),
{
    if !user.has_badge_access(badge) {
        return false;
    }
    let org_passes = match organisation_id {
        Some(id) => badge.issuer.id == id,
        None => true,
    };
    let owner_passes = match principal_id {
        Some(text) => badge.owner.principal_id == *text,
        None => true,
    };
    org_passes && owner_passes
}

/// Whether some request of `list` was made by the principal written as
/// `text`, for the badge `badge_id`.
pub fn requested_in(list: &List<StoredAccessRequest>, text: &String, badge_id: u128) -> (r: bool)
    ensures
        r == rules::already_requested(list@, text@, badge_id),
{
    let mut j: usize = 0;
    while j < list.items.len()
        invariant
            j <= list.items.len(),
            forall|k: int|
                0 <= k < j ==> !((#[trigger] list@[k]).badge_id == badge_id && list@[k].principal_id
                    == text@),
        decreases list.items.len() - j,
    {
        if list.items[j].badge_id == badge_id && list.items[j].principal_id == *text {
            assert(list@[j as int].badge_id == badge_id && list@[j as int].principal_id == text@);
            return true;
        }
        j += 1;
    }
    false
}

/// The place of the first request of `list` with the id `id`.
pub fn position_in(list: &List<StoredAccessRequest>, id: u128) -> (r: Option<usize>)
    ensures
        match r {
            Some(j) => rules::first_request_at(list@, id, j as int),
            None => !rules::holds_request(list@, id),
        },
{
    let mut j: usize = 0;
    while j < list.items.len()
        invariant
            j <= list.items.len(),
            forall|k: int| 0 <= k < j ==> (#[trigger] list@[k]).id != id,
        decreases list.items.len() - j,
    {
        if list.items[j].id == id {
            assert(list@[j as int].id == id);
            return Some(j);
        }
        j += 1;
    }
    None
}

/// The tables of the system.
#[derive(Debug, PartialEq, Eq)]
pub struct Store {
    pub organisations: Table<u128, Organisation>,
    pub roles: Table<u128, Role>,
    pub principals: Table<PrincipalId, User>,
    pub badges: Table<u128, Badge>,
    pub access_requests: Table<PrincipalId, List<StoredAccessRequest>>,
    pub badge_access_approvals: Table<u128, List<PrincipalId>>,
}

impl View for Store {
    type V = StoreView;

    open spec fn view(&self) -> StoreView {
        StoreView {
            organisations: self.organisations@,
            roles: self.roles@,
            principals: self.principals@,
            badges: self.badges@,
            access_requests: self.access_requests@,
            badge_access_approvals: self.badge_access_approvals@,
        }
    }
}

impl Store {
    /// The store that holds nothing.
    pub fn new() -> (r: Store)
        ensures
            r@ == StoreView::empty(),
    {
        Store {
            organisations: Table::new(),
            roles: Table::new(),
            principals: Table::new(),
            badges: Table::new(),
            access_requests: Table::new(),
            badge_access_approvals: Table::new(),
        }
    }

    /// Starts the store out: puts the seeded organisations, with the time
    /// `now`, and the fixed roles in.
    pub fn init(&mut self, now: u64)
        ensures
            final(self)@ == rules::initial(old(self)@, now),
    {
        generate_organisations(self, now);
        generate_roles(self);
    }

    /// A snapshot of all that outlasts a restart.
    pub fn pre_upgrade(&self) -> (r: StableData)
        ensures
            r@ == rules::snapshot(self@),
    {
        StableData {
            principals: self.principals.duplicate(),
            badges: self.badges.duplicate(),
            access_requests: self.access_requests.duplicate(),
            badge_access_approvals: self.badge_access_approvals.duplicate(),
        }
    }

    /// Brings a snapshot back: seeds the organisations, with the time `now`,
    /// and the roles anew, then merges each table of the snapshot into the
    /// store's own.
    pub fn post_upgrade(&mut self, stable_data: &StableData, now: u64)
        ensures
            final(self)@ == rules::restored(old(self)@, stable_data@, now),
    {
        generate_organisations(self, now);
        generate_roles(self);
        self.principals.merge(&stable_data.principals);
        self.badges.merge(&stable_data.badges);
        self.access_requests.merge(&stable_data.access_requests);
        self.badge_access_approvals.merge(&stable_data.badge_access_approvals);
    }

    /// Founds an organisation under `name`, for every caller with an
    /// identity.
    pub fn organisations_create_one(&mut self, caller: &Caller, name: String, now: u64) -> (r:
        Result<Organisation, Error>)
        requires
            crate::table::largest_key(old(self)@.organisations) < u128::MAX,
        ensures
            outcome_view(r) == rules::found_outcome(old(self)@, caller@, name@, now),
            final(self)@ == rules::found_next(old(self)@, caller@, name@, now),
    {
        if caller.principal.is_anonymous() {
            return Err(Error::Unauthenticated);
        }
        let id: u128 = self.organisations.largest_key() + 1;
        let organisation = Organisation { id, name, created_at: now };
        let result = organisation.duplicate();
        proof {
            crate::table::lemma_above_largest_is_new(self@.organisations, id);
        }
        self.organisations.put(id, organisation);
        Ok(result)
    }

    /// Takes the organisation `organisation_id` out of the registry, for
    /// every caller with an identity.
    pub fn organisations_delete_one(&mut self, caller: &Caller, organisation_id: u128) -> (r:
        Result<bool, Error>)
        ensures
            outcome_view(r) == rules::dissolve_outcome(old(self)@, caller@, organisation_id),
            final(self)@ == rules::dissolve_next(old(self)@, caller@, organisation_id),
    {
        if caller.principal.is_anonymous() {
            return Err(Error::Unauthenticated);
        }
        if self.organisations.remove(&organisation_id) {
            Ok(true)
        } else {
            Err(Error::NotFound(Missing::Organisation(organisation_id)))
        }
    }

    /// The user that the caller is registered as.
    pub fn caller_user(&self, caller: &Caller) -> (r: Result<&User, Error>)
        ensures
            outcome_view(r) == rules::caller_user(self@, caller@),
    {
        if caller.principal.is_anonymous() {
            return Err(Error::Unauthenticated);
        }
        match self.principals.get(&caller.principal) {
            Some(user) => Ok(user),
            None => Err(Error::NotFound(Missing::User(caller.text.clone()))),
        }
    }

    /// The organisations, for every caller with an identity.
    pub fn organisations_get_all(&self, caller: &Caller) -> (r: Result<
        Vec<Organisation>,
        Error,
    >)
        ensures
            listing_view(r) == rules::organisations_outcome(self@, caller@),
    {
        if caller.principal.is_anonymous() {
            return Err(Error::Unauthenticated);
        }
        Ok(self.organisations.values())
    }

    /// The roles, for every caller.
    pub fn roles_get_all(&self) -> (r: Result<Vec<Role>, Error>)
        ensures
            listing_view(r) == Ok::<Seq<crate::model::RoleView>, crate::error::ErrorView>(
                values(self@.roles),
            ),
    {
        Ok(self.roles.values())
    }

    /// The users that the caller may see and that pass the filters, in the
    /// order of the directory.
    pub fn users_get_all(
        &self,
        caller: &Caller,
        organisation_id: Option<u128>,
        role_id: Option<u128>,
    ) -> (r: Result<Vec<User>, Error>)
        ensures
            listing_view(r) == rules::users_outcome(self@, caller@, organisation_id, role_id),
    {
        let auth_user = match self.caller_user(caller) {
            Ok(user) => user,
            Err(e) => {
                return Err(e);
            },
        };
        let ghost all = values(self@.principals);
        let ghost selector = rules::user_selector(auth_user@, organisation_id, role_id);
        let mut users: Vec<User> = Vec::new();
        let n = self.principals.len();
        let mut i: usize = 0;
        assert(all.take(0) =~= Seq::empty());
        assert(views(users@) =~= Seq::empty());
        proof {
            reveal(Seq::filter);
        }
        while i < n
            invariant
                i <= n,
                n == self@.principals.len(),
                all == values(self@.principals),
                selector == rules::user_selector(auth_user@, organisation_id, role_id),
                views(users@) == all.take(i as int).filter(selector),
            decreases n - i,
        {
            let user = self.principals.value_at(i);
            proof {
                assert(all.take(i + 1) =~= all.take(i as int).push(all[i as int]));
                all.take(i as int).lemma_filter_push(all[i as int], selector);
            }
            if user_filter(auth_user, user, organisation_id, role_id) {
                let ghost before = views(users@);
                users.push(user.duplicate());
                assert(views(users@) =~= before.push(user@));
            }
            i += 1;
        }
        assert(all.take(n as int) =~= all);
        Ok(users)
    }

    /// The user asked for by the text `principal_id`, which denotes the
    /// principal `asked` or none, where the caller may see that user.
    pub fn users_get_one_with(
        &self,
        caller: &Caller,
        principal_id: String,
        asked: Option<PrincipalId>,
    ) -> (r: Result<User, Error>)
        ensures
            outcome_view(r) == rules::user_outcome_with(
                self@,
                caller@,
                principal_id@,
                option_view(asked),
            ),
    {
        let auth_user = match self.caller_user(caller) {
            Ok(user) => user,
            Err(e) => {
                return Err(e);
            },
        };
        let principal = match asked {
            Some(p) => p,
            None => {
                return Err(Error::InvalidInput(principal_id));
            },
        };
        match self.principals.get(&principal) {
            Some(user) => {
                if !auth_user.has_user_access(user) {
                    return Err(
                        Error::Forbidden(caller.text.clone(), Denied::UserAccess(principal_id)),
                    );
                }
                Ok(user.duplicate())
            },
            None => Err(Error::NotFound(Missing::User(principal_id))),
        }
    }

    /// The user whose principal is written as `principal_id`, where the
    /// caller may see that user.
    pub fn users_get_one(&self, caller: &Caller, principal_id: String) -> (r: Result<User, Error>)
        ensures
            outcome_view(r) == rules::user_outcome(self@, caller@, principal_id@),
    {
        let asked = PrincipalId::from_text(principal_id.as_str());
        self.users_get_one_with(caller, principal_id, asked)
    }

    /// The user that the caller is registered as.
    pub fn users_whoami(&self, caller: &Caller) -> (r: Result<User, Error>)
        ensures
            outcome_view(r) == rules::caller_user(self@, caller@),
    {
        match self.caller_user(caller) {
            Ok(user) => Ok(user.duplicate()),
            Err(e) => Err(e),
        }
    }

    /// Registers the caller as a user of the organisation and with the roles
    /// that `user` names.
    #[verifier::loop_isolation(false)]
    pub fn users_create_one(&mut self, caller: &Caller, user: NewUser, now: u64) -> (r: Result<
        User,
        Error,
    >)
        ensures
            outcome_view(r) == rules::register_outcome(old(self)@, caller@, user@, now),
            final(self)@ == rules::register_next(old(self)@, caller@, user@, now),
    {
        if caller.principal.is_anonymous() {
            return Err(Error::Unauthenticated);
        }
        if self.principals.contains_key(&caller.principal) {
            return Err(Error::AlreadyExists(caller.text.clone()));
        }
        let organisation = match self.organisations.get(&user.organisation_id) {
            Some(organisation) => organisation.duplicate(),
            None => {
                return Err(Error::NotFound(Missing::Organisation(user.organisation_id)));
            },
        };
        let mut roles: Vec<Role> = Vec::new();
        let mut i: usize = 0;
        assert(views(roles@) =~= Seq::empty());
        while i < user.roles.len()
            invariant
                i <= user.roles.len(),
                *self == *old(self),
                forall|j: int| 0 <= j < i ==> crate::table::has_key(self@.roles, #[trigger] user.roles@[j]),
                views(roles@) == rules::resolve_roles(self@.roles, user.roles@, i as nat),
            decreases user.roles.len() - i,
        {
            let role_id = user.roles[i];
            match self.roles.get(&role_id) {
                Some(role) => {
                    if !crate::model::role_among(&roles, role.id) {
                        let ghost before = views(roles@);
                        roles.push(role.duplicate());
                        assert(views(roles@) =~= before.push(role@));
                    }
                },
                None => {
                    proof {
                        rules::lemma_unknown_role_at(self@.roles, user.roles@, i as int);
                    }
                    return Err(Error::NotFound(Missing::Role(role_id)));
                },
            }
            i += 1;
        }
        let inserted = User {
            principal_id: caller.text.clone(),
            name: user.name,
            email: user.email,
            organisation,
            roles,
            created_at: now,
        };
        let result = inserted.duplicate();
        self.principals.put(caller.principal.duplicate(), inserted);
        Ok(result)
    }

    /// Issues the badge that `badge` describes, for the caller, where the
    /// text of the owner denotes the principal `owner` or none.
    pub fn badges_create_one_with(
        &mut self,
        caller: &Caller,
        badge: NewBadge,
        owner: Option<PrincipalId>,
        now: u64,
    ) -> (r: Result<Badge, Error>)
        requires
            crate::table::largest_key(old(self)@.badges) < u128::MAX,
        ensures
            outcome_view(r) == rules::issue_outcome_with(
                old(self)@,
                caller@,
                badge@,
                option_view(owner),
                now,
            ),
            final(self)@ == rules::issue_next_with(
                old(self)@,
                caller@,
                badge@,
                option_view(owner),
                now,
            ),
    {
        let user = match self.caller_user(caller) {
            Ok(user) => user,
            Err(e) => {
                return Err(e);
            },
        };
        if !user.can_create_or_revoke(&badge) {
            return Err(Error::Forbidden(caller.text.clone(), Denied::Issue(badge.issuer_id)));
        }
        let organisation = match self.organisations.get(&badge.issuer_id) {
            Some(organisation) => organisation.duplicate(),
            None => {
                return Err(Error::NotFound(Missing::Organisation(badge.issuer_id)));
            },
        };
        let owner_principal = match owner {
            Some(p) => p,
            None => {
                return Err(Error::InvalidInput(badge.owner_id));
            },
        };
        let owner = match self.principals.get(&owner_principal) {
            Some(owner) => owner.duplicate(),
            None => {
                return Err(Error::NotFound(Missing::User(badge.owner_id)));
            },
        };
        let id: u128 = self.badges.largest_key() + 1;
        let mut signed_by: Vec<String> = Vec::new();
        signed_by.push(caller.text.clone());
        assert(views(signed_by@) =~= seq![caller@.text]);
        let new_badge = Badge {
            id,
            title: badge.title,
            description: badge.description,
            badge_type: badge.badge_type,
            issuer: organisation,
            owner,
            is_revoked: false,
            claims: badge.claims,
            signed_by,
            created_at: now,
        };
        let result = new_badge.duplicate();
        proof {
            crate::table::lemma_above_largest_is_new(self@.badges, id);
        }
        self.badges.put(id, new_badge);
        Ok(result)
    }

    /// Issues the badge that `badge` describes, for the caller.
    pub fn badges_create_one(&mut self, caller: &Caller, badge: NewBadge, now: u64) -> (r: Result<
        Badge,
        Error,
    >)
        requires
            crate::table::largest_key(old(self)@.badges) < u128::MAX,
        ensures
            outcome_view(r) == rules::issue_outcome(old(self)@, caller@, badge@, now),
            final(self)@ == rules::issue_next(old(self)@, caller@, badge@, now),
    {
        let owner = PrincipalId::from_text(badge.owner_id.as_str());
        self.badges_create_one_with(caller, badge, owner, now)
    }

    /// The principal that the text of the caller's own record denotes.
    pub fn reader(&self, caller: &Caller) -> (r: Option<PrincipalId>)
        ensures
            option_view(r) == rules::reader_of(self@, caller@),
    {
        match self.principals.get(&caller.principal) {
            Some(user) => PrincipalId::from_text(user.principal_id.as_str()),
            None => None,
        }
    }

    /// The principal that the text of the owner of the badge `badge_id`
    /// denotes.
    pub fn owner_of(&self, badge_id: u128) -> (r: Option<PrincipalId>)
        ensures
            option_view(r) == rules::owner_of(self@, badge_id),
    {
        match self.badges.get(&badge_id) {
            Some(badge) => PrincipalId::from_text(badge.owner.principal_id.as_str()),
            None => None,
        }
    }

    /// The principal that the text of the pending request `request_id`
    /// denotes.
    pub fn asked_of(&self, request_id: u128) -> (r: Option<PrincipalId>)
        ensures
            option_view(r) == rules::asked_of(self@, request_id),
    {
        match self.locate(request_id) {
            Some((i, j)) => PrincipalId::from_text(
                self.access_requests.value_at(i).items[j].principal_id.as_str(),
            ),
            None => None,
        }
    }

    /// The badges that the caller may see and that pass the filters, in the
    /// order of the ledger, each as the caller may see it, where the text of
    /// the caller's own record denotes the principal `reader` or none.
    pub fn badges_get_all_with(
        &self,
        caller: &Caller,
        principal_id: Option<String>,
        organisation_id: Option<u128>,
        reader: &Option<PrincipalId>,
    ) -> (r: Result<Vec<Badge>, Error>)
        ensures
            listing_view(r) == rules::badges_outcome_with(
                self@,
                caller@,
                crate::model::text_view(principal_id),
                organisation_id,
                option_view(*reader),
            ),
    {
        let user = match self.caller_user(caller) {
            Ok(user) => user,
            Err(e) => {
                return Err(e);
            },
        };
        let ghost all = values(self@.badges);
        let ghost selector = rules::badge_selector(
            user@,
            crate::model::text_view(principal_id),
            organisation_id,
        );
        let ghost cleared = rules::claims_cleared(self@, user@, option_view(*reader));
        let mut badges: Vec<Badge> = Vec::new();
        let n = self.badges.len();
        let mut i: usize = 0;
        assert(all.take(0) =~= Seq::empty());
        proof {
            reveal(Seq::filter);
        }
        assert(views(badges@) =~= all.take(0).filter(selector).map_values(cleared));
        while i < n
            invariant
                i <= n,
                n == self@.badges.len(),
                all == values(self@.badges),
                selector == rules::badge_selector(
                    user@,
                    crate::model::text_view(principal_id),
                    organisation_id,
                ),
                cleared == rules::claims_cleared(self@, user@, option_view(*reader)),
                views(badges@) == all.take(i as int).filter(selector).map_values(cleared),
            decreases n - i,
        {
            let badge = self.badges.value_at(i);
            proof {
                assert(all.take(i + 1) =~= all.take(i as int).push(all[i as int]));
                all.take(i as int).lemma_filter_push(all[i as int], selector);
            }
            if badge_filter(user, badge, &principal_id, organisation_id) {
                let ghost before = views(badges@);
                badges.push(clear_claims_with(self, user, badge, reader));
                assert(views(badges@) =~= before.push(cleared(badge@)));
                assert(all.take(i + 1).filter(selector).map_values(cleared) =~= before.push(
                    cleared(badge@),
                ));
            }
            i += 1;
        }
        assert(all.take(n as int) =~= all);
        Ok(badges)
    }

    /// The badges that the caller may see and that pass the filters, in the
    /// order of the ledger, each as the caller may see it.
    pub fn badges_get_all(
        &self,
        caller: &Caller,
        principal_id: Option<String>,
        organisation_id: Option<u128>,
    ) -> (r: Result<Vec<Badge>, Error>)
        ensures
            listing_view(r) == rules::badges_outcome(
                self@,
                caller@,
                crate::model::text_view(principal_id),
                organisation_id,
            ),
    {
        let reader = self.reader(caller);
        self.badges_get_all_with(caller, principal_id, organisation_id, &reader)
    }

    /// The badge `badge_id` as the caller may see it, where the text of the
    /// caller's own record denotes the principal `reader` or none.
    pub fn badges_get_one_with(
        &self,
        caller: &Caller,
        badge_id: u128,
        reader: &Option<PrincipalId>,
    ) -> (r: Result<Badge, Error>)
        ensures
            outcome_view(r) == rules::badge_outcome_with(
                self@,
                caller@,
                badge_id,
                option_view(*reader),
            ),
    {
        let user = match self.caller_user(caller) {
            Ok(user) => user,
            Err(e) => {
                return Err(e);
            },
        };
        match self.badges.get(&badge_id) {
            Some(badge) => {
                if !user.has_badge_access(badge) {
                    return Err(
                        Error::Forbidden(caller.text.clone(), Denied::BadgeAccess(badge_id)),
                    );
                }
                Ok(clear_claims_with(self, user, badge, reader))
            },
            None => Err(Error::NotFound(Missing::Badge(badge_id))),
        }
    }

    /// The badge `badge_id` as the caller may see it.
    pub fn badges_get_one(&self, caller: &Caller, badge_id: u128) -> (r: Result<Badge, Error>)
        ensures
            outcome_view(r) == rules::badge_outcome(self@, caller@, badge_id),
    {
        let reader = self.reader(caller);
        self.badges_get_one_with(caller, badge_id, &reader)
    }

    /// A pending request as its reader sees it, where the text of the
    /// request denotes the principal `asked` or none: with the user who asks
    /// and the badge asked for, where both can be found.
    pub fn enrich_with(&self, request: &StoredAccessRequest, asked: &Option<PrincipalId>) -> (r:
        Option<AccessRequest>)
        ensures
            option_view(r) == rules::enrich_with(self@, request@, option_view(*asked)),
    {
        let principal = match asked {
            Some(p) => p,
            None => {
                return None;
            },
        };
        let user = match self.principals.get(principal) {
            Some(user) => user,
            None => {
                return None;
            },
        };
        let badge = match self.badges.get(&request.badge_id) {
            Some(badge) => badge,
            None => {
                return None;
            },
        };
        Some(
            AccessRequest {
                id: request.id,
                user: user.duplicate(),
                badge: badge.duplicate(),
                created_at: request.created_at,
            },
        )
    }

    /// A pending request as its reader sees it: with the user whose
    /// principal is written in it and the badge asked for, where both can be
    /// found.
    pub fn enrich(&self, request: &StoredAccessRequest) -> (r: Option<AccessRequest>)
        ensures
            option_view(r) == rules::enrich(self@, request@),
    {
        let asked = PrincipalId::from_text(request.principal_id.as_str());
        self.enrich_with(request, &asked)
    }

    /// The requests that wait for the caller's answer.
    #[verifier::loop_isolation(false)]
    pub fn requests_get_all(&self, caller: &Caller) -> (r: Result<Vec<AccessRequest>, Error>)
        ensures
            listing_view(r) == rules::pending_outcome(self@, caller@),
    {
        if caller.principal.is_anonymous() {
            return Err(Error::Unauthenticated);
        }
        let mut requests: Vec<AccessRequest> = Vec::new();
        let ghost enriched = rules::enriched(self@);
        let stored = match self.access_requests.get(&caller.principal) {
            Some(stored) => stored,
            None => {
                assert(views(requests@) =~= Seq::empty());
                return Ok(requests);
            },
        };
        let mut i: usize = 0;
        assert(stored@.take(0) =~= Seq::empty());
        assert(views(requests@) =~= stored@.take(0).filter_map(enriched));
        while i < stored.items.len()
            invariant
                i <= stored.items.len(),
                views(requests@) == stored@.take(i as int).filter_map(enriched),
            decreases stored.items.len() - i,
        {
            proof {
                stored@.lemma_filter_map_take_succ(enriched, i as int);
            }
            match self.enrich(&stored.items[i]) {
                Some(request) => {
                    let ghost before = views(requests@);
                    let ghost seen = request@;
                    requests.push(request);
                    assert(views(requests@) =~= before + seq![seen]);
                },
                None => {
                    assert(views(requests@) + Seq::empty() =~= views(requests@));
                },
            }
            i += 1;
        }
        assert(stored@.take(stored.items.len() as int) =~= stored@);
        Ok(requests)
    }

    /// The largest id among all pending requests, zero where there is none.
    pub fn largest_request(&self) -> (r: u128)
        ensures
            r == rules::largest_request(self@.access_requests),
    {
        let n = self.access_requests.len();
        let mut largest: u128 = 0;
        let mut i: usize = 0;
        while i < n
            invariant
                i <= n,
                n == self@.access_requests.len(),
                largest == rules::largest_request_upto(self@.access_requests, i as nat),
            decreases n - i,
        {
            let list = self.access_requests.value_at(i);
            let ghost floor = largest;
            let mut j: usize = 0;
            while j < list.items.len()
                invariant
                    j <= list.items.len(),
                    list@ == self@.access_requests[i as int].1,
                    largest == rules::largest_request_in(list@, j as nat, floor),
                decreases list.items.len() - j,
            {
                if list.items[j].id > largest {
                    largest = list.items[j].id;
                }
                j += 1;
            }
            i += 1;
        }
        largest
    }

    /// Files the caller's request for the claims of the badge `badge_id`,
    /// where the text of the badge's owner denotes the principal `owner` or
    /// none, and the text of the caller's own record the principal `reader`
    /// or none.
    pub fn requests_create_one_with(
        &mut self,
        caller: &Caller,
        badge_id: u128,
        owner: Option<PrincipalId>,
        reader: &Option<PrincipalId>,
        now: u64,
    ) -> (r: Result<AccessRequest, Error>)
        requires
            rules::largest_request(old(self)@.access_requests) < u128::MAX,
        ensures
            outcome_view(r) == rules::request_outcome_with(
                old(self)@,
                caller@,
                badge_id,
                option_view(owner),
                option_view(*reader),
                now,
            ),
            final(self)@ == rules::request_next_with(
                old(self)@,
                caller@,
                badge_id,
                option_view(owner),
                option_view(*reader),
                now,
            ),
    {
        let user = match self.caller_user(caller) {
            Ok(user) => user,
            Err(e) => {
                return Err(e);
            },
        };
        let badge = match self.badges.get(&badge_id) {
            Some(badge) => badge,
            None => {
                return Err(Error::NotFound(Missing::Badge(badge_id)));
            },
        };
        if !user.has_badge_access(badge) {
            return Err(Error::Forbidden(caller.text.clone(), Denied::BadgeAccess(badge_id)));
        }
        if !user.is_company() {
            return Err(Error::Forbidden(caller.text.clone(), Denied::RequestAccess(badge_id)));
        }
        let owning_principal = match owner {
            Some(p) => p,
            None => {
                return Err(Error::InvalidInput(badge.owner.principal_id.clone()));
            },
        };
        if is_approved_with(self, badge_id, reader) {
            return Err(Error::Conflict(caller.text.clone(), badge_id, Clash::Approved));
        }
        let mut pending = match self.access_requests.get(&owning_principal) {
            Some(list) => {
                if requested_in(list, &caller.text, badge_id) {
                    return Err(Error::Conflict(caller.text.clone(), badge_id, Clash::Requested));
                }
                list.duplicate()
            },
            None => {
                let list: List<StoredAccessRequest> = List { items: Vec::new() };
                assert(list@ =~= Seq::empty());
                list
            },
        };
        let id: u128 = self.largest_request() + 1;
        let to_store = StoredAccessRequest {
            id,
            principal_id: caller.text.clone(),
            badge_id,
            created_at: now,
        };
        let result = AccessRequest {
            id,
            user: user.duplicate(),
            badge: badge.duplicate(),
            created_at: now,
        };
        let ghost before = pending@;
        let ghost stored = to_store@;
        pending.items.push(to_store);
        assert(pending@ =~= before.push(stored));
        self.access_requests.put(owning_principal, pending);
        Ok(result)
    }

    /// Files the caller's request for the claims of the badge `badge_id`.
    pub fn requests_create_one(&mut self, caller: &Caller, badge_id: u128, now: u64) -> (r: Result<
        AccessRequest,
        Error,
    >)
        requires
            rules::largest_request(old(self)@.access_requests) < u128::MAX,
        ensures
            outcome_view(r) == rules::request_outcome(old(self)@, caller@, badge_id, now),
            final(self)@ == rules::request_next(old(self)@, caller@, badge_id, now),
    {
        let owner = self.owner_of(badge_id);
        let reader = self.reader(caller);
        self.requests_create_one_with(caller, badge_id, owner, &reader, now)
    }

    /// The place of the pending request `request_id`: the owner and the
    /// place among that owner's requests.
    pub fn locate(&self, request_id: u128) -> (r: Option<(usize, usize)>)
        ensures
            match r {
                Some((i, j)) => rules::locate(self@.access_requests, request_id) == Some(
                    (i as int, j as int),
                ) && i < self@.access_requests.len() && j < self@.access_requests[i as int].1.len(),
                None => rules::locate(self@.access_requests, request_id) is None,
            },
    {
        let n = self.access_requests.len();
        let mut i: usize = 0;
        while i < n
            invariant
                i <= n,
                n == self@.access_requests.len(),
                forall|k: int|
                    0 <= k < i ==> !rules::holds_request(
                        (#[trigger] self@.access_requests[k]).1,
                        request_id,
                    ),
            decreases n - i,
        {
            match position_in(self.access_requests.value_at(i), request_id) {
                Some(j) => {
                    proof {
                        assert(rules::holds_request(self@.access_requests[i as int].1, request_id));
                        rules::lemma_locate_at(
                            self@.access_requests,
                            request_id,
                            i as int,
                            j as int,
                        );
                    }
                    return Some((i, j));
                },
                None => {},
            }
            i += 1;
        }
        None
    }

    /// Approves the pending request `request_id` for the caller, where the
    /// caller may and the text of the request denotes the principal `asked`
    /// or none.
    pub fn requests_approve_one_with(
        &mut self,
        caller: &Caller,
        request_id: u128,
        asked: Option<PrincipalId>,
    ) -> (r: Result<bool, Error>)
        ensures
            outcome_view(r) == rules::approve_outcome_with(
                old(self)@,
                caller@,
                request_id,
                option_view(asked),
            ),
            final(self)@ == rules::approve_next_with(
                old(self)@,
                caller@,
                request_id,
                option_view(asked),
            ),
    {
        let user = match self.caller_user(caller) {
            Ok(user) => user,
            Err(e) => {
                return Err(e);
            },
        };
        if !user.is_student() {
            return Err(Error::Forbidden(caller.text.clone(), Denied::Approve));
        }
        let (i, j) = match self.locate(request_id) {
            Some(place) => place,
            None => {
                return Err(Error::NotFound(Missing::Request(request_id)));
            },
        };
        let stored = self.access_requests.value_at(i);
        let pending_request = &stored.items[j];
        let badge_id = pending_request.badge_id;
        let requested_badge = match self.badges.get(&badge_id) {
            Some(badge) => badge,
            None => {
                return Err(Error::NotFound(Missing::Badge(badge_id)));
            },
        };
        if user.principal_id != requested_badge.owner.principal_id {
            return Err(Error::Forbidden(caller.text.clone(), Denied::ApproveRequest(badge_id)));
        }
        let requesting_principal = match asked {
            Some(p) => p,
            None => {
                return Err(Error::InvalidInput(pending_request.principal_id.clone()));
            },
        };
        let owner = self.access_requests.key_at(i).duplicate();
        let mut remaining = stored.duplicate();
        let ghost before = remaining@;
        remaining.items.remove(j);
        assert(remaining@ =~= before.remove(j as int));
        let mut approved = match self.badge_access_approvals.get(&badge_id) {
            Some(list) => list.duplicate(),
            None => {
                let list: List<PrincipalId> = List { items: Vec::new() };
                assert(list@ =~= Seq::empty());
                list
            },
        };
        let ghost granted = approved@;
        approved.items.push(requesting_principal);
        assert(approved@ =~= granted.push(requesting_principal@));
        self.access_requests.put(owner, remaining);
        self.badge_access_approvals.put(badge_id, approved);
        Ok(true)
    }

    /// Approves the pending request `request_id` for the caller, where the
    /// caller may.
    pub fn requests_approve_one(&mut self, caller: &Caller, request_id: u128) -> (r: Result<
        bool,
        Error,
    >)
        ensures
            outcome_view(r) == rules::approve_outcome(old(self)@, caller@, request_id),
            final(self)@ == rules::approve_next(old(self)@, caller@, request_id),
    {
        let asked = self.asked_of(request_id);
        self.requests_approve_one_with(caller, request_id, asked)
    }

    /// Revokes the badge `badge_id` for the caller, where the caller may.
    pub fn badges_revoke_one(&mut self, caller: &Caller, badge_id: u128) -> (r: Result<
        bool,
        Error,
    >)
        ensures
            outcome_view(r) == rules::revoke_outcome(old(self)@, caller@, badge_id),
            final(self)@ == rules::revoke_next(old(self)@, caller@, badge_id),
    {
        let user = match self.caller_user(caller) {
            Ok(user) => user,
            Err(e) => {
                return Err(e);
            },
        };
        let badge = match self.badges.get(&badge_id) {
            Some(badge) => badge,
            None => {
                return Err(Error::NotFound(Missing::Badge(badge_id)));
            },
        };
        if !user.has_badge_access(badge) {
            return Err(Error::Forbidden(caller.text.clone(), Denied::BadgeAccess(badge_id)));
        }
        if !user.can_manage(badge.issuer.id) {
            return Err(Error::Forbidden(caller.text.clone(), Denied::Revoke(badge_id)));
        }
        let mut changed = badge.duplicate();
        changed.is_revoked = true;
        self.badges.put(badge_id, changed);
        Ok(true)
    }
}

} // verus!
