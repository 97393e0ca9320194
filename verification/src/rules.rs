//! What each call decides and changes, stated over the views of the tables.

use crate::error::{Clash, DeniedView, Error, ErrorView, MissingView};
use crate::model::{
    AccessRequestView, BadgeView, NewBadgeView, NewUserView, OrganisationView, RoleView,
    StableDataView, StoredAccessRequestView, UserView,
};
use crate::principal::{anonymous_bytes, principal_parse, CallerView};
use crate::table::{del, get, has_key, keys_distinct, largest_key, merge, put, values};
use vstd::prelude::*;

verus! {

/// All that the system holds, table by table.
pub struct StoreView {
    /// The organisations, each under its id.
    pub organisations: Seq<(u128, OrganisationView)>,
    /// The roles, each under its id.
    pub roles: Seq<(u128, RoleView)>,
    /// The registered users, each under the bytes of its principal.
    pub principals: Seq<(Seq<u8>, UserView)>,
    /// The badges, each under its id.
    pub badges: Seq<(u128, BadgeView)>,
    /// The pending requests, under the principal of the owner of the badge
    /// that each asks for.
    pub access_requests: Seq<(Seq<u8>, Seq<StoredAccessRequestView>)>,
    /// Under the id of a badge, the principals that may see its claims.
    pub badge_access_approvals: Seq<(u128, Seq<Seq<u8>>)>,
}

impl StoreView {
    /// No table holds a key twice.
    pub open spec fn wf(self) -> bool {
        &&& keys_distinct(self.organisations)
        &&& keys_distinct(self.roles)
        &&& keys_distinct(self.principals)
        &&& keys_distinct(self.badges)
        &&& keys_distinct(self.access_requests)
        &&& keys_distinct(self.badge_access_approvals)
    }

    /// The store that holds nothing at all.
    pub open spec fn empty() -> StoreView {
        StoreView {
            organisations: Seq::empty(),
            roles: Seq::empty(),
            principals: Seq::empty(),
            badges: Seq::empty(),
            access_requests: Seq::empty(),
            badge_access_approvals: Seq::empty(),
        }
    }
}

/// The outcome of a call, by the views of its value and of its error.
pub open spec fn outcome_view<T: View>(r: Result<T, Error>) -> Result<T::V, ErrorView> {
    match r {
        Ok(v) => Ok(v@),
        Err(e) => Err(e@),
    }
}

/// The outcome of a call that lists records, by their views.
pub open spec fn listing_view<T: View>(r: Result<Vec<T>, Error>) -> Result<Seq<T::V>, ErrorView> {
    match r {
        Ok(v) => Ok(crate::table::views(v@)),
        Err(e) => Err(e@),
    }
}

/// The view of a value that may be missing.
pub open spec fn option_view<T: View>(o: Option<T>) -> Option<T::V> {
    match o {
        Some(v) => Some(v@),
        None => None,
    }
}

/// The caller as a principal with an identity: everyone but the anonymous
/// one.
pub open spec fn caller_identity(c: Seq<u8>) -> Result<Seq<u8>, ErrorView> {
    if c == anonymous_bytes() {
        Err(ErrorView::Unauthenticated)
    } else {
        Ok(c)
    }
}

/// The user that the caller is registered as. The anonymous caller is turned
/// down first, then one who is not registered.
pub open spec fn caller_user(s: StoreView, c: CallerView) -> Result<UserView, ErrorView> {
    if c.principal == anonymous_bytes() {
        Err(ErrorView::Unauthenticated)
    } else {
        match get(s.principals, c.principal) {
            Some(u) => Ok(u),
            None => Err(ErrorView::NotFound(MissingView::User(c.text))),
        }
    }
}

/// The organisations, for every caller with an identity.
pub open spec fn organisations_outcome(s: StoreView, c: CallerView) -> Result<
    Seq<OrganisationView>,
    ErrorView,
> {
    match caller_identity(c.principal) {
        Err(e) => Err(e),
        Ok(_) => Ok(values(s.organisations)),
    }
}

/// The id after `largest`.
pub open spec fn next_id(largest: u128) -> u128 {
    (largest + 1) as u128
}

/// The organisation that the caller founds under `name`, for every caller
/// with an identity: its id is the one after the largest of the registry.
pub open spec fn found_outcome(s: StoreView, c: CallerView, name: Seq<char>, now: u64) -> Result<
    OrganisationView,
    ErrorView,
> {
    match caller_identity(c.principal) {
        Err(e) => Err(e),
        Ok(_) => Ok(
            OrganisationView { id: next_id(largest_key(s.organisations)), name, created_at: now },
        ),
    }
}

/// The store after the caller asked to found an organisation: with the new
/// one at the end of the registry where there is one.
pub open spec fn found_next(s: StoreView, c: CallerView, name: Seq<char>, now: u64) -> StoreView {
    match found_outcome(s, c, name, now) {
        Ok(organisation) => StoreView {
            organisations: s.organisations.push((organisation.id, organisation)),
            ..s
        },
        Err(_) => s,
    }
}

/// Whether the organisation `id` is taken out of the registry: for every
/// caller with an identity, where there is such an organisation.
pub open spec fn dissolve_outcome(s: StoreView, c: CallerView, id: u128) -> Result<bool, ErrorView> {
    match caller_identity(c.principal) {
        Err(e) => Err(e),
        Ok(_) => if has_key(s.organisations, id) {
            Ok(true)
        } else {
            Err(ErrorView::NotFound(MissingView::Organisation(id)))
        },
    }
}

/// The store after the caller asked to take the organisation `id` out.
pub open spec fn dissolve_next(s: StoreView, c: CallerView, id: u128) -> StoreView {
    if dissolve_outcome(s, c, id) is Ok {
        StoreView { organisations: del(s.organisations, id), ..s }
    } else {
        s
    }
}

/// Whether a user belongs in a listing that `auth` asked for: `auth` may
/// see the user, and the user passes each filter that was given.
pub open spec fn user_filter(
    auth: UserView,
    other: UserView,
    organisation_id: Option<u128>,
    role_id: Option<u128>,
) -> bool {
    &&& auth.has_user_access(other)
    &&& organisation_id matches Some(id) ==> other.organisation.id == id
    &&& role_id matches Some(id) ==> other.has_role(id)
}

/// `user_filter` as a test of one user, for the listing that `auth` asked
/// for.
pub open spec fn user_selector(
    auth: UserView,
    organisation_id: Option<u128>,
    role_id: Option<u128>,
) -> spec_fn(UserView) -> bool {
    |other: UserView| user_filter(auth, other, organisation_id, role_id)
}

/// The users that the caller may see and that pass the filters, in the
/// order of the directory.
pub open spec fn users_outcome(
    s: StoreView,
    c: CallerView,
    organisation_id: Option<u128>,
    role_id: Option<u128>,
) -> Result<Seq<UserView>, ErrorView> {
    match caller_user(s, c) {
        Err(e) => Err(e),
        Ok(auth) => Ok(values(s.principals).filter(user_selector(auth, organisation_id, role_id))),
    }
}

/// The user asked for by the text `text`, which denotes the principal
/// `asked` or none: where the text denotes a principal, a user is registered
/// under it and the caller may see that user. Each refusal is named, in
/// this order.
pub open spec fn user_outcome_with(
    s: StoreView,
    c: CallerView,
    text: Seq<char>,
    asked: Option<Seq<u8>>,
) -> Result<UserView, ErrorView> {
    match caller_user(s, c) {
        Err(e) => Err(e),
        Ok(auth) => match asked {
            None => Err(ErrorView::InvalidInput(text)),
            Some(p) => match get(s.principals, p) {
                None => Err(ErrorView::NotFound(MissingView::User(text))),
                Some(u) => if auth.has_user_access(u) {
                    Ok(u)
                } else {
                    Err(ErrorView::Forbidden(c.text, DeniedView::UserAccess(text)))
                },
            },
        },
    }
}

/// The first id of `ids` that the catalog does not know.
pub open spec fn unknown_role(catalog: Seq<(u128, RoleView)>, ids: Seq<u128>) -> Option<u128> {
    if exists|i: int| 0 <= i < ids.len() && !has_key(catalog, #[trigger] ids[i]) {
        let i = choose|i: int|
            0 <= i < ids.len() && !has_key(catalog, #[trigger] ids[i]) && forall|j: int|
                0 <= j < i ==> has_key(catalog, #[trigger] ids[j]);
        Some(ids[i])
    } else {
        None
    }
}

/// The roles that the first `n` ids of `ids` name, in their order, each role
/// id once.
pub open spec fn resolve_roles(catalog: Seq<(u128, RoleView)>, ids: Seq<u128>, n: nat) -> Seq<
    RoleView,
>
    decreases n,
{
    if n == 0 {
        Seq::empty()
    } else {
        let found = resolve_roles(catalog, ids, (n - 1) as nat);
        match get(catalog, ids[n - 1]) {
            Some(role) => if crate::model::holds_role(found, role.id) {
                found
            } else {
                found.push(role)
            },
            None => found,
        }
    }
}

/// The user that a registration makes of the caller: rejected where the
/// caller is registered already, where the organisation is unknown, and
/// where a role is unknown, in this order.
pub open spec fn register_outcome(s: StoreView, c: CallerView, new: NewUserView, now: u64) -> Result<
    UserView,
    ErrorView,
> {
    match caller_identity(c.principal) {
        Err(e) => Err(e),
        Ok(_) => if has_key(s.principals, c.principal) {
            Err(ErrorView::AlreadyExists(c.text))
        } else {
            match get(s.organisations, new.organisation_id) {
                None => Err(ErrorView::NotFound(MissingView::Organisation(new.organisation_id))),
                Some(organisation) => match unknown_role(s.roles, new.roles) {
                    Some(id) => Err(ErrorView::NotFound(MissingView::Role(id))),
                    None => Ok(
                        UserView {
                            name: new.name,
                            email: new.email,
                            principal_id: c.text,
                            organisation,
                            created_at: now,
                            roles: resolve_roles(s.roles, new.roles, new.roles.len()),
                        },
                    ),
                },
            }
        },
    }
}

/// The store after a registration: with the new user at the end of the
/// directory where there is one.
pub open spec fn register_next(s: StoreView, c: CallerView, new: NewUserView, now: u64) -> StoreView {
    match register_outcome(s, c, new, now) {
        Ok(user) => StoreView { principals: s.principals.push((c.principal, user)), ..s },
        Err(_) => s,
    }
}

/// Whether the principal `p` was given the claims of the badge `badge_id`.
/// Where there is no principal, nothing was given.
pub open spec fn approved_with(
    approvals: Seq<(u128, Seq<Seq<u8>>)>,
    badge_id: u128,
    p: Option<Seq<u8>>,
) -> bool {
    match get(approvals, badge_id) {
        None => false,
        Some(granted) => match p {
            None => false,
            Some(p) => granted.contains(p),
        },
    }
}

/// The badge as the user may see it, where the user's own text denotes the
/// principal `reader` or none: with its claims, unless the user has the
/// company role and was not given them.
pub open spec fn clear_claims_with(
    s: StoreView,
    u: UserView,
    b: BadgeView,
    reader: Option<Seq<u8>>,
) -> BadgeView {
    if u.is_company() && !approved_with(s.badge_access_approvals, b.id, reader) {
        BadgeView { claims: Seq::empty(), ..b }
    } else {
        b
    }
}

/// Whether a badge belongs in a listing that `user` asked for: the user may
/// see it, and it passes each filter that was given.
pub open spec fn badge_filter(
    user: UserView,
    badge: BadgeView,
    owner: Option<Seq<char>>,
    organisation_id: Option<u128>,
) -> bool {
    &&& user.has_badge_access(badge)
    &&& organisation_id matches Some(id) ==> badge.issuer.id == id
    &&& owner matches Some(text) ==> badge.owner.principal_id == text
}

/// `badge_filter` as a test of one badge, for the listing that `user` asked
/// for.
pub open spec fn badge_selector(
    user: UserView,
    owner: Option<Seq<char>>,
    organisation_id: Option<u128>,
) -> spec_fn(BadgeView) -> bool {
    |badge: BadgeView| badge_filter(user, badge, owner, organisation_id)
}

/// `clear_claims_with` for the reader `user`, badge by badge.
pub open spec fn claims_cleared(s: StoreView, user: UserView, reader: Option<Seq<u8>>) -> spec_fn(
    BadgeView,
) -> BadgeView {
    |badge: BadgeView| clear_claims_with(s, user, badge, reader)
}

/// The badges that the caller may see and that pass the filters, in the
/// order of the ledger, each as the caller may see it.
pub open spec fn badges_outcome_with(
    s: StoreView,
    c: CallerView,
    owner: Option<Seq<char>>,
    organisation_id: Option<u128>,
    reader: Option<Seq<u8>>,
) -> Result<Seq<BadgeView>, ErrorView> {
    match caller_user(s, c) {
        Err(e) => Err(e),
        Ok(user) => Ok(
            values(s.badges).filter(badge_selector(user, owner, organisation_id)).map_values(
                claims_cleared(s, user, reader),
            ),
        ),
    }
}

/// The badge `id` as the caller may see it.
pub open spec fn badge_outcome_with(
    s: StoreView,
    c: CallerView,
    id: u128,
    reader: Option<Seq<u8>>,
) -> Result<BadgeView, ErrorView> {
    match caller_user(s, c) {
        Err(e) => Err(e),
        Ok(user) => match get(s.badges, id) {
            None => Err(ErrorView::NotFound(MissingView::Badge(id))),
            Some(badge) => if user.has_badge_access(badge) {
                Ok(clear_claims_with(s, user, badge, reader))
            } else {
                Err(ErrorView::Forbidden(c.text, DeniedView::BadgeAccess(id)))
            },
        },
    }
}

/// The badge that the caller issues, where the owner's text denotes the
/// principal `owner` or none: for a registered caller who may issue for the
/// organisation, where the organisation exists and the owner is a
/// registered user. Each refusal is named, in this order. The new badge has
/// the id after the largest of the ledger, is not revoked, and is signed by
/// the caller.
pub open spec fn issue_outcome_with(
    s: StoreView,
    c: CallerView,
    new: NewBadgeView,
    owner: Option<Seq<u8>>,
    now: u64,
) -> Result<BadgeView, ErrorView> {
    match caller_user(s, c) {
        Err(e) => Err(e),
        Ok(user) => if !user.can_create_or_revoke(new.issuer_id) {
            Err(ErrorView::Forbidden(c.text, DeniedView::Issue(new.issuer_id)))
        } else {
            match get(s.organisations, new.issuer_id) {
                None => Err(ErrorView::NotFound(MissingView::Organisation(new.issuer_id))),
                Some(issuer) => match owner {
                    None => Err(ErrorView::InvalidInput(new.owner_id)),
                    Some(p) => match get(s.principals, p) {
                        None => Err(ErrorView::NotFound(MissingView::User(new.owner_id))),
                        Some(owner) => Ok(
                            BadgeView {
                                id: next_id(largest_key(s.badges)),
                                title: new.title,
                                description: new.description,
                                badge_type: new.badge_type,
                                issuer,
                                owner,
                                is_revoked: false,
                                claims: new.claims,
                                signed_by: seq![c.text],
                                created_at: now,
                            },
                        ),
                    },
                },
            }
        },
    }
}

/// The store after the caller asked for a badge to be issued: with the new
/// badge at the end of the ledger where there is one.
pub open spec fn issue_next_with(
    s: StoreView,
    c: CallerView,
    new: NewBadgeView,
    owner: Option<Seq<u8>>,
    now: u64,
) -> StoreView {
    match issue_outcome_with(s, c, new, owner, now) {
        Ok(badge) => StoreView { badges: s.badges.push((badge.id, badge)), ..s },
        Err(_) => s,
    }
}

/// The badge as revoked.
pub open spec fn revoked(b: BadgeView) -> BadgeView {
    BadgeView { is_revoked: true, ..b }
}

/// Whether the caller may revoke the badge `id`: a registered user who can
/// see the badge and is an administrator, or a lecturer of the organisation
/// that issued it. Each refusal is named, in this order.
pub open spec fn revoke_outcome(s: StoreView, c: CallerView, id: u128) -> Result<bool, ErrorView> {
    match caller_user(s, c) {
        Err(e) => Err(e),
        Ok(u) => match get(s.badges, id) {
            None => Err(ErrorView::NotFound(MissingView::Badge(id))),
            Some(b) => if !u.has_badge_access(b) {
                Err(ErrorView::Forbidden(c.text, DeniedView::BadgeAccess(id)))
            } else if !u.can_create_or_revoke(b.issuer.id) {
                Err(ErrorView::Forbidden(c.text, DeniedView::Revoke(id)))
            } else {
                Ok(true)
            },
        },
    }
}

/// The store after the caller asked to revoke the badge `id`: the badge is
/// revoked where the caller may do so, and nothing has changed where not.
pub open spec fn revoke_next(s: StoreView, c: CallerView, id: u128) -> StoreView {
    if revoke_outcome(s, c, id) is Ok {
        StoreView { badges: put(s.badges, id, revoked(get(s.badges, id).unwrap())), ..s }
    } else {
        s
    }
}

/// The pending requests kept for the owner `p`.
pub open spec fn inbox(
    requests: Seq<(Seq<u8>, Seq<StoredAccessRequestView>)>,
    p: Seq<u8>,
) -> Seq<StoredAccessRequestView> {
    match get(requests, p) {
        Some(list) => list,
        None => Seq::empty(),
    }
}

/// The principals that were given the claims of the badge `id`.
pub open spec fn granted(approvals: Seq<(u128, Seq<Seq<u8>>)>, id: u128) -> Seq<Seq<u8>> {
    match get(approvals, id) {
        Some(list) => list,
        None => Seq::empty(),
    }
}

/// A pending request as its reader sees it, where the text of the request
/// denotes the principal `asked` or none: with the user who asks and the
/// badge asked for, where both can be found.
pub open spec fn enrich_with(
    s: StoreView,
    request: StoredAccessRequestView,
    asked: Option<Seq<u8>>,
) -> Option<AccessRequestView> {
    match asked {
        None => None,
        Some(p) => match get(s.principals, p) {
            None => None,
            Some(user) => match get(s.badges, request.badge_id) {
                None => None,
                Some(badge) => Some(
                    AccessRequestView {
                        id: request.id,
                        user,
                        badge,
                        created_at: request.created_at,
                    },
                ),
            },
        },
    }
}

/// The largest id among the first `n` requests of `list`, and `floor` where
/// none is above it.
pub open spec fn largest_request_in(list: Seq<StoredAccessRequestView>, n: nat, floor: u128) -> u128
    decreases n,
{
    if n == 0 {
        floor
    } else {
        let before = largest_request_in(list, (n - 1) as nat, floor);
        if list[n - 1].id > before {
            list[n - 1].id
        } else {
            before
        }
    }
}

/// The largest id among the requests of the first `n` owners, zero where
/// there is none.
pub open spec fn largest_request_upto(
    requests: Seq<(Seq<u8>, Seq<StoredAccessRequestView>)>,
    n: nat,
) -> u128
    decreases n,
{
    if n == 0 {
        0
    } else {
        largest_request_in(
            requests[n - 1].1,
            requests[n - 1].1.len(),
            largest_request_upto(requests, (n - 1) as nat),
        )
    }
}

/// The largest id among all pending requests, zero where there is none.
pub open spec fn largest_request(requests: Seq<(Seq<u8>, Seq<StoredAccessRequestView>)>) -> u128 {
    largest_request_upto(requests, requests.len())
}

/// Some request of `list` was made by the principal written as `text`, for
/// the badge `badge_id`.
pub open spec fn already_requested(
    list: Seq<StoredAccessRequestView>,
    text: Seq<char>,
    badge_id: u128,
) -> bool {
    exists|j: int|
        0 <= j < list.len() && (#[trigger] list[j]).badge_id == badge_id && list[j].principal_id
            == text
}

/// The request that the caller makes for the claims of the badge `id`, as it
/// is kept: with the id after the largest pending one.
pub open spec fn new_request(s: StoreView, c: CallerView, id: u128, now: u64) -> StoredAccessRequestView {
    StoredAccessRequestView {
        id: next_id(largest_request(s.access_requests)),
        principal_id: c.text,
        badge_id: id,
        created_at: now,
    }
}

/// The request that the caller makes for the claims of the badge `id`,
/// where the text of the badge's owner denotes the principal `owner` or
/// none, and the text of the caller's own record the principal `reader` or
/// none: for a registered caller with the company role who can see the
/// badge, where there is an owner, the caller was not given the claims
/// before and has no request for this badge waiting. Each refusal is named,
/// in this order.
pub open spec fn request_outcome_with(
    s: StoreView,
    c: CallerView,
    id: u128,
    owner: Option<Seq<u8>>,
    reader: Option<Seq<u8>>,
    now: u64,
) -> Result<AccessRequestView, ErrorView> {
    match caller_user(s, c) {
        Err(e) => Err(e),
        Ok(user) => match get(s.badges, id) {
            None => Err(ErrorView::NotFound(MissingView::Badge(id))),
            Some(badge) => if !user.has_badge_access(badge) {
                Err(ErrorView::Forbidden(c.text, DeniedView::BadgeAccess(id)))
            } else if !user.is_company() {
                Err(ErrorView::Forbidden(c.text, DeniedView::RequestAccess(id)))
            } else {
                match owner {
                    None => Err(ErrorView::InvalidInput(badge.owner.principal_id)),
                    Some(owner) => if approved_with(s.badge_access_approvals, id, reader) {
                        Err(ErrorView::Conflict(c.text, id, Clash::Approved))
                    } else if already_requested(inbox(s.access_requests, owner), c.text, id) {
                        Err(ErrorView::Conflict(c.text, id, Clash::Requested))
                    } else {
                        Ok(
                            AccessRequestView {
                                id: new_request(s, c, id, now).id,
                                user,
                                badge,
                                created_at: now,
                            },
                        )
                    },
                }
            },
        },
    }
}

/// The store after the caller asked for the claims of the badge `id`: with
/// the new request at the end of the owner's pending ones where there is
/// one.
pub open spec fn request_next_with(
    s: StoreView,
    c: CallerView,
    id: u128,
    owner: Option<Seq<u8>>,
    reader: Option<Seq<u8>>,
    now: u64,
) -> StoreView {
    if request_outcome_with(s, c, id, owner, reader, now) is Ok {
        StoreView {
            access_requests: put(
                s.access_requests,
                owner.unwrap(),
                inbox(s.access_requests, owner.unwrap()).push(new_request(s, c, id, now)),
            ),
            ..s
        }
    } else {
        s
    }
}

/// Some request of `list` has the id `id`.
pub open spec fn holds_request(list: Seq<StoredAccessRequestView>, id: u128) -> bool {
    exists|j: int| 0 <= j < list.len() && (#[trigger] list[j]).id == id
}

/// The request at `j` is the first of `list` with the id `id`.
pub open spec fn first_request_at(list: Seq<StoredAccessRequestView>, id: u128, j: int) -> bool {
    &&& 0 <= j < list.len()
    &&& list[j].id == id
    &&& forall|k: int| 0 <= k < j ==> (#[trigger] list[k]).id != id
}

/// The owner at `i` is the first whose pending requests hold the id `id`.
pub open spec fn first_inbox_at(
    requests: Seq<(Seq<u8>, Seq<StoredAccessRequestView>)>,
    id: u128,
    i: int,
) -> bool {
    &&& 0 <= i < requests.len()
    &&& holds_request(requests[i].1, id)
    &&& forall|k: int| 0 <= k < i ==> !holds_request((#[trigger] requests[k]).1, id)
}

/// The place of the pending request `id`: the first owner that holds such a
/// request, and the first such request of that owner.
pub open spec fn locate(requests: Seq<(Seq<u8>, Seq<StoredAccessRequestView>)>, id: u128) -> Option<
    (int, int),
> {
    if exists|i: int| first_inbox_at(requests, id, i) {
        let i = choose|i: int| first_inbox_at(requests, id, i);
        let j = choose|j: int| first_request_at(requests[i].1, id, j);
        Some((i, j))
    } else {
        None
    }
}

/// The pending request `id`, where there is one.
pub open spec fn pending_request(s: StoreView, id: u128) -> Option<StoredAccessRequestView> {
    match locate(s.access_requests, id) {
        Some((i, j)) => Some(s.access_requests[i].1[j]),
        None => None,
    }
}

/// Whether the caller may approve the pending request `id`, where the text
/// of the request denotes the principal `asked` or none: a registered
/// caller with the student role who owns the badge that the request names,
/// where the request is pending, the badge exists and there is a principal
/// that asks. Each refusal is named, in this order.
pub open spec fn approve_outcome_with(
    s: StoreView,
    c: CallerView,
    id: u128,
    asked: Option<Seq<u8>>,
) -> Result<bool, ErrorView> {
    match caller_user(s, c) {
        Err(e) => Err(e),
        Ok(user) => if !user.is_student() {
            Err(ErrorView::Forbidden(c.text, DeniedView::Approve))
        } else {
            match pending_request(s, id) {
                None => Err(ErrorView::NotFound(MissingView::Request(id))),
                Some(request) => match get(s.badges, request.badge_id) {
                    None => Err(ErrorView::NotFound(MissingView::Badge(request.badge_id))),
                    Some(badge) => if user.principal_id != badge.owner.principal_id {
                        Err(
                            ErrorView::Forbidden(
                                c.text,
                                DeniedView::ApproveRequest(request.badge_id),
                            ),
                        )
                    } else {
                        match asked {
                            None => Err(ErrorView::InvalidInput(request.principal_id)),
                            Some(_) => Ok(true),
                        }
                    },
                },
            }
        },
    }
}

/// The store after the caller asked to approve the pending request `id`:
/// where the caller may, the request is no longer pending and the principal
/// that asked is the last of those that were given the claims of the badge;
/// where not, nothing has changed.
pub open spec fn approve_next_with(
    s: StoreView,
    c: CallerView,
    id: u128,
    asked: Option<Seq<u8>>,
) -> StoreView {
    if approve_outcome_with(s, c, id, asked) is Ok {
        let (i, j) = locate(s.access_requests, id).unwrap();
        let request = s.access_requests[i].1[j];
        StoreView {
            access_requests: s.access_requests.update(
                i,
                (s.access_requests[i].0, s.access_requests[i].1.remove(j)),
            ),
            badge_access_approvals: put(
                s.badge_access_approvals,
                request.badge_id,
                granted(s.badge_access_approvals, request.badge_id).push(asked.unwrap()),
            ),
            ..s
        }
    } else {
        s
    }
}

/// The principal that the text of the caller's own record denotes, where
/// the caller is registered and the text denotes one.
pub open spec fn reader_of(s: StoreView, c: CallerView) -> Option<Seq<u8>> {
    match get(s.principals, c.principal) {
        Some(user) => principal_parse(user.principal_id),
        None => None,
    }
}

/// The principal that the text of the owner of the badge `id` denotes,
/// where there is such a badge and the text denotes one.
pub open spec fn owner_of(s: StoreView, id: u128) -> Option<Seq<u8>> {
    match get(s.badges, id) {
        Some(badge) => principal_parse(badge.owner.principal_id),
        None => None,
    }
}

/// The principal that the text of the pending request `id` denotes, where
/// there is such a request and the text denotes one.
pub open spec fn asked_of(s: StoreView, id: u128) -> Option<Seq<u8>> {
    match pending_request(s, id) {
        Some(request) => principal_parse(request.principal_id),
        None => None,
    }
}

/// Whether the principal written as `text` was given the claims of the
/// badge `badge_id`. A text that denotes no principal was given nothing.
pub open spec fn approved(
    approvals: Seq<(u128, Seq<Seq<u8>>)>,
    badge_id: u128,
    text: Seq<char>,
) -> bool {
    approved_with(approvals, badge_id, principal_parse(text))
}

/// The badge as the user may see it: with its claims, unless the user has
/// the company role and the principal that the user's own text denotes was
/// not given them.
pub open spec fn clear_claims(s: StoreView, u: UserView, b: BadgeView) -> BadgeView {
    clear_claims_with(s, u, b, principal_parse(u.principal_id))
}

/// The user whose principal is written as `text`, where the caller may see
/// that user.
pub open spec fn user_outcome(s: StoreView, c: CallerView, text: Seq<char>) -> Result<
    UserView,
    ErrorView,
> {
    user_outcome_with(s, c, text, principal_parse(text))
}

/// The badges that the caller may see and that pass the filters, each as
/// the caller may see it.
pub open spec fn badges_outcome(
    s: StoreView,
    c: CallerView,
    owner: Option<Seq<char>>,
    organisation_id: Option<u128>,
) -> Result<Seq<BadgeView>, ErrorView> {
    badges_outcome_with(s, c, owner, organisation_id, reader_of(s, c))
}

/// The badge `id` as the caller may see it.
pub open spec fn badge_outcome(s: StoreView, c: CallerView, id: u128) -> Result<
    BadgeView,
    ErrorView,
> {
    badge_outcome_with(s, c, id, reader_of(s, c))
}

/// The badge that the caller issues for the owner whose principal is
/// written in `new`.
pub open spec fn issue_outcome(s: StoreView, c: CallerView, new: NewBadgeView, now: u64) -> Result<
    BadgeView,
    ErrorView,
> {
    issue_outcome_with(s, c, new, principal_parse(new.owner_id), now)
}

/// The store after the caller asked for a badge to be issued.
pub open spec fn issue_next(s: StoreView, c: CallerView, new: NewBadgeView, now: u64) -> StoreView {
    issue_next_with(s, c, new, principal_parse(new.owner_id), now)
}

/// A pending request as its reader sees it: with the user whose principal
/// is written in it and the badge asked for, where both can be found.
pub open spec fn enrich(s: StoreView, request: StoredAccessRequestView) -> Option<
    AccessRequestView,
> {
    enrich_with(s, request, principal_parse(request.principal_id))
}

/// `enrich` in the store `s`, request by request.
pub open spec fn enriched(s: StoreView) -> spec_fn(StoredAccessRequestView) -> Option<
    AccessRequestView,
> {
    |request: StoredAccessRequestView| enrich(s, request)
}

/// The requests that wait for the caller's answer, in the order in which
/// they came, without those whose user or badge cannot be found.
pub open spec fn pending_outcome(s: StoreView, c: CallerView) -> Result<
    Seq<AccessRequestView>,
    ErrorView,
> {
    match caller_identity(c.principal) {
        Err(e) => Err(e),
        Ok(_) => Ok(inbox(s.access_requests, c.principal).filter_map(enriched(s))),
    }
}

/// The request that the caller makes for the claims of the badge `id`.
pub open spec fn request_outcome(s: StoreView, c: CallerView, id: u128, now: u64) -> Result<
    AccessRequestView,
    ErrorView,
> {
    request_outcome_with(s, c, id, owner_of(s, id), reader_of(s, c), now)
}

/// The store after the caller asked for the claims of the badge `id`.
pub open spec fn request_next(s: StoreView, c: CallerView, id: u128, now: u64) -> StoreView {
    request_next_with(s, c, id, owner_of(s, id), reader_of(s, c), now)
}

/// Whether the caller may approve the pending request `id`.
pub open spec fn approve_outcome(s: StoreView, c: CallerView, id: u128) -> Result<bool, ErrorView> {
    approve_outcome_with(s, c, id, asked_of(s, id))
}

/// The store after the caller asked to approve the pending request `id`.
pub open spec fn approve_next(s: StoreView, c: CallerView, id: u128) -> StoreView {
    approve_next_with(s, c, id, asked_of(s, id))
}

/// The name of the organisation that is seeded at place `i`.
pub open spec fn organisation_name(i: int) -> Seq<char> {
    if i == 0 {
        "Zurich University of Applied Sciences"@
    } else if i == 1 {
        "ETH Zurich"@
    } else if i == 2 {
        "University of Zurich"@
    } else if i == 3 {
        "University of Bern"@
    } else if i == 4 {
        "FHNW"@
    } else {
        "EPFL"@
    }
}

/// The organisations that every store starts with: six of them, with the
/// ids from 1 on.
pub open spec fn seed_organisations(created_at: u64) -> Seq<(u128, OrganisationView)> {
    Seq::new(
        6,
        |i: int|
            (
                (i + 1) as u128,
                OrganisationView { id: (i + 1) as u128, name: organisation_name(i), created_at },
            ),
    )
}

/// The name of the role with the id `i + 1`.
pub open spec fn role_name(i: int) -> Seq<char> {
    if i == 0 {
        "Student"@
    } else if i == 1 {
        "Lecturer"@
    } else if i == 2 {
        "Administrator"@
    } else {
        "Company"@
    }
}

/// The fixed roles: student, lecturer, administrator and company, with the
/// ids from 1 on.
pub open spec fn seed_roles() -> Seq<(u128, RoleView)> {
    Seq::new(4, |i: int| ((i + 1) as u128, RoleView { id: (i + 1) as u128, name: role_name(i) }))
}

/// The store with the seeded organisations put into its registry.
pub open spec fn with_organisations(s: StoreView, created_at: u64) -> StoreView {
    StoreView { organisations: merge(s.organisations, seed_organisations(created_at)), ..s }
}

/// The store with the fixed roles put into its catalog.
pub open spec fn with_roles(s: StoreView) -> StoreView {
    StoreView { roles: merge(s.roles, seed_roles()), ..s }
}

/// The store as it starts out: with the seeded organisations and the fixed
/// roles put in.
pub open spec fn initial(s: StoreView, now: u64) -> StoreView {
    with_roles(with_organisations(s, now))
}

/// What a snapshot of the store holds: its users, badges, pending requests
/// and approvals, as they are.
pub open spec fn snapshot(s: StoreView) -> StableDataView {
    StableDataView {
        principals: s.principals,
        badges: s.badges,
        access_requests: s.access_requests,
        badge_access_approvals: s.badge_access_approvals,
    }
}

/// The store after a snapshot was brought back: the organisations and roles
/// are seeded anew, then each table of the snapshot is merged into the
/// store's own, so that a key of both takes its value from the snapshot.
pub open spec fn restored(s: StoreView, data: StableDataView, now: u64) -> StoreView {
    let seeded = initial(s, now);
    StoreView {
        principals: merge(seeded.principals, data.principals),
        badges: merge(seeded.badges, data.badges),
        access_requests: merge(seeded.access_requests, data.access_requests),
        badge_access_approvals: merge(seeded.badge_access_approvals, data.badge_access_approvals),
        ..seeded
    }
}

/// Where the catalog knows every id before `i` and not the one at `i`,
/// that one is the first unknown.
pub proof fn lemma_unknown_role_at(catalog: Seq<(u128, RoleView)>, ids: Seq<u128>, i: int)
    requires
        0 <= i < ids.len(),
        !has_key(catalog, ids[i]),
        forall|j: int| 0 <= j < i ==> has_key(catalog, #[trigger] ids[j]),
    ensures
        unknown_role(catalog, ids) == Some(ids[i]),
{
    let k = choose|k: int|
        0 <= k < ids.len() && !has_key(catalog, #[trigger] ids[k]) && forall|j: int|
            0 <= j < k ==> has_key(catalog, #[trigger] ids[j]);
    assert(0 <= k < ids.len() && !has_key(catalog, ids[k]) && forall|j: int|
        0 <= j < k ==> has_key(catalog, #[trigger] ids[j]));
    if k < i {
        assert(has_key(catalog, ids[k]));
    } else if i < k {
        assert(has_key(catalog, ids[i]));
    }
}

/// The first owner that holds a request `id`, and the first such request
/// of that owner, are where `locate` finds it.
pub proof fn lemma_locate_at(
    requests: Seq<(Seq<u8>, Seq<StoredAccessRequestView>)>,
    id: u128,
    i: int,
    j: int,
)
    requires
        first_inbox_at(requests, id, i),
        first_request_at(requests[i].1, id, j),
    ensures
        locate(requests, id) == Some((i, j)),
{
    let i2 = choose|i2: int| first_inbox_at(requests, id, i2);
    assert(first_inbox_at(requests, id, i2));
    if i2 < i {
        assert(!holds_request(requests[i2].1, id));
    } else if i < i2 {
        assert(!holds_request(requests[i].1, id));
    }
    let j2 = choose|j2: int| first_request_at(requests[i].1, id, j2);
    assert(first_request_at(requests[i].1, id, j2));
    if j2 < j {
        assert(requests[i].1[j2].id != id);
    } else if j < j2 {
        assert(requests[i].1[j].id != id);
    }
}

} // verus!
