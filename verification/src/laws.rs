//! What holds of the rules whatever the store and the caller: stated here
//! and proved from the rules themselves.

use crate::error::{Clash, ErrorView, MissingView};
use crate::model::{BadgeView, NewBadgeView, NewUserView, UserView};
use crate::principal::{anonymous_bytes, principal_parse, CallerView};
use crate::rules;
use crate::rules::StoreView;
use crate::table::{
    get, has_key, keys_distinct, largest_key, lemma_above_largest_is_new, lemma_del_distinct,
    lemma_get_merge, lemma_get_put, lemma_index_of, lemma_merge_distinct, lemma_merge_into_empty,
    lemma_put_distinct, lemma_update_distinct, put,
};
use vstd::prelude::*;

verus! {

/// A call that may change the store, with what the texts that it comes upon
/// denote.
pub enum Call {
    Seed { now: u64 },
    Found { caller: CallerView, name: Seq<char>, now: u64 },
    Dissolve { caller: CallerView, organisation_id: u128 },
    Register { caller: CallerView, user: NewUserView, now: u64 },
    /// `owner` is the principal that the text of the owner denotes, or none.
    Issue { caller: CallerView, badge: NewBadgeView, owner: Option<Seq<u8>>, now: u64 },
    Revoke { caller: CallerView, badge_id: u128 },
    /// `owner` is the principal that the text of the badge's owner denotes,
    /// `reader` the one that the text of the caller's own record denotes, or
    /// none.
    Request {
        caller: CallerView,
        badge_id: u128,
        owner: Option<Seq<u8>>,
        reader: Option<Seq<u8>>,
        now: u64,
    },
    /// `asked` is the principal that the text of the request denotes, or
    /// none.
    Approve { caller: CallerView, request_id: u128, asked: Option<Seq<u8>> },
}

/// The store has room for what the call may add: an id after the largest
/// one in use.
pub open spec fn has_room(s: StoreView, call: Call) -> bool {
    match call {
        Call::Found { .. } => largest_key(s.organisations) < u128::MAX,
        Call::Issue { .. } => largest_key(s.badges) < u128::MAX,
        Call::Request { .. } => rules::largest_request(s.access_requests) < u128::MAX,
        _ => true,
    }
}

/// The store after the call.
pub open spec fn step(s: StoreView, call: Call) -> StoreView {
    match call {
        Call::Seed { now } => rules::initial(s, now),
        Call::Found { caller, name, now } => rules::found_next(s, caller, name, now),
        Call::Dissolve { caller, organisation_id } => rules::dissolve_next(
            s,
            caller,
            organisation_id,
        ),
        Call::Register { caller, user, now } => rules::register_next(s, caller, user, now),
        Call::Issue { caller, badge, owner, now } => rules::issue_next_with(
            s,
            caller,
            badge,
            owner,
            now,
        ),
        Call::Revoke { caller, badge_id } => rules::revoke_next(s, caller, badge_id),
        Call::Request { caller, badge_id, owner, reader, now } => rules::request_next_with(
            s,
            caller,
            badge_id,
            owner,
            reader,
            now,
        ),
        Call::Approve { caller, request_id, asked } => rules::approve_next_with(
            s,
            caller,
            request_id,
            asked,
        ),
    }
}

/// The store after the first `n` of the calls, one after the other.
pub open spec fn run(s: StoreView, calls: Seq<Call>, n: nat) -> StoreView
    decreases n,
{
    if n == 0 {
        s
    } else {
        step(run(s, calls, (n - 1) as nat), calls[n - 1])
    }
}

/// The store has room for each of the first `n` calls when its turn comes.
pub open spec fn has_room_for(s: StoreView, calls: Seq<Call>, n: nat) -> bool
    decreases n,
{
    n > 0 ==> has_room_for(s, calls, (n - 1) as nat) && has_room(
        run(s, calls, (n - 1) as nat),
        calls[n - 1],
    )
}

/// The call is turned down.
pub open spec fn refused(s: StoreView, call: Call) -> bool {
    match call {
        Call::Seed { .. } => false,
        Call::Found { caller, name, now } => rules::found_outcome(s, caller, name, now) is Err,
        Call::Dissolve { caller, organisation_id } => rules::dissolve_outcome(
            s,
            caller,
            organisation_id,
        ) is Err,
        Call::Register { caller, user, now } => rules::register_outcome(s, caller, user, now) is Err,
        Call::Issue { caller, badge, owner, now } => rules::issue_outcome_with(
            s,
            caller,
            badge,
            owner,
            now,
        ) is Err,
        Call::Revoke { caller, badge_id } => rules::revoke_outcome(s, caller, badge_id) is Err,
        Call::Request { caller, badge_id, owner, reader, now } => rules::request_outcome_with(
            s,
            caller,
            badge_id,
            owner,
            reader,
            now,
        ) is Err,
        Call::Approve { caller, request_id, asked } => rules::approve_outcome_with(
            s,
            caller,
            request_id,
            asked,
        ) is Err,
    }
}

/// Every badge that is revoked in `before` is there, and revoked, in
/// `after`.
pub open spec fn revocations_kept(before: StoreView, after: StoreView) -> bool {
    forall|id: u128| #[trigger]
        is_revoked(before, id) ==> is_revoked(after, id)
}

/// The ledger holds the badge `id`, and it is revoked.
pub open spec fn is_revoked(s: StoreView, id: u128) -> bool {
    get(s.badges, id) matches Some(b) && b.is_revoked
}

/// Every user of `before` is registered in `after`, as the same record.
pub open spec fn users_kept(before: StoreView, after: StoreView) -> bool {
    forall|p: Seq<u8>| #[trigger]
        has_key(before.principals, p) ==> get(after.principals, p) == get(before.principals, p)
}

/// Every badge of `before` is in the ledger of `after`, as it was or as it
/// was but revoked.
pub open spec fn badges_kept(before: StoreView, after: StoreView) -> bool {
    forall|id: u128| #[trigger]
        has_key(before.badges, id) ==> get(after.badges, id) == get(before.badges, id) || get(
            after.badges,
            id,
        ) == Some(rules::revoked(get(before.badges, id).unwrap()))
}

/// Every principal that was given the claims of a badge in `before` has
/// them in `after`.
pub open spec fn approvals_kept(before: StoreView, after: StoreView) -> bool {
    forall|id: u128, p: Seq<u8>| #[trigger]
        rules::granted(before.badge_access_approvals, id).contains(p) ==> rules::granted(
            after.badge_access_approvals,
            id,
        ).contains(p)
}

/// A user may see a badge if and only if the user is an administrator, or a
/// lecturer of the organisation that issued the badge, or a student who
/// owns it.
pub proof fn law_badge_access(u: UserView, b: BadgeView)
    ensures
        u.has_badge_access(b) <==> u.is_admin() || (u.is_lecturer() && u.organisation.id
            == b.issuer.id) || (u.is_student() && u.principal_id == b.owner.principal_id),
{
}

/// A user who holds none of the four roles, or the company role alone, sees
/// no badge.
pub proof fn law_no_role_no_access(u: UserView, b: BadgeView)
    requires
        !u.is_admin(),
        !u.is_lecturer(),
        !u.is_student(),
    ensures
        !u.has_badge_access(b),
{
}

/// A call that is turned down changes nothing, and the anonymous caller is
/// turned down whatever the call.
pub proof fn law_refusal_changes_nothing(s: StoreView, call: Call)
    ensures
        refused(s, call) ==> step(s, call) == s,
        match call {
            Call::Seed { .. } => true,
            Call::Found { caller, .. } => caller.principal == anonymous_bytes() ==> refused(s, call),
            Call::Dissolve { caller, .. } => caller.principal == anonymous_bytes() ==> refused(s, call),
            Call::Register { caller, .. } => caller.principal == anonymous_bytes() ==> refused(s, call),
            Call::Issue { caller, .. } => caller.principal == anonymous_bytes() ==> refused(s, call),
            Call::Revoke { caller, .. } => caller.principal == anonymous_bytes() ==> refused(s, call),
            Call::Request { caller, .. } => caller.principal == anonymous_bytes() ==> refused(s, call),
            Call::Approve { caller, .. } => caller.principal == anonymous_bytes() ==> refused(s, call),
        },
{
}

/// No call but a restore takes a badge out of the ledger or clears its
/// revocation, and each keeps the keys of every table distinct.
pub proof fn law_step_keeps_revocations(s: StoreView, call: Call)
    requires
        s.wf(),
        has_room(s, call),
    ensures
        step(s, call).wf(),
        revocations_kept(s, step(s, call)),
{
    let t = step(s, call);
    match call {
        Call::Seed { now } => {
            lemma_merge_distinct(s.organisations, rules::seed_organisations(now), 6);
            lemma_merge_distinct(s.roles, rules::seed_roles(), 4);
        },
        Call::Found { caller, name, now } => {
            if rules::found_outcome(s, caller, name, now) is Ok {
                let o = rules::found_outcome(s, caller, name, now)->Ok_0;
                lemma_above_largest_is_new(s.organisations, o.id);
                lemma_put_distinct(s.organisations, o.id, o);
            }
        },
        Call::Dissolve { caller, organisation_id } => {
            lemma_del_distinct(s.organisations, organisation_id);
        },
        Call::Register { caller, user, now } => {
            if rules::register_outcome(s, caller, user, now) is Ok {
                let u = rules::register_outcome(s, caller, user, now)->Ok_0;
                lemma_put_distinct(s.principals, caller.principal, u);
            }
        },
        Call::Issue { caller, badge, owner, now } => {
            if rules::issue_outcome_with(s, caller, badge, owner, now) is Ok {
                let b = rules::issue_outcome_with(s, caller, badge, owner, now)->Ok_0;
                lemma_above_largest_is_new(s.badges, b.id);
                lemma_put_distinct(s.badges, b.id, b);
                assert forall|id: u128| #[trigger] is_revoked(s, id) implies is_revoked(t, id) by {
                    lemma_get_put(s.badges, b.id, b, id);
                }
            }
        },
        Call::Revoke { caller, badge_id } => {
            if rules::revoke_outcome(s, caller, badge_id) is Ok {
                let b = rules::revoked(get(s.badges, badge_id).unwrap());
                lemma_put_distinct(s.badges, badge_id, b);
                assert forall|id: u128| #[trigger] is_revoked(s, id) implies is_revoked(t, id) by {
                    lemma_get_put(s.badges, badge_id, b, id);
                }
            }
        },
        Call::Request { caller, badge_id, owner, reader, now } => {
            if rules::request_outcome_with(s, caller, badge_id, owner, reader, now) is Ok {
                let owner = owner.unwrap();
                lemma_put_distinct(
                    s.access_requests,
                    owner,
                    rules::inbox(s.access_requests, owner).push(
                        rules::new_request(s, caller, badge_id, now),
                    ),
                );
            }
        },
        Call::Approve { caller, request_id, asked } => {
            if rules::approve_outcome_with(s, caller, request_id, asked) is Ok {
                lemma_located(s.access_requests, request_id);
                let (i, j) = rules::locate(s.access_requests, request_id).unwrap();
                let request = s.access_requests[i].1[j];
                let p = asked.unwrap();
                lemma_update_distinct(s.access_requests, i, s.access_requests[i].1.remove(j));
                lemma_put_distinct(
                    s.badge_access_approvals,
                    request.badge_id,
                    rules::granted(s.badge_access_approvals, request.badge_id).push(p),
                );
            }
        },
    }
}

/// No call but a restore takes back what was recorded: a registered user
/// stays as registered, a badge stays in the ledger and changes in nothing
/// but its revocation, and an approval stays.
pub proof fn law_step_keeps_records(s: StoreView, call: Call)
    requires
        s.wf(),
        has_room(s, call),
    ensures
        users_kept(s, step(s, call)),
        badges_kept(s, step(s, call)),
        approvals_kept(s, step(s, call)),
{
    let t = step(s, call);
    match call {
        Call::Register { caller, user, now } => {
            if rules::register_outcome(s, caller, user, now) is Ok {
                let u = rules::register_outcome(s, caller, user, now)->Ok_0;
                assert forall|p: Seq<u8>| #[trigger] has_key(s.principals, p) implies get(
                    t.principals,
                    p,
                ) == get(s.principals, p) by {
                    lemma_get_put(s.principals, caller.principal, u, p);
                }
            }
        },
        Call::Issue { caller, badge, owner, now } => {
            if rules::issue_outcome_with(s, caller, badge, owner, now) is Ok {
                let b = rules::issue_outcome_with(s, caller, badge, owner, now)->Ok_0;
                lemma_above_largest_is_new(s.badges, b.id);
                assert forall|id: u128| #[trigger] has_key(s.badges, id) implies get(t.badges, id)
                    == get(s.badges, id) by {
                    lemma_get_put(s.badges, b.id, b, id);
                }
            }
        },
        Call::Revoke { caller, badge_id } => {
            if rules::revoke_outcome(s, caller, badge_id) is Ok {
                let b = rules::revoked(get(s.badges, badge_id).unwrap());
                assert forall|id: u128| #[trigger] has_key(s.badges, id) implies get(t.badges, id)
                    == get(s.badges, id) || get(t.badges, id) == Some(
                    rules::revoked(get(s.badges, id).unwrap()),
                ) by {
                    lemma_get_put(s.badges, badge_id, b, id);
                }
            }
        },
        Call::Approve { caller, request_id, asked } => {
            if rules::approve_outcome_with(s, caller, request_id, asked) is Ok {
                let (i, j) = rules::locate(s.access_requests, request_id).unwrap();
                let request = s.access_requests[i].1[j];
                let asked = asked.unwrap();
                let before = rules::granted(s.badge_access_approvals, request.badge_id);
                let list = before.push(asked);
                assert forall|id: u128, p: Seq<u8>| #[trigger]
                    rules::granted(s.badge_access_approvals, id).contains(
                        p,
                    ) implies rules::granted(t.badge_access_approvals, id).contains(p) by {
                    lemma_get_put(s.badge_access_approvals, request.badge_id, list, id);
                    if id == request.badge_id {
                        let w = choose|w: int| 0 <= w < before.len() && before[w] == p;
                        assert(list[w] == p);
                    }
                }
            }
        },
        _ => {},
    }
}

/// Where `locate` finds a request, it is a place of the table: that of a
/// request with the id asked for.
pub proof fn lemma_located(
    requests: Seq<(Seq<u8>, Seq<crate::model::StoredAccessRequestView>)>,
    id: u128,
)
    ensures
        rules::locate(requests, id) matches Some((i, j)) ==> 0 <= i < requests.len() && 0 <= j
            < requests[i].1.len() && requests[i].1[j].id == id,
{
    if exists|i: int| rules::first_inbox_at(requests, id, i) {
        let i = choose|i: int| rules::first_inbox_at(requests, id, i);
        assert(rules::holds_request(requests[i].1, id));
        let w = choose|j: int| 0 <= j < requests[i].1.len() && (#[trigger] requests[i].1[j]).id == id;
        lemma_first_request(requests[i].1, id, w);
    }
}

/// A list that holds a request with the id `id` at `w` has a first such
/// request.
proof fn lemma_first_request(list: Seq<crate::model::StoredAccessRequestView>, id: u128, w: int)
    requires
        0 <= w < list.len(),
        list[w].id == id,
    ensures
        exists|j: int| rules::first_request_at(list, id, j),
    decreases w,
{
    if exists|k: int| 0 <= k < w && (#[trigger] list[k]).id == id {
        let k = choose|k: int| 0 <= k < w && (#[trigger] list[k]).id == id;
        lemma_first_request(list, id, k);
    } else {
        assert(rules::first_request_at(list, id, w));
    }
}

/// Revocation cannot be undone: once a revoke went through, the badge is
/// there and revoked after any calls that follow, a restore apart.
pub proof fn law_revocation_is_monotone(
    s: StoreView,
    caller: CallerView,
    badge_id: u128,
    calls: Seq<Call>,
    n: nat,
)
    requires
        s.wf(),
        rules::revoke_outcome(s, caller, badge_id) is Ok,
        has_room_for(rules::revoke_next(s, caller, badge_id), calls, n),
    ensures
        run(rules::revoke_next(s, caller, badge_id), calls, n).wf(),
        is_revoked(run(rules::revoke_next(s, caller, badge_id), calls, n), badge_id),
    decreases n,
{
    let first = rules::revoke_next(s, caller, badge_id);
    if n == 0 {
        law_step_keeps_revocations(s, Call::Revoke { caller, badge_id });
        lemma_get_put(s.badges, badge_id, rules::revoked(get(s.badges, badge_id).unwrap()), badge_id);
    } else {
        law_revocation_is_monotone(s, caller, badge_id, calls, (n - 1) as nat);
        let before = run(first, calls, (n - 1) as nat);
        law_step_keeps_revocations(before, calls[n - 1]);
        assert(is_revoked(before, badge_id));
    }
}

/// A restore keeps the revocations where the snapshot does: a badge that is
/// revoked in the store stays so unless the snapshot holds it as not
/// revoked.
pub proof fn law_restore_keeps_revocations(
    s: StoreView,
    data: crate::model::StableDataView,
    now: u64,
)
    requires
        s.wf(),
        keys_distinct(data.badges),
        forall|id: u128| #[trigger]
            is_revoked(s, id) && has_key(data.badges, id) ==> get(
                data.badges,
                id,
            ).unwrap().is_revoked,
    ensures
        revocations_kept(s, rules::restored(s, data, now)),
{
    let t = rules::restored(s, data, now);
    assert forall|id: u128| #[trigger] is_revoked(s, id) implies is_revoked(t, id) by {
        lemma_get_merge(s.badges, data.badges, id);
    }
}

/// A second revoke of a badge goes through like the first and changes
/// nothing.
pub proof fn law_second_revoke_succeeds(s: StoreView, caller: CallerView, badge_id: u128)
    requires
        s.wf(),
        rules::revoke_outcome(s, caller, badge_id) is Ok,
    ensures
        rules::revoke_outcome(rules::revoke_next(s, caller, badge_id), caller, badge_id) == Ok::<
            bool,
            ErrorView,
        >(true),
        rules::revoke_next(rules::revoke_next(s, caller, badge_id), caller, badge_id)
            == rules::revoke_next(s, caller, badge_id),
{
    let b = rules::revoked(get(s.badges, badge_id).unwrap());
    let t = rules::revoke_next(s, caller, badge_id);
    lemma_get_put(s.badges, badge_id, b, badge_id);
    lemma_put_distinct(s.badges, badge_id, b);
    let i = crate::table::index_of(s.badges, badge_id);
    lemma_index_of(t.badges, badge_id, i);
    assert(put(t.badges, badge_id, b) =~= t.badges);
}

/// What a read of a badge shows of its revocation is what the ledger holds.
pub proof fn law_read_shows_revocation(
    s: StoreView,
    caller: CallerView,
    badge_id: u128,
    reader: Option<Seq<u8>>,
)
    ensures
        rules::badge_outcome_with(s, caller, badge_id, reader) matches Ok(b) ==> b.is_revoked
            == is_revoked(s, badge_id),
{
}

/// A registered caller who is neither an administrator nor a lecturer can
/// revoke nothing, the own badges included: the call is refused as
/// forbidden where the badge exists, and changes nothing.
pub proof fn law_student_cannot_revoke(s: StoreView, caller: CallerView, badge_id: u128)
    requires
        rules::caller_user(s, caller) matches Ok(u) && !u.is_admin() && !u.is_lecturer(),
    ensures
        rules::revoke_outcome(s, caller, badge_id) is Err,
        has_key(s.badges, badge_id) ==> rules::revoke_outcome(s, caller, badge_id) matches Err(
            ErrorView::Forbidden(_, _),
        ),
        rules::revoke_next(s, caller, badge_id) == s,
{
}

/// A registration that names an organisation which does not exist is
/// refused: the organisation is not found.
pub proof fn law_register_unknown_organisation(
    s: StoreView,
    caller: CallerView,
    user: NewUserView,
    now: u64,
)
    requires
        caller.principal != anonymous_bytes(),
        !has_key(s.principals, caller.principal),
        !has_key(s.organisations, user.organisation_id),
    ensures
        rules::register_outcome(s, caller, user, now) == Err::<UserView, ErrorView>(
            ErrorView::NotFound(MissingView::Organisation(user.organisation_id)),
        ),
        rules::register_next(s, caller, user, now) == s,
{
}

/// A principal registers once: after a registration went through, any
/// further one by the same caller is refused, as the user exists already.
pub proof fn law_register_twice(
    s: StoreView,
    caller: CallerView,
    first: NewUserView,
    now: u64,
    second: NewUserView,
    later: u64,
)
    requires
        s.wf(),
        rules::register_outcome(s, caller, first, now) is Ok,
    ensures
        rules::register_outcome(rules::register_next(s, caller, first, now), caller, second, later)
            == Err::<UserView, ErrorView>(ErrorView::AlreadyExists(caller.text)),
{
    let u = rules::register_outcome(s, caller, first, now)->Ok_0;
    lemma_get_put(s.principals, caller.principal, u, caller.principal);
}

/// A request is made once: after a request for the claims of a badge went
/// through, a second one by the same caller for the same badge is refused
/// as a conflict while the first is pending.
pub proof fn law_second_request_conflicts(
    s: StoreView,
    caller: CallerView,
    badge_id: u128,
    owner: Option<Seq<u8>>,
    reader: Option<Seq<u8>>,
    now: u64,
    later: u64,
)
    requires
        s.wf(),
        rules::request_outcome_with(s, caller, badge_id, owner, reader, now) is Ok,
    ensures
        rules::request_outcome_with(
            rules::request_next_with(s, caller, badge_id, owner, reader, now),
            caller,
            badge_id,
            owner,
            reader,
            later,
        ) == Err::<crate::model::AccessRequestView, ErrorView>(
            ErrorView::Conflict(caller.text, badge_id, Clash::Requested),
        ),
{
    let t = rules::request_next_with(s, caller, badge_id, owner, reader, now);
    let made = rules::new_request(s, caller, badge_id, now);
    let list = rules::inbox(s.access_requests, owner.unwrap()).push(made);
    lemma_get_put(s.access_requests, owner.unwrap(), list, owner.unwrap());
    assert(rules::inbox(t.access_requests, owner.unwrap()) == list);
    assert(list[list.len() - 1] == made);
}

/// An approval opens the claims: after an approval went through, the
/// principal that had asked counts as approved for the badge asked for.
pub proof fn law_approval_opens_claims(
    s: StoreView,
    caller: CallerView,
    request_id: u128,
    asked: Option<Seq<u8>>,
)
    requires
        s.wf(),
        rules::approve_outcome_with(s, caller, request_id, asked) is Ok,
    ensures
        rules::approved_with(
            rules::approve_next_with(s, caller, request_id, asked).badge_access_approvals,
            rules::pending_request(s, request_id).unwrap().badge_id,
            asked,
        ),
        rules::pending_request(s, request_id).unwrap().id == request_id,
{
    let request = rules::pending_request(s, request_id).unwrap();
    let list = rules::granted(s.badge_access_approvals, request.badge_id).push(asked.unwrap());
    lemma_get_put(s.badge_access_approvals, request.badge_id, list, request.badge_id);
    assert(list[list.len() - 1] == asked.unwrap());
    lemma_located(s.access_requests, request_id);
}

/// Who was given the claims of a badge has nothing more to ask for: a
/// request for that badge is turned down.
pub proof fn law_approved_cannot_ask_again(
    s: StoreView,
    caller: CallerView,
    badge_id: u128,
    owner: Option<Seq<u8>>,
    reader: Option<Seq<u8>>,
    now: u64,
)
    requires
        rules::approved_with(s.badge_access_approvals, badge_id, reader),
    ensures
        rules::request_outcome_with(s, caller, badge_id, owner, reader, now) is Err,
        rules::request_next_with(s, caller, badge_id, owner, reader, now) == s,
{
}

/// A reader who can see a badge and counts as approved for it reads the
/// badge as the ledger holds it, claims and all, whatever the reader's
/// roles.
pub proof fn law_approved_reader_sees_claims(
    s: StoreView,
    caller: CallerView,
    badge_id: u128,
    reader: Option<Seq<u8>>,
)
    requires
        rules::caller_user(s, caller) is Ok,
        get(s.badges, badge_id) is Some,
        get(s.badges, badge_id).unwrap().id == badge_id,
        rules::caller_user(s, caller)->Ok_0.has_badge_access(get(s.badges, badge_id).unwrap()),
        rules::approved_with(s.badge_access_approvals, badge_id, reader),
    ensures
        rules::badge_outcome_with(s, caller, badge_id, reader) == Ok::<BadgeView, ErrorView>(
            get(s.badges, badge_id).unwrap(),
        ),
{
}

/// A company that was not given the claims of a badge reads it without
/// them, and otherwise as it is.
pub proof fn law_unapproved_company_sees_no_claims(
    s: StoreView,
    u: UserView,
    b: BadgeView,
    reader: Option<Seq<u8>>,
)
    requires
        u.is_company(),
        !rules::approved_with(s.badge_access_approvals, b.id, reader),
    ensures
        rules::clear_claims_with(s, u, b, reader) == (BadgeView { claims: Seq::empty(), ..b }),
{
}

/// A badge gets an id of its own: one that no badge of the ledger has, and
/// above them all.
pub proof fn law_issued_id_is_new(
    s: StoreView,
    caller: CallerView,
    badge: NewBadgeView,
    owner: Option<Seq<u8>>,
    now: u64,
)
    requires
        largest_key(s.badges) < u128::MAX,
        rules::issue_outcome_with(s, caller, badge, owner, now) is Ok,
    ensures
        !has_key(s.badges, rules::issue_outcome_with(s, caller, badge, owner, now)->Ok_0.id),
        forall|i: int|
            0 <= i < s.badges.len() ==> (#[trigger] s.badges[i]).0 < rules::issue_outcome_with(
                s,
                caller,
                badge,
                owner,
                now,
            )->Ok_0.id,
        rules::issue_outcome_with(s, caller, badge, owner, now)->Ok_0.id == largest_key(s.badges)
            + 1,
{
    let id = rules::issue_outcome_with(s, caller, badge, owner, now)->Ok_0.id;
    lemma_above_largest_is_new(s.badges, id);
    crate::table::lemma_largest_key_upto(s.badges, s.badges.len());
}

proof fn lemma_largest_request_in(
    list: Seq<crate::model::StoredAccessRequestView>,
    n: nat,
    floor: u128,
)
    requires
        n <= list.len(),
    ensures
        floor <= rules::largest_request_in(list, n, floor),
        forall|j: int| 0 <= j < n ==> (#[trigger] list[j]).id <= rules::largest_request_in(list, n, floor),
    decreases n,
{
    if n > 0 {
        lemma_largest_request_in(list, (n - 1) as nat, floor);
    }
}

proof fn lemma_largest_request_upto(
    requests: Seq<(Seq<u8>, Seq<crate::model::StoredAccessRequestView>)>,
    n: nat,
)
    requires
        n <= requests.len(),
    ensures
        forall|i: int, j: int|
            0 <= i < n && 0 <= j < requests[i].1.len() ==> (#[trigger] requests[i].1[j]).id
                <= rules::largest_request_upto(requests, n),
    decreases n,
{
    if n > 0 {
        lemma_largest_request_upto(requests, (n - 1) as nat);
        lemma_largest_request_in(
            requests[n - 1].1,
            requests[n - 1].1.len(),
            rules::largest_request_upto(requests, (n - 1) as nat),
        );
    }
}

/// A request gets an id of its own: one that no pending request has.
pub proof fn law_request_id_is_new(s: StoreView, caller: CallerView, badge_id: u128, now: u64)
    requires
        rules::largest_request(s.access_requests) < u128::MAX,
    ensures
        forall|i: int, j: int|
            0 <= i < s.access_requests.len() && 0 <= j < s.access_requests[i].1.len() ==> (
            #[trigger] s.access_requests[i].1[j]).id < rules::new_request(
                s,
                caller,
                badge_id,
                now,
            ).id,
{
    lemma_largest_request_upto(s.access_requests, s.access_requests.len());
}

/// A request that was just made is the pending one under its id.
pub proof fn lemma_new_request_is_pending(
    s: StoreView,
    caller: CallerView,
    badge_id: u128,
    owner: Option<Seq<u8>>,
    reader: Option<Seq<u8>>,
    now: u64,
)
    requires
        s.wf(),
        rules::largest_request(s.access_requests) < u128::MAX,
        rules::request_outcome_with(s, caller, badge_id, owner, reader, now) is Ok,
    ensures
        rules::pending_request(
            rules::request_next_with(s, caller, badge_id, owner, reader, now),
            rules::new_request(s, caller, badge_id, now).id,
        ) == Some(rules::new_request(s, caller, badge_id, now)),
{
    let before = s.access_requests;
    let after = rules::request_next_with(s, caller, badge_id, owner, reader, now).access_requests;
    let o = owner.unwrap();
    let made = rules::new_request(s, caller, badge_id, now);
    let list = rules::inbox(before, o).push(made);
    lemma_largest_request_upto(before, before.len());
    let i = if has_key(before, o) {
        crate::table::index_of(before, o)
    } else {
        before.len() as int
    };
    let j = list.len() - 1;
    assert(after[i].1 == list);
    assert(list[j] == made);
    assert forall|k: int| 0 <= k < i implies !rules::holds_request(
        (#[trigger] after[k]).1,
        made.id,
    ) by {
        assert(after[k] == before[k]);
        assert forall|w: int| 0 <= w < before[k].1.len() implies (#[trigger] before[k].1[w]).id
            != made.id by {
        }
    }
    assert forall|w: int| 0 <= w < j implies (#[trigger] list[w]).id != made.id by {
        if has_key(before, o) {
            assert(list[w] == before[i].1[w]);
        }
    }
    rules::lemma_locate_at(after, made.id, i, j);
}

/// The way of a request, from the asking to the reading: a company that is
/// registered under the text it comes with asks for the claims of a badge,
/// and the request goes through; the owner approves that request; from then
/// on the company reads the badge as the ledger holds it, claims and all.
pub proof fn law_request_round_trip(
    s: StoreView,
    company: CallerView,
    badge_id: u128,
    now: u64,
    owner: CallerView,
)
    requires
        s.wf(),
        rules::largest_request(s.access_requests) < u128::MAX,
        get(s.badges, badge_id) is Some,
        get(s.badges, badge_id).unwrap().id == badge_id,
        rules::caller_user(s, company) is Ok,
        rules::caller_user(s, company)->Ok_0.principal_id == company.text,
        rules::request_outcome(s, company, badge_id, now) is Ok,
        rules::approve_outcome(
            rules::request_next(s, company, badge_id, now),
            owner,
            rules::request_outcome(s, company, badge_id, now)->Ok_0.id,
        ) is Ok,
    ensures
        rules::badge_outcome(
            rules::approve_next(
                rules::request_next(s, company, badge_id, now),
                owner,
                rules::request_outcome(s, company, badge_id, now)->Ok_0.id,
            ),
            company,
            badge_id,
        ) == Ok::<BadgeView, ErrorView>(get(s.badges, badge_id).unwrap()),
{
    let asked_for = rules::request_next(s, company, badge_id, now);
    let id = rules::request_outcome(s, company, badge_id, now)->Ok_0.id;
    lemma_new_request_is_pending(
        s,
        company,
        badge_id,
        rules::owner_of(s, badge_id),
        rules::reader_of(s, company),
        now,
    );
    let asked = rules::asked_of(asked_for, id);
    assert(asked == principal_parse(company.text));
    law_approval_opens_claims(asked_for, owner, id, asked);
    let opened = rules::approve_next(asked_for, owner, id);
    assert(rules::reader_of(opened, company) == asked);
}

/// A user holds each role once: the roles that a registration gives have
/// ids that differ from one another, whatever ids were asked for.
pub proof fn law_roles_once(catalog: Seq<(u128, crate::model::RoleView)>, ids: Seq<u128>, n: nat)
    requires
        n <= ids.len(),
    ensures
        forall|i: int, j: int|
            0 <= i < j < rules::resolve_roles(catalog, ids, n).len() ==> (
            #[trigger] rules::resolve_roles(catalog, ids, n)[i]).id != (
            #[trigger] rules::resolve_roles(catalog, ids, n)[j]).id,
    decreases n,
{
    if n > 0 {
        law_roles_once(catalog, ids, (n - 1) as nat);
        let found = rules::resolve_roles(catalog, ids, (n - 1) as nat);
        let all = rules::resolve_roles(catalog, ids, n);
        assert forall|i: int, j: int| 0 <= i < j < all.len() implies (#[trigger] all[i]).id != (
        #[trigger] all[j]).id by {
            if j < found.len() {
                assert(all[i] == found[i] && all[j] == found[j]);
            } else {
                let role = get(catalog, ids[n - 1]).unwrap();
                assert(all == found.push(role));
                assert(!crate::model::holds_role(found, role.id));
                assert(all[i] == found[i]);
            }
        }
    }
}

/// A snapshot brought back into a store that holds nothing gives the
/// directory of users, the ledger of badges, the pending requests and the
/// approvals as they were when it was taken.
pub proof fn law_snapshot_round_trip(s: StoreView, now: u64)
    requires
        s.wf(),
    ensures
        rules::restored(StoreView::empty(), rules::snapshot(s), now).principals == s.principals,
        rules::restored(StoreView::empty(), rules::snapshot(s), now).badges == s.badges,
        rules::restored(StoreView::empty(), rules::snapshot(s), now).access_requests
            == s.access_requests,
        rules::restored(StoreView::empty(), rules::snapshot(s), now).badge_access_approvals
            == s.badge_access_approvals,
{
    lemma_merge_into_empty(s.principals);
    lemma_merge_into_empty(s.badges);
    lemma_merge_into_empty(s.access_requests);
    lemma_merge_into_empty(s.badge_access_approvals);
}

} // verus!
