//! The records of the system, each with its view, and the rules that decide
//! what a user may see and do.

use crate::principal::PrincipalId;
use crate::table::{duplicate_all, views, List, Record, Table};
use vstd::prelude::*;

verus! {

/// The role of a badge holder.
pub const STUDENT_ROLE_ID: u128 = 1;

/// The role of one who issues badges for an organisation.
pub const LECTURER_ROLE_ID: u128 = 2;

/// The role of one who may do everything.
pub const ADMINISTRATOR_ROLE_ID: u128 = 3;

/// The role of an outside party that asks to see claims.
pub const COMPANY_ROLE_ID: u128 = 4;

/// A copy of an optional text.
pub fn duplicate_text(text: &Option<String>) -> (r: Option<String>)
    ensures
        text_view(r) == text_view(*text),
{
    match text {
        Some(s) => Some(s.clone()),
        None => None,
    }
}

/// The view of an optional text.
pub open spec fn text_view(text: Option<String>) -> Option<Seq<char>> {
    match text {
        Some(s) => Some(s@),
        None => None,
    }
}

/// The outcome of a call as it goes over the wire: a value, or a message
/// that says why there is none.
#[derive(Debug, PartialEq, Eq)]
pub enum Response<T> {
    Okay(T),
    Error(String),
}

impl<T: Clone> Clone for Response<T> {
    fn clone(&self) -> (r: Self) {
        match self {
            Response::Okay(value) => Response::Okay(value.clone()),
            Response::Error(message) => Response::Error(message.clone()),
        }
    }
}

/// One attribute of a badge.
#[derive(Debug, PartialEq, Eq)]
pub struct Claim {
    pub key: String,
    pub value: String,
}

pub struct ClaimView {
    pub key: Seq<char>,
    pub value: Seq<char>,
}

impl View for Claim {
    type V = ClaimView;

    open spec fn view(&self) -> ClaimView {
        ClaimView { key: self.key@, value: self.value@ }
    }
}

impl Clone for Claim {
    fn clone(&self) -> (r: Claim)
        ensures
            r@ == self@,
    {
        self.duplicate()
    }
}

impl Record for Claim {
    fn duplicate(&self) -> (r: Claim) {
        Claim { key: self.key.clone(), value: self.value.clone() }
    }
}

/// One of the fixed roles.
#[derive(Debug, PartialEq, Eq)]
pub struct Role {
    pub id: u128,
    pub name: String,
}

pub struct RoleView {
    pub id: u128,
    pub name: Seq<char>,
}

impl View for Role {
    type V = RoleView;

    open spec fn view(&self) -> RoleView {
        RoleView { id: self.id, name: self.name@ }
    }
}

impl Clone for Role {
    fn clone(&self) -> (r: Role)
        ensures
            r@ == self@,
    {
        self.duplicate()
    }
}

impl Record for Role {
    fn duplicate(&self) -> (r: Role) {
        Role { id: self.id, name: self.name.clone() }
    }
}

/// An organisation that issues badges.
#[derive(Debug, PartialEq, Eq)]
pub struct Organisation {
    pub id: u128,
    pub name: String,
    pub created_at: u64,
}

pub struct OrganisationView {
    pub id: u128,
    pub name: Seq<char>,
    pub created_at: u64,
}

impl View for Organisation {
    type V = OrganisationView;

    open spec fn view(&self) -> OrganisationView {
        OrganisationView { id: self.id, name: self.name@, created_at: self.created_at }
    }
}

impl Clone for Organisation {
    fn clone(&self) -> (r: Organisation)
        ensures
            r@ == self@,
    {
        self.duplicate()
    }
}

impl Record for Organisation {
    fn duplicate(&self) -> (r: Organisation) {
        Organisation { id: self.id, name: self.name.clone(), created_at: self.created_at }
    }
}

/// A registered user: a member of one organisation, with some roles.
#[derive(Debug, PartialEq, Eq)]
pub struct User {
    pub name: String,
    pub email: String,
    pub principal_id: String,
    pub organisation: Organisation,
    pub created_at: u64,
    pub roles: Vec<Role>,
}

pub struct UserView {
    pub name: Seq<char>,
    pub email: Seq<char>,
    pub principal_id: Seq<char>,
    pub organisation: OrganisationView,
    pub created_at: u64,
    pub roles: Seq<RoleView>,
}

impl View for User {
    type V = UserView;

    open spec fn view(&self) -> UserView {
        UserView {
            name: self.name@,
            email: self.email@,
            principal_id: self.principal_id@,
            organisation: self.organisation@,
            created_at: self.created_at,
            roles: views(self.roles@),
        }
    }
}

impl Clone for User {
    fn clone(&self) -> (r: User)
        ensures
            r@ == self@,
    {
        self.duplicate()
    }
}

impl Record for User {
    fn duplicate(&self) -> (r: User) {
        User {
            name: self.name.clone(),
            email: self.email.clone(),
            principal_id: self.principal_id.clone(),
            organisation: self.organisation.duplicate(),
            created_at: self.created_at,
            roles: duplicate_all(&self.roles),
        }
    }
}

/// A badge: a credential that an organisation issued to a user.
#[derive(Debug, PartialEq, Eq)]
pub struct Badge {
    pub id: u128,
    pub title: String,
    pub description: Option<String>,
    pub badge_type: u16,
    pub issuer: Organisation,
    pub owner: User,
    pub is_revoked: bool,
    pub claims: Vec<Claim>,
    pub signed_by: Vec<String>,
    pub created_at: u64,
}

pub struct BadgeView {
    pub id: u128,
    pub title: Seq<char>,
    pub description: Option<Seq<char>>,
    pub badge_type: u16,
    pub issuer: OrganisationView,
    pub owner: UserView,
    pub is_revoked: bool,
    pub claims: Seq<ClaimView>,
    pub signed_by: Seq<Seq<char>>,
    pub created_at: u64,
}

impl View for Badge {
    type V = BadgeView;

    open spec fn view(&self) -> BadgeView {
        BadgeView {
            id: self.id,
            title: self.title@,
            description: text_view(self.description),
            badge_type: self.badge_type,
            issuer: self.issuer@,
            owner: self.owner@,
            is_revoked: self.is_revoked,
            claims: views(self.claims@),
            signed_by: views(self.signed_by@),
            created_at: self.created_at,
        }
    }
}

impl Clone for Badge {
    fn clone(&self) -> (r: Badge)
        ensures
            r@ == self@,
    {
        self.duplicate()
    }
}

impl Record for Badge {
    fn duplicate(&self) -> (r: Badge) {
        Badge {
            id: self.id,
            title: self.title.clone(),
            description: duplicate_text(&self.description),
            badge_type: self.badge_type,
            issuer: self.issuer.duplicate(),
            owner: self.owner.duplicate(),
            is_revoked: self.is_revoked,
            claims: duplicate_all(&self.claims),
            signed_by: duplicate_all(&self.signed_by),
            created_at: self.created_at,
        }
    }
}

/// What a caller hands in to have a badge issued.
#[derive(Debug, PartialEq, Eq)]
pub struct NewBadge {
    pub title: String,
    pub description: Option<String>,
    pub badge_type: u16,
    pub issuer_id: u128,
    pub owner_id: String,
    pub claims: Vec<Claim>,
}

pub struct NewBadgeView {
    pub title: Seq<char>,
    pub description: Option<Seq<char>>,
    pub badge_type: u16,
    pub issuer_id: u128,
    pub owner_id: Seq<char>,
    pub claims: Seq<ClaimView>,
}

impl View for NewBadge {
    type V = NewBadgeView;

    open spec fn view(&self) -> NewBadgeView {
        NewBadgeView {
            title: self.title@,
            description: text_view(self.description),
            badge_type: self.badge_type,
            issuer_id: self.issuer_id,
            owner_id: self.owner_id@,
            claims: views(self.claims@),
        }
    }
}

impl Clone for NewBadge {
    fn clone(&self) -> (r: NewBadge)
        ensures
            r@ == self@,
    {
        self.duplicate()
    }
}

impl Record for NewBadge {
    fn duplicate(&self) -> (r: NewBadge) {
        NewBadge {
            title: self.title.clone(),
            description: duplicate_text(&self.description),
            badge_type: self.badge_type,
            issuer_id: self.issuer_id,
            owner_id: self.owner_id.clone(),
            claims: duplicate_all(&self.claims),
        }
    }
}

/// What a caller hands in to be registered.
#[derive(Debug, PartialEq, Eq)]
pub struct NewUser {
    pub name: String,
    pub email: String,
    pub organisation_id: u128,
    pub roles: Vec<u128>,
}

pub struct NewUserView {
    pub name: Seq<char>,
    pub email: Seq<char>,
    pub organisation_id: u128,
    pub roles: Seq<u128>,
}

impl View for NewUser {
    type V = NewUserView;

    open spec fn view(&self) -> NewUserView {
        NewUserView {
            name: self.name@,
            email: self.email@,
            organisation_id: self.organisation_id,
            roles: self.roles@,
        }
    }
}

impl Clone for NewUser {
    fn clone(&self) -> (r: NewUser)
        ensures
            r@ == self@,
    {
        self.duplicate()
    }
}

impl Record for NewUser {
    fn duplicate(&self) -> (r: NewUser) {
        let roles = duplicate_all(&self.roles);
        assert(roles@ =~= views(roles@));
        assert(self.roles@ =~= views(self.roles@));
        NewUser {
            name: self.name.clone(),
            email: self.email.clone(),
            organisation_id: self.organisation_id,
            roles,
        }
    }
}

/// Where a file that belongs to a badge can be found.
#[derive(Debug, PartialEq, Eq)]
pub struct FileLocation {
    pub location: String,
}

pub struct FileLocationView {
    pub location: Seq<char>,
}

impl View for FileLocation {
    type V = FileLocationView;

    open spec fn view(&self) -> FileLocationView {
        FileLocationView { location: self.location@ }
    }
}

impl Clone for FileLocation {
    fn clone(&self) -> (r: FileLocation)
        ensures
            r@ == self@,
    {
        self.duplicate()
    }
}

impl Record for FileLocation {
    fn duplicate(&self) -> (r: FileLocation) {
        FileLocation { location: self.location.clone() }
    }
}

/// A pending request as it is kept: who asks, and for which badge.
#[derive(Debug, PartialEq, Eq)]
pub struct StoredAccessRequest {
    pub id: u128,
    pub principal_id: String,
    pub badge_id: u128,
    pub created_at: u64,
}

pub struct StoredAccessRequestView {
    pub id: u128,
    pub principal_id: Seq<char>,
    pub badge_id: u128,
    pub created_at: u64,
}

impl View for StoredAccessRequest {
    type V = StoredAccessRequestView;

    open spec fn view(&self) -> StoredAccessRequestView {
        StoredAccessRequestView {
            id: self.id,
            principal_id: self.principal_id@,
            badge_id: self.badge_id,
            created_at: self.created_at,
        }
    }
}

impl Clone for StoredAccessRequest {
    fn clone(&self) -> (r: StoredAccessRequest)
        ensures
            r@ == self@,
    {
        self.duplicate()
    }
}

impl Record for StoredAccessRequest {
    fn duplicate(&self) -> (r: StoredAccessRequest) {
        StoredAccessRequest {
            id: self.id,
            principal_id: self.principal_id.clone(),
            badge_id: self.badge_id,
            created_at: self.created_at,
        }
    }
}

/// A pending request as a caller sees it: with the user who asks and the
/// badge asked for.
#[derive(Debug, PartialEq, Eq)]
pub struct AccessRequest {
    pub id: u128,
    pub user: User,
    pub badge: Badge,
    pub created_at: u64,
}

pub struct AccessRequestView {
    pub id: u128,
    pub user: UserView,
    pub badge: BadgeView,
    pub created_at: u64,
}

impl View for AccessRequest {
    type V = AccessRequestView;

    open spec fn view(&self) -> AccessRequestView {
        AccessRequestView {
            id: self.id,
            user: self.user@,
            badge: self.badge@,
            created_at: self.created_at,
        }
    }
}

impl Clone for AccessRequest {
    fn clone(&self) -> (r: AccessRequest)
        ensures
            r@ == self@,
    {
        self.duplicate()
    }
}

impl Record for AccessRequest {
    fn duplicate(&self) -> (r: AccessRequest) {
        AccessRequest {
            id: self.id,
            user: self.user.duplicate(),
            badge: self.badge.duplicate(),
            created_at: self.created_at,
        }
    }
}

/// All that outlasts a restart: the directory of users, the ledger of
/// badges, the pending requests and the approvals.
#[derive(Debug, PartialEq, Eq)]
pub struct StableData {
    pub principals: Table<PrincipalId, User>,
    pub badges: Table<u128, Badge>,
    pub access_requests: Table<PrincipalId, List<StoredAccessRequest>>,
    pub badge_access_approvals: Table<u128, List<PrincipalId>>,
}

pub struct StableDataView {
    pub principals: Seq<(Seq<u8>, UserView)>,
    pub badges: Seq<(u128, BadgeView)>,
    pub access_requests: Seq<(Seq<u8>, Seq<StoredAccessRequestView>)>,
    pub badge_access_approvals: Seq<(u128, Seq<Seq<u8>>)>,
}

impl View for StableData {
    type V = StableDataView;

    open spec fn view(&self) -> StableDataView {
        StableDataView {
            principals: self.principals@,
            badges: self.badges@,
            access_requests: self.access_requests@,
            badge_access_approvals: self.badge_access_approvals@,
        }
    }
}

impl Record for StableData {
    fn duplicate(&self) -> (r: StableData) {
        StableData {
            principals: self.principals.duplicate(),
            badges: self.badges.duplicate(),
            access_requests: self.access_requests.duplicate(),
            badge_access_approvals: self.badge_access_approvals.duplicate(),
        }
    }
}

/// Some role of `roles` has the id `role_id`.
pub open spec fn holds_role(roles: Seq<RoleView>, role_id: u128) -> bool {
    exists|i: int| 0 <= i < roles.len() && (#[trigger] roles[i]).id == role_id
}

/// Whether some role of `roles` has the id `role_id`.
pub fn role_among(roles: &Vec<Role>, role_id: u128) -> (r: bool)
    ensures
        r == holds_role(views(roles@), role_id),
{
    let mut i: usize = 0;
    while i < roles.len()
        invariant
            i <= roles.len(),
            forall|j: int| 0 <= j < i ==> (#[trigger] views(roles@)[j]).id != role_id,
        decreases roles.len() - i,
    {
        if roles[i].id == role_id {
            assert(views(roles@)[i as int].id == role_id);
            return true;
        }
        i += 1;
    }
    false
}

impl UserView {
    /// The user holds the role `role_id`.
    pub open spec fn has_role(self, role_id: u128) -> bool {
        holds_role(self.roles, role_id)
    }

    pub open spec fn is_admin(self) -> bool {
        self.has_role(ADMINISTRATOR_ROLE_ID)
    }

    pub open spec fn is_lecturer(self) -> bool {
        self.has_role(LECTURER_ROLE_ID)
    }

    pub open spec fn is_student(self) -> bool {
        self.has_role(STUDENT_ROLE_ID)
    }

    pub open spec fn is_company(self) -> bool {
        self.has_role(COMPANY_ROLE_ID)
    }

    /// The user may see the badge: an administrator any badge, a lecturer
    /// those that the own organisation issued, a student the own ones. The
    /// company role alone opens no badge.
    pub open spec fn has_badge_access(self, badge: BadgeView) -> bool {
        ||| self.is_admin()
        ||| (self.is_lecturer() && self.organisation.id == badge.issuer.id)
        ||| (self.is_student() && self.principal_id == badge.owner.principal_id)
    }

    /// The user may see the other user: an administrator anyone, a lecturer
    /// the members of the own organisation and every student, and everyone
    /// their own record.
    pub open spec fn has_user_access(self, other: UserView) -> bool {
        ||| self.is_admin()
        ||| (self.is_lecturer() && (self.organisation.id == other.organisation.id
            || other.is_student()))
        ||| self.principal_id == other.principal_id
    }

    /// The user may issue and revoke badges of the organisation `issuer_id`:
    /// an administrator of any, a lecturer of the own one, nobody else.
    pub open spec fn can_create_or_revoke(self, issuer_id: u128) -> bool {
        self.is_admin() || (self.is_lecturer() && issuer_id == self.organisation.id)
    }
}

impl User {
    /// Whether the user holds the role `role_id`.
    pub fn has_role(&self, role_id: u128) -> (r: bool)
        ensures
            r == self@.has_role(role_id),
    {
        role_among(&self.roles, role_id)
    }

    pub fn is_admin(&self) -> (r: bool)
        ensures
            r == self@.is_admin(),
    {
        self.has_role(ADMINISTRATOR_ROLE_ID)
    }

    pub fn is_lecturer(&self) -> (r: bool)
        ensures
            r == self@.is_lecturer(),
    {
        self.has_role(LECTURER_ROLE_ID)
    }

    pub fn is_student(&self) -> (r: bool)
        ensures
            r == self@.is_student(),
    {
        self.has_role(STUDENT_ROLE_ID)
    }

    pub fn is_company(&self) -> (r: bool)
        ensures
            r == self@.is_company(),
    {
        self.has_role(COMPANY_ROLE_ID)
    }

    /// Whether the user may see the badge.
    pub fn has_badge_access(&self, badge: &Badge) -> (r: bool)
        ensures
            r == self@.has_badge_access(badge@),
            r <==> self@.is_admin() || (self@.is_lecturer() && self@.organisation.id
                == badge@.issuer.id) || (self@.is_student() && self@.principal_id
                == badge@.owner.principal_id),
    {
        self.is_admin() || (self.is_lecturer() && self.organisation.id == badge.issuer.id) || (
        self.is_student() && self.principal_id == badge.owner.principal_id)
    }

    /// Whether the user may see the other user.
    pub fn has_user_access(&self, other_user: &User) -> (r: bool)
        ensures
            r == self@.has_user_access(other_user@),
    {
        self.is_admin() || (self.is_lecturer() && (self.organisation.id
            == other_user.organisation.id || other_user.is_student())) || self.principal_id
            == other_user.principal_id
    }

    /// Whether the user may issue the badge asked for.
    pub fn can_create_or_revoke(&self, badge: &NewBadge) -> (r: bool)
        ensures
            r == self@.can_create_or_revoke(badge@.issuer_id),
    {
        self.can_manage(badge.issuer_id)
    }

    /// Whether the user may issue and revoke badges of the organisation
    /// `issuer_id`.
    pub fn can_manage(&self, issuer_id: u128) -> (r: bool)
        ensures
            r == self@.can_create_or_revoke(issuer_id),
    {
        self.is_admin() || (self.is_lecturer() && issuer_id == self.organisation.id)
    }
}

} // verus!
