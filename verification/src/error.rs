//! Why a call was turned down, and the message that says so.

use crate::model::Response;
use vstd::prelude::*;
use vstd::string::StringExecFns;

verus! {

/// What was looked for and not found.
#[derive(Debug, PartialEq, Eq)]
pub enum Missing {
    /// No user is registered under the principal with this text.
    User(String),
    Organisation(u128),
    Role(u128),
    Badge(u128),
    Request(u128),
}

/// What the caller was not allowed to do.
#[derive(Debug, PartialEq, Eq)]
pub enum Denied {
    /// To see the user whose principal was given as this text.
    UserAccess(String),
    /// To see the badge.
    BadgeAccess(u128),
    /// To revoke the badge.
    Revoke(u128),
    /// To issue a badge for the organisation.
    Issue(u128),
    /// To ask for the claims of the badge.
    RequestAccess(u128),
    /// To approve any request at all.
    Approve,
    /// To approve a request for the badge.
    ApproveRequest(u128),
}

/// What stands in the way of a new request.
#[derive(Debug, PartialEq, Eq)]
pub enum Clash {
    /// The caller was given the claims before.
    Approved,
    /// The caller has asked and waits for an answer.
    Requested,
}

/// Why a call was turned down. The text is that of the caller's principal,
/// but for `InvalidInput`, where it is the text that denotes no principal.
#[derive(Debug, PartialEq, Eq)]
pub enum Error {
    Unauthenticated,
    NotFound(Missing),
    AlreadyExists(String),
    Forbidden(String, Denied),
    InvalidInput(String),
    Conflict(String, u128, Clash),
}

pub enum MissingView {
    User(Seq<char>),
    Organisation(u128),
    Role(u128),
    Badge(u128),
    Request(u128),
}

pub enum DeniedView {
    UserAccess(Seq<char>),
    BadgeAccess(u128),
    Revoke(u128),
    Issue(u128),
    RequestAccess(u128),
    Approve,
    ApproveRequest(u128),
}

pub enum ErrorView {
    Unauthenticated,
    NotFound(MissingView),
    AlreadyExists(Seq<char>),
    Forbidden(Seq<char>, DeniedView),
    InvalidInput(Seq<char>),
    Conflict(Seq<char>, u128, Clash),
}

impl View for Missing {
    type V = MissingView;

    open spec fn view(&self) -> MissingView {
        match *self {
            Missing::User(p) => MissingView::User(p@),
            Missing::Organisation(id) => MissingView::Organisation(id),
            Missing::Role(id) => MissingView::Role(id),
            Missing::Badge(id) => MissingView::Badge(id),
            Missing::Request(id) => MissingView::Request(id),
        }
    }
}

impl View for Denied {
    type V = DeniedView;

    open spec fn view(&self) -> DeniedView {
        match *self {
            Denied::UserAccess(p) => DeniedView::UserAccess(p@),
            Denied::BadgeAccess(id) => DeniedView::BadgeAccess(id),
            Denied::Revoke(id) => DeniedView::Revoke(id),
            Denied::Issue(id) => DeniedView::Issue(id),
            Denied::RequestAccess(id) => DeniedView::RequestAccess(id),
            Denied::Approve => DeniedView::Approve,
            Denied::ApproveRequest(id) => DeniedView::ApproveRequest(id),
        }
    }
}

impl View for Error {
    type V = ErrorView;

    open spec fn view(&self) -> ErrorView {
        match *self {
            Error::Unauthenticated => ErrorView::Unauthenticated,
            Error::NotFound(m) => ErrorView::NotFound(m@),
            Error::AlreadyExists(p) => ErrorView::AlreadyExists(p@),
            Error::Forbidden(p, d) => ErrorView::Forbidden(p@, d@),
            Error::InvalidInput(t) => ErrorView::InvalidInput(t@),
            Error::Conflict(p, id, c) => ErrorView::Conflict(p@, id, c),
        }
    }
}

/// The character of the digit `d`.
pub open spec fn digit_char(d: nat) -> char {
    if d == 0 {
        '0'
    } else if d == 1 {
        '1'
    } else if d == 2 {
        '2'
    } else if d == 3 {
        '3'
    } else if d == 4 {
        '4'
    } else if d == 5 {
        '5'
    } else if d == 6 {
        '6'
    } else if d == 7 {
        '7'
    } else if d == 8 {
        '8'
    } else {
        '9'
    }
}

/// `n` written in base ten, without leading zeros.
pub open spec fn decimal(n: nat) -> Seq<char>
    decreases n,
{
    if n < 10 {
        seq![digit_char(n)]
    } else {
        decimal(n / 10).push(digit_char(n % 10))
    }
}

fn digit_text(d: u128) -> (r: &'static str)
    requires
        d < 10,
    ensures
        r@ == seq![digit_char(d as nat)],
{
    proof {
        reveal_strlit("0");
        reveal_strlit("1");
        reveal_strlit("2");
        reveal_strlit("3");
        reveal_strlit("4");
        reveal_strlit("5");
        reveal_strlit("6");
        reveal_strlit("7");
        reveal_strlit("8");
        reveal_strlit("9");
    }
    let r = if d == 0 {
        "0"
    } else if d == 1 {
        "1"
    } else if d == 2 {
        "2"
    } else if d == 3 {
        "3"
    } else if d == 4 {
        "4"
    } else if d == 5 {
        "5"
    } else if d == 6 {
        "6"
    } else if d == 7 {
        "7"
    } else if d == 8 {
        "8"
    } else {
        "9"
    };
    assert(r@ =~= seq![digit_char(d as nat)]);
    r
}

/// The digits that are still to be written in front: those of `rest`, none
/// where it is zero.
spec fn leading(rest: nat) -> Seq<char> {
    if rest > 0 {
        decimal(rest)
    } else {
        Seq::empty()
    }
}

/// `n` written in base ten.
pub fn decimal_text(n: u128) -> (r: String)
    ensures
        r@ == decimal(n as nat),
{
    let mut rest: u128 = n / 10;
    let mut out: String = String::from_str(digit_text(n % 10));
    assert(leading(rest as nat) + out@ =~= decimal(n as nat));
    while rest > 0
        invariant
            leading(rest as nat) + out@ == decimal(n as nat),
        decreases rest,
    {
        let digit = String::from_str(digit_text(rest % 10));
        let ghost before = out@;
        out = digit.concat(out.as_str());
        assert(leading((rest / 10) as nat) + out@ =~= leading(rest as nat) + before);
        rest = rest / 10;
    }
    assert(leading(0) + out@ =~= out@);
    out
}

impl ErrorView {
    /// The sentence that tells the caller what went wrong.
    pub open spec fn message(self) -> Seq<char> {
        match self {
            ErrorView::Unauthenticated => "Anonymous caller not allowed."@,
            ErrorView::NotFound(MissingView::User(p)) => "User with principal "@ + p
                + " not found."@,
            ErrorView::NotFound(MissingView::Organisation(id)) => "Organisation with id "@
                + decimal(id as nat) + " not found."@,
            ErrorView::NotFound(MissingView::Role(id)) => "Role with id "@ + decimal(id as nat)
                + " not found."@,
            ErrorView::NotFound(MissingView::Badge(id)) => "Badge with id "@ + decimal(id as nat)
                + " not found."@,
            ErrorView::NotFound(MissingView::Request(id)) => "Access request with id "@
                + decimal(id as nat) + " not found."@,
            ErrorView::AlreadyExists(p) => "User with principal "@ + p + " already exists."@,
            ErrorView::Forbidden(p, DeniedView::UserAccess(q)) => "User with principal "@ + p
                + " does not have access to user with principal "@ + q + "."@,
            ErrorView::Forbidden(p, DeniedView::BadgeAccess(id)) => "User with principal "@ + p
                + " does not have access to badge with id "@ + decimal(id as nat) + "."@,
            ErrorView::Forbidden(p, DeniedView::Revoke(id)) => "User with principal "@ + p
                + " cannot revoke badge with id "@ + decimal(id as nat) + "."@,
            ErrorView::Forbidden(p, DeniedView::Issue(id)) => "User with principal "@ + p
                + " cannot issue badge for organisation with id "@ + decimal(id as nat) + "."@,
            ErrorView::Forbidden(p, DeniedView::RequestAccess(id)) => "User with principal "@ + p
                + " cannot request access to badge with id "@ + decimal(id as nat) + "."@,
            ErrorView::Forbidden(p, DeniedView::Approve) => "User with principal "@ + p
                + " cannot approve access requests."@,
            ErrorView::Forbidden(p, DeniedView::ApproveRequest(id)) => "User with principal "@ + p
                + " cannot approve access request for badge with id "@ + decimal(id as nat)
                + "."@,
            ErrorView::InvalidInput(t) => "Invalid principal id: "@ + t,
            ErrorView::Conflict(p, id, Clash::Approved) => "User with principal "@ + p
                + " already has access to badge with id "@ + decimal(id as nat) + "."@,
            ErrorView::Conflict(p, id, Clash::Requested) => "User with principal "@ + p
                + " already requested access to badge with id "@ + decimal(id as nat) + "."@,
        }
    }
}

fn join(head: &str, name: &str, tail: &str) -> (r: String)
    ensures
        r@ == head@ + name@ + tail@,
{
    String::from_str(head).concat(name).concat(tail)
}

fn join_two(head: &str, first: &str, middle: &str, second: &str, tail: &str) -> (r: String)
    ensures
        r@ == head@ + first@ + middle@ + second@ + tail@,
{
    String::from_str(head).concat(first).concat(middle).concat(second).concat(tail)
}

impl Error {
    /// The sentence that tells the caller what went wrong.
    pub fn message(&self) -> (r: String)
        ensures
            r@ == self@.message(),
    {
        match self {
            Error::Unauthenticated => String::from_str("Anonymous caller not allowed."),
            Error::NotFound(Missing::User(p)) => join(
                "User with principal ",
                p.as_str(),
                " not found.",
            ),
            Error::NotFound(Missing::Organisation(id)) => join(
                "Organisation with id ",
                decimal_text(*id).as_str(),
                " not found.",
            ),
            Error::NotFound(Missing::Role(id)) => join(
                "Role with id ",
                decimal_text(*id).as_str(),
                " not found.",
            ),
            Error::NotFound(Missing::Badge(id)) => join(
                "Badge with id ",
                decimal_text(*id).as_str(),
                " not found.",
            ),
            Error::NotFound(Missing::Request(id)) => join(
                "Access request with id ",
                decimal_text(*id).as_str(),
                " not found.",
            ),
            Error::AlreadyExists(p) => join("User with principal ", p.as_str(), " already exists."),
            Error::Forbidden(p, Denied::UserAccess(q)) => join_two(
                "User with principal ",
                p.as_str(),
                " does not have access to user with principal ",
                q.as_str(),
                ".",
            ),
            Error::Forbidden(p, Denied::BadgeAccess(id)) => join_two(
                "User with principal ",
                p.as_str(),
                " does not have access to badge with id ",
                decimal_text(*id).as_str(),
                ".",
            ),
            Error::Forbidden(p, Denied::Revoke(id)) => join_two(
                "User with principal ",
                p.as_str(),
                " cannot revoke badge with id ",
                decimal_text(*id).as_str(),
                ".",
            ),
            Error::Forbidden(p, Denied::Issue(id)) => join_two(
                "User with principal ",
                p.as_str(),
                " cannot issue badge for organisation with id ",
                decimal_text(*id).as_str(),
                ".",
            ),
            Error::Forbidden(p, Denied::RequestAccess(id)) => join_two(
                "User with principal ",
                p.as_str(),
                " cannot request access to badge with id ",
                decimal_text(*id).as_str(),
                ".",
            ),
            Error::Forbidden(p, Denied::Approve) => join(
                "User with principal ",
                p.as_str(),
                " cannot approve access requests.",
            ),
            Error::Forbidden(p, Denied::ApproveRequest(id)) => join_two(
                "User with principal ",
                p.as_str(),
                " cannot approve access request for badge with id ",
                decimal_text(*id).as_str(),
                ".",
            ),
            Error::InvalidInput(t) => String::from_str("Invalid principal id: ").concat(
                t.as_str(),
            ),
            Error::Conflict(p, id, Clash::Approved) => join_two(
                "User with principal ",
                p.as_str(),
                " already has access to badge with id ",
                decimal_text(*id).as_str(),
                ".",
            ),
            Error::Conflict(p, id, Clash::Requested) => join_two(
                "User with principal ",
                p.as_str(),
                " already requested access to badge with id ",
                decimal_text(*id).as_str(),
                ".",
            ),
        }
    }
}

/// The outcome of a call as it goes over the wire: the value as it is, an
/// error as its message.
pub fn respond<T>(outcome: Result<T, Error>) -> (r: Response<T>)
    ensures
        match outcome {
            Ok(value) => r == Response::Okay(value),
            Err(e) => r matches Response::Error(m) && m@ == e@.message(),
        },
{
    match outcome {
        Ok(value) => Response::Okay(value),
        Err(e) => Response::Error(e.message()),
    }
}

} // verus!
