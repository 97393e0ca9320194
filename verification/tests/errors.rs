use badger_backend::error::{decimal_text, respond, Clash, Denied, Error, Missing};
use badger_backend::model::Response;

fn p() -> String {
    String::from("2vxsx-fae")
}

#[test]
fn decimal_text_of_numbers() {
    assert_eq!(decimal_text(0), "0");
    assert_eq!(decimal_text(7), "7");
    assert_eq!(decimal_text(10), "10");
    assert_eq!(decimal_text(109), "109");
    assert_eq!(decimal_text(1234567890), "1234567890");
    assert_eq!(decimal_text(u128::MAX), "340282366920938463463374607431768211455");
    for n in [1u128, 9, 11, 99, 100, 101, 999, 1000, 65535, 1 << 64] {
        assert_eq!(decimal_text(n), n.to_string());
    }
}

#[test]
fn message_of_each_error() {
    assert_eq!(Error::Unauthenticated.message(), "Anonymous caller not allowed.");
    assert_eq!(
        Error::NotFound(Missing::User(p())).message(),
        "User with principal 2vxsx-fae not found."
    );
    assert_eq!(
        Error::NotFound(Missing::Organisation(12)).message(),
        "Organisation with id 12 not found."
    );
    assert_eq!(Error::NotFound(Missing::Role(5)).message(), "Role with id 5 not found.");
    assert_eq!(Error::NotFound(Missing::Badge(7)).message(), "Badge with id 7 not found.");
    assert_eq!(
        Error::NotFound(Missing::Request(3)).message(),
        "Access request with id 3 not found."
    );
    assert_eq!(
        Error::AlreadyExists(p()).message(),
        "User with principal 2vxsx-fae already exists."
    );
    assert_eq!(
        Error::Forbidden(p(), Denied::UserAccess(String::from("aaaaa-aa"))).message(),
        "User with principal 2vxsx-fae does not have access to user with principal aaaaa-aa."
    );
    assert_eq!(
        Error::Forbidden(p(), Denied::BadgeAccess(4)).message(),
        "User with principal 2vxsx-fae does not have access to badge with id 4."
    );
    assert_eq!(
        Error::Forbidden(p(), Denied::Revoke(4)).message(),
        "User with principal 2vxsx-fae cannot revoke badge with id 4."
    );
    assert_eq!(
        Error::Forbidden(p(), Denied::Issue(2)).message(),
        "User with principal 2vxsx-fae cannot issue badge for organisation with id 2."
    );
    assert_eq!(
        Error::Forbidden(p(), Denied::RequestAccess(4)).message(),
        "User with principal 2vxsx-fae cannot request access to badge with id 4."
    );
    assert_eq!(
        Error::Forbidden(p(), Denied::Approve).message(),
        "User with principal 2vxsx-fae cannot approve access requests."
    );
    assert_eq!(
        Error::Forbidden(p(), Denied::ApproveRequest(4)).message(),
        "User with principal 2vxsx-fae cannot approve access request for badge with id 4."
    );
    assert_eq!(
        Error::InvalidInput(String::from("???")).message(),
        "Invalid principal id: ???"
    );
    assert_eq!(
        Error::Conflict(p(), 4, Clash::Approved).message(),
        "User with principal 2vxsx-fae already has access to badge with id 4."
    );
    assert_eq!(
        Error::Conflict(p(), 4, Clash::Requested).message(),
        "User with principal 2vxsx-fae already requested access to badge with id 4."
    );
}

#[test]
fn respond_keeps_the_value_and_renders_the_error() {
    assert_eq!(respond(Ok::<u128, Error>(5)), Response::Okay(5));
    assert_eq!(
        respond(Err::<u128, Error>(Error::NotFound(Missing::Badge(1)))),
        Response::Error(String::from("Badge with id 1 not found."))
    );
    assert_eq!(
        respond(Err::<bool, Error>(Error::Unauthenticated)),
        Response::Error(String::from("Anonymous caller not allowed."))
    );
}
