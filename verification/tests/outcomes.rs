//! Outcome classification of the storage layer, the boundary's error
//! surface, and the envelope helpers.

use chat_router::api::{login_outcome, register_outcome, ApiError, User};
use chat_router::db::{
    change_passwd_plan, deal_insert_result, deal_query_result, deal_update_result, pair_user_ids,
    second_step_needed, Error, QueryFailure, QueryFailureKind, QueryUser,
};
use chat_router::model::{ChatMessage, ChatMessageType};
use chat_router::token::Identifier;

fn failure(kind: QueryFailureKind, text: &str) -> QueryFailure {
    QueryFailure { kind, description: text.to_owned() }
}

fn user(id: i32, name: &str, passwd: &str) -> QueryUser {
    QueryUser { user_id: id, user_name: name.to_owned(), passwd: passwd.to_owned() }
}

#[test]
fn insert_outcomes() {
    assert_eq!(deal_insert_result(Ok(1)), Ok(()));
    assert_eq!(deal_insert_result(Ok(0)), Err(Error::InsertNumError));
    assert_eq!(deal_insert_result(Ok(2)), Err(Error::InsertNumError));
    assert_eq!(
        deal_insert_result(Err(failure(QueryFailureKind::Database, "dup"))),
        Err(Error::DuplicateData("dup".to_owned()))
    );
    assert_eq!(
        deal_insert_result(Err(failure(QueryFailureKind::NotFound, "nf"))),
        Err(Error::WapperError("nf".to_owned()))
    );
    assert_eq!(
        deal_insert_result(Err(failure(QueryFailureKind::Other, "boom"))),
        Err(Error::WapperError("boom".to_owned()))
    );
}

#[test]
fn query_outcomes() {
    assert_eq!(deal_query_result::<u32>(Ok(5)), Ok(5));
    assert_eq!(
        deal_query_result::<u32>(Err(failure(QueryFailureKind::NotFound, "nf"))),
        Err(Error::NotFound)
    );
    assert_eq!(
        deal_query_result::<u32>(Err(failure(QueryFailureKind::Other, "boom"))),
        Err(Error::WapperError("boom".to_owned()))
    );
}

#[test]
fn update_outcomes() {
    assert_eq!(deal_update_result(Ok(1)), Ok(()));
    assert_eq!(deal_update_result(Ok(0)), Err(Error::NotFound));
    assert_eq!(
        deal_update_result(Err(failure(QueryFailureKind::NotFound, "nf"))),
        Err(Error::NotFound)
    );
    assert_eq!(
        deal_update_result(Err(failure(QueryFailureKind::Database, "c"))),
        Err(Error::WapperError("c".to_owned()))
    );
}

#[test]
fn pairing_users_propagates_the_first_failure() {
    assert_eq!(pair_user_ids(Ok(user(1, "a", "x")), Ok(user(2, "b", "y"))), Ok((1, 2)));
    assert_eq!(
        pair_user_ids(Err(Error::NotFound), Ok(user(2, "b", "y"))),
        Err(Error::NotFound)
    );
    assert_eq!(
        pair_user_ids(Ok(user(1, "a", "x")), Err(Error::NotFound)),
        Err(Error::NotFound)
    );
    assert_eq!(
        pair_user_ids(
            Err(Error::WapperError("w".to_owned())),
            Err(Error::NotFound)
        ),
        Err(Error::WapperError("w".to_owned()))
    );
}

#[test]
fn second_transaction_step_runs_only_after_one_row() {
    assert!(second_step_needed(&Ok(1)));
    assert!(!second_step_needed(&Ok(0)));
    assert!(!second_step_needed(&Ok(2)));
    assert!(!second_step_needed(&Err(failure(QueryFailureKind::Other, "x"))));
}

#[test]
fn password_change_decisions() {
    assert_eq!(change_passwd_plan(Ok(user(3, "a", "same")), &"same".to_owned()), Ok(None));
    assert_eq!(change_passwd_plan(Ok(user(3, "a", "old")), &"new".to_owned()), Ok(Some(3)));
    assert_eq!(
        change_passwd_plan(Err(Error::NotFound), &"new".to_owned()),
        Err(Error::NotFound)
    );
}

#[test]
fn registration_outcomes() {
    assert_eq!(register_outcome(Ok(())), Ok(()));
    assert_eq!(
        register_outcome(Err(Error::DuplicateData("taken".to_owned()))),
        Err(ApiError::UserError("taken".to_owned()))
    );
    assert_eq!(
        register_outcome(Err(Error::ForeignKeyViolation("gone".to_owned()))),
        Err(ApiError::UserError("gone".to_owned()))
    );
    assert_eq!(register_outcome(Err(Error::NotFound)), Err(ApiError::InternalError));
    assert_eq!(
        register_outcome(Err(Error::WapperError("x".to_owned()))),
        Err(ApiError::InternalError)
    );
}

#[test]
fn login_outcomes() {
    assert_eq!(login_outcome::<u8>(Ok(7)), Ok(7));
    assert_eq!(
        login_outcome::<u8>(Err(Error::NotFound)),
        Err(ApiError::UserError("username or password is invalid".to_owned()))
    );
    assert_eq!(
        login_outcome::<u8>(Err(Error::WapperError("w".to_owned()))),
        Err(ApiError::UserError("username or password is invalid".to_owned()))
    );
}

#[test]
fn api_error_status_codes() {
    assert_eq!(ApiError::InternalError.status_code(), 500);
    assert_eq!(ApiError::BadRequest.status_code(), 400);
    assert_eq!(ApiError::Timeout.status_code(), 504);
    assert_eq!(ApiError::UserError("no".to_owned()).status_code(), 200);
}

#[test]
fn api_error_payload_choice() {
    assert_eq!(
        ApiError::UserError("wrong password".to_owned()).user_message(),
        Some("wrong password".to_owned())
    );
    assert_eq!(ApiError::InternalError.user_message(), None);
    assert_eq!(ApiError::Timeout.user_message(), None);
}

#[test]
fn users_are_cached_under_their_name() {
    let u = User { user_name: "ada".to_owned(), passwd: "pw".to_owned() };
    assert_eq!(u.id(), "ada");
}

#[test]
fn ack_echoes_the_message_id() {
    assert_eq!(
        ChatMessage::ack("m1".to_owned()),
        ChatMessage {
            from: None,
            style: ChatMessageType::Ack,
            content: None,
            message_id: Some("m1".to_owned()),
        }
    );
}
