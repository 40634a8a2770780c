use cargo_registry::auth::{authenticate, authorize};
use cargo_registry::models::token::{
    ApiToken, CrateScope, EndpointScope, StoreMode, TokenStore,
};
use cargo_registry::util::errors::{AuthError, Refusal};
use cargo_registry::util::timestamp::Timestamp;
use cargo_registry::util::token::{SecureToken, SecureTokenKind};

fn at(micros: i64) -> Timestamp {
    Timestamp::from_micros(micros)
}

fn refused(
    store: &mut TokenStore,
    presented: &str,
    requested: EndpointScope,
    crate_name: Option<&str>,
) -> AuthError {
    match authenticate(store, presented, requested, crate_name, at(100)) {
        Ok(_) => panic!("the request was let in"),
        Err(e) => e,
    }
}

#[test]
fn end_to_end_scenario() {
    let mut store = TokenStore::new();
    let publish = EndpointScope::from_tag("publish").unwrap();
    let yank = EndpointScope::from_tag("yank").unwrap();
    let created = ApiToken::insert_with_scopes(
        &mut store,
        42,
        "release bot",
        Some(vec![CrateScope::new("foo").unwrap()]),
        Some(vec![publish]),
        at(1),
    )
    .unwrap();
    let plaintext = created.plaintext.as_str();

    let principal = authenticate(&mut store, plaintext, publish, Some("foo"), at(2)).ok().unwrap();
    assert_eq!(principal.user_id, 42);
    assert_eq!(principal.crate_scopes.as_ref().unwrap()[0].pattern(), "foo");
    assert_eq!(principal.endpoint_scopes, Some(vec![EndpointScope::Publish]));

    assert_eq!(refused(&mut store, plaintext, publish, Some("bar")), AuthError::InsufficientScope);
    assert_eq!(refused(&mut store, plaintext, yank, Some("foo")), AuthError::InsufficientScope);

    assert_eq!(store.revoke(created.model.id), Ok(()));
    assert_eq!(
        refused(&mut store, plaintext, publish, Some("foo")),
        AuthError::InvalidOrRevokedToken
    );
}

#[test]
fn malformed_strings_are_refused_as_malformed() {
    let mut store = TokenStore::new();
    ApiToken::insert(&mut store, 1, "t", at(0)).unwrap();
    for presented in ["", "cio", "Bearer abc", "cio_bcdefghijklmnopqrstuvwxyzABCD12", "cioabc"] {
        assert_eq!(
            refused(&mut store, presented, EndpointScope::Publish, None),
            AuthError::MalformedToken
        );
    }
}

#[test]
fn legacy_tokens_are_refused_by_name() {
    let mut store = TokenStore::new();
    let created = ApiToken::insert(&mut store, 1, "t", at(0)).unwrap();
    // The secret of a token that is in force, presented without the prefix.
    let bare = &created.plaintext[3..];
    assert_eq!(
        refused(&mut store, bare, EndpointScope::Publish, None),
        AuthError::LegacyTokenRejected
    );
    let legacy = SecureToken::generate(SecureTokenKind::Legacy);
    assert_eq!(
        refused(&mut store, legacy.plaintext(), EndpointScope::Publish, None),
        AuthError::LegacyTokenRejected
    );
    assert_eq!(store.get(1).unwrap().unwrap().last_used_at, None);
}

#[test]
fn unknown_and_revoked_tokens_are_refused_alike() {
    let mut store = TokenStore::new();
    let revoked = ApiToken::insert(&mut store, 1, "t", at(0)).unwrap();
    store.revoke(revoked.model.id).unwrap();
    let unknown = SecureToken::generate(SecureTokenKind::Api);
    let for_revoked = refused(&mut store, &revoked.plaintext, EndpointScope::Publish, Some("foo"));
    let for_unknown = refused(&mut store, unknown.plaintext(), EndpointScope::Publish, Some("foo"));
    assert_eq!(for_revoked, AuthError::InvalidOrRevokedToken);
    assert_eq!(for_unknown, for_revoked);
    assert_eq!(for_unknown.refusal(), for_revoked.refusal());
    // Neither refusal is recorded as a use.
    assert_eq!(store.get(1).unwrap().unwrap().last_used_at, None);
}

#[test]
fn unrestricted_token_may_do_anything() {
    let mut store = TokenStore::new();
    let created = ApiToken::insert(&mut store, 5, "t", at(0)).unwrap();
    for requested in [EndpointScope::Publish, EndpointScope::Yank, EndpointScope::ChangeOwners] {
        for crate_name in [None, Some("serde"), Some("tokio")] {
            let principal =
                authenticate(&mut store, &created.plaintext, requested, crate_name, at(1)).ok().unwrap();
            assert_eq!(principal.user_id, 5);
            assert!(principal.crate_scopes.is_none());
            assert!(principal.endpoint_scopes.is_none());
        }
    }
}

#[test]
fn token_with_empty_endpoint_scopes_may_do_nothing() {
    let mut store = TokenStore::new();
    let created =
        ApiToken::insert_with_scopes(&mut store, 5, "t", None, Some(vec![]), at(0)).unwrap();
    for requested in [EndpointScope::Publish, EndpointScope::Yank, EndpointScope::ChangeOwners] {
        assert_eq!(
            refused(&mut store, &created.plaintext, requested, None),
            AuthError::InsufficientScope
        );
    }
}

#[test]
fn token_with_empty_crate_scopes_may_act_only_where_no_crate_is_named() {
    let mut store = TokenStore::new();
    let created =
        ApiToken::insert_with_scopes(&mut store, 5, "t", Some(vec![]), None, at(0)).unwrap();
    assert!(authenticate(&mut store, &created.plaintext, EndpointScope::Yank, None, at(1)).is_ok());
    assert_eq!(
        refused(&mut store, &created.plaintext, EndpointScope::Yank, Some("serde")),
        AuthError::InsufficientScope
    );
}

#[test]
fn scope_denial_still_records_the_use() {
    let mut store = TokenStore::new();
    let created =
        ApiToken::insert_with_scopes(&mut store, 5, "t", None, Some(vec![]), at(0)).unwrap();
    assert_eq!(
        refused(&mut store, &created.plaintext, EndpointScope::Yank, None),
        AuthError::InsufficientScope
    );
    assert_eq!(store.get(1).unwrap().unwrap().last_used_at, Some(at(100)));
}

#[test]
fn read_only_store_still_authenticates() {
    let mut store = TokenStore::new();
    let created = ApiToken::insert(&mut store, 5, "t", at(0)).unwrap();
    store.set_mode(StoreMode::ReadOnly);
    let principal =
        authenticate(&mut store, &created.plaintext, EndpointScope::Publish, Some("a"), at(9)).ok().unwrap();
    assert_eq!(principal.user_id, 5);
    assert_eq!(store.get(1).unwrap().unwrap().last_used_at, None);
}

#[test]
fn unavailable_store_is_reported_as_such() {
    let mut store = TokenStore::new();
    let created = ApiToken::insert(&mut store, 5, "t", at(0)).unwrap();
    store.set_mode(StoreMode::Unavailable);
    assert_eq!(
        refused(&mut store, &created.plaintext, EndpointScope::Publish, None),
        AuthError::StoreUnavailable
    );
    // A string that is no token is refused before the table is asked.
    assert_eq!(refused(&mut store, "nonsense", EndpointScope::Publish, None), AuthError::MalformedToken);
}

#[test]
fn principal_answers_later_questions_from_its_scopes() {
    let mut store = TokenStore::new();
    let created = ApiToken::insert_with_scopes(
        &mut store,
        5,
        "t",
        Some(vec![CrateScope::new("serde*").unwrap()]),
        Some(vec![EndpointScope::Publish, EndpointScope::Yank]),
        at(0),
    )
    .unwrap();
    let principal =
        authenticate(&mut store, &created.plaintext, EndpointScope::Publish, None, at(1)).ok().unwrap();
    assert!(principal.may(EndpointScope::Yank, Some("serde_json")));
    assert!(!principal.may(EndpointScope::Yank, Some("tokio")));
    assert!(!principal.may(EndpointScope::ChangeOwners, Some("serde")));
    assert!(principal.may(EndpointScope::Publish, None));
}

#[test]
fn errors_are_shown_by_class() {
    assert_eq!(AuthError::MalformedToken.refusal(), Refusal::Unauthenticated);
    assert_eq!(AuthError::LegacyTokenRejected.refusal(), Refusal::Unauthenticated);
    assert_eq!(AuthError::InvalidOrRevokedToken.refusal(), Refusal::Unauthenticated);
    assert_eq!(AuthError::InsufficientScope.refusal(), Refusal::Forbidden);
    assert_eq!(AuthError::StoreUnavailable.refusal(), Refusal::Unavailable);
    assert!(AuthError::MalformedToken.is_expected());
    assert!(AuthError::LegacyTokenRejected.is_expected());
    assert!(AuthError::InvalidOrRevokedToken.is_expected());
    assert!(AuthError::InsufficientScope.is_expected());
    assert!(!AuthError::StoreUnavailable.is_expected());
}

#[test]
fn authorize_checks_a_found_row_against_the_request() {
    let row = |revoked: bool| {
        ApiToken::new(
            1,
            77,
            SecureToken::generate(SecureTokenKind::Api).into_inner(),
            "n".to_string(),
            at(0),
            None,
            revoked,
            Some(vec![CrateScope::new("foo").unwrap()]),
            Some(vec![EndpointScope::Publish]),
        )
    };
    let principal = authorize(row(false), EndpointScope::Publish, Some("foo")).ok().unwrap();
    assert_eq!(principal.user_id, 77);
    assert_eq!(
        authorize(row(false), EndpointScope::Publish, Some("bar")).err(),
        Some(AuthError::InsufficientScope)
    );
    assert_eq!(
        authorize(row(false), EndpointScope::Yank, Some("foo")).err(),
        Some(AuthError::InsufficientScope)
    );
    assert!(authorize(row(false), EndpointScope::Publish, None).is_ok());
}
