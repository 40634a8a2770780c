//! How a request is decided: from a presented token and the action asked
//! for to the bearer's identity, or to the reason for a refusal.
//!
//! A request is decided in one go. The presented string must have the
//! shape of a token of the current format; a token with its secret must be
//! in force, which also records its use; and the token's limits must cover
//! the endpoint category asked for and, where the request names a crate,
//! that crate.

use vstd::prelude::*;
use vstd::utf8::encode_utf8;

use crate::models::token::table::after_find_by_token;
use crate::models::token::table::evolves;
use crate::models::token::table::find_by_token_result;
use crate::models::token::table::is_live_match;
use crate::models::token::table::lemma_lookup_is_none;
use crate::models::token::table::lemma_read_only_table_still_finds;
use crate::models::token::table::lemma_revoked_row_is_not_found;
use crate::models::token::scopes::allowed;
use crate::models::token::scopes::crate_name_view;
use crate::models::token::scopes::crate_scopes_view;
use crate::models::token::scopes::endpoint_scopes_view;
use crate::models::token::scopes::permitted;
use crate::models::token::scopes::CrateScope;
use crate::models::token::scopes::EndpointScope;
use crate::models::token::ApiToken;
use crate::models::token::table::ApiTokenView;
use crate::models::token::table::StoreMode;
use crate::models::token::TokenStore;
use crate::models::token::table::TokenStoreView;
use crate::util::errors::AuthError;
use crate::util::timestamp::Timestamp;
use crate::util::token::parsed;
use crate::util::token::SecureTokenKind;

verus! {

/// The bearer of a token that was accepted: the owner of the token and the
/// token's limits. The secret is no part of it.
pub struct Principal {
    pub user_id: i32,
    pub crate_scopes: Option<Vec<CrateScope>>,
    pub endpoint_scopes: Option<Vec<EndpointScope>>,
}

/// What the contracts say of a principal.
pub struct PrincipalView {
    pub user_id: int,
    pub crate_scopes: Option<Seq<Seq<u8>>>,
    pub endpoint_scopes: Option<Seq<EndpointScope>>,
}

impl View for Principal {
    type V = PrincipalView;

    open spec fn view(&self) -> PrincipalView {
        PrincipalView {
            user_id: self.user_id as int,
            crate_scopes: crate_scopes_view(self.crate_scopes),
            endpoint_scopes: endpoint_scopes_view(self.endpoint_scopes),
        }
    }
}

/// The bearer of the token in a row.
pub open spec fn principal_of(row: ApiTokenView) -> PrincipalView {
    PrincipalView {
        user_id: row.user_id,
        crate_scopes: row.crate_scopes,
        endpoint_scopes: row.endpoint_scopes,
    }
}

/// Whether the bearer of the token in a row may do what is asked for.
pub open spec fn authorization(
    row: ApiTokenView,
    requested: EndpointScope,
    crate_name: Option<Seq<u8>>,
) -> Result<PrincipalView, AuthError> {
    if permitted(row.crate_scopes, row.endpoint_scopes, requested, crate_name) {
        Ok(principal_of(row))
    } else {
        Err(AuthError::InsufficientScope)
    }
}

/// How a request is decided: who its bearer is, or why it is refused.
pub open spec fn decision(
    table: TokenStoreView,
    presented: Seq<u8>,
    requested: EndpointScope,
    crate_name: Option<Seq<u8>>,
    now: int,
) -> Result<PrincipalView, AuthError> {
    match find_by_token_result(table, presented, now) {
        Err(e) => Err(e),
        Ok(row) => authorization(row, requested, crate_name),
    }
}

/// The view of a decision.
pub open spec fn decision_view(answer: Result<Principal, AuthError>) -> Result<
    PrincipalView,
    AuthError,
> {
    match answer {
        Ok(principal) => Ok(principal@),
        Err(e) => Err(e),
    }
}

impl Principal {
    /// Whether the bearer may use an endpoint of the requested category on
    /// the named crate, or, where no crate is named, at all.
    pub fn may(&self, requested: EndpointScope, crate_name: Option<&str>) -> (allowed: bool)
        ensures
            allowed == permitted(
                self@.crate_scopes,
                self@.endpoint_scopes,
                requested,
                crate_name_view(crate_name),
            ),
    {
        allowed(&self.crate_scopes, &self.endpoint_scopes, requested, crate_name)
    }
}

/// Holds what is asked for against the limits of a token that was found.
pub fn authorize(row: ApiToken, requested: EndpointScope, crate_name: Option<&str>) -> (answer:
    Result<Principal, AuthError>)
    ensures
        decision_view(answer) == authorization(row@, requested, crate_name_view(crate_name)),
{
    let user_id = row.user_id();
    let (crate_scopes, endpoint_scopes) = row.into_scopes();
    let principal = Principal { user_id, crate_scopes, endpoint_scopes };
    if principal.may(requested, crate_name) {
        Ok(principal)
    } else {
        Err(AuthError::InsufficientScope)
    }
}

/// Decides a request: finds the token that the presented string stands for,
/// records its use at `now`, and holds what is asked for against the
/// token's limits.
pub fn authenticate(
    store: &mut TokenStore,
    presented: &str,
    requested: EndpointScope,
    crate_name: Option<&str>,
    now: Timestamp,
) -> (answer: Result<Principal, AuthError>)
    ensures
        decision_view(answer) == decision(
            old(store)@,
            encode_utf8(presented@),
            requested,
            crate_name_view(crate_name),
            now.micros as int,
        ),
        final(store)@ == after_find_by_token(
            old(store)@,
            encode_utf8(presented@),
            now.micros as int,
        ),
        final(store)@.well_formed(),
        evolves(old(store)@, final(store)@),
{
    match ApiToken::find_by_api_token(store, presented, now) {
        Err(e) => Err(e),
        Ok(row) => authorize(row, requested, crate_name),
    }
}

/// A request is let in only if the token's limits cover both the endpoint
/// category and, where one is named, the crate.
pub proof fn lemma_accepted_requests_are_within_scope(
    table: TokenStoreView,
    presented: Seq<u8>,
    requested: EndpointScope,
    crate_name: Option<Seq<u8>>,
    now: int,
)
    requires
        decision(table, presented, requested, crate_name, now) is Ok,
    ensures
        ({
            let principal = decision(table, presented, requested, crate_name, now)->Ok_0;
            permitted(principal.crate_scopes, principal.endpoint_scopes, requested, crate_name)
        }),
        parsed(SecureTokenKind::Api, presented) is Some,
        table.mode != StoreMode::Unavailable,
{
}

/// A token that was never issued and a token that has been revoked are
/// refused with the same error, which the bearer is shown in the same way,
/// and neither refusal leaves a trace in the table.
pub proof fn lemma_unknown_and_revoked_are_refused_alike(
    never_issued: TokenStoreView,
    revoked: TokenStoreView,
    place: int,
    presented: Seq<u8>,
    requested: EndpointScope,
    crate_name: Option<Seq<u8>>,
    now: int,
)
    requires
        never_issued.well_formed(),
        revoked.well_formed(),
        never_issued.mode != StoreMode::Unavailable,
        revoked.mode != StoreMode::Unavailable,
        parsed(SecureTokenKind::Api, presented) is Some,
        !never_issued.holds_digest(parsed(SecureTokenKind::Api, presented)->Some_0),
        0 <= place < revoked.rows.len(),
        revoked.rows[place].revoked,
        revoked.rows[place].digest == parsed(SecureTokenKind::Api, presented)->Some_0,
    ensures
        decision(never_issued, presented, requested, crate_name, now) == Err::<
            PrincipalView,
            AuthError,
        >(AuthError::InvalidOrRevokedToken),
        decision(revoked, presented, requested, crate_name, now) == decision(
            never_issued,
            presented,
            requested,
            crate_name,
            now,
        ),
        after_find_by_token(never_issued, presented, now) == never_issued,
        after_find_by_token(revoked, presented, now) == revoked,
{
    let digest = parsed(SecureTokenKind::Api, presented)->Some_0;
    assert forall|i: int| 0 <= i < never_issued.rows.len() implies !is_live_match(
        #[trigger] never_issued.rows[i],
        digest,
    ) by {
        assert(never_issued.rows[i].digest != digest);
    }
    lemma_lookup_is_none(never_issued.rows, digest);
    lemma_revoked_row_is_not_found(revoked, place);
}

/// While the table is read-only a request with a token that is in force is
/// decided as it would be otherwise, and leaves the table as it is.
pub proof fn lemma_read_only_table_still_authenticates(
    table: TokenStoreView,
    place: int,
    presented: Seq<u8>,
    requested: EndpointScope,
    crate_name: Option<Seq<u8>>,
    now: int,
)
    requires
        table.well_formed(),
        table.mode == StoreMode::ReadOnly,
        0 <= place < table.rows.len(),
        !table.rows[place].revoked,
        parsed(SecureTokenKind::Api, presented) == Some(table.rows[place].digest),
    ensures
        decision(table, presented, requested, crate_name, now) == (if permitted(
            table.rows[place].crate_scopes,
            table.rows[place].endpoint_scopes,
            requested,
            crate_name,
        ) {
            Ok::<PrincipalView, AuthError>(principal_of(table.rows[place]))
        } else {
            Err::<PrincipalView, AuthError>(AuthError::InsufficientScope)
        }),
        after_find_by_token(table, presented, now) == table,
{
    lemma_read_only_table_still_finds(table, place, now);
}

} // verus!
