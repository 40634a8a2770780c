//! API tokens and the table that holds them.
//!
//! The table can be in one of three conditions. While it accepts writes, a
//! lookup also records the use. While it is read-only, a lookup still finds
//! the token but records nothing. While it cannot be reached, every
//! operation fails.

pub mod scopes;
pub mod table;

pub use self::scopes::{CrateScope, EndpointScope};
pub use self::table::{Served, StoreError, StoreMode};

use vstd::prelude::*;
use vstd::utf8::encode_utf8;

use crate::models::token::scopes::crate_scopes_view;
use crate::models::token::scopes::endpoint_scopes_view;
use crate::models::token::scopes::patterns_of;
use crate::models::token::table::after_find_by_token;
use crate::models::token::table::evolves;
use crate::models::token::table::find_by_token_result;
use crate::models::token::table::found_or_refused;
use crate::models::token::table::is_live_match;
use crate::models::token::table::lemma_lookup_is_first_live_match;
use crate::models::token::table::lemma_lookup_is_none;
use crate::models::token::table::lemma_touch_keeps_table_well_formed;
use crate::models::token::table::lookup;
use crate::models::token::table::revoked_row;
use crate::models::token::table::shape_error;
use crate::models::token::table::used_at;
use crate::models::token::table::ApiTokenView;
use crate::models::token::table::TokenStoreView;
use crate::models::token::table::MAX_ROWS;
use crate::util::errors::AuthError;
use crate::util::timestamp::time_view;
use crate::util::timestamp::Timestamp;
use crate::util::token::display;
use crate::util::token::is_secret;
use crate::util::token::parsed;
use crate::util::token::sha256_digest;
use crate::util::token::SecureToken;
use crate::util::token::SecureTokenKind;

verus! {

/// A row of the table of API tokens.
pub struct ApiToken {
    pub id: i32,
    pub user_id: i32,
    token: SecureToken,
    pub name: String,
    pub created_at: Timestamp,
    pub last_used_at: Option<Timestamp>,
    pub revoked: bool,
    /// `None`, or a list of patterns of the crates the token is limited to.
    pub crate_scopes: Option<Vec<CrateScope>>,
    /// `None`, or a list of the endpoint categories the token is limited to.
    pub endpoint_scopes: Option<Vec<EndpointScope>>,
}

/// A new row together with the text of its token, which is shown to the
/// owner now and cannot be had again later.
pub struct CreatedApiToken {
    pub model: ApiToken,
    pub plaintext: String,
}

/// The table of API tokens.
pub struct TokenStore {
    rows: Vec<ApiToken>,
    mode: StoreMode,
    limit: usize,
}

/// The view of a row or the reason why there is none.
pub open spec fn found_view(answer: Result<ApiToken, AuthError>) -> Result<ApiTokenView, AuthError> {
    match answer {
        Ok(row) => Ok(row@),
        Err(e) => Err(e),
    }
}

/// The view of an optional row.
pub open spec fn row_view(row: Option<ApiToken>) -> Option<ApiTokenView> {
    match row {
        Some(r) => Some(r@),
        None => None,
    }
}

/// The view of the answer to a lookup.
pub open spec fn answer_view(answer: Result<Option<ApiToken>, StoreError>) -> Result<
    Option<ApiTokenView>,
    StoreError,
> {
    match answer {
        Ok(row) => Ok(row_view(row)),
        Err(e) => Err(e),
    }
}

impl View for ApiToken {
    type V = ApiTokenView;

    closed spec fn view(&self) -> ApiTokenView {
        ApiTokenView {
            id: self.id as int,
            user_id: self.user_id as int,
            digest: self.token@,
            name: self.name@,
            created_at: self.created_at.micros as int,
            last_used_at: time_view(self.last_used_at),
            revoked: self.revoked,
            crate_scopes: crate_scopes_view(self.crate_scopes),
            endpoint_scopes: endpoint_scopes_view(self.endpoint_scopes),
        }
    }
}

impl View for TokenStore {
    type V = TokenStoreView;

    closed spec fn view(&self) -> TokenStoreView {
        TokenStoreView {
            rows: Seq::new(self.rows@.len(), |i: int| self.rows@[i]@),
            mode: self.mode,
            limit: self.limit as nat,
        }
    }
}

/// A copy of an optional list of crate scopes.
fn copy_crate_scopes(scopes: &Option<Vec<CrateScope>>) -> (copy: Option<Vec<CrateScope>>)
    ensures
        crate_scopes_view(copy) == crate_scopes_view(*scopes),
{
    match scopes {
        None => None,
        Some(list) => {
            let mut copy: Vec<CrateScope> = Vec::new();
            let mut i: usize = 0;
            while i < list.len()
                invariant
                    i <= list@.len(),
                    copy@.len() == i,
                    forall|j: int| 0 <= j < i ==> copy@[j]@ == list@[j]@,
                decreases list@.len() - i,
            {
                copy.push(list[i].clone());
                i = i + 1;
            }
            assert(patterns_of(copy@) =~= patterns_of(list@));
            Some(copy)
        },
    }
}

/// A copy of an optional list of endpoint scopes.
fn copy_endpoint_scopes(scopes: &Option<Vec<EndpointScope>>) -> (copy: Option<Vec<EndpointScope>>)
    ensures
        endpoint_scopes_view(copy) == endpoint_scopes_view(*scopes),
{
    match scopes {
        None => None,
        Some(list) => {
            let mut copy: Vec<EndpointScope> = Vec::new();
            let mut i: usize = 0;
            while i < list.len()
                invariant
                    i <= list@.len(),
                    copy@ == list@.subrange(0, i as int),
                decreases list@.len() - i,
            {
                copy.push(list[i]);
                assert(list@.subrange(0, i + 1) == list@.subrange(0, i as int).push(list@[i as int]));
                i = i + 1;
            }
            assert(list@.subrange(0, i as int) == list@);
            Some(copy)
        },
    }
}

impl Clone for ApiToken {
    fn clone(&self) -> (copy: Self)
        ensures
            copy@ == self@,
    {
        ApiToken {
            id: self.id,
            user_id: self.user_id,
            token: self.token.clone(),
            name: self.name.clone(),
            created_at: self.created_at,
            last_used_at: self.last_used_at,
            revoked: self.revoked,
            crate_scopes: copy_crate_scopes(&self.crate_scopes),
            endpoint_scopes: copy_endpoint_scopes(&self.endpoint_scopes),
        }
    }
}

impl ApiToken {
    /// A row with the given content, as read back from storage.
    pub fn new(
        id: i32,
        user_id: i32,
        token: SecureToken,
        name: String,
        created_at: Timestamp,
        last_used_at: Option<Timestamp>,
        revoked: bool,
        crate_scopes: Option<Vec<CrateScope>>,
        endpoint_scopes: Option<Vec<EndpointScope>>,
    ) -> (row: ApiToken)
        ensures
            row@ == (ApiTokenView {
                id: id as int,
                user_id: user_id as int,
                digest: token@,
                name: name@,
                created_at: created_at.micros as int,
                last_used_at: time_view(last_used_at),
                revoked,
                crate_scopes: crate_scopes_view(crate_scopes),
                endpoint_scopes: endpoint_scopes_view(endpoint_scopes),
            }),
    {
        ApiToken {
            id,
            user_id,
            token,
            name,
            created_at,
            last_used_at,
            revoked,
            crate_scopes,
            endpoint_scopes,
        }
    }

    /// Makes a new token with the given label for a user, without limits
    /// on what it may be used for.
    pub fn insert(store: &mut TokenStore, user_id: i32, name: &str, now: Timestamp) -> (answer:
        Result<CreatedApiToken, StoreError>)
        ensures
            exists|secret: Seq<u8>|
                {
                    let row = old(store)@.new_row(
                        user_id as int,
                        name@,
                        #[trigger] sha256_digest(secret),
                        None,
                        None,
                        now.micros as int,
                    );
                    &&& is_secret(secret)
                    &&& final(store)@ == old(store)@.inserted(row)
                    &&& match answer {
                        Ok(created) => {
                            &&& old(store)@.insert_error(row.digest) is None
                            &&& created.model@ == row
                            &&& encode_utf8(created.plaintext@) == display(
                                SecureTokenKind::Api,
                                secret,
                            )
                        },
                        Err(e) => old(store)@.insert_error(row.digest) == Some(e),
                    }
                },
            old(store)@.mode == StoreMode::Unavailable ==> answer matches Err(
                StoreError::Unavailable,
            ),
            old(store)@.mode == StoreMode::ReadOnly ==> answer matches Err(StoreError::ReadOnly),
            answer matches Ok(created) ==> parsed(
                SecureTokenKind::Api,
                encode_utf8(created.plaintext@),
            ) == Some(created.model@.digest),
            final(store)@.well_formed(),
            evolves(old(store)@, final(store)@),
    {
        Self::insert_with_scopes(store, user_id, name, None, None, now)
    }

    /// Makes a new token with the given label and limits for a user. A
    /// fresh secret is drawn; its text is handed out with the new row and
    /// kept nowhere.
    pub fn insert_with_scopes(
        store: &mut TokenStore,
        user_id: i32,
        name: &str,
        crate_scopes: Option<Vec<CrateScope>>,
        endpoint_scopes: Option<Vec<EndpointScope>>,
        now: Timestamp,
    ) -> (answer: Result<CreatedApiToken, StoreError>)
        ensures
            exists|secret: Seq<u8>|
                {
                    let row = old(store)@.new_row(
                        user_id as int,
                        name@,
                        #[trigger] sha256_digest(secret),
                        crate_scopes_view(crate_scopes),
                        endpoint_scopes_view(endpoint_scopes),
                        now.micros as int,
                    );
                    &&& is_secret(secret)
                    &&& final(store)@ == old(store)@.inserted(row)
                    &&& match answer {
                        Ok(created) => {
                            &&& old(store)@.insert_error(row.digest) is None
                            &&& created.model@ == row
                            &&& encode_utf8(created.plaintext@) == display(
                                SecureTokenKind::Api,
                                secret,
                            )
                        },
                        Err(e) => old(store)@.insert_error(row.digest) == Some(e),
                    }
                },
            old(store)@.mode == StoreMode::Unavailable ==> answer matches Err(
                StoreError::Unavailable,
            ),
            old(store)@.mode == StoreMode::ReadOnly ==> answer matches Err(StoreError::ReadOnly),
            answer matches Ok(created) ==> parsed(
                SecureTokenKind::Api,
                encode_utf8(created.plaintext@),
            ) == Some(created.model@.digest),
            final(store)@.well_formed(),
            evolves(old(store)@, final(store)@),
    {
        let token = SecureToken::generate(SecureTokenKind::Api);
        let ghost secret = choose|secret: Seq<u8>|
            {
                &&& is_secret(secret)
                &&& token.plaintext_bytes() == #[trigger] display(SecureTokenKind::Api, secret)
                &&& token.digest() == sha256_digest(secret)
            };
        let (plaintext, stored) = token.into_parts();
        match store.insert_row(user_id, name, stored, crate_scopes, endpoint_scopes, now) {
            Ok(model) => {
                assert(model@.digest == sha256_digest(secret));
                Ok(CreatedApiToken { model, plaintext })
            },
            Err(e) => {
                assert(old(store)@.insert_error(sha256_digest(secret)) == Some(e));
                Err(e)
            },
        }
    }

    /// Finds the token that a presented string stands for and records its
    /// use at `now`. The string must be a token of the current format, and a
    /// token with its secret must be in force. Where the table is read-only
    /// the token is found all the same, and its use goes unrecorded.
    pub fn find_by_api_token(store: &mut TokenStore, token_: &str, now: Timestamp) -> (answer:
        Result<ApiToken, AuthError>)
        ensures
            found_view(answer) == find_by_token_result(
                old(store)@,
                encode_utf8(token_@),
                now.micros as int,
            ),
            final(store)@ == after_find_by_token(
                old(store)@,
                encode_utf8(token_@),
                now.micros as int,
            ),
            final(store)@.well_formed(),
            evolves(old(store)@, final(store)@),
    {
        proof {
            use_type_invariant(&*store);
        }
        match Self::presented_digest(token_) {
            Err(e) => Err(e),
            Ok(digest) => Self::answer_for_bearer(store.find_and_touch(&digest, now)),
        }
    }

    /// The digest that a presented string stands for, if the string is a
    /// token of the current format. A token of the format that is no longer
    /// accepted is refused by name, any other string as malformed.
    pub fn presented_digest(token_: &str) -> (digest: Result<SecureToken, AuthError>)
        ensures
            match digest {
                Ok(d) => parsed(SecureTokenKind::Api, encode_utf8(token_@)) == Some(d@),
                Err(e) => parsed(SecureTokenKind::Api, encode_utf8(token_@)) is None && e
                    == shape_error(encode_utf8(token_@)),
            },
    {
        match SecureToken::parse(SecureTokenKind::Api, token_) {
            Some(digest) => Ok(digest),
            None => if SecureTokenKind::Legacy.is_shape_of(token_.as_bytes()) {
                Err(AuthError::LegacyTokenRejected)
            } else {
                Err(AuthError::MalformedToken)
            },
        }
    }

    /// What the answer to a lookup means for the bearer: the row that was
    /// found; a refusal that does not tell whether the token never existed
    /// or has been revoked; or the failure of the table.
    pub fn answer_for_bearer(answer: Result<Option<ApiToken>, StoreError>) -> (outcome: Result<
        ApiToken,
        AuthError,
    >)
        ensures
            found_view(outcome) == found_or_refused(answer_view(answer)),
    {
        match answer {
            Ok(Some(row)) => Ok(row),
            Ok(None) => Err(AuthError::InvalidOrRevokedToken),
            Err(_) => Err(AuthError::StoreUnavailable),
        }
    }

    /// The limits of the token, without the rest of the row.
    pub fn into_scopes(self) -> (scopes: (Option<Vec<CrateScope>>, Option<Vec<EndpointScope>>))
        ensures
            crate_scopes_view(scopes.0) == self@.crate_scopes,
            endpoint_scopes_view(scopes.1) == self@.endpoint_scopes,
    {
        (self.crate_scopes, self.endpoint_scopes)
    }

    /// The stored form of the token's secret.
    pub fn token(&self) -> (token: &SecureToken)
        ensures
            token@ == self@.digest,
    {
        &self.token
    }

    /// The identifier of the row.
    pub fn id(&self) -> (id: i32)
        ensures
            id == self@.id,
    {
        self.id
    }

    /// The identifier of the owner.
    pub fn user_id(&self) -> (user_id: i32)
        ensures
            user_id == self@.user_id,
    {
        self.user_id
    }

    /// The label the owner gave the token.
    pub fn name(&self) -> (name: &str)
        ensures
            name@ == self@.name,
    {
        self.name.as_str()
    }

    /// When the row was made.
    pub fn created_at(&self) -> (at: Timestamp)
        ensures
            at.micros == self@.created_at,
    {
        self.created_at
    }

    /// When the token was last used, if ever.
    pub fn last_used_at(&self) -> (at: Option<Timestamp>)
        ensures
            time_view(at) == self@.last_used_at,
    {
        self.last_used_at
    }

    /// Whether the token has been revoked.
    pub fn is_revoked(&self) -> (revoked: bool)
        ensures
            revoked == self@.revoked,
    {
        self.revoked
    }

    /// The crates the token is limited to, if it is limited.
    pub fn crate_scopes(&self) -> (scopes: &Option<Vec<CrateScope>>)
        ensures
            crate_scopes_view(*scopes) == self@.crate_scopes,
    {
        &self.crate_scopes
    }

    /// The endpoint categories the token is limited to, if it is limited.
    pub fn endpoint_scopes(&self) -> (scopes: &Option<Vec<EndpointScope>>)
        ensures
            endpoint_scopes_view(*scopes) == self@.endpoint_scopes,
    {
        &self.endpoint_scopes
    }
}

impl TokenStore {
    #[verifier::type_invariant]
    spec fn is_well_formed(self) -> bool {
        self@.well_formed()
    }

    /// An empty table that serves reads and writes and holds as many rows
    /// as there are identifiers.
    pub fn new() -> (store: TokenStore)
        ensures
            store@ == (TokenStoreView {
                rows: Seq::empty(),
                mode: StoreMode::ReadWrite,
                limit: MAX_ROWS as nat,
            }),
            store@.well_formed(),
    {
        Self::with_limit(MAX_ROWS)
    }

    /// An empty table that serves reads and writes and holds at most
    /// `limit` rows, and never more than there are identifiers.
    pub fn with_limit(limit: usize) -> (store: TokenStore)
        ensures
            store@ == (TokenStoreView {
                rows: Seq::empty(),
                mode: StoreMode::ReadWrite,
                limit: if limit <= MAX_ROWS {
                    limit as nat
                } else {
                    MAX_ROWS as nat
                },
            }),
            store@.well_formed(),
    {
        let limit = if limit <= MAX_ROWS {
            limit
        } else {
            MAX_ROWS
        };
        let store = TokenStore { rows: Vec::new(), mode: StoreMode::ReadWrite, limit };
        assert(store@.rows =~= Seq::<ApiTokenView>::empty());
        store
    }

    /// The condition of the table.
    pub fn mode(&self) -> (mode: StoreMode)
        ensures
            mode == self@.mode,
            self@.well_formed(),
    {
        proof {
            use_type_invariant(self);
        }
        self.mode
    }

    /// Puts the table into another condition. The rows stay as they are.
    pub fn set_mode(&mut self, mode: StoreMode)
        ensures
            final(self)@ == (TokenStoreView { mode, ..old(self)@ }),
            final(self)@.well_formed(),
            evolves(old(self)@, final(self)@),
    {
        proof {
            use_type_invariant(&*self);
        }
        self.mode = mode;
    }

    /// The number of rows, revoked ones included.
    pub fn len(&self) -> (len: usize)
        ensures
            len == self@.rows.len(),
    {
        self.rows.len()
    }

    /// The most rows the table holds.
    pub fn limit(&self) -> (limit: usize)
        ensures
            limit == self@.limit,
    {
        self.limit
    }

    /// The place of the first row that a digest stands for.
    fn position(&self, digest: &SecureToken) -> (place: Option<usize>)
        ensures
            match place {
                Some(i) => lookup(self@.rows, digest@) == Some(i as int) && i < self@.rows.len(),
                None => lookup(self@.rows, digest@) is None,
            },
    {
        let mut i: usize = 0;
        while i < self.rows.len()
            invariant
                i <= self.rows@.len(),
                forall|j: int| 0 <= j < i ==> !is_live_match(#[trigger] self@.rows[j], digest@),
            decreases self.rows@.len() - i,
        {
            if !self.rows[i].revoked && self.rows[i].token.matches(digest) {
                proof {
                    lemma_lookup_is_first_live_match(self@.rows, digest@, i as int);
                }
                return Some(i);
            }
            i = i + 1;
        }
        proof {
            lemma_lookup_is_none(self@.rows, digest@);
        }
        None
    }

    /// Whether some row, revoked or not, has the digest.
    fn holds(&self, digest: &SecureToken) -> (held: bool)
        ensures
            held == self@.holds_digest(digest@),
    {
        let mut i: usize = 0;
        while i < self.rows.len()
            invariant
                i <= self.rows@.len(),
                forall|j: int| 0 <= j < i ==> (#[trigger] self@.rows[j]).digest != digest@,
            decreases self.rows@.len() - i,
        {
            if self.rows[i].token.matches(digest) {
                assert(self@.rows[i as int].digest == digest@);
                return true;
            }
            i = i + 1;
        }
        false
    }

    /// The row with the given identifier, revoked or not.
    pub fn get(&self, id: i32) -> (answer: Result<Option<ApiToken>, StoreError>)
        ensures
            self@.mode == StoreMode::Unavailable ==> answer == Err::<Option<ApiToken>, StoreError>(
                StoreError::Unavailable,
            ),
            self@.mode != StoreMode::Unavailable ==> answer is Ok && row_view(answer->Ok_0) == (if 1
                <= id <= self@.rows.len() {
                Some(self@.rows[id - 1])
            } else {
                None
            }),
    {
        match self.mode {
            StoreMode::Unavailable => Err(StoreError::Unavailable),
            _ => {
                if 1 <= id && (id as usize) <= self.rows.len() {
                    Ok(Some(self.rows[(id - 1) as usize].clone()))
                } else {
                    Ok(None)
                }
            },
        }
    }

    /// Adds a row for a token that has been made already, if the table
    /// accepts writes, holds no row with the same digest and has an
    /// identifier left. The new row is not revoked and has never been used.
    pub fn insert_row(
        &mut self,
        user_id: i32,
        name: &str,
        token: SecureToken,
        crate_scopes: Option<Vec<CrateScope>>,
        endpoint_scopes: Option<Vec<EndpointScope>>,
        now: Timestamp,
    ) -> (answer: Result<ApiToken, StoreError>)
        ensures
            final(self)@ == old(self)@.inserted(
                old(self)@.new_row(
                    user_id as int,
                    name@,
                    token@,
                    crate_scopes_view(crate_scopes),
                    endpoint_scopes_view(endpoint_scopes),
                    now.micros as int,
                ),
            ),
            match answer {
                Ok(row) => old(self)@.insert_error(token@) is None && row@ == old(self)@.new_row(
                    user_id as int,
                    name@,
                    token@,
                    crate_scopes_view(crate_scopes),
                    endpoint_scopes_view(endpoint_scopes),
                    now.micros as int,
                ),
                Err(e) => old(self)@.insert_error(token@) == Some(e),
            },
            final(self)@.well_formed(),
            evolves(old(self)@, final(self)@),
    {
        proof {
            use_type_invariant(&*self);
        }
        match self.mode {
            StoreMode::Unavailable => {
                return Err(StoreError::Unavailable);
            },
            StoreMode::ReadOnly => {
                return Err(StoreError::ReadOnly);
            },
            StoreMode::ReadWrite => {},
        }
        if self.holds(&token) {
            return Err(StoreError::DuplicateToken);
        }
        if self.rows.len() >= self.limit {
            return Err(StoreError::Full);
        }
        let row = ApiToken {
            id: (self.rows.len() + 1) as i32,
            user_id,
            token,
            name: name.to_owned(),
            created_at: now,
            last_used_at: None,
            revoked: false,
            crate_scopes,
            endpoint_scopes,
        };
        let copy = row.clone();
        let ghost before = self@;
        proof {
            let after = before.rows.push(row@);
            assert forall|i: int, j: int|
                0 <= i < after.len() && 0 <= j < after.len() && i != j implies (
            #[trigger] after[i]).digest != (#[trigger] after[j]).digest by {
                if i < before.rows.len() && j < before.rows.len() {
                    assert(before.rows[i].digest != before.rows[j].digest);
                } else if i < before.rows.len() {
                    assert(before.rows[i].digest != row@.digest);
                } else {
                    assert(before.rows[j].digest != row@.digest);
                }
            }
        }
        let mut rows: Vec<ApiToken> = Vec::new();
        core::mem::swap(&mut self.rows, &mut rows);
        rows.push(row);
        assert(Seq::new(rows@.len(), |i: int| rows@[i]@) =~= before.rows.push(row@));
        self.rows = rows;
        Ok(copy)
    }

    /// The write path of a lookup: finds the row that a digest stands for
    /// and records its use at `now`. A time of last use that is later than
    /// `now` is kept. Where the table does not accept writes, the write is
    /// refused and nothing is looked up.
    pub fn try_touch(&mut self, digest: &SecureToken, now: Timestamp) -> (answer: Result<
        Option<ApiToken>,
        StoreError,
    >)
        ensures
            answer_view(answer) == old(self)@.touch_result(digest@, now.micros as int),
            final(self)@ == old(self)@.after_find(digest@, now.micros as int),
            final(self)@.well_formed(),
            evolves(old(self)@, final(self)@),
    {
        proof {
            use_type_invariant(&*self);
            lemma_touch_keeps_table_well_formed(self@, digest@, now.micros as int);
        }
        match self.mode {
            StoreMode::Unavailable => {
                return Err(StoreError::Unavailable);
            },
            StoreMode::ReadOnly => {
                return Err(StoreError::ReadOnly);
            },
            StoreMode::ReadWrite => {},
        }
        match self.position(digest) {
            None => Ok(None),
            Some(i) => {
                let ghost before = self@;
                let mut rows: Vec<ApiToken> = Vec::new();
                core::mem::swap(&mut self.rows, &mut rows);
                let stamp = match rows[i].last_used_at {
                    Some(previous) => previous.later_of(now),
                    None => now,
                };
                rows[i].last_used_at = Some(stamp);
                let copy = rows[i].clone();
                assert(Seq::new(rows@.len(), |k: int| rows@[k]@) =~= before.rows.update(
                    i as int,
                    used_at(before.rows[i as int], now.micros as int),
                ));
                self.rows = rows;
                Ok(Some(copy))
            },
        }
    }

    /// The read path of a lookup: finds the row that a digest stands for and
    /// records nothing.
    pub fn read(&self, digest: &SecureToken) -> (answer: Result<Option<ApiToken>, StoreError>)
        ensures
            answer_view(answer) == self@.read_result(digest@),
    {
        match self.mode {
            StoreMode::Unavailable => Err(StoreError::Unavailable),
            _ => match self.position(digest) {
                None => Ok(None),
                Some(i) => Ok(Some(self.rows[i].clone())),
            },
        }
    }

    /// Finds the row that a digest stands for, by the write that records its
    /// use at `now` or, where the table refuses the write as read-only, by
    /// a read. The answer tells which of the two it was. Any other failure
    /// of the write is passed on.
    pub fn try_touch_or_read(&mut self, digest: &SecureToken, now: Timestamp) -> (answer: Result<
        (Option<ApiToken>, Served),
        StoreError,
    >)
        ensures
            match answer {
                Ok((row, served)) => {
                    &&& Ok::<Option<ApiTokenView>, StoreError>(row_view(row)) == old(
                        self,
                    )@.find_result(digest@, now.micros as int)
                    &&& Some(served) == old(self)@.served()
                },
                Err(e) => Err::<Option<ApiTokenView>, StoreError>(e) == old(self)@.find_result(
                    digest@,
                    now.micros as int,
                ),
            },
            final(self)@ == old(self)@.after_find(digest@, now.micros as int),
            final(self)@.well_formed(),
            evolves(old(self)@, final(self)@),
    {
        match self.try_touch(digest, now) {
            Ok(row) => Ok((row, Served::Written)),
            Err(e) => if e.allows_read_instead() {
                match self.read(digest) {
                    Ok(row) => Ok((row, Served::ReadInstead)),
                    Err(e) => Err(e),
                }
            } else {
                Err(e)
            },
        }
    }

    /// Finds the row that a digest stands for and records its use at `now`
    /// in one step. Where the write is refused because the table is
    /// read-only, the row is read instead and its use goes unrecorded. Any
    /// other failure is passed on.
    pub fn find_and_touch(&mut self, digest: &SecureToken, now: Timestamp) -> (answer: Result<
        Option<ApiToken>,
        StoreError,
    >)
        ensures
            answer_view(answer) == old(self)@.find_result(digest@, now.micros as int),
            final(self)@ == old(self)@.after_find(digest@, now.micros as int),
            final(self)@.well_formed(),
            evolves(old(self)@, final(self)@),
    {
        match self.try_touch_or_read(digest, now) {
            Ok((row, _)) => Ok(row),
            Err(e) => Err(e),
        }
    }

    /// Revokes the row with the given identifier, for good. Revoking a row
    /// that is revoked already, or an identifier that names no row, changes
    /// nothing and is no error.
    pub fn revoke(&mut self, id: i32) -> (answer: Result<(), StoreError>)
        ensures
            answer == old(self)@.revoke_result(),
            final(self)@ == old(self)@.after_revoke(id as int),
            final(self)@.well_formed(),
            evolves(old(self)@, final(self)@),
    {
        proof {
            use_type_invariant(&*self);
        }
        match self.mode {
            StoreMode::Unavailable => {
                return Err(StoreError::Unavailable);
            },
            StoreMode::ReadOnly => {
                return Err(StoreError::ReadOnly);
            },
            StoreMode::ReadWrite => {},
        }
        if 1 <= id && (id as usize) <= self.rows.len() {
            let ghost before = self@;
            let place: usize = (id - 1) as usize;
            let mut rows: Vec<ApiToken> = Vec::new();
            core::mem::swap(&mut self.rows, &mut rows);
            rows[place].revoked = true;
            assert(Seq::new(rows@.len(), |k: int| rows@[k]@) =~= before.rows.update(
                place as int,
                revoked_row(before.rows[place as int]),
            ));
            self.rows = rows;
        }
        Ok(())
    }
}

} // verus!
