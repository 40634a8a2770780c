//! The table of API tokens as the contracts see it: what a table holds,
//! what each operation makes of it, and what holds of every table that the
//! operations can produce.
//!
//! A token is created once. From then on only two things about it change:
//! the time it was last used, which never moves backwards, and whether it
//! has been revoked, which is never undone. Rows are never removed.

use vstd::prelude::*;

use crate::models::token::scopes::EndpointScope;
use crate::util::errors::AuthError;
use crate::util::token::has_shape;
use crate::util::token::parsed;
use crate::util::token::SecureTokenKind;

verus! {

/// The most rows any table can hold: identifiers are positive 32-bit
/// integers.
pub const MAX_ROWS: usize = 0x7fff_ffff;

/// The condition of the table.
#[derive(Clone, Copy, Debug, PartialEq, Eq, Structural)]
pub enum StoreMode {
    /// Reads and writes are served.
    ReadWrite,
    /// Reads are served, writes are refused.
    ReadOnly,
    /// Nothing is served.
    Unavailable,
}

/// Why the table did not do what was asked.
#[derive(Clone, Copy, Debug, PartialEq, Eq, Structural)]
pub enum StoreError {
    /// A write was refused because the table is read-only.
    ReadOnly,
    /// The table cannot be reached.
    Unavailable,
    /// A row with the same digest exists already.
    DuplicateToken,
    /// No identifier is left for another row.
    Full,
}

/// How a lookup was served.
#[derive(Clone, Copy, Debug, PartialEq, Eq, Structural)]
pub enum Served {
    /// By the write: the use has been recorded on the row that was found.
    Written,
    /// By a read, because the table refused the write as read-only: the
    /// use has gone unrecorded.
    ReadInstead,
}

impl StoreError {
    /// Whether a write that failed with this error is made up for by a read:
    /// only where the table refused the write because it is read-only.
    pub fn allows_read_instead(&self) -> (allowed: bool)
        ensures
            allowed == (*self == StoreError::ReadOnly),
    {
        match self {
            StoreError::ReadOnly => true,
            _ => false,
        }
    }
}

/// What the contracts say of a row.
pub struct ApiTokenView {
    pub id: int,
    pub user_id: int,
    pub digest: Seq<u8>,
    pub name: Seq<char>,
    pub created_at: int,
    pub last_used_at: Option<int>,
    pub revoked: bool,
    pub crate_scopes: Option<Seq<Seq<u8>>>,
    pub endpoint_scopes: Option<Seq<EndpointScope>>,
}

/// What the contracts say of a table.
pub struct TokenStoreView {
    pub rows: Seq<ApiTokenView>,
    pub mode: StoreMode,
    /// The most rows the table was made to hold.
    pub limit: nat,
}

/// Whether a row is the one a presented digest stands for.
pub open spec fn is_live_match(row: ApiTokenView, digest: Seq<u8>) -> bool {
    !row.revoked && row.digest == digest
}

/// Whether `i` is the first row that a presented digest stands for.
pub open spec fn first_live_match(rows: Seq<ApiTokenView>, digest: Seq<u8>, i: int) -> bool {
    &&& 0 <= i < rows.len()
    &&& is_live_match(rows[i], digest)
    &&& forall|j: int| 0 <= j < i ==> !is_live_match(#[trigger] rows[j], digest)
}

/// Whether some row is the one a presented digest stands for.
pub open spec fn has_live_match(rows: Seq<ApiTokenView>, digest: Seq<u8>) -> bool {
    exists|i: int| first_live_match(rows, digest, i)
}

/// The place of the row that a presented digest stands for.
pub open spec fn lookup(rows: Seq<ApiTokenView>, digest: Seq<u8>) -> Option<int> {
    if has_live_match(rows, digest) {
        Some(choose|i: int| first_live_match(rows, digest, i))
    } else {
        None
    }
}

/// The time of last use after a use at `now`: the time never moves backwards.
pub open spec fn later(previous: Option<int>, now: int) -> int {
    match previous {
        Some(before) => if before > now {
            before
        } else {
            now
        },
        None => now,
    }
}

/// Whether a time of last use is not earlier than a previous one. Once a
/// time is set it stays set.
pub open spec fn not_earlier(previous: Option<int>, next: Option<int>) -> bool {
    match previous {
        None => true,
        Some(before) => next matches Some(after) && before <= after,
    }
}

/// The row after a use at `now`.
pub open spec fn used_at(row: ApiTokenView, now: int) -> ApiTokenView {
    ApiTokenView { last_used_at: Some(later(row.last_used_at, now)), ..row }
}

/// The row after it has been revoked.
pub open spec fn revoked_row(row: ApiTokenView) -> ApiTokenView {
    ApiTokenView { revoked: true, ..row }
}

/// Whether a row may have become another: nothing but the time of last use
/// and the revocation changes, the first never backwards and the second
/// never back.
pub open spec fn row_evolves(before: ApiTokenView, after: ApiTokenView) -> bool {
    &&& after.id == before.id
    &&& after.user_id == before.user_id
    &&& after.digest == before.digest
    &&& after.name == before.name
    &&& after.created_at == before.created_at
    &&& after.crate_scopes == before.crate_scopes
    &&& after.endpoint_scopes == before.endpoint_scopes
    &&& before.revoked ==> after.revoked
    &&& not_earlier(before.last_used_at, after.last_used_at)
}

/// Whether a table may have become another: rows are only added, and each
/// row that was there has evolved.
pub open spec fn evolves(before: TokenStoreView, after: TokenStoreView) -> bool {
    &&& after.limit == before.limit
    &&& before.rows.len() <= after.rows.len()
    &&& forall|i: int|
        0 <= i < before.rows.len() ==> row_evolves(before.rows[i], #[trigger] after.rows[i])
}

impl TokenStoreView {
    /// Every table that the operations produce looks like this: a row's
    /// identifier is its place counted from one, and no two rows share a
    /// digest.
    pub open spec fn well_formed(self) -> bool {
        &&& self.rows.len() <= self.limit <= MAX_ROWS
        &&& forall|i: int| 0 <= i < self.rows.len() ==> (#[trigger] self.rows[i]).id == i + 1
        &&& forall|i: int, j: int|
            0 <= i < self.rows.len() && 0 <= j < self.rows.len() && i != j ==> (
            #[trigger] self.rows[i]).digest != (#[trigger] self.rows[j]).digest
    }

    /// The row that a presented digest stands for, as it is.
    pub open spec fn found(self, digest: Seq<u8>) -> Option<ApiTokenView> {
        match lookup(self.rows, digest) {
            Some(i) => Some(self.rows[i]),
            None => None,
        }
    }

    /// The row that a presented digest stands for, as it is after a use at
    /// `now`.
    pub open spec fn found_used(self, digest: Seq<u8>, now: int) -> Option<ApiTokenView> {
        match lookup(self.rows, digest) {
            Some(i) => Some(used_at(self.rows[i], now)),
            None => None,
        }
    }

    /// The table after the use at `now` of the row that a presented digest
    /// stands for.
    pub open spec fn touched(self, digest: Seq<u8>, now: int) -> TokenStoreView {
        match lookup(self.rows, digest) {
            Some(i) => TokenStoreView {
                rows: self.rows.update(i, used_at(self.rows[i], now)),
                ..self
            },
            None => self,
        }
    }

    /// The table after the row with the given identifier, if there is one,
    /// has been revoked.
    pub open spec fn with_revoked(self, id: int) -> TokenStoreView {
        if 1 <= id <= self.rows.len() {
            TokenStoreView {
                rows: self.rows.update(id - 1, revoked_row(self.rows[id - 1])),
                ..self
            }
        } else {
            self
        }
    }

    /// Whether some row, revoked or not, has the digest.
    pub open spec fn holds_digest(self, digest: Seq<u8>) -> bool {
        exists|i: int| 0 <= i < self.rows.len() && (#[trigger] self.rows[i]).digest == digest
    }

    /// The row that an insertion adds.
    pub open spec fn new_row(
        self,
        user_id: int,
        name: Seq<char>,
        digest: Seq<u8>,
        crate_scopes: Option<Seq<Seq<u8>>>,
        endpoint_scopes: Option<Seq<EndpointScope>>,
        now: int,
    ) -> ApiTokenView {
        ApiTokenView {
            id: (self.rows.len() + 1) as int,
            user_id,
            digest,
            name,
            created_at: now,
            last_used_at: None,
            revoked: false,
            crate_scopes,
            endpoint_scopes,
        }
    }

    /// Why an insertion of a row with the digest fails, if it does.
    pub open spec fn insert_error(self, digest: Seq<u8>) -> Option<StoreError> {
        if self.mode == StoreMode::Unavailable {
            Some(StoreError::Unavailable)
        } else if self.mode == StoreMode::ReadOnly {
            Some(StoreError::ReadOnly)
        } else if self.holds_digest(digest) {
            Some(StoreError::DuplicateToken)
        } else if self.rows.len() >= self.limit {
            Some(StoreError::Full)
        } else {
            None
        }
    }

    /// The table after an attempt to insert a row.
    pub open spec fn inserted(self, row: ApiTokenView) -> TokenStoreView {
        if self.insert_error(row.digest) is None {
            TokenStoreView { rows: self.rows.push(row), ..self }
        } else {
            self
        }
    }

    /// What a write that records a use at `now` gives back.
    pub open spec fn touch_result(self, digest: Seq<u8>, now: int) -> Result<
        Option<ApiTokenView>,
        StoreError,
    > {
        match self.mode {
            StoreMode::ReadWrite => Ok(self.found_used(digest, now)),
            StoreMode::ReadOnly => Err(StoreError::ReadOnly),
            StoreMode::Unavailable => Err(StoreError::Unavailable),
        }
    }

    /// What a read gives back.
    pub open spec fn read_result(self, digest: Seq<u8>) -> Result<Option<ApiTokenView>, StoreError> {
        match self.mode {
            StoreMode::Unavailable => Err(StoreError::Unavailable),
            _ => Ok(self.found(digest)),
        }
    }

    /// What a lookup that records the use where it can gives back: the
    /// write's answer, or, where the table is read-only, the read's.
    pub open spec fn find_result(self, digest: Seq<u8>, now: int) -> Result<
        Option<ApiTokenView>,
        StoreError,
    > {
        match self.touch_result(digest, now) {
            Err(StoreError::ReadOnly) => self.read_result(digest),
            answer => answer,
        }
    }

    /// How a lookup that records the use where it can is served, where it
    /// is served.
    pub open spec fn served(self) -> Option<Served> {
        match self.mode {
            StoreMode::ReadWrite => Some(Served::Written),
            StoreMode::ReadOnly => Some(Served::ReadInstead),
            StoreMode::Unavailable => None,
        }
    }

    /// The table after a lookup that records the use where it can.
    pub open spec fn after_find(self, digest: Seq<u8>, now: int) -> TokenStoreView {
        if self.mode == StoreMode::ReadWrite {
            self.touched(digest, now)
        } else {
            self
        }
    }

    /// The table after an attempt to revoke the row with the identifier.
    pub open spec fn after_revoke(self, id: int) -> TokenStoreView {
        if self.mode == StoreMode::ReadWrite {
            self.with_revoked(id)
        } else {
            self
        }
    }

    /// What an attempt to revoke a row gives back.
    pub open spec fn revoke_result(self) -> Result<(), StoreError> {
        match self.mode {
            StoreMode::ReadWrite => Ok(()),
            StoreMode::ReadOnly => Err(StoreError::ReadOnly),
            StoreMode::Unavailable => Err(StoreError::Unavailable),
        }
    }
}

/// Why a presented string that is no token of the current format is refused.
pub open spec fn shape_error(presented: Seq<u8>) -> AuthError {
    if has_shape(SecureTokenKind::Legacy, presented) {
        AuthError::LegacyTokenRejected
    } else {
        AuthError::MalformedToken
    }
}

/// What the answer to a lookup means for the bearer: the row that was
/// found; a refusal that does not tell whether the token never existed or
/// has been revoked; or the failure of the table.
pub open spec fn found_or_refused(answer: Result<Option<ApiTokenView>, StoreError>) -> Result<
    ApiTokenView,
    AuthError,
> {
    match answer {
        Ok(Some(row)) => Ok(row),
        Ok(None) => Err(AuthError::InvalidOrRevokedToken),
        Err(_) => Err(AuthError::StoreUnavailable),
    }
}

/// The row that a presented string gets its bearer, or why it gets none.
pub open spec fn find_by_token_result(table: TokenStoreView, presented: Seq<u8>, now: int) -> Result<
    ApiTokenView,
    AuthError,
> {
    match parsed(SecureTokenKind::Api, presented) {
        None => Err(shape_error(presented)),
        Some(digest) => found_or_refused(table.find_result(digest, now)),
    }
}

/// The table after a string has been presented.
pub open spec fn after_find_by_token(
    table: TokenStoreView,
    presented: Seq<u8>,
    now: int,
) -> TokenStoreView {
    match parsed(SecureTokenKind::Api, presented) {
        None => table,
        Some(digest) => table.after_find(digest, now),
    }
}

/// The first row that a digest stands for is the one that is looked up.
pub proof fn lemma_lookup_is_first_live_match(rows: Seq<ApiTokenView>, digest: Seq<u8>, i: int)
    requires
        first_live_match(rows, digest, i),
    ensures
        lookup(rows, digest) == Some(i),
{
    let chosen = choose|k: int| first_live_match(rows, digest, k);
    assert(first_live_match(rows, digest, chosen));
    if chosen < i {
        assert(!is_live_match(rows[chosen], digest));
    }
    if i < chosen {
        assert(!is_live_match(rows[i], digest));
    }
}

/// Where no row is one that a digest stands for, nothing is looked up.
pub proof fn lemma_lookup_is_none(rows: Seq<ApiTokenView>, digest: Seq<u8>)
    requires
        forall|i: int| 0 <= i < rows.len() ==> !is_live_match(#[trigger] rows[i], digest),
    ensures
        lookup(rows, digest) is None,
{
    if has_live_match(rows, digest) {
        let chosen = choose|k: int| first_live_match(rows, digest, k);
        assert(is_live_match(rows[chosen], digest));
    }
}

/// Recording a use keeps a table well formed and changes it only as a
/// table may change.
pub proof fn lemma_touch_keeps_table_well_formed(table: TokenStoreView, digest: Seq<u8>, now: int)
    requires
        table.well_formed(),
    ensures
        table.touched(digest, now).well_formed(),
        evolves(table, table.touched(digest, now)),
        table.after_find(digest, now).well_formed(),
        evolves(table, table.after_find(digest, now)),
{
    match lookup(table.rows, digest) {
        Some(i) => {
            assert(first_live_match(table.rows, digest, i));
        },
        None => {},
    }
}

/// A table may stay as it is, and what may happen in two steps may happen.
pub proof fn lemma_evolves_is_a_preorder(a: TokenStoreView, b: TokenStoreView, c: TokenStoreView)
    requires
        evolves(a, b),
        evolves(b, c),
    ensures
        evolves(a, a),
        evolves(a, c),
{
    assert forall|i: int| 0 <= i < a.rows.len() implies row_evolves(
        a.rows[i],
        #[trigger] c.rows[i],
    ) by {
        assert(row_evolves(a.rows[i], b.rows[i]));
        assert(row_evolves(b.rows[i], c.rows[i]));
    }
}

/// Revoking a row keeps a table well formed and changes it only as a table
/// may change.
pub proof fn lemma_revoke_keeps_table_well_formed(table: TokenStoreView, id: int)
    requires
        table.well_formed(),
    ensures
        table.after_revoke(id).well_formed(),
        evolves(table, table.after_revoke(id)),
{
}

/// Inserting a row keeps a table well formed and changes it only as a table
/// may change.
pub proof fn lemma_insert_keeps_table_well_formed(
    table: TokenStoreView,
    user_id: int,
    name: Seq<char>,
    digest: Seq<u8>,
    crate_scopes: Option<Seq<Seq<u8>>>,
    endpoint_scopes: Option<Seq<EndpointScope>>,
    now: int,
)
    requires
        table.well_formed(),
    ensures
        table.inserted(
            table.new_row(user_id, name, digest, crate_scopes, endpoint_scopes, now),
        ).well_formed(),
        evolves(
            table,
            table.inserted(table.new_row(user_id, name, digest, crate_scopes, endpoint_scopes, now)),
        ),
{
    let row = table.new_row(user_id, name, digest, crate_scopes, endpoint_scopes, now);
    let after = table.inserted(row);
    if table.insert_error(digest) is None {
        assert forall|i: int, j: int|
            0 <= i < after.rows.len() && 0 <= j < after.rows.len() && i != j implies (
        #[trigger] after.rows[i]).digest != (#[trigger] after.rows[j]).digest by {
            if i < table.rows.len() && j < table.rows.len() {
                assert(table.rows[i].digest != table.rows[j].digest);
            } else if i < table.rows.len() {
                assert(table.rows[i].digest != digest);
            } else {
                assert(table.rows[j].digest != digest);
            }
        }
    }
}

/// In a well-formed table a row that is in force is the one that its digest
/// stands for.
pub proof fn lemma_live_row_is_found(table: TokenStoreView, place: int)
    requires
        table.well_formed(),
        0 <= place < table.rows.len(),
        !table.rows[place].revoked,
    ensures
        lookup(table.rows, table.rows[place].digest) == Some(place),
        table.found(table.rows[place].digest) == Some(table.rows[place]),
{
    let digest = table.rows[place].digest;
    assert forall|j: int| 0 <= j < place implies !is_live_match(
        #[trigger] table.rows[j],
        digest,
    ) by {
        assert(table.rows[j].digest != table.rows[place].digest);
    }
    lemma_lookup_is_first_live_match(table.rows, digest, place);
}

/// In a well-formed table nothing is found for the digest of a revoked row.
pub proof fn lemma_revoked_row_is_not_found(table: TokenStoreView, place: int)
    requires
        table.well_formed(),
        0 <= place < table.rows.len(),
        table.rows[place].revoked,
    ensures
        lookup(table.rows, table.rows[place].digest) is None,
{
    let digest = table.rows[place].digest;
    assert forall|j: int| 0 <= j < table.rows.len() implies !is_live_match(
        #[trigger] table.rows[j],
        digest,
    ) by {
        if j != place {
            assert(table.rows[j].digest != table.rows[place].digest);
        }
    }
    lemma_lookup_is_none(table.rows, digest);
}

/// The time of last use never moves backwards: of two lookups of the same
/// token, whatever happened to the table between them, the later one shows
/// a time of last use that is not earlier than the one the first showed.
pub proof fn lemma_last_use_never_moves_backwards(
    table: TokenStoreView,
    later_table: TokenStoreView,
    digest: Seq<u8>,
    first: int,
    second: int,
)
    requires
        table.well_formed(),
        later_table.well_formed(),
        evolves(table.after_find(digest, first), later_table),
        table.find_result(digest, first) matches Ok(Some(_)),
        later_table.find_result(digest, second) matches Ok(Some(_)),
    ensures
        ({
            let earlier = table.find_result(digest, first)->Ok_0->Some_0;
            let later = later_table.find_result(digest, second)->Ok_0->Some_0;
            &&& later.id == earlier.id
            &&& not_earlier(earlier.last_used_at, later.last_used_at)
            &&& later_table.mode == StoreMode::ReadWrite ==> not_earlier(
                Some(second),
                later.last_used_at,
            )
        }),
{
    let between = table.after_find(digest, first);
    let i = lookup(table.rows, digest)->Some_0;
    assert(first_live_match(table.rows, digest, i));
    let k = lookup(later_table.rows, digest)->Some_0;
    assert(first_live_match(later_table.rows, digest, k));
    assert(row_evolves(between.rows[i], later_table.rows[i]));
    if k != i {
        assert(later_table.rows[k].digest != later_table.rows[i].digest);
    }
}

/// Recording a use changes no lookup: what a digest stood for before, it
/// stands for afterwards.
pub proof fn lemma_touch_keeps_lookups(
    table: TokenStoreView,
    touched: Seq<u8>,
    now: int,
    digest: Seq<u8>,
)
    ensures
        lookup(table.touched(touched, now).rows, digest) == lookup(table.rows, digest),
{
    let after = table.touched(touched, now).rows;
    if lookup(table.rows, touched) is Some {
        let place = lookup(table.rows, touched)->Some_0;
        assert(first_live_match(table.rows, touched, place));
        assert forall|j: int| 0 <= j < table.rows.len() implies is_live_match(
            #[trigger] after[j],
            digest,
        ) == is_live_match(table.rows[j], digest) by {}
        match lookup(table.rows, digest) {
            Some(i) => {
                assert(first_live_match(table.rows, digest, i));
                assert forall|j: int| 0 <= j < i implies !is_live_match(
                    #[trigger] after[j],
                    digest,
                ) by {
                    assert(!is_live_match(table.rows[j], digest));
                }
                lemma_lookup_is_first_live_match(after, digest, i);
            },
            None => {
                assert forall|j: int| 0 <= j < after.len() implies !is_live_match(
                    #[trigger] after[j],
                    digest,
                ) by {
                    if is_live_match(table.rows[j], digest) {
                        lemma_some_live_match_is_first(table.rows, digest, j);
                    }
                }
                lemma_lookup_is_none(after, digest);
            },
        }
    }
}

/// Where some row is one that a digest stands for, there is a first such row.
pub proof fn lemma_some_live_match_is_first(rows: Seq<ApiTokenView>, digest: Seq<u8>, place: int)
    requires
        0 <= place < rows.len(),
        is_live_match(rows[place], digest),
    ensures
        has_live_match(rows, digest),
    decreases place,
{
    if exists|j: int| 0 <= j < place && is_live_match(#[trigger] rows[j], digest) {
        let j = choose|j: int| 0 <= j < place && is_live_match(#[trigger] rows[j], digest);
        lemma_some_live_match_is_first(rows, digest, j);
    } else {
        assert(first_live_match(rows, digest, place));
    }
}

/// Uses that race leave the same table behind in whichever order they are
/// recorded: each token ends up with the latest of the times at which it
/// was used.
pub proof fn lemma_touches_commute(
    table: TokenStoreView,
    one: Seq<u8>,
    at_one: int,
    other: Seq<u8>,
    at_other: int,
)
    ensures
        table.touched(one, at_one).touched(other, at_other) == table.touched(
            other,
            at_other,
        ).touched(one, at_one),
{
    lemma_touch_keeps_lookups(table, one, at_one, other);
    lemma_touch_keeps_lookups(table, other, at_other, one);
    let this_way = table.touched(one, at_one).touched(other, at_other);
    let that_way = table.touched(other, at_other).touched(one, at_one);
    assert(this_way.rows =~= that_way.rows);
}

/// Revocation is permanent: once a row is revoked, then whatever happens to
/// the table afterwards, nothing is found for its digest, and a lookup
/// leaves the table as it is.
pub proof fn lemma_revoked_token_is_never_found(
    table: TokenStoreView,
    later_table: TokenStoreView,
    place: int,
    now: int,
)
    requires
        later_table.well_formed(),
        evolves(table, later_table),
        0 <= place < table.rows.len(),
        table.rows[place].revoked,
    ensures
        later_table.rows[place].revoked,
        later_table.found(table.rows[place].digest) is None,
        later_table.mode != StoreMode::Unavailable ==> later_table.find_result(
            table.rows[place].digest,
            now,
        ) == Ok::<Option<ApiTokenView>, StoreError>(None),
        later_table.after_find(table.rows[place].digest, now) == later_table,
{
    assert(row_evolves(table.rows[place], later_table.rows[place]));
    lemma_revoked_row_is_not_found(later_table, place);
}

/// Revoking a row of a table that accepts writes succeeds, leaves the row
/// revoked and unfindable, and revoking it once more succeeds again and
/// changes nothing.
pub proof fn lemma_revoke_is_idempotent(table: TokenStoreView, id: int, now: int)
    requires
        table.well_formed(),
        table.mode == StoreMode::ReadWrite,
        1 <= id <= table.rows.len(),
    ensures
        table.revoke_result() is Ok,
        table.after_revoke(id).rows[id - 1].revoked,
        table.after_revoke(id).find_result(table.rows[id - 1].digest, now) == Ok::<
            Option<ApiTokenView>,
            StoreError,
        >(None),
        table.after_revoke(id).revoke_result() is Ok,
        table.after_revoke(id).after_revoke(id) == table.after_revoke(id),
{
    let after = table.after_revoke(id);
    lemma_revoke_keeps_table_well_formed(table, id);
    lemma_revoked_row_is_not_found(after, id - 1);
    assert(after.after_revoke(id).rows =~= after.rows);
}

/// While the table is read-only, a token that is in force is still found,
/// as it is, and the lookup leaves the table as it is.
pub proof fn lemma_read_only_table_still_finds(table: TokenStoreView, place: int, now: int)
    requires
        table.well_formed(),
        table.mode == StoreMode::ReadOnly,
        0 <= place < table.rows.len(),
        !table.rows[place].revoked,
    ensures
        table.find_result(table.rows[place].digest, now) == Ok::<Option<ApiTokenView>, StoreError>(
            Some(table.rows[place]),
        ),
        table.after_find(table.rows[place].digest, now) == table,
{
    lemma_live_row_is_found(table, place);
}

/// While the table accepts writes, a token that is in force is found with
/// its use recorded, and the table holds the row as it was handed out.
pub proof fn lemma_writable_table_finds_and_records(table: TokenStoreView, place: int, now: int)
    requires
        table.well_formed(),
        table.mode == StoreMode::ReadWrite,
        0 <= place < table.rows.len(),
        !table.rows[place].revoked,
    ensures
        table.find_result(table.rows[place].digest, now) == Ok::<Option<ApiTokenView>, StoreError>(
            Some(used_at(table.rows[place], now)),
        ),
        table.after_find(table.rows[place].digest, now).rows == table.rows.update(
            place,
            used_at(table.rows[place], now),
        ),
{
    lemma_live_row_is_found(table, place);
}

/// A token that has just been inserted is found by the digest it was
/// inserted with.
pub proof fn lemma_inserted_token_is_found(
    table: TokenStoreView,
    row: ApiTokenView,
    now: int,
)
    requires
        table.well_formed(),
        row == table.new_row(
            row.user_id,
            row.name,
            row.digest,
            row.crate_scopes,
            row.endpoint_scopes,
            row.created_at,
        ),
        table.insert_error(row.digest) is None,
    ensures
        table.inserted(row).find_result(row.digest, now) == Ok::<Option<ApiTokenView>, StoreError>(
            Some(used_at(row, now)),
        ),
{
    let after = table.inserted(row);
    lemma_insert_keeps_table_well_formed(
        table,
        row.user_id,
        row.name,
        row.digest,
        row.crate_scopes,
        row.endpoint_scopes,
        row.created_at,
    );
    let place = table.rows.len() as int;
    assert(after.rows[place] == row);
    lemma_writable_table_finds_and_records(after, place, now);
}

} // verus!
